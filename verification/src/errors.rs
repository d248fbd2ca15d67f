//! Structured error reporting.
//!
//! Build-time schema errors are fatal and abort compilation of a schema;
//! runtime validation errors are collected into an ordered list so that
//! every problem in a value is reported together, each with an error kind,
//! a location path and a snapshot of the offending input.

use vstd::prelude::*;

use crate::value::{value_view, Value, ValueView};

verus! {

/// The fixed taxonomy of runtime error kinds.
#[derive(Clone, Copy, Debug, PartialEq, Eq, Structural)]
pub enum ErrorKind {
    ArgumentsType,
    DataclassType,
    MultipleArgumentValues,
    MissingKeywordArgument,
    MissingPositionalArgument,
    UnexpectedPositionalArgument,
    UnexpectedKeywordArgument,
    InvalidKey,
    StringType,
    StringUnicode,
    IntType,
    IntParsing,
    IntParsingSize,
    BoolType,
    BoolParsing,
    BytesType,
    DictType,
    ListType,
    TupleType,
    SetType,
    FrozenSetType,
    IterableType,
    ModelAttributesType,
    DateType,
    DateParsing,
    TimeType,
    TimeParsing,
    DatetimeType,
    DatetimeParsing,
    TimeDeltaType,
    TimeDeltaParsing,
    NoneRequired,
    CircularReference,
}

/// One step of a location path: a mapping key or a sequence index.
#[derive(Debug, PartialEq)]
pub enum LocItem {
    Key(String),
    Index(usize),
}

/// The model of a location item.
pub enum LocView {
    Key(Seq<char>),
    Index(int),
}

impl View for LocItem {
    type V = LocView;

    open spec fn view(&self) -> LocView {
        match self {
            LocItem::Key(s) => LocView::Key(s@),
            LocItem::Index(i) => LocView::Index(*i as int),
        }
    }
}

impl DeepView for LocItem {
    type V = LocView;

    open spec fn deep_view(&self) -> LocView {
        self.view()
    }
}

/// One line of a validation failure: kind, location path and a snapshot
/// of the offending input. The path is ordered innermost first: each
/// enclosing call appends its own segment as the error bubbles out, so
/// the last item is the closest to the root.
#[derive(Debug)]
pub struct LineError {
    pub kind: ErrorKind,
    pub loc: Vec<LocItem>,
    pub input: Value,
}

/// The model of a line error.
pub struct LineErrorView {
    pub kind: ErrorKind,
    pub loc: Seq<LocView>,
    pub input: ValueView,
}

impl View for LineError {
    type V = LineErrorView;

    open spec fn view(&self) -> LineErrorView {
        LineErrorView { kind: self.kind, loc: self.loc.deep_view(), input: self.input@ }
    }
}

impl DeepView for LineError {
    type V = LineErrorView;

    open spec fn deep_view(&self) -> LineErrorView {
        self.view()
    }
}

impl LineErrorView {
    /// The same error with one more (outer) location segment appended.
    pub open spec fn with_outer(self, item: LocView) -> LineErrorView {
        LineErrorView { kind: self.kind, loc: self.loc.push(item), input: self.input }
    }

    /// The same error under another kind.
    pub open spec fn with_kind_view(self, kind: ErrorKind) -> LineErrorView {
        LineErrorView { kind, loc: self.loc, input: self.input }
    }
}

impl LineError {
    /// An error with an empty location path.
    pub fn new(kind: ErrorKind, input: Value) -> (r: LineError)
        ensures
            r@.kind == kind,
            r@.loc == Seq::<LocView>::empty(),
            r@.input == input@,
    {
        let r = LineError { kind, loc: Vec::new(), input };
        proof {
            assert(r@.loc =~= Seq::<LocView>::empty());
        }
        r
    }

    /// An error located at one path segment.
    pub fn new_with_loc(kind: ErrorKind, input: Value, loc: LocItem) -> (r: LineError)
        ensures
            r@.kind == kind,
            r@.loc == seq![loc@],
            r@.input == input@,
    {
        let mut path: Vec<LocItem> = Vec::new();
        path.push(loc);
        let r = LineError { kind, loc: path, input };
        proof {
            assert(r@.loc =~= seq![loc@]);
        }
        r
    }

    /// The same error with one more (outer) location segment appended.
    pub fn with_outer_location(self, item: LocItem) -> (r: LineError)
        ensures
            r@ == self@.with_outer(item@),
    {
        let LineError { kind, mut loc, input } = self;
        loc.push(item);
        let r = LineError { kind, loc, input };
        proof {
            assert(r@.loc =~= self@.loc.push(item@));
        }
        r
    }

    /// A copy of this error, equal to it in the model.
    pub fn duplicate(&self) -> (r: LineError)
        ensures
            r@ == self@,
    {
        let mut loc: Vec<LocItem> = Vec::new();
        let mut i: usize = 0;
        while i < self.loc.len()
            invariant
                i <= self.loc.len(),
                loc@.len() == i,
                forall|k: int| 0 <= k < i ==> loc@[k]@ == self.loc@[k]@,
            decreases self.loc.len() - i,
        {
            loc.push(self.loc[i].duplicate());
            i = i + 1;
        }
        let r = LineError { kind: self.kind, loc, input: self.input.deep_clone() };
        proof {
            assert(r@.loc =~= self@.loc);
        }
        r
    }

    /// The same error under another kind.
    pub fn with_kind(self, kind: ErrorKind) -> (r: LineError)
        ensures
            r@ == self@.with_kind_view(kind),
    {
        LineError { kind, loc: self.loc, input: self.input }
    }
}

impl LocItem {
    /// A copy of this location item, equal to it in the model.
    pub fn duplicate(&self) -> (r: LocItem)
        ensures
            r@ == self@,
    {
        match self {
            LocItem::Key(s) => LocItem::Key(s.clone()),
            LocItem::Index(i) => LocItem::Index(*i),
        }
    }
}

/// A single line error as a model value.
pub open spec fn one_err(kind: ErrorKind, input: ValueView) -> Seq<LineErrorView> {
    seq![LineErrorView { kind, loc: Seq::<LocView>::empty(), input }]
}

/// The view of a list of line errors, element by element.
pub open spec fn errors_view(s: Seq<LineError>) -> Seq<LineErrorView>
    decreases s,
{
    if s.len() == 0 {
        Seq::empty()
    } else {
        errors_view(s.drop_last()).push(s[s.len() - 1]@)
    }
}

/// The view of a list of line errors has the same length and views each
/// element in place.
pub broadcast proof fn lemma_errors_view(s: Seq<LineError>)
    ensures
        (#[trigger] errors_view(s)).len() == s.len(),
        forall|i: int| 0 <= i < s.len() ==> errors_view(s)[i] == s[i]@,
    decreases s.len(),
{
    if s.len() > 0 {
        lemma_errors_view(s.drop_last());
    }
}

/// Appending one error appends its view.
pub proof fn lemma_errors_view_push(pre: Seq<LineError>, post: Seq<LineError>)
    requires
        post.len() == pre.len() + 1,
        post.drop_last() == pre,
    ensures
        errors_view(post) == errors_view(pre).push(post[post.len() - 1]@),
{
}

/// Move every error of a list onto the end of another, each with one
/// more (outer) location segment appended.
#[verifier::loop_isolation(false)]
pub fn extend_with_outer(dst: &mut Vec<LineError>, src: &Vec<LineError>, item: &LocItem)
    ensures
        errors_view(final(dst)@) == errors_view(old(dst)@) + errors_view(src@).map_values(
            |e: LineErrorView| e.with_outer(item@),
        ),
{
    let ghost base: int = old(dst)@.len() as int;
    let mut j: usize = 0;
    while j < src.len()
        invariant
            j <= src.len(),
            dst@.len() == base + j,
            forall|k: int| 0 <= k < base ==> dst@[k] == old(dst)@[k],
            forall|k: int| 0 <= k < j ==> (#[trigger] dst@[base + k])@ == src@[k]@.with_outer(
                item@,
            ),
        decreases src.len() - j,
    {
        let e = src[j].duplicate();
        dst.push(e.with_outer_location(item.duplicate()));
        j = j + 1;
    }
    proof {
        lemma_errors_view(dst@);
        lemma_errors_view(old(dst)@);
        lemma_errors_view(src@);
        let ghost f = |e: LineErrorView| e.with_outer(item@);
        assert(errors_view(dst@).len() == base + src@.len());
        assert forall|k: int| 0 <= k < base implies errors_view(dst@)[k] == errors_view(
            old(dst)@,
        )[k] by {
            assert(dst@[k] == old(dst)@[k]);
        };
        assert forall|k: int| 0 <= k < src@.len() implies errors_view(dst@)[base + k]
            == errors_view(src@).map_values(f)[k] by {
            assert(errors_view(dst@)[base + k] == (#[trigger] dst@[base + k])@);
            assert(errors_view(src@)[k] == src@[k]@);
            assert(errors_view(src@).map_values(f)[k] == f(errors_view(src@)[k]));
        };
        assert(errors_view(dst@) =~= errors_view(old(dst)@) + errors_view(src@).map_values(f));
        assert(errors_view(src@).map_values(f) =~= errors_view(src@).map_values(
            |e: LineErrorView| e.with_outer(item@),
        ));
    }
}

/// A runtime validation failure: the ordered list of everything that went
/// wrong in one call.
#[derive(Debug)]
pub struct ValError {
    pub line_errors: Vec<LineError>,
}

impl View for ValError {
    type V = Seq<LineErrorView>;

    open spec fn view(&self) -> Seq<LineErrorView> {
        errors_view(self.line_errors@)
    }
}

impl ValError {
    /// A failure made of a single error with an empty location path.
    pub fn new(kind: ErrorKind, input: Value) -> (r: ValError)
        ensures
            r@.len() == 1,
            r@[0].kind == kind,
            r@[0].loc == Seq::<LocView>::empty(),
            r@[0].input == input@,
    {
        let mut line_errors: Vec<LineError> = Vec::new();
        line_errors.push(LineError::new(kind, input));
        let r = ValError { line_errors };
        proof {
            lemma_errors_view(r.line_errors@);
        }
        r
    }
}

/// The reasons a schema is rejected at build time. A schema error aborts
/// compilation entirely: no partially-built tree is returned.
#[derive(Clone, Copy, Debug, PartialEq, Eq, Structural)]
pub enum SchemaErrorKind {
    /// `default` and `default_factory` cannot be used together.
    DefaultAndFactory,
    /// A non-default argument follows a default argument.
    NonDefaultAfterDefault,
    /// An extras serializer is only valid when the fields mode allows
    /// extra entries.
    ExtrasSerializerForbidden,
    /// A referenced definition slot does not exist.
    UnknownDefinition,
    /// A definition slot was patched twice.
    DuplicateDefinition,
    /// A definition slot was referenced but never filled.
    UnfilledDefinition,
}

/// A build-time schema error.
#[derive(Clone, Copy, Debug, PartialEq, Eq, Structural)]
pub struct SchemaError {
    pub kind: SchemaErrorKind,
}

impl SchemaError {
    pub fn new(kind: SchemaErrorKind) -> (r: SchemaError)
        ensures
            r.kind == kind,
    {
        SchemaError { kind }
    }
}

} // verus!
