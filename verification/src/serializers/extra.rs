//! The ambient settings bundle passed around by serializer nodes, the
//! per-call warning collector, and the serialization mode.

use vstd::prelude::*;

use crate::guard::{GuardState, SerRecursionGuard};
use crate::hash_sets::{id_set_duplicate, str_set_strs};

verus! {

/// The target representation of one serialize call: native host values,
/// wire-format data, or a caller-named other mode.
#[derive(Debug)]
pub enum SerMode {
    Python,
    Json,
    Other(String),
}

impl SerMode {
    /// The mode a caller's mode word names: `json` and `python` have
    /// their own tags, anything else is carried as text, and no word
    /// means the native mode.
    pub fn from_word(s: Option<&str>) -> (r: SerMode)
        ensures
            match s {
                Some(w) => if w@ == "json"@ {
                    r is Json
                } else if w@ == "python"@ {
                    r is Python
                } else {
                    r matches SerMode::Other(o) && o@ == w@
                },
                None => r is Python,
            },
    {
        match s {
            Some(w) => {
                if crate::input::str_eq(w, "json") {
                    SerMode::Json
                } else if crate::input::str_eq(w, "python") {
                    SerMode::Python
                } else {
                    SerMode::Other(<String as vstd::string::StringExecFns>::from_str(w))
                }
            },
            None => SerMode::Python,
        }
    }

    /// The mode's word.
    pub fn as_word(&self) -> (r: String)
        ensures
            match self {
                SerMode::Python => r@ == "python"@,
                SerMode::Json => r@ == "json"@,
                SerMode::Other(o) => r@ == o@,
            },
    {
        match self {
            SerMode::Python => <String as vstd::string::StringExecFns>::from_str("python"),
            SerMode::Json => <String as vstd::string::StringExecFns>::from_str("json"),
            SerMode::Other(o) => o.clone(),
        }
    }

    /// A copy of this mode, equal to it in the model.
    pub fn duplicate(&self) -> (r: SerMode)
        ensures
            r.view_mode() == self.view_mode(),
    {
        match self {
            SerMode::Python => SerMode::Python,
            SerMode::Json => SerMode::Json,
            SerMode::Other(o) => SerMode::Other(o.clone()),
        }
    }

    /// The model of a mode: its tag and text.
    pub open spec fn view_mode(&self) -> SerModeView {
        match self {
            SerMode::Python => SerModeView::Python,
            SerMode::Json => SerModeView::Json,
            SerMode::Other(o) => SerModeView::Other(o@),
        }
    }
}

/// The model of a serialization mode.
pub enum SerModeView {
    Python,
    Json,
    Other(Seq<char>),
}

/// Why a serializer degraded to a fallback.
#[derive(Clone, Copy, Debug, PartialEq, Eq, Structural)]
pub enum WarnReason {
    /// The value had to go through the slow inference path.
    SlightSlowdown,
    /// Include/exclude filtering is unavailable for the value.
    FilteringUnavailable,
}

/// One collected warning: the expected type word, the word for what was
/// found, and the reason.
#[derive(Debug)]
pub struct Warning {
    pub expected: String,
    pub got: String,
    pub reason: WarnReason,
}

/// The model of a warning.
pub struct WarningView {
    pub expected: Seq<char>,
    pub got: Seq<char>,
    pub reason: WarnReason,
}

impl View for Warning {
    type V = WarningView;

    open spec fn view(&self) -> WarningView {
        WarningView { expected: self.expected@, got: self.got@, reason: self.reason }
    }
}

/// The view of a list of warnings, element by element.
pub open spec fn warnings_view(s: Seq<Warning>) -> Seq<WarningView>
    decreases s,
{
    if s.len() == 0 {
        Seq::empty()
    } else {
        warnings_view(s.drop_last()).push(s[s.len() - 1]@)
    }
}

/// The view of a list of warnings has the same length and views each
/// element in place.
pub broadcast proof fn lemma_warnings_view(s: Seq<Warning>)
    ensures
        (#[trigger] warnings_view(s)).len() == s.len(),
        forall|i: int| 0 <= i < s.len() ==> warnings_view(s)[i] == s[i]@,
    decreases s.len(),
{
    if s.len() > 0 {
        lemma_warnings_view(s.drop_last());
    }
}

/// Appending one warning appends its view.
pub proof fn lemma_warnings_view_push(pre: Seq<Warning>, post: Seq<Warning>)
    requires
        post.len() == pre.len() + 1,
        post.drop_last() == pre,
    ensures
        warnings_view(post) == warnings_view(pre).push(post[post.len() - 1]@),
{
}

/// The per-call warning collector. Warnings accumulate across an entire
/// top-level serialize call and are surfaced once at the end.
#[derive(Debug)]
pub struct CollectWarnings {
    pub active: bool,
    pub warnings: Vec<Warning>,
}

impl CollectWarnings {
    /// A fresh collector.
    pub fn new(active: bool) -> (r: CollectWarnings)
        ensures
            r.active == active,
            r.warnings@.len() == 0,
    {
        CollectWarnings { active, warnings: Vec::new() }
    }

    /// Record a slow-path fallback, when active.
    pub fn fallback_slow(&mut self, field_type: &str, value: &crate::value::Value)
        ensures
            final(self).active == old(self).active,
            warnings_view(final(self).warnings@) == (if old(self).active {
                warnings_view(old(self).warnings@).push(
                    WarningView {
                        expected: field_type@,
                        got: crate::input::spec_type_name(value@),
                        reason: WarnReason::SlightSlowdown,
                    },
                )
            } else {
                warnings_view(old(self).warnings@)
            }),
    {
        if self.active {
            self.fallback(field_type, value, WarnReason::SlightSlowdown);
        }
    }

    /// Record a filtering-unavailable fallback, when active.
    pub fn fallback_filtering(&mut self, field_type: &str, value: &crate::value::Value)
        ensures
            final(self).active == old(self).active,
            warnings_view(final(self).warnings@) == (if old(self).active {
                warnings_view(old(self).warnings@).push(
                    WarningView {
                        expected: field_type@,
                        got: crate::input::spec_type_name(value@),
                        reason: WarnReason::FilteringUnavailable,
                    },
                )
            } else {
                warnings_view(old(self).warnings@)
            }),
    {
        if self.active {
            self.fallback(field_type, value, WarnReason::FilteringUnavailable);
        }
    }

    /// Record a fallback of the given reason.
    fn fallback(&mut self, field_type: &str, value: &crate::value::Value, reason: WarnReason)
        requires
            old(self).active,
        ensures
            final(self).active == old(self).active,
            warnings_view(final(self).warnings@) == warnings_view(old(self).warnings@).push(
                WarningView {
                    expected: field_type@,
                    got: crate::input::spec_type_name(value@),
                    reason,
                },
            ),
    {
        let w = Warning {
            expected: <String as vstd::string::StringExecFns>::from_str(field_type),
            got: <String as vstd::string::StringExecFns>::from_str(value.kind_name()),
            reason,
        };
        let ghost pre_at: Seq<Warning> = self.warnings@;
        self.add_warning(w);
        proof {
            assert(self.warnings@.drop_last() =~= pre_at);
            lemma_warnings_view_push(pre_at, self.warnings@);
        }
    }

    /// Append one warning.
    pub fn add_warning(&mut self, w: Warning)
        ensures
            final(self).active == old(self).active,
            final(self).warnings@ == old(self).warnings@.push(w),
    {
        self.warnings.push(w);
    }

    /// The warnings to surface at the end of the call: present exactly
    /// when the collector is active and anything was recorded.
    pub fn final_check(&self) -> (r: Option<&Vec<Warning>>)
        ensures
            match r {
                Some(ws) => self.active && self.warnings@.len() > 0 && ws@ == self.warnings@,
                None => !self.active || self.warnings@.len() == 0,
            },
    {
        if self.active && self.warnings.len() > 0 {
            Some(&self.warnings)
        } else {
            None
        }
    }
}


/// A copy of a warning list, equal to it in the model.
pub fn duplicate_warnings(ws: &Vec<Warning>) -> (r: Vec<Warning>)
    ensures
        warnings_view(r@) == warnings_view(ws@),
{
    let mut out: Vec<Warning> = Vec::new();
    let mut i: usize = 0;
    while i < ws.len()
        invariant
            i <= ws.len(),
            out@.len() == i,
            forall|j: int| 0 <= j < i ==> out@[j]@ == ws@[j]@,
        decreases ws.len() - i,
    {
        let w = &ws[i];
        out.push(
            Warning { expected: w.expected.clone(), got: w.got.clone(), reason: w.reason },
        );
        i = i + 1;
    }
    proof {
        lemma_warnings_view(out@);
        lemma_warnings_view(ws@);
        assert(warnings_view(out@) =~= warnings_view(ws@));
    }
    out
}

impl CollectWarnings {
    /// A copy of this collector, equal to it in the model.
    pub fn duplicate(&self) -> (r: CollectWarnings)
        ensures
            r.active == self.active,
            warnings_view(r.warnings@) == warnings_view(self.warnings@),
    {
        CollectWarnings { active: self.active, warnings: duplicate_warnings(&self.warnings) }
    }
}

/// The settings bundle threaded through one serialize call: the mode,
/// the filter flags, the warning collector and the recursion guard.
/// The flags are immutable for the call; the collector and guard are
/// the call's only mutable state. Of the flags, only `by_alias` and
/// `exclude_none` steer the node kinds implemented here; the mode and
/// the `exclude_unset`, `exclude_defaults` and `round_trip` flags are
/// carried without effect on them.
pub struct Extra {
    pub mode: SerMode,
    pub by_alias: bool,
    pub exclude_unset: bool,
    pub exclude_defaults: bool,
    pub exclude_none: bool,
    pub round_trip: bool,
    pub warnings: CollectWarnings,
    pub rec_guard: SerRecursionGuard,
}

impl Extra {
    /// A fresh settings bundle for one top-level call, with the
    /// documented defaults for absent flags, an active collector and a
    /// fresh guard.
    pub fn new(
        mode: SerMode,
        by_alias: Option<bool>,
        exclude_unset: Option<bool>,
        exclude_defaults: Option<bool>,
        exclude_none: Option<bool>,
        round_trip: Option<bool>,
    ) -> (r: Extra)
        ensures
            r.mode.view_mode() == mode.view_mode(),
            r.by_alias == (match by_alias {
                Some(b) => b,
                None => true,
            }),
            r.exclude_unset == (match exclude_unset {
                Some(b) => b,
                None => false,
            }),
            r.exclude_defaults == (match exclude_defaults {
                Some(b) => b,
                None => false,
            }),
            r.exclude_none == (match exclude_none {
                Some(b) => b,
                None => false,
            }),
            r.round_trip == (match round_trip {
                Some(b) => b,
                None => false,
            }),
            r.warnings.active,
            r.warnings.warnings@.len() == 0,
            r.rec_guard@.ids == Set::<u64>::empty(),
            r.rec_guard@.depth == 0,
    {
        Extra {
            mode,
            by_alias: by_alias.unwrap_or(true),
            exclude_unset: exclude_unset.unwrap_or(false),
            exclude_defaults: exclude_defaults.unwrap_or(false),
            exclude_none: exclude_none.unwrap_or(false),
            round_trip: round_trip.unwrap_or(false),
            warnings: CollectWarnings::new(true),
            rec_guard: SerRecursionGuard::new(),
        }
    }
}

/// An owned copy of the settings bundle, for a boundary that must
/// outlive the borrowed one.
pub struct ExtraOwned {
    pub mode: SerMode,
    pub by_alias: bool,
    pub exclude_unset: bool,
    pub exclude_defaults: bool,
    pub exclude_none: bool,
    pub round_trip: bool,
    pub warnings: CollectWarnings,
    pub rec_guard: SerRecursionGuard,
}

impl ExtraOwned {
    /// Capture a settings bundle by value.
    pub fn new(extra: &Extra) -> (r: ExtraOwned)
        ensures
            r.mode.view_mode() == extra.mode.view_mode(),
            r.by_alias == extra.by_alias,
            r.exclude_unset == extra.exclude_unset,
            r.exclude_defaults == extra.exclude_defaults,
            r.exclude_none == extra.exclude_none,
            r.round_trip == extra.round_trip,
            r.warnings.active == extra.warnings.active,
            warnings_view(r.warnings.warnings@) == warnings_view(extra.warnings.warnings@),
            r.rec_guard@ == extra.rec_guard@,
    {
        ExtraOwned {
            mode: extra.mode.duplicate(),
            by_alias: extra.by_alias,
            exclude_unset: extra.exclude_unset,
            exclude_defaults: extra.exclude_defaults,
            exclude_none: extra.exclude_none,
            round_trip: extra.round_trip,
            warnings: extra.warnings.duplicate(),
            rec_guard: extra.rec_guard.duplicate(),
        }
    }

    /// Hand the captured settings back as a borrowable bundle.
    pub fn to_extra(&self) -> (r: Extra)
        ensures
            r.mode.view_mode() == self.mode.view_mode(),
            r.by_alias == self.by_alias,
            r.exclude_unset == self.exclude_unset,
            r.exclude_defaults == self.exclude_defaults,
            r.exclude_none == self.exclude_none,
            r.round_trip == self.round_trip,
            r.warnings.active == self.warnings.active,
            warnings_view(r.warnings.warnings@) == warnings_view(self.warnings.warnings@),
            r.rec_guard@ == self.rec_guard@,
    {
        Extra {
            mode: self.mode.duplicate(),
            by_alias: self.by_alias,
            exclude_unset: self.exclude_unset,
            exclude_defaults: self.exclude_defaults,
            exclude_none: self.exclude_none,
            round_trip: self.round_trip,
            warnings: self.warnings.duplicate(),
            rec_guard: self.rec_guard.duplicate(),
        }
    }
}

} // verus!
