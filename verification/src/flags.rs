//! Declarative feature-flag registry.
//!
//! Capto is local-first, so flags are read from the local settings
//! (`enabled_flags` / `disabled_flags`) rather than a remote service. The
//! single source of truth for flag identifiers lives in this module.

use vstd::prelude::*;
use crate::text::{chars_of, same_chars};

verus! {

/// A declared, documented feature flag.
pub struct FeatureFlag {
    pub name: &'static str,
    pub description: &'static str,
    pub default: bool,
}

/// Local metrics snapshots on the control plane.
pub const CONTROL_PLANE_METRICS: &'static str = "control-plane-metrics";
/// Local crash reports (`crash-*.json`) written on panic.
pub const CRASH_REPORTING: &'static str = "crash-reporting";

/// The declared flags: (name, default).
pub open spec fn declared_flags() -> Seq<(Seq<char>, bool)> {
    seq![("control-plane-metrics"@, true), ("crash-reporting"@, true)]
}

/// Registry of every declared flag. Names are unique.
pub fn all() -> (r: Vec<FeatureFlag>)
    ensures
        r@.map_values(|f: FeatureFlag| (f.name@, f.default)) == declared_flags(),
{
    let mut v: Vec<FeatureFlag> = Vec::new();
    v.push(
        FeatureFlag {
            name: CONTROL_PLANE_METRICS,
            description: "Expose local metrics snapshots at /v1/metrics (localhost, auth required)",
            default: true,
        },
    );
    v.push(
        FeatureFlag {
            name: CRASH_REPORTING,
            description: "Write a structured crash-*.json report to the config dir on panic",
            default: true,
        },
    );
    proof {
        assert(v@.map_values(|f: FeatureFlag| (f.name@, f.default)) =~= declared_flags());
    }
    v
}

/// The declared flag names are pairwise distinct.
pub proof fn lemma_declared_names_unique()
    ensures
        forall|i: int, j: int|
            0 <= i < j < declared_flags().len() ==> declared_flags()[i].0 != declared_flags()[j].0,
{
    reveal_strlit("control-plane-metrics");
    reveal_strlit("crash-reporting");
    assert("control-plane-metrics"@.len() != "crash-reporting"@.len());
}

/// The declared default of `name`; unknown flags are off.
pub open spec fn declared_default(name: Seq<char>) -> bool {
    if name == "control-plane-metrics"@ {
        true
    } else if name == "crash-reporting"@ {
        true
    } else {
        false
    }
}

/// Whether flag `name` is on: `disabled` wins over `enabled`, which wins
/// over the declared default.
pub open spec fn flag_enabled(disabled: Seq<Seq<char>>, enabled: Seq<Seq<char>>, name: Seq<char>) -> bool {
    if disabled.contains(name) {
        false
    } else if enabled.contains(name) {
        true
    } else {
        declared_default(name)
    }
}

/// Explicit lists beat defaults: a flag in `disabled` is off whatever
/// `enabled` and its default say, and one in `enabled` only is on whatever
/// its default; a flag in neither keeps its declared default.
pub proof fn lemma_explicit_lists_win(disabled: Seq<Seq<char>>, enabled: Seq<Seq<char>>, name: Seq<char>)
    ensures
        disabled.contains(name) ==> !flag_enabled(disabled, enabled, name),
        !disabled.contains(name) && enabled.contains(name) ==> flag_enabled(disabled, enabled, name),
        !disabled.contains(name) && !enabled.contains(name) ==> flag_enabled(disabled, enabled, name)
            == declared_default(name),
{
}

fn listed(list: &[String], name: &[char]) -> (r: bool)
    ensures
        r == list@.map_values(|s: String| s@).contains(name@),
{
    let ghost vs = list@.map_values(|s: String| s@);
    let mut i: usize = 0;
    while i < list.len()
        invariant
            i <= list@.len(),
            vs == list@.map_values(|s: String| s@),
            forall|k: int| 0 <= k < i ==> vs[k] != name@,
        decreases list@.len() - i,
    {
        let item = chars_of(list[i].as_str());
        if same_chars(item.as_slice(), name) {
            assert(vs[i as int] == name@);
            return true;
        }
        i = i + 1;
    }
    false
}

/// Resolve whether `name` is enabled given the settings' flag lists, with
/// explicit lists beating defaults: `disabled_flags` wins over
/// `enabled_flags` wins over the declared default.
pub fn is_enabled(disabled_flags: &[String], enabled_flags: &[String], name: &str) -> (r: bool)
    ensures
        r == flag_enabled(
            disabled_flags@.map_values(|s: String| s@),
            enabled_flags@.map_values(|s: String| s@),
            name@,
        ),
{
    let n = chars_of(name);
    if listed(disabled_flags, n.as_slice()) {
        return false;
    }
    if listed(enabled_flags, n.as_slice()) {
        return true;
    }
    let metrics = chars_of(CONTROL_PLANE_METRICS);
    let crash = chars_of(CRASH_REPORTING);
    same_chars(n.as_slice(), metrics.as_slice()) || same_chars(n.as_slice(), crash.as_slice())
}

} // verus!
