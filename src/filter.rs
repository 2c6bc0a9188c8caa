use vstd::prelude::*;
use tracing_subscriber::filter::LevelFilter;
use tracing_subscriber::filter::Targets;

verus! {

#[verifier::external_type_specification]
#[verifier::external_body]
pub struct ExTargets(Targets);

/// Severity of a log record, from the least to the most verbose.
#[derive(Clone, Copy, Debug, PartialEq, Eq, Structural)]
pub enum Severity {
    Error,
    Warn,
    Info,
    Debug,
    Trace,
}

impl Severity {
    /// Verbosity rank: 1 for `Error` up to 5 for `Trace`. A level filter of
    /// rank `n` lets through the records whose rank is at most `n`; rank 0
    /// lets nothing through.
    pub open spec fn rank(self) -> nat {
        match self {
            Severity::Error => 1,
            Severity::Warn => 2,
            Severity::Info => 3,
            Severity::Debug => 4,
            Severity::Trace => 5,
        }
    }
}

/// Rank of the most verbose level filter, which lets every record through.
pub open spec fn trace_rank() -> nat {
    5
}

/// The directives of a target filter that name no field: for each target
/// prefix (`None` for the directive that applies to every target) the rank of
/// its level filter. Directives with field names never decide about a bare
/// target and level, so they are left out.
pub uninterp spec fn directives_of(t: Targets) -> Map<Option<Seq<char>>, nat>;

/// Whether a directive key applies to records of `target`.
pub open spec fn key_applies(k: Option<Seq<char>>, target: Seq<char>) -> bool {
    match k {
        None => true,
        Some(p) => p.is_prefix_of(target),
    }
}

/// How specific a directive key is: a longer prefix is more specific, and a
/// key without a prefix is the least specific of all.
pub open spec fn specificity(k: Option<Seq<char>>) -> int {
    match k {
        None => -1,
        Some(p) => p.len() as int,
    }
}

/// `k` is the directive that decides about records of `target`: the most
/// specific one that applies.
pub open spec fn governs(m: Map<Option<Seq<char>>, nat>, target: Seq<char>, k: Option<Seq<char>>) -> bool {
    &&& m.contains_key(k)
    &&& key_applies(k, target)
    &&& forall|e: Option<Seq<char>>|
        #![trigger m.contains_key(e)]
        m.contains_key(e) && key_applies(e, target) ==> specificity(e) <= specificity(k)
}

/// A record of `target` at `level` passes the directives `m`: the directive
/// that governs the target exists and its level filter admits `level`.
pub open spec fn directives_enable(m: Map<Option<Seq<char>>, nat>, target: Seq<char>, level: Severity) -> bool {
    exists|k: Option<Seq<char>>| #[trigger] governs(m, target, k) && level.rank() <= m[k]
}

/// The directives of a filter that lets every listed target through at the
/// most verbose level, and nothing else.
pub open spec fn trace_directives(targets: Seq<String>) -> Map<Option<Seq<char>>, nat> {
    Map::new(
        |k: Option<Seq<char>>| exists|i: int| 0 <= i < targets.len() && k == Some(#[trigger] targets[i]@),
        |k: Option<Seq<char>>| trace_rank(),
    )
}

/// Some listed target is a prefix of `target`.
pub open spec fn listed_prefix(targets: Seq<String>, target: Seq<char>) -> bool {
    exists|i: int| 0 <= i < targets.len() && (#[trigger] targets[i]@).is_prefix_of(target)
}

/// Among the listed targets that are prefixes of `target`, one is longest.
proof fn lemma_longest_listed_prefix(targets: Seq<String>, target: Seq<char>) -> (j: int)
    requires
        listed_prefix(targets, target),
    ensures
        0 <= j < targets.len(),
        targets[j]@.is_prefix_of(target),
        forall|i: int|
            0 <= i < targets.len() && (#[trigger] targets[i]@).is_prefix_of(target)
                ==> targets[i]@.len() <= targets[j]@.len(),
    decreases targets.len(),
{
    let last = targets.len() - 1;
    let init = targets.drop_last();
    if listed_prefix(init, target) {
        let j0 = lemma_longest_listed_prefix(init, target);
        let j = if targets[last]@.is_prefix_of(target) && targets[last]@.len() > targets[j0]@.len() {
            last
        } else {
            assert(init[j0] == targets[j0]);
            j0
        };
        assert forall|i: int|
            0 <= i < targets.len() && (#[trigger] targets[i]@).is_prefix_of(target)
            implies targets[i]@.len() <= targets[j]@.len() by {
            if i < last {
                assert(init[i] == targets[i]);
                assert(init[j0] == targets[j0]);
            }
        }
        j
    } else {
        assert forall|i: int|
            0 <= i < targets.len() && (#[trigger] targets[i]@).is_prefix_of(target)
            implies i == last by {
            if i < last {
                assert(init[i] == targets[i]);
            }
        }
        last
    }
}

/// A filter built from a list of targets lets a record through exactly when
/// one of the listed targets is a prefix of the record's target, whatever
/// the record's level.
pub proof fn lemma_trace_directives_enable(targets: Seq<String>, target: Seq<char>, level: Severity)
    ensures
        directives_enable(trace_directives(targets), target, level) == listed_prefix(targets, target),
{
    let m = trace_directives(targets);
    if directives_enable(m, target, level) {
        let k = choose|k: Option<Seq<char>>| #[trigger] governs(m, target, k) && level.rank() <= m[k];
        let i = choose|i: int| 0 <= i < targets.len() && k == Some(#[trigger] targets[i]@);
        assert(targets[i]@.is_prefix_of(target));
    }
    if listed_prefix(targets, target) {
        let j = lemma_longest_listed_prefix(targets, target);
        let k = Some(targets[j]@);
        assert(m.contains_key(k));
        assert forall|e: Option<Seq<char>>|
            #![trigger m.contains_key(e)]
            m.contains_key(e) && key_applies(e, target) implies specificity(e) <= specificity(k) by {
            let i = choose|i: int| 0 <= i < targets.len() && e == Some(#[trigger] targets[i]@);
        }
        assert(governs(m, target, k));
    }
}

/// Relies on `Targets::new`: a filter without any directive.
#[verifier::external_body]
fn targets_new() -> (r: Targets)
    ensures
        directives_of(r) =~= Map::empty(),
{
    Targets::new()
}

/// Relies on `Targets::with_target`: adds the directive for the prefix
/// `target` at `LevelFilter::TRACE`, replacing one for the same prefix.
#[verifier::external_body]
fn targets_with_trace(t: Targets, target: &String) -> (r: Targets)
    ensures
        directives_of(r) == directives_of(t).insert(Some(target@), trace_rank()),
{
    t.with_target(target.clone(), LevelFilter::TRACE)
}

/// Relies on `Targets::would_enable`: the most specific directive whose
/// prefix starts `target` decides, by its level; with none, nothing passes.
#[verifier::external_body]
fn targets_would_enable(t: &Targets, target: &str, level: Severity) -> (r: bool)
    ensures
        r == directives_enable(directives_of(*t), target@, level),
{
    let level = match level {
        Severity::Error => tracing::Level::ERROR,
        Severity::Warn => tracing::Level::WARN,
        Severity::Info => tracing::Level::INFO,
        Severity::Debug => tracing::Level::DEBUG,
        Severity::Trace => tracing::Level::TRACE,
    };
    t.would_enable(target, &level)
}

/// Builds the filter that lets records of the listed targets (and of every
/// target that starts with one of them) through at every level.
pub fn target_filter(targets: &Vec<String>) -> (r: Targets)
    ensures
        directives_of(r) == trace_directives(targets@),
{
    let mut t = targets_new();
    let mut i: usize = 0;
    while i < targets.len()
        invariant
            i <= targets.len(),
            directives_of(t) == trace_directives(targets@.take(i as int)),
        decreases targets.len() - i,
    {
        let ghost before = directives_of(t);
        t = targets_with_trace(t, &targets[i]);
        proof {
            let prefix = targets@.take(i as int);
            let next = targets@.take(i as int + 1);
            assert(next == prefix.push(targets@[i as int]));
            assert forall|k: Option<Seq<char>>| #[trigger] directives_of(t).contains_key(k)
                == trace_directives(next).contains_key(k) by {
                if k == Some(targets@[i as int]@) {
                    assert(next[i as int] == targets@[i as int]);
                } else if before.contains_key(k) {
                    let j = choose|j: int| 0 <= j < prefix.len() && k == Some(#[trigger] prefix[j]@);
                    assert(next[j] == prefix[j]);
                }
                if trace_directives(next).contains_key(k) {
                    let j = choose|j: int| 0 <= j < next.len() && k == Some(#[trigger] next[j]@);
                    if j < prefix.len() {
                        assert(prefix[j] == next[j]);
                    }
                }
            }
            assert(directives_of(t) =~= trace_directives(next));
        }
        i = i + 1;
    }
    assert(targets@.take(targets.len() as int) == targets@);
    t
}

/// Whether the filter `t` lets a record of `target` at `level` through.
pub fn filter_admits(t: &Targets, target: &str, level: Severity) -> (r: bool)
    ensures
        r == directives_enable(directives_of(*t), target@, level),
{
    targets_would_enable(t, target, level)
}

} // verus!
