//! The kernel command line: arguments declared in the manifest merged with
//! those the resolved graphics policy requires.
//!
//! Arguments are keyed by the text before their first `=`. An argument whose
//! key was already seen is dropped when it repeats the earlier value exactly
//! (the merge is recorded as a decision) and rejected when it differs.
use vstd::prelude::*;

use crate::decision::{source_label, DecisionSource};
use crate::graphics::{
    graphics_error_text, graphics_failure, graphics_outcome, is_invalid, uses_proprietary,
    GraphicsResolveError, RequiredKernelArg, ResolvedGraphics,
};
use crate::manifest::SystemManifest;
use crate::text::{
    chars_of, find_char, first_index_of, join, join_chars, push_chars, push_str, seq_eq, slice,
    starts_with, string_of, sviews, trim, trim_str, vviews,
};

verus! {

/// One argument on the resolved command line, with its provenance.
#[derive(Debug, Clone, PartialEq, Eq)]
pub struct ResolvedKernelArg {
    pub value: String,
    pub source: DecisionSource,
    pub source_field: String,
    pub reason: String,
}

/// A merge decision: an argument taken, or a repeated one dropped.
#[derive(Debug, Clone, PartialEq, Eq)]
pub struct KernelDecision {
    pub value: String,
    pub source: DecisionSource,
    pub source_field: String,
    pub reason: String,
}

/// The merged command line and the decisions that produced it.
#[derive(Debug, Clone, PartialEq, Eq)]
pub struct ResolvedKernelCmdline {
    pub args: Vec<ResolvedKernelArg>,
    pub decisions: Vec<KernelDecision>,
}

impl Default for ResolvedKernelCmdline {
    fn default() -> (r: Self)
        ensures
            r.args@.len() == 0,
            r.decisions@.len() == 0,
    {
        ResolvedKernelCmdline { args: Vec::new(), decisions: Vec::new() }
    }
}

#[derive(Debug, Clone, PartialEq, Eq)]
pub enum KernelCmdlineResolveError {
    /// The graphics policy did not resolve.
    Graphics(GraphicsResolveError),
    /// An argument is empty once surrounding whitespace is removed.
    EmptyArgument { source_field: String },
    /// Two different values were given for one key.
    Conflict {
        key: String,
        existing: String,
        existing_source: String,
        incoming: String,
        incoming_source: String,
    },
}

// ---------------------------------------------------------------------------
// The model: arguments as plain values and the merge as a fold.
// ---------------------------------------------------------------------------

/// An argument or decision as plain values.
pub struct KernelEntry {
    pub value: Seq<char>,
    pub source: DecisionSource,
    pub source_field: Seq<char>,
    pub reason: Seq<char>,
}

/// The state of a merge: arguments taken so far and every decision made.
pub struct KernelMerge {
    pub args: Seq<KernelEntry>,
    pub decisions: Seq<KernelEntry>,
}

/// Why a merge stopped.
pub enum KernelMergeFailure {
    EmptyArgument { source_field: Seq<char> },
    Conflict {
        key: Seq<char>,
        existing: Seq<char>,
        existing_source: Seq<char>,
        incoming: Seq<char>,
        incoming_source: Seq<char>,
    },
}

pub open spec fn arg_entry(a: ResolvedKernelArg) -> KernelEntry {
    KernelEntry {
        value: a.value@,
        source: a.source,
        source_field: a.source_field@,
        reason: a.reason@,
    }
}

pub open spec fn decision_entry(d: KernelDecision) -> KernelEntry {
    KernelEntry {
        value: d.value@,
        source: d.source,
        source_field: d.source_field@,
        reason: d.reason@,
    }
}

/// The plain-value view of a resolved command line.
pub open spec fn cmdline_view(c: ResolvedKernelCmdline) -> KernelMerge {
    KernelMerge {
        args: c.args@.map_values(|a: ResolvedKernelArg| arg_entry(a)),
        decisions: c.decisions@.map_values(|d: KernelDecision| decision_entry(d)),
    }
}

/// The merge failure an error stands for; `None` for a graphics error.
pub open spec fn failure_view(e: KernelCmdlineResolveError) -> Option<KernelMergeFailure> {
    match e {
        KernelCmdlineResolveError::Graphics(_) => None,
        KernelCmdlineResolveError::EmptyArgument { source_field } => Some(
            KernelMergeFailure::EmptyArgument { source_field: source_field@ },
        ),
        KernelCmdlineResolveError::Conflict {
            key,
            existing,
            existing_source,
            incoming,
            incoming_source,
        } => Some(
            KernelMergeFailure::Conflict {
                key: key@,
                existing: existing@,
                existing_source: existing_source@,
                incoming: incoming@,
                incoming_source: incoming_source@,
            },
        ),
    }
}

/// The key of an argument: the text before its first `=`, or all of it.
pub open spec fn argument_key(v: Seq<char>) -> Seq<char> {
    if exists|i: int| first_index_of(v, '=', i) {
        v.subrange(0, choose|i: int| first_index_of(v, '=', i))
    } else {
        v
    }
}

/// `args[i]` has key `k`.
pub open spec fn holds_key(args: Seq<KernelEntry>, k: Seq<char>, i: int) -> bool {
    0 <= i < args.len() && argument_key(args[i].value) == k
}

/// No two arguments share a key.
pub open spec fn distinct_keys(args: Seq<KernelEntry>) -> bool {
    forall|i: int, j: int|
        0 <= i < args.len() && 0 <= j < args.len() && i != j ==> argument_key(
            #[trigger] args[i].value,
        ) != argument_key(#[trigger] args[j].value)
}

pub open spec fn dedup_reason(first_source: Seq<char>) -> Seq<char> {
    "deduplicated identical argument; first supplied by "@ + first_source
}

/// Merges one more argument into `s`.
pub open spec fn merge_step(s: KernelMerge, e: KernelEntry) -> Result<KernelMerge, KernelMergeFailure> {
    let v = trim(e.value);
    if v.len() == 0 {
        Err(KernelMergeFailure::EmptyArgument { source_field: e.source_field })
    } else {
        let k = argument_key(v);
        if exists|i: int| holds_key(s.args, k, i) {
            let ex = s.args[choose|i: int| holds_key(s.args, k, i)];
            if ex.value != v {
                Err(
                    KernelMergeFailure::Conflict {
                        key: k,
                        existing: ex.value,
                        existing_source: ex.source_field,
                        incoming: v,
                        incoming_source: e.source_field,
                    },
                )
            } else {
                Ok(
                    KernelMerge {
                        args: s.args,
                        decisions: s.decisions.push(
                            KernelEntry {
                                value: v,
                                source: e.source,
                                source_field: e.source_field,
                                reason: dedup_reason(ex.source_field),
                            },
                        ),
                    },
                )
            }
        } else {
            let taken = KernelEntry {
                value: v,
                source: e.source,
                source_field: e.source_field,
                reason: e.reason,
            };
            Ok(KernelMerge { args: s.args.push(taken), decisions: s.decisions.push(taken) })
        }
    }
}

pub open spec fn empty_merge() -> KernelMerge {
    KernelMerge { args: Seq::empty(), decisions: Seq::empty() }
}

/// Merges the arguments in order, stopping at the first failure.
pub open spec fn merge_all(entries: Seq<KernelEntry>) -> Result<KernelMerge, KernelMergeFailure>
    decreases entries.len(),
{
    if entries.len() == 0 {
        Ok(empty_merge())
    } else {
        match merge_all(entries.drop_last()) {
            Ok(s) => merge_step(s, entries.last()),
            Err(f) => Err(f),
        }
    }
}

pub open spec fn explicit_entry(v: Seq<char>) -> KernelEntry {
    KernelEntry {
        value: v,
        source: DecisionSource::Explicit,
        source_field: "kernel.cmdline"@,
        reason: "declared explicitly in kernel.cmdline"@,
    }
}

pub open spec fn required_entry(a: RequiredKernelArg) -> KernelEntry {
    KernelEntry {
        value: a.value@,
        source: DecisionSource::Dependency,
        source_field: a.source_field@,
        reason: a.reason@,
    }
}

/// The arguments the manifest declares, in order.
pub open spec fn explicit_entries(m: SystemManifest) -> Seq<KernelEntry> {
    sviews(m.kernel.cmdline@).map_values(|v: Seq<char>| explicit_entry(v))
}

/// The arguments to merge: the manifest's, then the graphics policy's.
pub open spec fn kernel_entries(m: SystemManifest, g: ResolvedGraphics) -> Seq<KernelEntry> {
    explicit_entries(m) + g.requirements.kernel_args@.map_values(|a: RequiredKernelArg| required_entry(a))
}

/// The arguments a resolving graphics policy of `m` requires.
pub open spec fn required_kernel_entries(m: SystemManifest) -> Seq<KernelEntry> {
    let g = m.hardware.graphics;
    if uses_proprietary(g) && g.nvidia->Some_0.modeset {
        seq![
            KernelEntry {
                value: "nvidia_drm.modeset=1"@,
                source: DecisionSource::Dependency,
                source_field: "hardware.graphics.nvidia.modeset"@,
                reason: "proprietary NVIDIA DRM modesetting requested"@,
            },
        ]
    } else {
        Seq::empty()
    }
}

/// `r` is the executable form of the merge outcome `o`.
pub open spec fn merged_as(
    r: Result<ResolvedKernelCmdline, KernelCmdlineResolveError>,
    o: Result<KernelMerge, KernelMergeFailure>,
) -> bool {
    match o {
        Ok(s) => r is Ok && cmdline_view(r->Ok_0) == s,
        Err(f) => r is Err && failure_view(r->Err_0) == Some(f),
    }
}

// ---------------------------------------------------------------------------
// Lemmas about the fold.
// ---------------------------------------------------------------------------

proof fn lemma_merge_prefix(entries: Seq<KernelEntry>, i: int)
    requires
        0 <= i < entries.len(),
    ensures
        merge_all(entries.subrange(0, i + 1)) == match merge_all(entries.subrange(0, i)) {
            Ok(s) => merge_step(s, entries[i]),
            Err(f) => Err(f),
        },
{
    let p = entries.subrange(0, i + 1);
    assert(p.drop_last() =~= entries.subrange(0, i));
    assert(p.last() == entries[i]);
}

/// Once the merge of a prefix fails, the whole merge fails the same way.
proof fn lemma_failure_persists(entries: Seq<KernelEntry>, n: int)
    requires
        0 <= n <= entries.len(),
        merge_all(entries.subrange(0, n)) is Err,
    ensures
        merge_all(entries) == merge_all(entries.subrange(0, n)),
    decreases entries.len() - n,
{
    if n == entries.len() {
        assert(entries.subrange(0, n) =~= entries);
    } else {
        lemma_merge_prefix(entries, n);
        lemma_failure_persists(entries, n + 1);
    }
}

/// The key search of a merge step finds the one argument holding the key.
proof fn lemma_unique_holder(args: Seq<KernelEntry>, k: Seq<char>, i: int)
    requires
        distinct_keys(args),
        holds_key(args, k, i),
    ensures
        (choose|j: int| holds_key(args, k, j)) == i,
{
    let j = choose|j: int| holds_key(args, k, j);
    assert(holds_key(args, k, j));
    assert(argument_key(args[i].value) == argument_key(args[j].value));
}

/// What one successful merge step keeps.
proof fn lemma_step_keeps(s: KernelMerge, e: KernelEntry)
    requires
        distinct_keys(s.args),
        merge_step(s, e) is Ok,
    ensures
        distinct_keys(merge_step(s, e)->Ok_0.args),
        merge_step(s, e)->Ok_0.decisions.len() == s.decisions.len() + 1,
        merge_step(s, e)->Ok_0.args.len() >= s.args.len(),
        forall|j: int|
            0 <= j < s.args.len() ==> #[trigger] merge_step(s, e)->Ok_0.args[j] == s.args[j],
        merge_step(s, e)->Ok_0.args.map_values(|a: KernelEntry| a.value).contains(trim(e.value)),
{
    let t = merge_step(s, e)->Ok_0;
    let v = trim(e.value);
    let k = argument_key(v);
    if exists|i: int| holds_key(s.args, k, i) {
        let i = choose|i: int| holds_key(s.args, k, i);
        assert(t.args == s.args);
        assert(t.args.map_values(|a: KernelEntry| a.value)[i] == v);
    } else {
        assert(t.args.map_values(|a: KernelEntry| a.value)[s.args.len() as int] == v);
        assert forall|i: int, j: int|
            0 <= i < t.args.len() && 0 <= j < t.args.len() && i != j implies argument_key(
                #[trigger] t.args[i].value,
            ) != argument_key(#[trigger] t.args[j].value) by {
            if i == s.args.len() {
                assert(!holds_key(s.args, k, j));
            } else if j == s.args.len() {
                assert(!holds_key(s.args, k, i));
            }
        }
    }
}

/// Whatever a successful merge of `entries` yields.
proof fn lemma_merge_facts(entries: Seq<KernelEntry>)
    requires
        merge_all(entries) is Ok,
    ensures
        distinct_keys(merge_all(entries)->Ok_0.args),
        merge_all(entries)->Ok_0.decisions.len() == entries.len(),
        forall|i: int|
            0 <= i < entries.len() ==> merge_all(entries)->Ok_0.args.map_values(
                |a: KernelEntry| a.value,
            ).contains(trim(#[trigger] entries[i].value)),
    decreases entries.len(),
{
    if entries.len() > 0 {
        let prev = entries.drop_last();
        assert(merge_all(prev) is Ok);
        lemma_merge_facts(prev);
        let s = merge_all(prev)->Ok_0;
        lemma_step_keeps(s, entries.last());
        let t = merge_all(entries)->Ok_0;
        assert forall|i: int| 0 <= i < entries.len() implies t.args.map_values(
            |a: KernelEntry| a.value,
        ).contains(trim(#[trigger] entries[i].value)) by {
            if i < entries.len() - 1 {
                assert(prev[i] == entries[i]);
                let w = trim(entries[i].value);
                let vals = s.args.map_values(|a: KernelEntry| a.value);
                assert(vals.contains(w));
                let j = choose|j: int| 0 <= j < vals.len() && #[trigger] vals[j] == w;
                assert(t.args[j] == s.args[j]);
                assert(t.args.map_values(|a: KernelEntry| a.value)[j] == w);
            }
        }
    }
}

/// No two arguments of a merged command line share a key.
pub proof fn lemma_merged_keys_distinct(entries: Seq<KernelEntry>)
    requires
        merge_all(entries) is Ok,
    ensures
        distinct_keys(merge_all(entries)->Ok_0.args),
{
    lemma_merge_facts(entries);
}

/// Every argument handed to a successful merge is recorded by exactly one
/// decision, whether it was taken or dropped as a repeat.
pub proof fn lemma_merged_decision_per_argument(entries: Seq<KernelEntry>)
    requires
        merge_all(entries) is Ok,
    ensures
        merge_all(entries)->Ok_0.decisions.len() == entries.len(),
{
    lemma_merge_facts(entries);
}

/// Every argument handed to a successful merge is on the merged command line,
/// trimmed: a repeated argument is dropped only because it is already there.
pub proof fn lemma_merged_arguments_present(entries: Seq<KernelEntry>, i: int)
    requires
        merge_all(entries) is Ok,
        0 <= i < entries.len(),
    ensures
        merge_all(entries)->Ok_0.args.map_values(|a: KernelEntry| a.value).contains(
            trim(entries[i].value),
        ),
{
    lemma_merge_facts(entries);
    assert(entries[i] == entries[i]);
}

/// Repeating an argument that is already on the merged command line changes
/// no argument: it only adds a decision.
pub proof fn lemma_repeat_is_idempotent(entries: Seq<KernelEntry>, i: int)
    requires
        merge_all(entries) is Ok,
        0 <= i < entries.len(),
    ensures
        merge_all(entries.push(entries[i])) is Ok,
        merge_all(entries.push(entries[i]))->Ok_0.args == merge_all(entries)->Ok_0.args,
{
    lemma_merge_facts(entries);
    let s = merge_all(entries)->Ok_0;
    let e = entries[i];
    let w = entries.push(e);
    assert(w.drop_last() =~= entries);
    assert(w.last() == e);
    let v = trim(e.value);
    let vals = s.args.map_values(|a: KernelEntry| a.value);
    assert(vals.contains(trim(entries[i].value)));
    let j = choose|j: int| 0 <= j < vals.len() && #[trigger] vals[j] == v;
    assert(s.args[j].value == v);
    assert(v.len() > 0) by {
        if v.len() == 0 {
            // an empty argument would have stopped the merge of `entries`
            lemma_empty_fails(entries, i);
        }
    }
    assert(holds_key(s.args, argument_key(v), j));
    lemma_unique_holder(s.args, argument_key(v), j);
}

/// A merge fails if any argument is empty after trimming.
proof fn lemma_empty_fails(entries: Seq<KernelEntry>, i: int)
    requires
        0 <= i < entries.len(),
        trim(entries[i].value).len() == 0,
    ensures
        merge_all(entries) is Err,
{
    lemma_merge_prefix(entries, i);
    assert(merge_all(entries.subrange(0, i + 1)) is Err);
    lemma_failure_persists(entries, i + 1);
}

// ---------------------------------------------------------------------------
// The executable merge.
// ---------------------------------------------------------------------------

/// `keys[i]` is the key of `args[i]`.
pub open spec fn keys_match(keys: Seq<Vec<char>>, args: Seq<ResolvedKernelArg>) -> bool {
    &&& keys.len() == args.len()
    &&& forall|i: int| 0 <= i < keys.len() ==> #[trigger] keys[i]@ == argument_key(args[i].value@)
}

/// The key of an argument.
fn key_of(v: &Vec<char>) -> (r: Vec<char>)
    ensures
        r@ == argument_key(v@),
{
    match find_char(v, '=') {
        Some(i) => {
            proof {
                let j = choose|j: int| first_index_of(v@, '=', j);
                assert(first_index_of(v@, '=', j));
                if j < i {
                    assert(v@[j] == '=');
                } else if i < j {
                    assert(v@[i as int] == '=');
                }
            }
            slice(v, 0, i)
        },
        None => {
            assert(v@.subrange(0, v.len() as int) =~= v@);
            slice(v, 0, v.len())
        },
    }
}

/// Index of the key `key` in `keys`.
fn find_key(keys: &Vec<Vec<char>>, key: &Vec<char>) -> (r: Option<usize>)
    ensures
        match r {
            Some(i) => i < keys.len() && keys@[i as int]@ == key@,
            None => forall|k: int| 0 <= k < keys.len() ==> #[trigger] keys@[k]@ != key@,
        },
{
    let mut i: usize = 0;
    while i < keys.len()
        invariant
            i <= keys.len(),
            forall|k: int| 0 <= k < i ==> #[trigger] keys@[k]@ != key@,
        decreases keys.len() - i,
    {
        if seq_eq(&keys[i], key) {
            return Some(i);
        }
        i = i + 1;
    }
    None
}

/// Merges one argument into `resolved`, keeping `keys` in step.
fn merge_arg(
    resolved: &mut ResolvedKernelCmdline,
    keys: &mut Vec<Vec<char>>,
    value: &str,
    source: DecisionSource,
    source_field: &str,
    reason: &str,
) -> (r: Result<(), KernelCmdlineResolveError>)
    requires
        keys_match(old(keys)@, old(resolved).args@),
        distinct_keys(cmdline_view(*old(resolved)).args),
    ensures
        ({
            let o = merge_step(
                cmdline_view(*old(resolved)),
                KernelEntry {
                    value: value@,
                    source: source,
                    source_field: source_field@,
                    reason: reason@,
                },
            );
            match r {
                Ok(_) => o == Ok::<KernelMerge, KernelMergeFailure>(cmdline_view(*final(resolved))),
                Err(e) => o is Err && failure_view(e) == Some(o->Err_0),
            }
        }),
        r is Ok ==> keys_match(final(keys)@, final(resolved).args@),
        r is Ok ==> distinct_keys(cmdline_view(*final(resolved)).args),
{
    let ghost s = cmdline_view(*resolved);
    let ghost e = KernelEntry {
        value: value@,
        source: source,
        source_field: source_field@,
        reason: reason@,
    };
    let t = trim_str(value);
    if t.len() == 0 {
        return Err(
            KernelCmdlineResolveError::EmptyArgument { source_field: source_field.to_owned() },
        );
    }
    let key = key_of(&t);
    let tv = string_of(&t);
    match find_key(keys, &key) {
        Some(i) => {
            proof {
                assert(s.args[i as int] == arg_entry(resolved.args@[i as int]));
                assert(holds_key(s.args, key@, i as int));
                lemma_unique_holder(s.args, key@, i as int);
            }
            let existing_value = chars_of(resolved.args[i].value.as_str());
            if !seq_eq(&existing_value, &t) {
                return Err(
                    KernelCmdlineResolveError::Conflict {
                        key: string_of(&key),
                        existing: resolved.args[i].value.clone(),
                        existing_source: resolved.args[i].source_field.clone(),
                        incoming: tv,
                        incoming_source: source_field.to_owned(),
                    },
                );
            }
            let mut why: Vec<char> = Vec::new();
            push_str(&mut why, "deduplicated identical argument; first supplied by ");
            push_str(&mut why, resolved.args[i].source_field.as_str());
            let d = KernelDecision {
                value: tv,
                source: source,
                source_field: source_field.to_owned(),
                reason: string_of(&why),
            };
            resolved.decisions.push(d);
            proof {
                let o = merge_step(s, e)->Ok_0;
                assert(cmdline_view(*resolved).args =~= o.args);
                assert(cmdline_view(*resolved).decisions =~= o.decisions);
            }
            Ok(())
        },
        None => {
            proof {
                assert forall|j: int| !holds_key(s.args, key@, j) by {
                    if 0 <= j < s.args.len() {
                        assert(keys@[j]@ != key@);
                        assert(s.args[j] == arg_entry(resolved.args@[j]));
                    }
                }
            }
            let a = ResolvedKernelArg {
                value: string_of(&t),
                source: source,
                source_field: source_field.to_owned(),
                reason: reason.to_owned(),
            };
            let d = KernelDecision {
                value: tv,
                source: source,
                source_field: source_field.to_owned(),
                reason: reason.to_owned(),
            };
            let ghost old_keys = keys@;
            keys.push(key);
            resolved.args.push(a);
            resolved.decisions.push(d);
            proof {
                let o = merge_step(s, e)->Ok_0;
                assert(cmdline_view(*resolved).args =~= o.args);
                assert(cmdline_view(*resolved).decisions =~= o.decisions);
                lemma_step_keeps(s, e);
                assert forall|k: int| 0 <= k < keys@.len() implies #[trigger] keys@[k]@
                    == argument_key(resolved.args@[k].value@) by {
                    if k < old_keys.len() {
                        assert(keys@[k] == old_keys[k]);
                    }
                }
            }
            Ok(())
        },
    }
}

/// Merges the manifest's arguments with those `graphics` requires.
pub fn resolve_kernel_cmdline_with_graphics(
    manifest: &SystemManifest,
    graphics: &ResolvedGraphics,
) -> (r: Result<ResolvedKernelCmdline, KernelCmdlineResolveError>)
    ensures
        merged_as(r, merge_all(kernel_entries(*manifest, *graphics))),
{
    let mut resolved = ResolvedKernelCmdline::default();
    let mut keys: Vec<Vec<char>> = Vec::new();
    let ghost entries = kernel_entries(*manifest, *graphics);
    let ghost n1 = manifest.kernel.cmdline@.len();
    assert(cmdline_view(resolved).args =~= empty_merge().args);
    assert(cmdline_view(resolved).decisions =~= empty_merge().decisions);
    assert(entries.subrange(0, 0) =~= Seq::<KernelEntry>::empty());
    let cmdline = &manifest.kernel.cmdline;
    let mut i: usize = 0;
    while i < cmdline.len()
        invariant
            i <= cmdline.len(),
            cmdline@ == manifest.kernel.cmdline@,
            entries == kernel_entries(*manifest, *graphics),
            keys_match(keys@, resolved.args@),
            distinct_keys(cmdline_view(resolved).args),
            merge_all(entries.subrange(0, i as int)) == Ok::<KernelMerge, KernelMergeFailure>(
                cmdline_view(resolved),
            ),
        decreases cmdline.len() - i,
    {
        proof {
            lemma_merge_prefix(entries, i as int);
            assert(entries[i as int] == explicit_entry(cmdline@[i as int]@));
        }
        let step = merge_arg(
            &mut resolved,
            &mut keys,
            cmdline[i].as_str(),
            DecisionSource::Explicit,
            "kernel.cmdline",
            "declared explicitly in kernel.cmdline",
        );
        match step {
            Err(err) => {
                proof {
                    lemma_failure_persists(entries, i + 1);
                }
                return Err(err);
            },
            Ok(_) => {},
        }
        i = i + 1;
    }
    let required = &graphics.requirements.kernel_args;
    let mut j: usize = 0;
    while j < required.len()
        invariant
            j <= required.len(),
            i == manifest.kernel.cmdline@.len(),
            required@ == graphics.requirements.kernel_args@,
            entries == kernel_entries(*manifest, *graphics),
            keys_match(keys@, resolved.args@),
            distinct_keys(cmdline_view(resolved).args),
            merge_all(entries.subrange(0, i + j)) == Ok::<KernelMerge, KernelMergeFailure>(
                cmdline_view(resolved),
            ),
        decreases required.len() - j,
    {
        proof {
            lemma_merge_prefix(entries, i + j);
            assert(entries[i + j] == required_entry(required@[j as int]));
        }
        let arg = &required[j];
        let step = merge_arg(
            &mut resolved,
            &mut keys,
            arg.value.as_str(),
            DecisionSource::Dependency,
            arg.source_field.as_str(),
            arg.reason.as_str(),
        );
        match step {
            Err(err) => {
                proof {
                    lemma_failure_persists(entries, i + j + 1);
                }
                return Err(err);
            },
            Ok(_) => {},
        }
        j = j + 1;
    }
    assert(entries.subrange(0, i + j) =~= entries);
    Ok(resolved)
}

/// The manifest's arguments merged with those its graphics policy requires:
/// a graphics error when the policy does not resolve.
pub fn resolve_kernel_cmdline(manifest: &SystemManifest) -> (r: Result<
    ResolvedKernelCmdline,
    KernelCmdlineResolveError,
>)
    ensures
        match graphics_failure(*manifest) {
            Some(msg) => r is Err && r->Err_0 is Graphics && is_invalid(r->Err_0->Graphics_0, msg),
            None => merged_as(r, merge_all(explicit_entries(*manifest) + required_kernel_entries(*manifest))),
        },
{
    match manifest.resolved_graphics() {
        Err(e) => Err(KernelCmdlineResolveError::Graphics(e)),
        Ok(g) => {
            proof {
                let ka = g.requirements.kernel_args@;
                let mapped = ka.map_values(|a: RequiredKernelArg| required_entry(a));
                let want = required_kernel_entries(*manifest);
                assert(crate::graphics::kernel_arg_rows(ka).len() == ka.len());
                if want.len() == 1 {
                    assert(crate::graphics::kernel_arg_rows(ka)[0] == crate::graphics::kernel_arg_row(ka[0]));
                }
                assert(mapped =~= want);
            }
            resolve_kernel_cmdline_with_graphics(manifest, &g)
        },
    }
}

impl SystemManifest {
    /// See [`resolve_kernel_cmdline`].
    pub fn resolved_kernel_cmdline(&self) -> (r: Result<ResolvedKernelCmdline, KernelCmdlineResolveError>)
        ensures
            match graphics_failure(*self) {
                Some(msg) => r is Err && r->Err_0 is Graphics && is_invalid(r->Err_0->Graphics_0, msg),
                None => merged_as(r, merge_all(explicit_entries(*self) + required_kernel_entries(*self))),
            },
    {
        resolve_kernel_cmdline(self)
    }
}

// ---------------------------------------------------------------------------
// Rendering.
// ---------------------------------------------------------------------------

pub open spec fn entry_line(head: Seq<char>, e: KernelEntry) -> Seq<char> {
    head + e.value + "\n      source: "@ + source_label(e.source) + " ("@ + e.source_field
        + ")\n      reason: "@ + e.reason
}

/// The report lines of the decisions that dropped a repeated argument.
pub open spec fn merge_lines(ds: Seq<KernelEntry>) -> Seq<Seq<char>>
    decreases ds.len(),
{
    if ds.len() == 0 {
        Seq::empty()
    } else {
        merge_lines(ds.drop_last()) + if starts_with(ds.last().reason, "deduplicated"@) {
            seq![entry_line("kernel merge: "@, ds.last())]
        } else {
            Seq::<Seq<char>>::empty()
        }
    }
}

pub open spec fn cmdline_text(m: KernelMerge) -> Seq<char> {
    if m.args.len() == 0 {
        "kernel command line: no policy arguments"@
    } else {
        join(
            m.args.map_values(|a: KernelEntry| entry_line("kernel argument: "@, a)) + merge_lines(
                m.decisions,
            ),
            "\n    "@,
        )
    }
}

pub open spec fn kernel_error_text(e: KernelCmdlineResolveError) -> Seq<char> {
    match e {
        KernelCmdlineResolveError::Graphics(g) => graphics_error_text(g),
        KernelCmdlineResolveError::EmptyArgument { source_field } => "invalid kernel command line: argument from "@
            + source_field@ + " is empty"@,
        KernelCmdlineResolveError::Conflict {
            key,
            existing,
            existing_source,
            incoming,
            incoming_source,
        } => "conflicting kernel arguments for `"@ + key@ + "`: `"@ + existing@ + "` from "@
            + existing_source@ + " conflicts with `"@ + incoming@ + "` from "@ + incoming_source@,
    }
}

impl KernelCmdlineResolveError {
    /// The human-readable error message.
    pub fn message(&self) -> (r: String)
        ensures
            r@ == kernel_error_text(*self),
    {
        match self {
            KernelCmdlineResolveError::Graphics(g) => g.message(),
            KernelCmdlineResolveError::EmptyArgument { source_field } => {
                let mut v: Vec<char> = Vec::new();
                push_str(&mut v, "invalid kernel command line: argument from ");
                push_str(&mut v, source_field.as_str());
                push_str(&mut v, " is empty");
                string_of(&v)
            },
            KernelCmdlineResolveError::Conflict {
                key,
                existing,
                existing_source,
                incoming,
                incoming_source,
            } => {
                let mut v: Vec<char> = Vec::new();
                push_str(&mut v, "conflicting kernel arguments for `");
                push_str(&mut v, key.as_str());
                push_str(&mut v, "`: `");
                push_str(&mut v, existing.as_str());
                push_str(&mut v, "` from ");
                push_str(&mut v, existing_source.as_str());
                push_str(&mut v, " conflicts with `");
                push_str(&mut v, incoming.as_str());
                push_str(&mut v, "` from ");
                push_str(&mut v, incoming_source.as_str());
                string_of(&v)
            },
        }
    }
}

fn entry_text(head: &str, value: &str, source: DecisionSource, source_field: &str, reason: &str) -> (r: Vec<
    char,
>)
    ensures
        r@ == entry_line(
            head@,
            KernelEntry {
                value: value@,
                source: source,
                source_field: source_field@,
                reason: reason@,
            },
        ),
{
    let mut v: Vec<char> = Vec::new();
    push_str(&mut v, head);
    push_str(&mut v, value);
    push_str(&mut v, "\n      source: ");
    push_str(&mut v, source.label());
    push_str(&mut v, " (");
    push_str(&mut v, source_field);
    push_str(&mut v, ")\n      reason: ");
    push_str(&mut v, reason);
    v
}

/// The argument values of a merged command line, in order.
pub open spec fn cmdline_values(k: ResolvedKernelCmdline) -> Seq<Seq<char>> {
    k.args@.map_values(|a: ResolvedKernelArg| a.value@)
}

impl ResolvedKernelCmdline {
    /// The argument values, in command-line order.
    pub fn values(&self) -> (r: Vec<&str>)
        ensures
            r@.len() == self.args@.len(),
            forall|i: int| 0 <= i < r@.len() ==> #[trigger] r@[i]@ == self.args@[i].value@,
    {
        let mut out: Vec<&str> = Vec::new();
        let mut i: usize = 0;
        while i < self.args.len()
            invariant
                i <= self.args.len(),
                out@.len() == i,
                forall|k: int| 0 <= k < i ==> #[trigger] out@[k]@ == self.args@[k].value@,
            decreases self.args.len() - i,
        {
            out.push(self.args[i].value.as_str());
            i = i + 1;
        }
        out
    }

    /// A human-readable report of the merged command line.
    pub fn render(&self) -> (r: String)
        ensures
            r@ == cmdline_text(cmdline_view(*self)),
    {
        if self.args.len() == 0 {
            return "kernel command line: no policy arguments".to_owned();
        }
        let ghost m = cmdline_view(*self);
        let mut lines: Vec<Vec<char>> = Vec::new();
        let mut i: usize = 0;
        while i < self.args.len()
            invariant
                i <= self.args.len(),
                m == cmdline_view(*self),
                vviews(lines@) == m.args.subrange(0, i as int).map_values(
                    |a: KernelEntry| entry_line("kernel argument: "@, a),
                ),
            decreases self.args.len() - i,
        {
            let a = &self.args[i];
            let line = entry_text(
                "kernel argument: ",
                a.value.as_str(),
                a.source,
                a.source_field.as_str(),
                a.reason.as_str(),
            );
            let ghost before = vviews(lines@);
            lines.push(line);
            i = i + 1;
            proof {
                assert(m.args[i - 1] == arg_entry(self.args@[i - 1]));
                assert(vviews(lines@) =~= before.push(entry_line("kernel argument: "@, m.args[i - 1])));
                assert(m.args.subrange(0, i as int).map_values(
                    |a: KernelEntry| entry_line("kernel argument: "@, a),
                ) =~= m.args.subrange(0, i - 1).map_values(
                    |a: KernelEntry| entry_line("kernel argument: "@, a),
                ).push(entry_line("kernel argument: "@, m.args[i - 1])));
            }
        }
        assert(m.args.subrange(0, self.args.len() as int) =~= m.args);
        let ghost l0 = vviews(lines@);
        let mut k: usize = 0;
        assert(m.decisions.subrange(0, 0) =~= Seq::<KernelEntry>::empty());
        assert(l0 + Seq::<Seq<char>>::empty() =~= l0);
        while k < self.decisions.len()
            invariant
                k <= self.decisions.len(),
                m == cmdline_view(*self),
                vviews(lines@) == l0 + merge_lines(m.decisions.subrange(0, k as int)),
            decreases self.decisions.len() - k,
        {
            let d = &self.decisions[k];
            let ghost before = vviews(lines@);
            let ghost sub = m.decisions.subrange(0, k + 1);
            proof {
                assert(sub.drop_last() =~= m.decisions.subrange(0, k as int));
                assert(sub.last() == decision_entry(self.decisions@[k as int]));
            }
            let reason = chars_of(d.reason.as_str());
            if crate::text::has_prefix(&reason, "deduplicated") {
                let line = entry_text(
                    "kernel merge: ",
                    d.value.as_str(),
                    d.source,
                    d.source_field.as_str(),
                    d.reason.as_str(),
                );
                lines.push(line);
                assert(vviews(lines@) =~= before.push(entry_line("kernel merge: "@, sub.last())));
            } else {
                assert(before + Seq::<Seq<char>>::empty() =~= before);
            }
            k = k + 1;
            assert(vviews(lines@) =~= l0 + merge_lines(m.decisions.subrange(0, k as int)));
        }
        assert(m.decisions.subrange(0, self.decisions.len() as int) =~= m.decisions);
        let j = join_chars(&lines, "\n    ");
        string_of(&j)
    }
}

} // verus!
