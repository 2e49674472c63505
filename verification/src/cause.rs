//! Walking error `source()` chains with a depth limit and cycle detection.
//!
//! The errors themselves live outside the library; what the walk reads of
//! them is held in an [`ErrorGraph`]: for each error its message, its
//! identity (the address that tells two errors apart) and which error its
//! `source()` returns.

use vstd::prelude::*;
use crate::config::CauseCollectOptions;

verus! {

/// Flags observed while collecting causes.
#[derive(Debug, Clone, Copy, PartialEq, Eq, Structural)]
pub struct CauseTraversalState {
    /// The depth limit stopped the walk.
    pub truncated: bool,
    /// An error was met a second time and the walk stopped.
    pub cycle_detected: bool,
}

impl CauseTraversalState {
    /// Neither flag set.
    pub fn new() -> (r: Self)
        ensures
            !r.truncated,
            !r.cycle_detected,
    {
        CauseTraversalState { truncated: false, cycle_detected: false }
    }

    /// Adds the flags of `other` to these.
    pub fn merge_from(&mut self, other: Self)
        ensures
            final(self).truncated == (old(self).truncated || other.truncated),
            final(self).cycle_detected == (old(self).cycle_detected || other.cycle_detected),
    {
        self.truncated = self.truncated || other.truncated;
        self.cycle_detected = self.cycle_detected || other.cycle_detected;
    }
}

/// Merging never clears a flag, and merging the same state twice changes
/// nothing more than merging it once.
pub proof fn lemma_merge_monotone(a: CauseTraversalState, b: CauseTraversalState)
    ensures
        (a.truncated ==> (a.truncated || b.truncated)),
        (a.cycle_detected ==> (a.cycle_detected || b.cycle_detected)),
        ((a.truncated || b.truncated) || b.truncated) == (a.truncated || b.truncated),
        ((a.cycle_detected || b.cycle_detected) || b.cycle_detected) == (a.cycle_detected || b.cycle_detected),
{
}

/// One error as the walk sees it.
#[derive(Debug)]
pub struct ErrorNode {
    /// Its `Display` text.
    pub message: String,
    /// The address that identifies it.
    pub identity: usize,
    /// Which node its `source()` returns.
    pub source: Option<usize>,
}

/// A set of errors linked by their `source()`.
#[derive(Debug)]
pub struct ErrorGraph {
    pub nodes: Vec<ErrorNode>,
}

/// The node a walk reaches after `e`: its source, when that names a node.
pub open spec fn source_of(g: ErrorGraph, e: usize) -> Option<usize> {
    if e < g.nodes@.len() {
        match g.nodes@[e as int].source {
            Some(s) => if s < g.nodes@.len() { Some(s) } else { None },
            None => None,
        }
    } else {
        None
    }
}

impl ErrorGraph {
    /// The node `e`'s source, when it names a node of the graph.
    pub fn source_of(&self, e: usize) -> (r: Option<usize>)
        ensures
            r == source_of(*self, e),
    {
        if e < self.nodes.len() {
            match self.nodes[e].source {
                Some(s) => if s < self.nodes.len() { Some(s) } else { None },
                None => None,
            }
        } else {
            None
        }
    }
}

/// The addresses seen so far: the first eight inline, the rest spilled.
pub struct SeenErrorAddrs {
    inline: Vec<usize>,
    spill: Vec<usize>,
}

impl SeenErrorAddrs {
    /// Every address recorded.
    pub closed spec fn seen(&self) -> Seq<usize> {
        self.inline@ + self.spill@
    }

    /// Whether at most eight addresses sit inline.
    pub closed spec fn wf(&self) -> bool {
        self.inline@.len() <= 8
    }

    /// No address recorded.
    pub fn new() -> (r: Self)
        ensures
            r.wf(),
            r.seen().len() == 0,
    {
        SeenErrorAddrs { inline: Vec::new(), spill: Vec::new() }
    }

    /// Whether `addr` was recorded.
    pub fn contains(&self, addr: usize) -> (r: bool)
        ensures
            r == self.seen().contains(addr),
    {
        let mut i: usize = 0;
        while i < self.inline.len()
            invariant
                i <= self.inline@.len(),
                forall|j: int| 0 <= j < i ==> self.inline@[j] != addr,
            decreases self.inline@.len() - i,
        {
            if self.inline[i] == addr {
                assert(self.seen()[i as int] == addr);
                return true;
            }
            i = i + 1;
        }
        let mut k: usize = 0;
        while k < self.spill.len()
            invariant
                k <= self.spill@.len(),
                forall|j: int| 0 <= j < self.inline@.len() ==> self.inline@[j] != addr,
                forall|j: int| 0 <= j < k ==> self.spill@[j] != addr,
            decreases self.spill@.len() - k,
        {
            if self.spill[k] == addr {
                assert(self.seen()[self.inline@.len() + k] == addr);
                return true;
            }
            k = k + 1;
        }
        proof {
            assert forall|j: int| 0 <= j < self.seen().len() implies self.seen()[j] != addr by {
                if j < self.inline@.len() {
                } else {
                    assert(self.seen()[j] == self.spill@[j - self.inline@.len()]);
                }
            }
        }
        false
    }

    /// Records `addr`; `true` when it was not recorded before.
    pub fn insert(&mut self, addr: usize) -> (r: bool)
        requires
            old(self).wf(),
        ensures
            final(self).wf(),
            r == !old(self).seen().contains(addr),
            forall|x: usize| final(self).seen().contains(x) <==> (old(self).seen().contains(x) || x == addr),
    {
        if self.contains(addr) {
            return false;
        }
        let ghost before = self.seen();
        if self.inline.len() < 8 {
            self.inline.push(addr);
            proof {
                assert forall|x: usize| self.seen().contains(x) <==> (before.contains(x) || x == addr) by {
                    if self.seen().contains(x) {
                        let j = choose|j: int| 0 <= j < self.seen().len() && self.seen()[j] == x;
                        if j < self.inline@.len() - 1 {
                            assert(before[j] == x);
                        } else if j == self.inline@.len() - 1 {
                        } else {
                            assert(before[j - 1] == x);
                        }
                    }
                    if before.contains(x) {
                        let j = choose|j: int| 0 <= j < before.len() && before[j] == x;
                        if j < self.inline@.len() - 1 {
                            assert(self.seen()[j] == x);
                        } else {
                            assert(self.seen()[j + 1] == x);
                        }
                    }
                    if x == addr {
                        assert(self.seen()[self.inline@.len() - 1] == x);
                    }
                }
            }
        } else {
            self.spill.push(addr);
            proof {
                assert(self.seen() =~= before.push(addr));
                assert forall|x: usize| self.seen().contains(x) <==> (before.contains(x) || x == addr) by {
                    if self.seen().contains(x) {
                        let j = choose|j: int| 0 <= j < self.seen().len() && self.seen()[j] == x;
                        if j < before.len() {
                            assert(before[j] == x);
                        }
                    }
                    if before.contains(x) {
                        let j = choose|j: int| 0 <= j < before.len() && before[j] == x;
                        assert(self.seen()[j] == x);
                    }
                    if x == addr {
                        assert(self.seen()[before.len() as int] == x);
                    }
                }
            }
        }
        true
    }
}

/// Messages collected from an error chain, with the traversal flags.
pub struct CauseCollection {
    pub messages: Vec<String>,
    pub truncated: bool,
    pub cycle_detected: bool,
}

/// The texts of a list of messages.
pub open spec fn messages_view(m: Seq<String>) -> Seq<Seq<char>> {
    m.map_values(|x: String| x@)
}

/// What a walk of the chain starting at `start` collects: the state after
/// it, as (messages, depth, seen identities, truncated, cycle detected).
pub open spec fn chain_walk(
    g: ErrorGraph,
    start: Option<usize>,
    options: CauseCollectOptions,
    messages: Seq<Seq<char>>,
    depth: nat,
    seen: Set<usize>,
    truncated: bool,
    cycle: bool,
) -> (Seq<Seq<char>>, nat, Set<usize>, bool, bool)
    decreases options.max_depth - depth,
{
    match start {
        None => (messages, depth, seen, truncated, cycle),
        Some(e) => {
            if e >= g.nodes@.len() {
                (messages, depth, seen, truncated, cycle)
            } else if depth >= options.max_depth {
                (messages, depth, seen, true, cycle)
            } else if options.detect_cycle && seen.contains(g.nodes@[e as int].identity) {
                (messages, depth, seen, truncated, true)
            } else {
                chain_walk(
                    g,
                    source_of(g, e),
                    options,
                    messages.push(g.nodes@[e as int].message@),
                    depth + 1,
                    if options.detect_cycle { seen.insert(g.nodes@[e as int].identity) } else { seen },
                    truncated,
                    cycle,
                )
            }
        },
    }
}

/// The set of identities a seen-address record holds.
pub open spec fn seen_set(s: &SeenErrorAddrs) -> Set<usize> {
    Set::new(|x: usize| s.seen().contains(x))
}

/// Collects the messages of the chain from `start`: it stops at the depth
/// limit (setting `truncated`) or, with cycle detection, at an error already
/// seen (setting `cycle_detected`).
pub fn collect_error_chain(
    graph: &ErrorGraph,
    start: Option<usize>,
    options: CauseCollectOptions,
    state: &mut CauseCollection,
    depth: &mut usize,
    seen: &mut SeenErrorAddrs,
)
    requires
        old(seen).wf(),
    ensures
        final(seen).wf(),
        ({
            let (m, d, s, t, c) = chain_walk(*graph, start, options, messages_view(old(state).messages@),
                *old(depth) as nat, seen_set(old(seen)), old(state).truncated, old(state).cycle_detected);
            &&& messages_view(final(state).messages@) == m
            &&& *final(depth) == d
            &&& seen_set(final(seen)) == s
            &&& final(state).truncated == t
            &&& final(state).cycle_detected == c
        }),
{
    let mut current = start;
    let ghost target = chain_walk(*graph, start, options, messages_view(state.messages@),
        *depth as nat, seen_set(seen), state.truncated, state.cycle_detected);
    loop
        invariant
            seen.wf(),
            target == chain_walk(*graph, current, options, messages_view(state.messages@),
                *depth as nat, seen_set(seen), state.truncated, state.cycle_detected),
        ensures
            seen.wf(),
            target == (messages_view(state.messages@), *depth as nat, seen_set(seen),
                state.truncated, state.cycle_detected),
        decreases (if *depth <= options.max_depth { options.max_depth - *depth } else { 0 }),
    {
        let e = match current {
            None => break,
            Some(e) => e,
        };
        if e >= graph.nodes.len() {
            break;
        }
        if *depth >= options.max_depth {
            state.truncated = true;
            break;
        }
        let identity = graph.nodes[e].identity;
        if options.detect_cycle {
            let ghost before = seen_set(seen);
            let fresh = seen.insert(identity);
            proof {
                assert(seen_set(seen) =~= before.insert(identity));
            }
            if !fresh {
                proof {
                    assert(seen_set(seen) =~= before);
                }
                state.cycle_detected = true;
                break;
            }
        }
        let ghost old_msgs = state.messages@;
        state.messages.push(graph.nodes[e].message.clone());
        proof {
            assert(messages_view(state.messages@) =~= messages_view(old_msgs).push(graph.nodes@[e as int].message@));
        }
        *depth = *depth + 1;
        current = graph.source_of(e);
    }
}

/// The stage of a source-error iteration.
#[derive(Debug, Clone, Copy, PartialEq, Eq, Structural)]
pub enum SourceErrorIterStage {
    /// Walking the explicitly attached source errors and their chains.
    Attached,
    /// Walking the `source()` chain of the report's own error.
    Inner,
    /// Finished.
    Done,
}

/// Iterator over the source errors of a report: first each attached source
/// error followed by its `source()` chain, then the chain of the report's own
/// error. One depth counter and one seen-set span the whole walk; once the
/// depth limit or a repeated error stops it, it stays stopped.
pub struct ReportSourceErrorIter {
    graph: ErrorGraph,
    source_errors: Vec<usize>,
    next_attached: usize,
    root_source: Option<usize>,
    current: Option<usize>,
    stage: SourceErrorIterStage,
    depth: usize,
    options: CauseCollectOptions,
    seen: SeenErrorAddrs,
    state: CauseTraversalState,
}

/// The plain state of a source-error iteration.
pub struct IterModel {
    pub attached: Seq<usize>,
    pub next_attached: int,
    pub root_source: Option<usize>,
    pub current: Option<usize>,
    pub stage: SourceErrorIterStage,
    pub depth: int,
    pub seen: Set<usize>,
    pub state: CauseTraversalState,
}

pub open spec fn stage_rank(s: SourceErrorIterStage) -> nat {
    match s {
        SourceErrorIterStage::Attached => 2,
        SourceErrorIterStage::Inner => 1,
        SourceErrorIterStage::Done => 0,
    }
}

/// Visiting error `e`: stop at the depth limit or at an error seen before,
/// else yield `e` and continue with its source.
pub open spec fn iter_visit(g: ErrorGraph, opts: CauseCollectOptions, m: IterModel, e: usize) -> (IterModel, Option<usize>) {
    if e >= g.nodes@.len() {
        (IterModel { stage: SourceErrorIterStage::Done, ..m }, None)
    } else if m.depth >= opts.max_depth {
        (IterModel { stage: SourceErrorIterStage::Done, state: CauseTraversalState { truncated: true, ..m.state }, ..m }, None)
    } else if opts.detect_cycle && m.seen.contains(g.nodes@[e as int].identity) {
        (IterModel { stage: SourceErrorIterStage::Done, state: CauseTraversalState { cycle_detected: true, ..m.state }, ..m }, None)
    } else {
        (IterModel {
            seen: if opts.detect_cycle { m.seen.insert(g.nodes@[e as int].identity) } else { m.seen },
            current: source_of(g, e),
            depth: m.depth + 1,
            ..m
        }, Some(e))
    }
}

/// One step of the iteration: the next state and the error yielded.
pub open spec fn iter_next(g: ErrorGraph, opts: CauseCollectOptions, m: IterModel) -> (IterModel, Option<usize>)
    decreases stage_rank(m.stage),
{
    if m.state.truncated || m.state.cycle_detected {
        (IterModel { stage: SourceErrorIterStage::Done, ..m }, None)
    } else {
        match m.current {
            Some(e) => iter_visit(g, opts, IterModel { current: None, ..m }, e),
            None => match m.stage {
                SourceErrorIterStage::Attached => {
                    if 0 <= m.next_attached < m.attached.len() {
                        iter_visit(g, opts, IterModel { next_attached: m.next_attached + 1, ..m }, m.attached[m.next_attached])
                    } else {
                        iter_next(g, opts, IterModel { stage: SourceErrorIterStage::Inner, ..m })
                    }
                },
                SourceErrorIterStage::Inner => match m.root_source {
                    None => (IterModel { stage: SourceErrorIterStage::Done, ..m }, None),
                    Some(e) => iter_visit(g, opts, IterModel { root_source: None, ..m }, e),
                },
                SourceErrorIterStage::Done => (m, None),
            },
        }
    }
}

/// The state of an iteration that has not started.
pub open spec fn iter_start(attached: Seq<usize>, root_source: Option<usize>) -> IterModel {
    IterModel {
        attached: attached,
        next_attached: 0,
        root_source: root_source,
        current: None,
        stage: SourceErrorIterStage::Attached,
        depth: 0,
        seen: Set::empty(),
        state: CauseTraversalState { truncated: false, cycle_detected: false },
    }
}

impl ReportSourceErrorIter {
    /// The plain state of the iteration.
    pub closed spec fn model(&self) -> IterModel {
        IterModel {
            attached: self.source_errors@,
            next_attached: self.next_attached as int,
            root_source: self.root_source,
            current: self.current,
            stage: self.stage,
            depth: self.depth as int,
            seen: seen_set(&self.seen),
            state: self.state,
        }
    }

    /// The errors the iteration reads.
    pub closed spec fn graph(&self) -> ErrorGraph {
        self.graph
    }

    /// The options the iteration runs with.
    pub closed spec fn options(&self) -> CauseCollectOptions {
        self.options
    }

    /// Internal consistency: the seen record is well formed and the depth
    /// never passes the limit.
    pub closed spec fn wf(&self) -> bool {
        &&& self.seen.wf()
        &&& self.depth <= self.options.max_depth
        &&& self.next_attached <= self.source_errors@.len()
    }

    /// An iteration over the attached errors `source_errors`, then the chain
    /// from `root_source`, in `graph`.
    pub fn new(graph: ErrorGraph, source_errors: Vec<usize>, root_source: Option<usize>, options: CauseCollectOptions) -> (r: Self)
        ensures
            r.wf(),
            r.graph() == graph,
            r.options() == options,
            r.model() == iter_start(source_errors@, root_source),
    {
        let r = ReportSourceErrorIter {
            graph,
            source_errors,
            next_attached: 0,
            root_source,
            current: None,
            stage: SourceErrorIterStage::Attached,
            depth: 0,
            options,
            seen: SeenErrorAddrs::new(),
            state: CauseTraversalState::new(),
        };
        proof {
            assert(seen_set(&r.seen) =~= Set::<usize>::empty());
        }
        r
    }

    /// The flags observed so far.
    pub fn state(&self) -> (r: CauseTraversalState)
        ensures
            r == self.model().state,
    {
        self.state
    }

    /// The message of node `e`, when it is one of the graph's nodes.
    pub fn message(&self, e: usize) -> (r: Option<&String>)
        ensures
            e < self.graph().nodes@.len() ==> r == Some(&self.graph().nodes@[e as int].message),
            e >= self.graph().nodes@.len() ==> r is None,
    {
        if e < self.graph.nodes.len() {
            Some(&self.graph.nodes[e].message)
        } else {
            None
        }
    }

    fn visit(&mut self, e: usize) -> (r: Option<usize>)
        requires
            old(self).wf(),
        ensures
            final(self).wf(),
            final(self).graph() == old(self).graph(),
            final(self).options() == old(self).options(),
            (final(self).model(), r) == iter_visit(old(self).graph(), old(self).options(), old(self).model(), e),
    {
        if e >= self.graph.nodes.len() {
            self.stage = SourceErrorIterStage::Done;
            return None;
        }
        if self.depth >= self.options.max_depth {
            self.state.truncated = true;
            self.stage = SourceErrorIterStage::Done;
            return None;
        }
        if self.options.detect_cycle {
            let identity = self.graph.nodes[e].identity;
            let ghost before = seen_set(&self.seen);
            let fresh = self.seen.insert(identity);
            if !fresh {
                proof {
                    assert(seen_set(&self.seen) =~= before);
                }
                self.state.cycle_detected = true;
                self.stage = SourceErrorIterStage::Done;
                return None;
            }
            proof {
                assert(seen_set(&self.seen) =~= before.insert(identity));
            }
        }
        self.current = self.graph.source_of(e);
        self.depth = self.depth + 1;
        Some(e)
    }

    /// The next source error, as a node of the graph.
    pub fn next(&mut self) -> (r: Option<usize>)
        requires
            old(self).wf(),
        ensures
            final(self).wf(),
            final(self).graph() == old(self).graph(),
            final(self).options() == old(self).options(),
            (final(self).model(), r) == iter_next(old(self).graph(), old(self).options(), old(self).model()),
    {
        proof {
            reveal_with_fuel(iter_next, 2);
        }
        if self.state.truncated || self.state.cycle_detected {
            self.stage = SourceErrorIterStage::Done;
            return None;
        }
        match self.current {
            Some(e) => {
                self.current = None;
                return self.visit(e);
            },
            None => {},
        }
        match self.stage {
            SourceErrorIterStage::Attached => {
                if self.next_attached < self.source_errors.len() {
                    let e = self.source_errors[self.next_attached];
                    self.next_attached = self.next_attached + 1;
                    return self.visit(e);
                }
                self.stage = SourceErrorIterStage::Inner;
            },
            SourceErrorIterStage::Inner => {},
            SourceErrorIterStage::Done => {
                return None;
            },
        }
        match self.root_source {
            None => {
                self.stage = SourceErrorIterStage::Done;
                None
            },
            Some(e) => {
                self.root_source = None;
                self.visit(e)
            },
        }
    }
}

/// Every error the iteration yields lies below the depth limit: after a
/// yield the depth counter has grown by one and is at most the limit.
pub proof fn lemma_iter_yields_within_depth(g: ErrorGraph, opts: CauseCollectOptions, m: IterModel)
    requires
        0 <= m.depth,
    ensures
        iter_next(g, opts, m).1 is Some ==> (iter_next(g, opts, m).0.depth == m.depth + 1
            && m.depth < opts.max_depth),
    decreases stage_rank(m.stage),
{
    if !(m.state.truncated || m.state.cycle_detected) && m.current is None
        && m.stage == SourceErrorIterStage::Attached && !(0 <= m.next_attached < m.attached.len()) {
        lemma_iter_yields_within_depth(g, opts, IterModel { stage: SourceErrorIterStage::Inner, ..m });
    }
}

/// With cycle detection on, the iteration never yields an error whose
/// identity it has already yielded, and a stopped iteration stays stopped.
pub proof fn lemma_iter_no_repeat_and_stays_done(g: ErrorGraph, opts: CauseCollectOptions, m: IterModel)
    ensures
        (opts.detect_cycle && iter_next(g, opts, m).1 is Some) ==> ({
            let e = iter_next(g, opts, m).1->0;
            &&& !m.seen.contains(g.nodes@[e as int].identity)
            &&& iter_next(g, opts, m).0.seen.contains(g.nodes@[e as int].identity)
        }),
        (m.state.truncated || m.state.cycle_detected) ==> iter_next(g, opts, m).1 is None
            && iter_next(g, opts, m).0.state == m.state,
        iter_next(g, opts, m).0.state.truncated || !m.state.truncated,
        iter_next(g, opts, m).0.state.cycle_detected || !m.state.cycle_detected,
    decreases stage_rank(m.stage),
{
    if !(m.state.truncated || m.state.cycle_detected) && m.current is None
        && m.stage == SourceErrorIterStage::Attached && !(0 <= m.next_attached < m.attached.len()) {
        lemma_iter_no_repeat_and_stays_done(g, opts, IterModel { stage: SourceErrorIterStage::Inner, ..m });
    }
}

/// Whether an iteration has stopped: a flag is set, or it is done with no
/// error pending.
pub open spec fn iter_stopped(m: IterModel) -> bool {
    m.state.truncated || m.state.cycle_detected
        || (m.stage == SourceErrorIterStage::Done && m.current is None)
}

/// What one step does to the depth counter, the seen set and stopping.
proof fn lemma_iter_step(g: ErrorGraph, opts: CauseCollectOptions, m: IterModel)
    ensures
        iter_next(g, opts, m).1 is Some ==> iter_next(g, opts, m).0.depth == m.depth + 1 && m.depth < opts.max_depth,
        iter_next(g, opts, m).1 is None ==> iter_next(g, opts, m).0.depth == m.depth,
        m.seen.subset_of(iter_next(g, opts, m).0.seen),
        iter_next(g, opts, m).1 is None ==> iter_stopped(iter_next(g, opts, m).0),
        iter_stopped(m) ==> iter_next(g, opts, m).1 is None,
    decreases stage_rank(m.stage),
{
    if !(m.state.truncated || m.state.cycle_detected) && m.current is None
        && m.stage == SourceErrorIterStage::Attached && !(0 <= m.next_attached < m.attached.len()) {
        lemma_iter_step(g, opts, IterModel { stage: SourceErrorIterStage::Inner, ..m });
    }
}

/// The state after `k` calls of `next` from `m`, and what each call returned.
pub open spec fn iter_run(g: ErrorGraph, opts: CauseCollectOptions, m: IterModel, k: nat) -> (IterModel, Seq<Option<usize>>)
    decreases k,
{
    if k == 0 {
        (m, Seq::empty())
    } else {
        let step = iter_next(g, opts, m);
        let rest = iter_run(g, opts, step.0, (k - 1) as nat);
        (rest.0, seq![step.1] + rest.1)
    }
}

/// How many of the results are errors.
pub open spec fn count_yielded(outs: Seq<Option<usize>>) -> nat
    decreases outs.len(),
{
    if outs.len() == 0 {
        0
    } else {
        (if outs[0] is Some { 1nat } else { 0nat }) + count_yielded(outs.drop_first())
    }
}

/// Over any run of `next` calls: the errors yielded are counted by the
/// depth counter, so an iteration that starts at depth 0 yields at most
/// `max_depth` errors; once a call returns `None` every later call does;
/// and with cycle detection on, no two yielded errors share an identity.
pub proof fn lemma_iter_run(g: ErrorGraph, opts: CauseCollectOptions, m: IterModel, k: nat)
    ensures
        count_yielded(iter_run(g, opts, m, k).1) == iter_run(g, opts, m, k).0.depth - m.depth,
        m.depth <= opts.max_depth ==> iter_run(g, opts, m, k).0.depth <= opts.max_depth,
        forall|i: int, j: int| 0 <= i < j < k && (#[trigger] iter_run(g, opts, m, k).1[i]) is None
            ==> (#[trigger] iter_run(g, opts, m, k).1[j]) is None,
        iter_stopped(m) ==> forall|i: int| 0 <= i < k ==> (#[trigger] iter_run(g, opts, m, k).1[i]) is None,
        opts.detect_cycle ==> forall|i: int, j: int| 0 <= i < k && 0 <= j < k && i != j
            && (#[trigger] iter_run(g, opts, m, k).1[i]) is Some && (#[trigger] iter_run(g, opts, m, k).1[j]) is Some
            ==> g.nodes@[iter_run(g, opts, m, k).1[i]->0 as int].identity != g.nodes@[iter_run(g, opts, m, k).1[j]->0 as int].identity,
        opts.detect_cycle ==> forall|i: int| 0 <= i < k && (#[trigger] iter_run(g, opts, m, k).1[i]) is Some
            ==> !m.seen.contains(g.nodes@[iter_run(g, opts, m, k).1[i]->0 as int].identity)
                && iter_run(g, opts, m, k).0.seen.contains(g.nodes@[iter_run(g, opts, m, k).1[i]->0 as int].identity),
        m.seen.subset_of(iter_run(g, opts, m, k).0.seen),
        iter_run(g, opts, m, k).1.len() == k,
    decreases k,
{
    if k > 0 {
        let step = iter_next(g, opts, m);
        lemma_iter_step(g, opts, m);
        lemma_iter_no_repeat_and_stays_done(g, opts, m);
        lemma_iter_run(g, opts, step.0, (k - 1) as nat);
        let rest = iter_run(g, opts, step.0, (k - 1) as nat);
        let outs = iter_run(g, opts, m, k).1;
        assert(outs == seq![step.1] + rest.1);
        assert(outs.drop_first() =~= rest.1);
        assert(outs[0] == step.1);
        assert forall|i: int| 0 < i < k implies #[trigger] outs[i] == rest.1[i - 1] by {}
        assert forall|i: int, j: int| 0 <= i < j < k && (#[trigger] outs[i]) is None implies (#[trigger] outs[j]) is None by {
            if i == 0 {
                assert(rest.1[j - 1] is None);
            } else {
                assert(rest.1[i - 1] is None);
                assert(rest.1[j - 1] is None);
            }
        }
        if iter_stopped(m) {
            lemma_iter_step(g, opts, step.0);
            assert(iter_stopped(step.0)) by {
                lemma_iter_no_repeat_and_stays_done(g, opts, m);
            }
            assert forall|i: int| 0 <= i < k implies (#[trigger] outs[i]) is None by {
                if i > 0 {
                    assert(rest.1[i - 1] is None);
                }
            }
        }
        if opts.detect_cycle {
            assert forall|i: int| 0 <= i < k && (#[trigger] outs[i]) is Some implies
                !m.seen.contains(g.nodes@[outs[i]->0 as int].identity)
                && rest.0.seen.contains(g.nodes@[outs[i]->0 as int].identity) by {
                if i == 0 {
                    assert(step.0.seen.contains(g.nodes@[outs[0]->0 as int].identity));
                } else {
                    assert(rest.1[i - 1] is Some);
                    assert(!step.0.seen.contains(g.nodes@[rest.1[i - 1]->0 as int].identity));
                }
            }
            assert forall|i: int, j: int| 0 <= i < k && 0 <= j < k && i != j
                && (#[trigger] outs[i]) is Some && (#[trigger] outs[j]) is Some implies
                g.nodes@[outs[i]->0 as int].identity != g.nodes@[outs[j]->0 as int].identity by {
                if i == 0 {
                    assert(step.0.seen.contains(g.nodes@[outs[0]->0 as int].identity));
                    assert(rest.1[j - 1] is Some);
                    assert(!step.0.seen.contains(g.nodes@[rest.1[j - 1]->0 as int].identity));
                } else if j == 0 {
                    assert(step.0.seen.contains(g.nodes@[outs[0]->0 as int].identity));
                    assert(rest.1[i - 1] is Some);
                    assert(!step.0.seen.contains(g.nodes@[rest.1[i - 1]->0 as int].identity));
                } else {
                    assert(rest.1[i - 1] is Some);
                    assert(rest.1[j - 1] is Some);
                }
            }
        }
    }
}

/// What an iteration built by [`ReportSourceErrorIter::new`] with options
/// `opts` promises over any number `k` of `next` calls: at most
/// `opts.max_depth` calls return an error; once a call returns `None`,
/// every later call does; and with cycle detection on, no two calls return
/// errors of the same identity.
pub proof fn lemma_iter_from_start(g: ErrorGraph, opts: CauseCollectOptions, attached: Seq<usize>, root_source: Option<usize>, k: nat)
    ensures
        count_yielded(iter_run(g, opts, iter_start(attached, root_source), k).1) <= opts.max_depth,
        forall|i: int, j: int| 0 <= i < j < k && (#[trigger] iter_run(g, opts, iter_start(attached, root_source), k).1[i]) is None
            ==> (#[trigger] iter_run(g, opts, iter_start(attached, root_source), k).1[j]) is None,
        opts.detect_cycle ==> forall|i: int, j: int| 0 <= i < k && 0 <= j < k && i != j
            && (#[trigger] iter_run(g, opts, iter_start(attached, root_source), k).1[i]) is Some
            && (#[trigger] iter_run(g, opts, iter_start(attached, root_source), k).1[j]) is Some
            ==> g.nodes@[iter_run(g, opts, iter_start(attached, root_source), k).1[i]->0 as int].identity
                != g.nodes@[iter_run(g, opts, iter_start(attached, root_source), k).1[j]->0 as int].identity,
{
    lemma_iter_run(g, opts, iter_start(attached, root_source), k);
}

/// Whether a cause is an error or an event.
#[derive(Debug, Clone, Copy, PartialEq, Eq, Structural)]
pub enum CauseKind {
    Error,
    Event,
}

/// The label of a cause kind.
pub open spec fn cause_kind_label(k: CauseKind) -> Seq<char> {
    match k {
        CauseKind::Error => "error"@,
        CauseKind::Event => "event"@,
    }
}

impl CauseKind {
    /// The lower-case label of the kind.
    pub fn label(self) -> (r: &'static str)
        ensures
            r@ == cause_kind_label(self),
    {
        match self {
            CauseKind::Error => "error",
            CauseKind::Event => "event",
        }
    }
}

} // verus!

