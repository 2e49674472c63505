//! Walking a report's origin source errors: the recorded origin chain
//! first, with the report wrapper's type names hidden, then the chain of
//! sources of the wrapped error itself.

use vstd::prelude::*;
use crate::cause::{seen_set, source_of, CauseTraversalState, ErrorGraph, SeenErrorAddrs};
use crate::config::{resolve_option, CauseCollectOptions, GlobalConfig};
use crate::report::Report;
use crate::source_chain::{
    entry_of, lemma_walk_visits_nodes, same_chain, walk_next, walk_start, SourceErrorChain, SourceErrorChainEntries, SourceErrorEntry,
    WalkModel,
};

verus! {

/// The plain state of a walk down an error's chain of sources.
pub struct ErrorWalkModel {
    pub current: Option<usize>,
    pub depth: int,
    pub seen: Set<usize>,
    pub state: CauseTraversalState,
}

/// One step down the chain of sources: at the depth limit it stops and
/// marks the walk truncated; an error already seen (with cycle detection)
/// stops it and marks a cycle; else the current error is yielded with its
/// depth and its source comes next.
pub open spec fn error_walk_next(g: ErrorGraph, opts: CauseCollectOptions, m: ErrorWalkModel) -> (ErrorWalkModel, Option<(usize, int)>) {
    if m.depth >= opts.max_depth {
        (ErrorWalkModel { current: None, state: CauseTraversalState { truncated: true, ..m.state }, ..m }, None)
    } else {
        match m.current {
            None => (m, None),
            Some(e) => {
                let id = g.nodes@[e as int].identity;
                if opts.detect_cycle && m.seen.contains(id) {
                    (ErrorWalkModel { current: None, state: CauseTraversalState { cycle_detected: true, ..m.state }, ..m }, None)
                } else {
                    (ErrorWalkModel {
                        current: source_of(g, e),
                        depth: m.depth + 1,
                        seen: if opts.detect_cycle { m.seen.insert(id) } else { m.seen },
                        ..m
                    }, Some((e, m.depth)))
                }
            },
        }
    }
}

/// The start of a walk from `root`; a root that names no node of the graph
/// leaves nothing to walk.
pub open spec fn error_walk_start(g: ErrorGraph, root: Option<usize>) -> ErrorWalkModel {
    ErrorWalkModel {
        current: match root {
            Some(e) => if e < g.nodes@.len() { Some(e) } else { None },
            None => None,
        },
        depth: 0,
        seen: Set::empty(),
        state: CauseTraversalState { truncated: false, cycle_detected: false },
    }
}

/// A walk down the chain of sources of one error, over a graph of errors.
pub struct InnerSourceWalk {
    graph: ErrorGraph,
    options: CauseCollectOptions,
    current: Option<usize>,
    depth: usize,
    seen: SeenErrorAddrs,
    state: CauseTraversalState,
}

impl InnerSourceWalk {
    pub closed spec fn graph(&self) -> ErrorGraph {
        self.graph
    }

    pub closed spec fn options(&self) -> CauseCollectOptions {
        self.options
    }

    pub closed spec fn model(&self) -> ErrorWalkModel {
        ErrorWalkModel { current: self.current, depth: self.depth as int, seen: seen_set(&self.seen), state: self.state }
    }

    /// The walk's own bookkeeping holds together: the pending error is a
    /// node of the graph.
    pub closed spec fn wf(&self) -> bool {
        &&& self.seen.wf()
        &&& self.current matches Some(e) ==> e < self.graph.nodes@.len()
    }

    /// A walk from `root` in `graph`.
    pub fn new(graph: ErrorGraph, root: Option<usize>, options: CauseCollectOptions) -> (r: Self)
        ensures
            r.wf(),
            r.graph() == graph,
            r.options() == options,
            r.model() == error_walk_start(graph, root),
    {
        let current = match root {
            Some(e) => if e < graph.nodes.len() { Some(e) } else { None },
            None => None,
        };
        let r = InnerSourceWalk {
            graph,
            options,
            current,
            depth: 0,
            seen: SeenErrorAddrs::new(),
            state: CauseTraversalState::new(),
        };
        proof {
            assert(seen_set(&r.seen) =~= Set::<usize>::empty());
        }
        r
    }

    /// The next error of the chain and its depth.
    pub fn next(&mut self) -> (r: Option<(usize, usize)>)
        requires
            old(self).wf(),
        ensures
            final(self).wf(),
            final(self).graph() == old(self).graph(),
            final(self).options() == old(self).options(),
            final(self).model() == error_walk_next(old(self).graph(), old(self).options(), old(self).model()).0,
            r is None <==> error_walk_next(old(self).graph(), old(self).options(), old(self).model()).1 is None,
            r matches Some(p) ==> error_walk_next(old(self).graph(), old(self).options(), old(self).model()).1
                == Some((p.0, p.1 as int)),
    {
        if self.depth >= self.options.max_depth {
            self.current = None;
            self.state.truncated = true;
            return None;
        }
        let e = match self.current {
            None => return None,
            Some(e) => e,
        };
        self.current = None;
        if self.options.detect_cycle {
            let id = self.graph.nodes[e].identity;
            let ghost before = seen_set(&self.seen);
            let fresh = self.seen.insert(id);
            if !fresh {
                proof {
                    assert(seen_set(&self.seen) =~= before);
                }
                self.state.cycle_detected = true;
                return None;
            }
            proof {
                assert(seen_set(&self.seen) =~= before.insert(id));
            }
        }
        self.current = self.graph.source_of(e);
        let depth = self.depth;
        self.depth = self.depth + 1;
        Some((e, depth))
    }
}

/// The flags of `a` with those of `b` added.
pub open spec fn merged_state(a: CauseTraversalState, b: CauseTraversalState) -> CauseTraversalState {
    CauseTraversalState { truncated: a.truncated || b.truncated, cycle_detected: a.cycle_detected || b.cycle_detected }
}

/// The plain state of an origin walk: the chain walk while it lasts (its
/// chain, options, whether it hides wrapper types, and its state), the walk
/// down the wrapped error's sources while it lasts, and the flags of the
/// steps taken so far.
pub struct OriginModel {
    pub chain: Option<(SourceErrorChain, CauseCollectOptions, bool, WalkModel)>,
    pub inner: Option<(ErrorGraph, CauseCollectOptions, ErrorWalkModel)>,
    pub finished: CauseTraversalState,
}

/// What an origin walk step yields: a node of the recorded chain or an
/// error of the wrapped error's sources, with its depth.
pub enum OriginVisit {
    Chain(usize, usize),
    Error(usize, int),
}

/// The walk of the wrapped error's sources, once the chain walk has ended.
pub open spec fn origin_inner_next(m: OriginModel) -> (OriginModel, Option<OriginVisit>) {
    match m.inner {
        None => (m, None),
        Some(w) => {
            let step = error_walk_next(w.0, w.1, w.2);
            match step.1 {
                Some(v) => (OriginModel {
                    inner: Some((w.0, w.1, step.0)),
                    finished: merged_state(m.finished, step.0.state),
                    ..m
                }, Some(OriginVisit::Error(v.0, v.1))),
                None => (OriginModel { inner: None, finished: merged_state(m.finished, step.0.state), ..m }, None),
            }
        },
    }
}

/// One step of an origin walk: the recorded chain first; when it ends,
/// the wrapped error's sources. Each step adds the flags of the walk it took.
pub open spec fn origin_next(m: OriginModel) -> (OriginModel, Option<OriginVisit>) {
    match m.chain {
        Some(c) => {
            let step = walk_next(c.0, c.1, c.3);
            match step.1 {
                Some(v) => (OriginModel {
                    chain: Some((c.0, c.1, c.2, step.0)),
                    finished: merged_state(m.finished, step.0.state),
                    ..m
                }, Some(OriginVisit::Chain(v.0, v.1))),
                None => origin_inner_next(OriginModel { chain: None, finished: merged_state(m.finished, step.0.state), ..m }),
            }
        },
        None => origin_inner_next(m),
    }
}

/// The entry a visit stands for: a chain node with its type names, or an
/// error of the sources with its message and no type name.
pub open spec fn origin_entry(m: OriginModel, v: OriginVisit, e: SourceErrorEntry) -> bool {
    match v {
        OriginVisit::Chain(node, depth) => m.chain matches Some(c) && entry_of(c.0, node, depth, c.2, e),
        OriginVisit::Error(node, depth) => m.inner matches Some(w) && {
            &&& e.message@ == w.0.nodes@[node as int].message@
            &&& e.type_label is None
            &&& e.display_type_name is None
            &&& e.depth as int == depth
        },
    }
}

/// The origin source errors of a report: its recorded origin chain, then
/// the chain of sources of the wrapped error.
pub struct OriginSourceWalk {
    chain: Option<SourceErrorChainEntries>,
    inner: Option<InnerSourceWalk>,
    finished: CauseTraversalState,
}

impl OriginSourceWalk {
    pub closed spec fn model(&self) -> OriginModel {
        OriginModel {
            chain: match self.chain {
                Some(c) => Some((c.chain(), c.options(), c.hides_wrappers(), c.model())),
                None => None,
            },
            inner: match self.inner {
                Some(w) => Some((w.graph(), w.options(), w.model())),
                None => None,
            },
            finished: self.finished,
        }
    }

    pub closed spec fn wf(&self) -> bool {
        self.inner matches Some(w) ==> w.wf()
    }

    /// The flags of the steps taken so far.
    pub fn state(&self) -> (r: CauseTraversalState)
        ensures
            r == self.model().finished,
    {
        self.finished
    }

    fn next_inner(&mut self) -> (r: Option<SourceErrorEntry>)
        requires
            old(self).wf(),
            old(self).chain is None,
        ensures
            final(self).wf(),
            final(self).model() == origin_inner_next(old(self).model()).0,
            r is Some <==> origin_inner_next(old(self).model()).1 is Some,
            r matches Some(e) ==> origin_entry(old(self).model(), origin_inner_next(old(self).model()).1->0, e),
    {
        let mut walk = match self.inner.take() {
            None => return None,
            Some(w) => w,
        };
        let step = walk.next();
        self.finished = CauseTraversalState {
            truncated: self.finished.truncated || walk.state.truncated,
            cycle_detected: self.finished.cycle_detected || walk.state.cycle_detected,
        };
        match step {
            Some((node, depth)) => {
                let message = walk.graph.nodes[node].message.clone();
                self.inner = Some(walk);
                Some(SourceErrorEntry { message, type_label: None, display_type_name: None, depth })
            },
            None => None,
        }
    }

    /// The next origin source error.
    pub fn next(&mut self) -> (r: Option<SourceErrorEntry>)
        requires
            old(self).wf(),
        ensures
            final(self).wf(),
            final(self).model() == origin_next(old(self).model()).0,
            r is Some <==> origin_next(old(self).model()).1 is Some,
            r matches Some(e) ==> origin_entry(old(self).model(), origin_next(old(self).model()).1->0, e),
    {
        let mut chain = match self.chain.take() {
            None => return self.next_inner(),
            Some(c) => c,
        };
        let step = chain.next();
        let st = chain.state();
        self.finished = CauseTraversalState {
            truncated: self.finished.truncated || st.truncated,
            cycle_detected: self.finished.cycle_detected || st.cycle_detected,
        };
        match step {
            Some(e) => {
                self.chain = Some(chain);
                Some(e)
            },
            None => self.next_inner(),
        }
    }
}

/// The start of an origin walk over `chain` (when the report recorded one)
/// and the sources from `root` in `graph` (when the wrapped error has one).
pub open spec fn origin_start(
    chain: Option<SourceErrorChain>,
    graph: ErrorGraph,
    root: Option<usize>,
    options: CauseCollectOptions,
) -> OriginModel {
    OriginModel {
        chain: match chain {
            Some(c) => Some((c, options, true, walk_start(c))),
            None => None,
        },
        inner: match root {
            Some(_) => Some((graph, options, error_walk_start(graph, root))),
            None => None,
        },
        finished: CauseTraversalState { truncated: false, cycle_detected: false },
    }
}

/// What one step down the chain of sources does to its counters.
proof fn lemma_error_step(g: ErrorGraph, opts: CauseCollectOptions, m: ErrorWalkModel)
    requires
        m.current matches Some(e) ==> e < g.nodes@.len(),
    ensures
        error_walk_next(g, opts, m).1 is Some ==> error_walk_next(g, opts, m).0.depth == m.depth + 1 && m.depth < opts.max_depth,
        error_walk_next(g, opts, m).1 is None ==> error_walk_next(g, opts, m).0.depth == m.depth,
        m.seen.subset_of(error_walk_next(g, opts, m).0.seen),
        error_walk_next(g, opts, m).0.current matches Some(e) ==> e < g.nodes@.len(),
        (opts.detect_cycle && error_walk_next(g, opts, m).1 is Some) ==> ({
            let v = error_walk_next(g, opts, m).1->0;
            let e = v.0;
            &&& !m.seen.contains(g.nodes@[e as int].identity)
            &&& error_walk_next(g, opts, m).0.seen.contains(g.nodes@[e as int].identity)
        }),
{
}

/// Whether the pending error of the inner walk, if any, is a node of its graph.
pub open spec fn origin_wf(m: OriginModel) -> bool {
    m.inner matches Some(w) ==> (w.2.current matches Some(e) ==> e < w.0.nodes@.len())
}

/// How many more errors the inner walk may still yield.
pub open spec fn inner_budget(m: OriginModel) -> int {
    match m.inner {
        Some(w) => if w.2.depth <= w.1.max_depth { w.1.max_depth - w.2.depth } else { 0 },
        None => 0,
    }
}

/// The state after `k` steps of an origin walk from `m`, and what each step yielded.
pub open spec fn origin_run(m: OriginModel, k: nat) -> (OriginModel, Seq<Option<OriginVisit>>)
    decreases k,
{
    if k == 0 {
        (m, Seq::empty())
    } else {
        let step = origin_next(m);
        let rest = origin_run(step.0, (k - 1) as nat);
        (rest.0, seq![step.1] + rest.1)
    }
}

/// How many of the results are errors of the wrapped error's sources.
pub open spec fn count_errors(outs: Seq<Option<OriginVisit>>) -> nat
    decreases outs.len(),
{
    if outs.len() == 0 {
        0
    } else {
        (if error_of(outs[0]) is Some { 1nat } else { 0nat }) + count_errors(outs.drop_first())
    }
}

/// The graph of the inner walk.
pub open spec fn inner_graph(m: OriginModel) -> ErrorGraph {
    let w = m.inner->0;
    w.0
}

/// The options of the inner walk.
pub open spec fn inner_opts(m: OriginModel) -> CauseCollectOptions {
    let w = m.inner->0;
    w.1
}

/// The state of the inner walk.
pub open spec fn inner_state(m: OriginModel) -> ErrorWalkModel {
    let w = m.inner->0;
    w.2
}

/// The options of the chain walk.
pub open spec fn chain_opts(m: OriginModel) -> CauseCollectOptions {
    let c = m.chain->0;
    c.1
}

/// The node and depth a step of the inner walk yields.
pub open spec fn yielded_node(v: Option<(usize, int)>) -> usize {
    let p = v->0;
    p.0
}

/// The error of the wrapped error's sources a result is, if it is one.
pub open spec fn error_of(v: Option<OriginVisit>) -> Option<usize> {
    match v {
        Some(OriginVisit::Error(e, _)) => Some(e),
        _ => None,
    }
}

/// The depth of the recorded-chain entry a result is, if it is one.
pub open spec fn chain_depth_of(v: Option<OriginVisit>) -> Option<usize> {
    match v {
        Some(OriginVisit::Chain(_, d)) => Some(d),
        _ => None,
    }
}

/// The identity of node `e` of the inner walk's graph.
pub open spec fn inner_identity(m: OriginModel, e: usize) -> usize {
    inner_graph(m).nodes@[e as int].identity
}

/// What one origin step does: a chain visit leaves the inner walk alone; an
/// error comes from the inner walk's step; nothing means both walks ended.
proof fn lemma_origin_step(m: OriginModel)
    requires
        origin_wf(m),
    ensures
        origin_wf(origin_next(m).0),
        origin_next(m).1 is None ==> origin_next(m).0.chain is None && origin_next(m).0.inner is None,
        (m.chain is None && m.inner is None) ==> origin_next(m).1 is None,
        chain_depth_of(origin_next(m).1) is Some ==> origin_next(m).0.inner == m.inner
            && m.chain is Some && chain_depth_of(origin_next(m).1)->0 < chain_opts(m).max_depth,
        error_of(origin_next(m).1) is Some ==> m.inner is Some
            && error_walk_next(inner_graph(m), inner_opts(m), inner_state(m)).1 is Some
            && yielded_node(error_walk_next(inner_graph(m), inner_opts(m), inner_state(m)).1) == error_of(origin_next(m).1)->0
            && origin_next(m).0.inner == Some((inner_graph(m), inner_opts(m), error_walk_next(inner_graph(m), inner_opts(m), inner_state(m)).0)),
        origin_next(m).0.inner is Some ==> m.inner is Some && inner_graph(origin_next(m).0) == inner_graph(m)
            && inner_opts(origin_next(m).0) == inner_opts(m),
{
    match m.chain {
        Some(c) => {
            lemma_walk_visits_nodes(c.0, c.1, c.3);
            let step = walk_next(c.0, c.1, c.3);
            if step.1 is None {
                let m1 = OriginModel { chain: None, finished: merged_state(m.finished, step.0.state), ..m };
                if let Some(w) = m1.inner {
                    lemma_error_step(w.0, w.1, w.2);
                }
            }
        },
        None => {
            if let Some(w) = m.inner {
                lemma_error_step(w.0, w.1, w.2);
            }
        },
    }
}

/// Over any number of `next` calls on an origin walk: a recorded-chain entry
/// lies below the depth limit; the errors of the wrapped error's sources are
/// at most as many as the inner walk's depth budget (`max_depth` for a fresh
/// walk); once a call returns nothing, every later call does; and with cycle
/// detection on, no two of those errors share an identity.
pub proof fn lemma_origin_run(m: OriginModel, k: nat)
    requires
        origin_wf(m),
    ensures
        origin_run(m, k).1.len() == k,
        count_errors(origin_run(m, k).1) <= inner_budget(m),
        forall|i: int, j: int| 0 <= i < j < k && (#[trigger] origin_run(m, k).1[i]) is None
            ==> (#[trigger] origin_run(m, k).1[j]) is None,
        forall|i: int| 0 <= i < k && chain_depth_of(#[trigger] origin_run(m, k).1[i]) is Some
            ==> m.chain is Some && chain_depth_of(origin_run(m, k).1[i])->0 < chain_opts(m).max_depth,
        forall|i: int| 0 <= i < k && error_of(#[trigger] origin_run(m, k).1[i]) is Some
            ==> m.inner is Some && (inner_opts(m).detect_cycle
                ==> !inner_state(m).seen.contains(inner_identity(m, error_of(origin_run(m, k).1[i])->0))),
        forall|i: int, j: int| 0 <= i < k && 0 <= j < k && i != j
            && error_of(#[trigger] origin_run(m, k).1[i]) is Some && error_of(#[trigger] origin_run(m, k).1[j]) is Some
            ==> m.inner is Some && (inner_opts(m).detect_cycle
                ==> inner_identity(m, error_of(origin_run(m, k).1[i])->0) != inner_identity(m, error_of(origin_run(m, k).1[j])->0)),
    decreases k,
{
    if k > 0 {
        let step = origin_next(m);
        let m1 = step.0;
        lemma_origin_step(m);
        lemma_origin_run(m1, (k - 1) as nat);
        let rest = origin_run(m1, (k - 1) as nat);
        let outs = origin_run(m, k).1;
        assert(outs == seq![step.1] + rest.1);
        assert(outs.drop_first() =~= rest.1);
        assert(outs[0] == step.1);
        assert forall|i: int| 0 < i < k implies #[trigger] outs[i] == rest.1[i - 1] by {}
        if error_of(step.1) is Some {
            let w = m.inner->0;
            lemma_error_step(w.0, w.1, w.2);
        }
        if step.1 is None {
            lemma_none_stays(m1, (k - 1) as nat);
        }
        assert forall|i: int, j: int| 0 <= i < j < k && (#[trigger] outs[i]) is None implies (#[trigger] outs[j]) is None by {
            if i == 0 {
                assert(rest.1[j - 1] is None);
            } else {
                assert(rest.1[i - 1] is None);
                assert(rest.1[j - 1] is None);
            }
        }
        assert forall|i: int| 0 <= i < k && chain_depth_of(#[trigger] outs[i]) is Some implies
            m.chain is Some && chain_depth_of(outs[i])->0 < chain_opts(m).max_depth by {
            if i > 0 {
                assert(outs[i] == rest.1[i - 1]);
            }
        }
        assert forall|i: int| 0 <= i < k && error_of(#[trigger] outs[i]) is Some implies
            m.inner is Some && (inner_opts(m).detect_cycle
                ==> !inner_state(m).seen.contains(inner_identity(m, error_of(outs[i])->0))) by {
            if i > 0 {
                assert(outs[i] == rest.1[i - 1]);
            }
        }
        assert forall|i: int, j: int| 0 <= i < k && 0 <= j < k && i != j
            && error_of(#[trigger] outs[i]) is Some && error_of(#[trigger] outs[j]) is Some implies
            m.inner is Some && (inner_opts(m).detect_cycle
                ==> inner_identity(m, error_of(outs[i])->0) != inner_identity(m, error_of(outs[j])->0)) by {
            if i > 0 {
                assert(outs[i] == rest.1[i - 1]);
            }
            if j > 0 {
                assert(outs[j] == rest.1[j - 1]);
            }
        }
    }
}

/// What a walk from [`Report::iter_origin_src_ext`] promises over any
/// number `k` of `next` calls: at most `options.max_depth` of the results are
/// errors of the wrapped error's sources; once a call returns nothing, every
/// later call does; every recorded-chain entry lies below the depth limit;
/// and with cycle detection on, no two of those errors share an identity.
pub proof fn lemma_origin_fresh(m: OriginModel, graph: ErrorGraph, root: Option<usize>, options: CauseCollectOptions, k: nat)
    requires
        m.inner == origin_start(None, graph, root, options).inner,
        m.chain matches Some(c) ==> c.1 == options,
    ensures
        count_errors(origin_run(m, k).1) <= options.max_depth,
        forall|i: int, j: int| 0 <= i < j < k && (#[trigger] origin_run(m, k).1[i]) is None
            ==> (#[trigger] origin_run(m, k).1[j]) is None,
        forall|i: int| 0 <= i < k && chain_depth_of(#[trigger] origin_run(m, k).1[i]) is Some
            ==> chain_depth_of(origin_run(m, k).1[i])->0 < options.max_depth,
        options.detect_cycle ==> forall|i: int, j: int| 0 <= i < k && 0 <= j < k && i != j
            && error_of(#[trigger] origin_run(m, k).1[i]) is Some && error_of(#[trigger] origin_run(m, k).1[j]) is Some
            ==> graph.nodes@[error_of(origin_run(m, k).1[i])->0 as int].identity
                != graph.nodes@[error_of(origin_run(m, k).1[j])->0 as int].identity,
{
    lemma_origin_run(m, k);
}

/// A walk with both parts ended yields nothing, however often it is called.
proof fn lemma_none_stays(m: OriginModel, k: nat)
    requires
        m.chain is None,
        m.inner is None,
    ensures
        forall|i: int| 0 <= i < k ==> (#[trigger] origin_run(m, k).1[i]) is None,
        origin_run(m, k).1.len() == k,
    decreases k,
{
    if k > 0 {
        let step = origin_next(m);
        assert(step.0.chain is None && step.0.inner is None);
        lemma_none_stays(step.0, (k - 1) as nat);
        let rest = origin_run(step.0, (k - 1) as nat);
        let outs = origin_run(m, k).1;
        assert(outs == seq![step.1] + rest.1);
        assert forall|i: int| 0 <= i < k implies (#[trigger] outs[i]) is None by {
            if i > 0 {
                assert(outs[i] == rest.1[i - 1]);
            }
        }
    }
}

impl<E> Report<E> {
    /// Walks the origin source errors with the given options: the recorded
    /// origin chain, with the report wrapper's type names hidden, then the
    /// sources of the wrapped error, given as `inner_sources` with
    /// `inner_root` the error its `source()` returns.
    pub fn iter_origin_src_ext(&self, inner_sources: ErrorGraph, inner_root: Option<usize>, options: CauseCollectOptions) -> (r: OriginSourceWalk)
        ensures
            r.wf(),
            r.model().inner == origin_start(None, inner_sources, inner_root, options).inner,
            r.model().finished == origin_start(None, inner_sources, inner_root, options).finished,
            match self.origin_source_errors {
                Some(c) => r.model().chain matches Some(t) && same_chain(t.0, c) && t.1 == options && t.2
                    && t.3 == walk_start(t.0),
                None => r.model().chain is None,
            },
    {
        let chain = match &self.origin_source_errors {
            Some(c) => Some(SourceErrorChainEntries::with_options(c.copy(), options, true)),
            None => None,
        };
        let inner = match inner_root {
            Some(_) => Some(InnerSourceWalk::new(inner_sources, inner_root, options)),
            None => None,
        };
        OriginSourceWalk { chain, inner, finished: CauseTraversalState::new() }
    }

    /// Walks the origin source errors with the options the report resolves
    /// to under `global`.
    pub fn iter_origin_sources(&self, inner_sources: ErrorGraph, inner_root: Option<usize>, global: &GlobalConfig) -> (r: OriginSourceWalk)
        ensures
            ({
                let o = CauseCollectOptions {
                    max_depth: resolve_option(self.options.max_depth, global.max_depth).value,
                    detect_cycle: resolve_option(self.options.detect_cycle, global.detect_cycle).value,
                };
                &&& r.wf()
                &&& r.model().inner == origin_start(None, inner_sources, inner_root, o).inner
                &&& r.model().finished == origin_start(None, inner_sources, inner_root, o).finished
                &&& match self.origin_source_errors {
                    Some(c) => r.model().chain matches Some(t) && same_chain(t.0, c) && t.1 == o && t.2
                        && t.3 == walk_start(t.0),
                    None => r.model().chain is None,
                }
            }),
    {
        self.iter_origin_src_ext(inner_sources, inner_root, self.options.as_cause_options(global))
    }
}

} // verus!
