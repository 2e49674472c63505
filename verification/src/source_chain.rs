//! Arena-backed source-error chains and their depth-first traversal.
//!
//! A chain holds its errors as nodes; each node names the nodes of its own
//! sources, and the chain names its root nodes. The traversal visits nodes
//! depth first, stops descending at the depth limit and, with cycle
//! detection, skips a node whose error already stands on the path from the
//! root to it.

use vstd::prelude::*;
use crate::cause::CauseTraversalState;
use crate::config::CauseCollectOptions;
use crate::text::starts_with;

verus! {

/// One captured source error.
#[derive(Debug)]
pub struct SourceErrorItem {
    /// Its `Display` text.
    pub message: String,
    /// Its type name, when known.
    pub type_label: Option<String>,
    /// The address that identifies the error.
    pub identity: usize,
    /// The nodes holding its own sources.
    pub source_roots: Vec<usize>,
}

/// An arena of captured source errors with their roots and the flags the
/// capture observed.
#[derive(Debug)]
pub struct SourceErrorChain {
    pub nodes: Vec<SourceErrorItem>,
    pub roots: Vec<usize>,
    pub truncated: bool,
    pub cycle_detected: bool,
}

/// One visited source error: its message, type names and depth.
#[derive(Debug, PartialEq, Eq)]
pub struct SourceErrorEntry {
    pub message: String,
    pub type_label: Option<String>,
    pub display_type_name: Option<String>,
    pub depth: usize,
}

/// The type-name prefix of the library's own report wrapper.
pub open spec fn report_type_prefix() -> Seq<char> {
    "diagweave::report::Report"@
}

/// Whether a type name is the library's report wrapper around another type.
pub open spec fn is_report_wrapper_name(t: Seq<char>) -> bool {
    let p = report_type_prefix();
    p.len() < t.len() && t.take(p.len() as int) == p && t[p.len() as int] == '<'
}

/// Whether `type_label` names the library's report wrapper.
pub fn is_report_wrapper_type(type_label: &str) -> (r: bool)
    ensures
        r == is_report_wrapper_name(type_label@),
{
    let prefix = "diagweave::report::Report";
    if !starts_with(type_label, prefix) {
        return false;
    }
    let n = prefix.unicode_len();
    if n >= type_label.unicode_len() {
        return false;
    }
    type_label.get_char(n) == '<'
}

/// The type name shown for a node: hidden when it is the report wrapper and
/// wrappers are to be hidden.
pub open spec fn display_type_name(t: Option<Seq<char>>, hide: bool) -> Option<Seq<char>> {
    match t {
        Some(n) => if hide && is_report_wrapper_name(n) { None } else { Some(n) },
        None => None,
    }
}

pub open spec fn opt_view(o: Option<String>) -> Option<Seq<char>> {
    match o {
        Some(s) => Some(s@),
        None => None,
    }
}

fn copy_opt(o: &Option<String>) -> (r: Option<String>)
    ensures
        opt_view(r) == opt_view(*o),
{
    match o {
        Some(s) => Some(s.clone()),
        None => None,
    }
}

fn shown_type_name(t: &Option<String>, hide: bool) -> (r: Option<String>)
    ensures
        opt_view(r) == display_type_name(opt_view(*t), hide),
{
    match t {
        Some(n) => {
            if hide && is_report_wrapper_type(n.as_str()) {
                None
            } else {
                Some(n.clone())
            }
        },
        None => None,
    }
}

/// The ids listed by a frame's owner: the roots, or a node's sources.
pub open spec fn ids_of(c: SourceErrorChain, owner: Option<usize>) -> Seq<usize> {
    match owner {
        None => c.roots@,
        Some(k) => if k < c.nodes@.len() { c.nodes@[k as int].source_roots@ } else { Seq::empty() },
    }
}

/// A pending list of ids being walked.
#[derive(Debug, Clone, Copy, PartialEq, Eq, Structural)]
pub struct ChainFrame {
    pub owner: Option<usize>,
    pub index: usize,
    pub depth: usize,
}

/// The plain state of a chain walk.
pub struct WalkModel {
    pub frames: Seq<ChainFrame>,
    pub path: Seq<(usize, usize)>,
    pub state: CauseTraversalState,
}

/// The path after entering depth `depth`: entries at that depth or deeper leave.
pub open spec fn path_pop(path: Seq<(usize, usize)>, depth: usize) -> Seq<(usize, usize)>
    decreases path.len(),
{
    if path.len() > 0 && path.last().0 >= depth {
        path_pop(path.drop_last(), depth)
    } else {
        path
    }
}

pub open spec fn path_has(path: Seq<(usize, usize)>, id: usize) -> bool {
    exists|i: int| 0 <= i < path.len() && #[trigger] path[i].1 == id
}

/// How many ids the top frame still has to visit.
pub open spec fn top_remaining(c: SourceErrorChain, w: WalkModel) -> int {
    if w.frames.len() == 0 {
        0
    } else {
        ids_of(c, w.frames.last().owner).len() - w.frames.last().index
    }
}

/// Yields node `node_id` at `depth` from state `w` (whose top frame already
/// moved past it): the path records it, and its sources become the next
/// frame when they stay within the limit; past the limit the walk is marked
/// truncated.
pub open spec fn walk_emit(c: SourceErrorChain, opts: CauseCollectOptions, w: WalkModel, node_id: usize, depth: usize)
    -> (WalkModel, Option<(usize, usize)>)
{
    let srcs = c.nodes@[node_id as int].source_roots@;
    if srcs.len() > 0 {
        if depth + 1 < opts.max_depth {
            (WalkModel { frames: w.frames.push(ChainFrame { owner: Some(node_id), index: 0, depth: (depth + 1) as usize }), ..w },
             Some((node_id, depth)))
        } else {
            (WalkModel { state: CauseTraversalState { truncated: true, ..w.state }, ..w }, Some((node_id, depth)))
        }
    } else {
        (w, Some((node_id, depth)))
    }
}

/// The next visit of the walk: the state after it and the node and depth
/// visited, or `None` when the walk is over.
pub open spec fn walk_next(c: SourceErrorChain, opts: CauseCollectOptions, w: WalkModel) -> (WalkModel, Option<(usize, usize)>)
    decreases w.frames.len(), top_remaining(c, w),
{
    if w.frames.len() == 0 {
        (w, None)
    } else {
        let f = w.frames.last();
        let rest = w.frames.drop_last();
        if f.depth >= opts.max_depth {
            walk_next(c, opts, WalkModel { frames: rest, state: CauseTraversalState { truncated: true, ..w.state }, ..w })
        } else if f.index >= ids_of(c, f.owner).len() || f.index == usize::MAX {
            walk_next(c, opts, WalkModel { frames: rest, ..w })
        } else {
            let node_id = ids_of(c, f.owner)[f.index as int];
            let advanced = rest.push(ChainFrame { index: (f.index + 1) as usize, ..f });
            if node_id >= c.nodes@.len() {
                walk_next(c, opts, WalkModel { frames: advanced, ..w })
            } else if opts.detect_cycle {
                let p = path_pop(w.path, f.depth);
                let id = c.nodes@[node_id as int].identity;
                if path_has(p, id) {
                    walk_next(c, opts, WalkModel {
                        frames: advanced,
                        path: p,
                        state: CauseTraversalState { cycle_detected: true, ..w.state },
                    })
                } else {
                    walk_emit(c, opts, WalkModel { frames: advanced, path: p.push((f.depth, id)), ..w }, node_id, f.depth)
                }
            } else {
                walk_emit(c, opts, WalkModel { frames: advanced, ..w }, node_id, f.depth)
            }
        }
    }
}

/// A walk that has not started: one frame over the roots when there are any.
pub open spec fn walk_start(c: SourceErrorChain) -> WalkModel {
    WalkModel {
        frames: if c.roots@.len() > 0 { seq![ChainFrame { owner: None, index: 0, depth: 0 }] } else { Seq::empty() },
        path: Seq::empty(),
        state: CauseTraversalState { truncated: false, cycle_detected: false },
    }
}

/// The entry for node `node_id` at `depth`.
pub open spec fn entry_of(c: SourceErrorChain, node_id: usize, depth: usize, hide: bool, e: SourceErrorEntry) -> bool {
    &&& e.message@ == c.nodes@[node_id as int].message@
    &&& opt_view(e.type_label) == opt_view(c.nodes@[node_id as int].type_label)
    &&& opt_view(e.display_type_name) == display_type_name(opt_view(c.nodes@[node_id as int].type_label), hide)
    &&& e.depth == depth
}

/// Depth-first walk over the entries of a source-error chain.
pub struct SourceErrorChainEntries {
    chain: SourceErrorChain,
    stack: Vec<ChainFrame>,
    path: Vec<(usize, usize)>,
    state: CauseTraversalState,
    options: CauseCollectOptions,
    hide_report_wrapper_types: bool,
}

impl SourceErrorChainEntries {
    pub closed spec fn model(&self) -> WalkModel {
        WalkModel { frames: self.stack@, path: self.path@, state: self.state }
    }

    pub closed spec fn chain(&self) -> SourceErrorChain {
        self.chain
    }

    pub closed spec fn options(&self) -> CauseCollectOptions {
        self.options
    }

    pub closed spec fn hides_wrappers(&self) -> bool {
        self.hide_report_wrapper_types
    }

    /// A walk over `chain` with the given options.
    pub fn with_options(chain: SourceErrorChain, options: CauseCollectOptions, hide_report_wrapper_types: bool) -> (r: Self)
        ensures
            r.chain() == chain,
            r.options() == options,
            r.hides_wrappers() == hide_report_wrapper_types,
            r.model() == walk_start(chain),
    {
        let mut stack: Vec<ChainFrame> = Vec::new();
        if chain.roots.len() > 0 {
            stack.push(ChainFrame { owner: None, index: 0, depth: 0 });
        }
        let r = SourceErrorChainEntries {
            chain,
            stack,
            path: Vec::new(),
            state: CauseTraversalState::new(),
            options,
            hide_report_wrapper_types,
        };
        proof {
            assert(r.stack@ =~= walk_start(chain).frames);
            assert(r.path@ =~= walk_start(chain).path);
        }
        r
    }

    /// A walk over the whole chain: no depth limit, cycles detected.
    pub fn new(chain: SourceErrorChain, hide_report_wrapper_types: bool) -> (r: Self)
        ensures
            r.chain() == chain,
            r.options() == (CauseCollectOptions { max_depth: usize::MAX, detect_cycle: true }),
            r.hides_wrappers() == hide_report_wrapper_types,
            r.model() == walk_start(chain),
    {
        Self::with_options(chain, CauseCollectOptions { max_depth: usize::MAX, detect_cycle: true }, hide_report_wrapper_types)
    }

    /// The flags observed so far.
    pub fn state(&self) -> (r: CauseTraversalState)
        ensures
            r == self.model().state,
    {
        self.state
    }

    fn ids_len(&self, owner: Option<usize>) -> (r: usize)
        ensures
            r == ids_of(self.chain(), owner).len(),
    {
        match owner {
            None => self.chain.roots.len(),
            Some(k) => if k < self.chain.nodes.len() { self.chain.nodes[k].source_roots.len() } else { 0 },
        }
    }

    fn id_at(&self, owner: Option<usize>, i: usize) -> (r: usize)
        requires
            i < ids_of(self.chain(), owner).len(),
        ensures
            r == ids_of(self.chain(), owner)[i as int],
    {
        match owner {
            None => self.chain.roots[i],
            Some(k) => self.chain.nodes[k].source_roots[i],
        }
    }

    fn pop_path(&mut self, depth: usize)
        ensures
            final(self).path@ == path_pop(old(self).path@, depth),
            final(self).chain == old(self).chain,
            final(self).stack == old(self).stack,
            final(self).state == old(self).state,
            final(self).options == old(self).options,
            final(self).hide_report_wrapper_types == old(self).hide_report_wrapper_types,
    {
        loop
            invariant
                path_pop(self.path@, depth) == path_pop(old(self).path@, depth),
                self.chain == old(self).chain,
                self.stack == old(self).stack,
                self.state == old(self).state,
                self.options == old(self).options,
                self.hide_report_wrapper_types == old(self).hide_report_wrapper_types,
            ensures
                self.path@ == path_pop(old(self).path@, depth),
                self.chain == old(self).chain,
                self.stack == old(self).stack,
                self.state == old(self).state,
                self.options == old(self).options,
                self.hide_report_wrapper_types == old(self).hide_report_wrapper_types,
            decreases self.path@.len(),
        {
            let n = self.path.len();
            if n == 0 {
                break;
            }
            if self.path[n - 1].0 < depth {
                break;
            }
            let ghost before = self.path@;
            self.path.pop();
            proof {
                assert(self.path@ =~= before.drop_last());
            }
        }
    }

    fn path_contains(&self, id: usize) -> (r: bool)
        ensures
            r == path_has(self.path@, id),
    {
        let mut i: usize = 0;
        while i < self.path.len()
            invariant
                i <= self.path@.len(),
                forall|j: int| 0 <= j < i ==> self.path@[j].1 != id,
            decreases self.path@.len() - i,
        {
            if self.path[i].1 == id {
                return true;
            }
            i = i + 1;
        }
        false
    }

    /// The next node visited and its depth.
    pub fn next_visit(&mut self) -> (r: Option<(usize, usize)>)
        ensures
            final(self).chain() == old(self).chain(),
            final(self).options() == old(self).options(),
            final(self).hides_wrappers() == old(self).hides_wrappers(),
            (final(self).model(), r) == walk_next(old(self).chain(), old(self).options(), old(self).model()),
    {
        let ghost target = walk_next(self.chain, self.options, self.model());
        loop
            invariant
                self.chain == old(self).chain,
                self.options == old(self).options,
                self.hide_report_wrapper_types == old(self).hide_report_wrapper_types,
                target == walk_next(self.chain, self.options, self.model()),
                target == walk_next(old(self).chain(), old(self).options(), old(self).model()),
            decreases self.stack@.len(), top_remaining(self.chain, self.model()),
        {
            let n = self.stack.len();
            if n == 0 {
                return None;
            }
            let f = self.stack[n - 1];
            let ghost w = self.model();
            if f.depth >= self.options.max_depth {
                self.state.truncated = true;
                self.stack.pop();
                proof {
                    assert(self.stack@ =~= w.frames.drop_last());
                }
                continue;
            }
            let len = self.ids_len(f.owner);
            if f.index >= len {
                self.stack.pop();
                proof {
                    assert(self.stack@ =~= w.frames.drop_last());
                }
                continue;
            }
            let node_id = self.id_at(f.owner, f.index);
            self.stack.set(n - 1, ChainFrame { owner: f.owner, index: f.index + 1, depth: f.depth });
            proof {
                assert(self.stack@ =~= w.frames.drop_last().push(ChainFrame { index: (f.index + 1) as usize, ..f }));
            }
            if node_id >= self.chain.nodes.len() {
                continue;
            }
            if self.options.detect_cycle {
                self.pop_path(f.depth);
                let id = self.chain.nodes[node_id].identity;
                if self.path_contains(id) {
                    self.state.cycle_detected = true;
                    continue;
                }
                self.path.push((f.depth, id));
            }
            let has_sources = self.chain.nodes[node_id].source_roots.len() > 0;
            if has_sources {
                if f.depth + 1 < self.options.max_depth {
                    self.stack.push(ChainFrame { owner: Some(node_id), index: 0, depth: f.depth + 1 });
                } else {
                    self.state.truncated = true;
                }
            }
            return Some((node_id, f.depth));
        }
    }

    /// The next entry of the walk.
    pub fn next(&mut self) -> (r: Option<SourceErrorEntry>)
        ensures
            final(self).chain() == old(self).chain(),
            final(self).options() == old(self).options(),
            final(self).hides_wrappers() == old(self).hides_wrappers(),
            final(self).model() == walk_next(old(self).chain(), old(self).options(), old(self).model()).0,
            r is Some <==> walk_next(old(self).chain(), old(self).options(), old(self).model()).1 is Some,
            r matches Some(e) ==> ({
                let (node_id, depth) = walk_next(old(self).chain(), old(self).options(), old(self).model()).1->0;
                entry_of(old(self).chain(), node_id, depth, old(self).hides_wrappers(), e)
            }),
    {
        match self.next_visit() {
            None => None,
            Some((node_id, depth)) => {
                proof {
                    lemma_walk_visits_nodes(self.chain, self.options, old(self).model());
                }
                let item = &self.chain.nodes[node_id];
                Some(SourceErrorEntry {
                    message: item.message.clone(),
                    type_label: copy_opt(&item.type_label),
                    display_type_name: shown_type_name(&item.type_label, self.hide_report_wrapper_types),
                    depth,
                })
            },
        }
    }
}

/// A visited node is one of the chain's nodes and lies below the depth limit.
pub proof fn lemma_walk_visits_nodes(c: SourceErrorChain, opts: CauseCollectOptions, w: WalkModel)
    ensures
        walk_next(c, opts, w).1 matches Some(v) ==> v.0 < c.nodes@.len() && v.1 < opts.max_depth,
    decreases w.frames.len(), top_remaining(c, w),
{
    if w.frames.len() > 0 {
        let f = w.frames.last();
        let rest = w.frames.drop_last();
        if f.depth >= opts.max_depth {
            lemma_walk_visits_nodes(c, opts, WalkModel { frames: rest, state: CauseTraversalState { truncated: true, ..w.state }, ..w });
        } else if f.index >= ids_of(c, f.owner).len() || f.index == usize::MAX {
            lemma_walk_visits_nodes(c, opts, WalkModel { frames: rest, ..w });
        } else {
            let node_id = ids_of(c, f.owner)[f.index as int];
            let advanced = rest.push(ChainFrame { index: (f.index + 1) as usize, ..f });
            if node_id >= c.nodes@.len() {
                lemma_walk_visits_nodes(c, opts, WalkModel { frames: advanced, ..w });
            } else if opts.detect_cycle {
                let p = path_pop(w.path, f.depth);
                let id = c.nodes@[node_id as int].identity;
                if path_has(p, id) {
                    lemma_walk_visits_nodes(c, opts, WalkModel {
                        frames: advanced,
                        path: p,
                        state: CauseTraversalState { cycle_detected: true, ..w.state },
                    });
                }
            }
        }
    }
}

/// A step that visits nothing leaves no frame behind.
proof fn lemma_walk_none_ends(c: SourceErrorChain, opts: CauseCollectOptions, w: WalkModel)
    ensures
        walk_next(c, opts, w).1 is None ==> walk_next(c, opts, w).0.frames.len() == 0,
    decreases w.frames.len(), top_remaining(c, w),
{
    if w.frames.len() > 0 {
        let f = w.frames.last();
        let rest = w.frames.drop_last();
        if f.depth >= opts.max_depth {
            lemma_walk_none_ends(c, opts, WalkModel { frames: rest, state: CauseTraversalState { truncated: true, ..w.state }, ..w });
        } else if f.index >= ids_of(c, f.owner).len() || f.index == usize::MAX {
            lemma_walk_none_ends(c, opts, WalkModel { frames: rest, ..w });
        } else {
            let node_id = ids_of(c, f.owner)[f.index as int];
            let advanced = rest.push(ChainFrame { index: (f.index + 1) as usize, ..f });
            if node_id >= c.nodes@.len() {
                lemma_walk_none_ends(c, opts, WalkModel { frames: advanced, ..w });
            } else if opts.detect_cycle {
                let p = path_pop(w.path, f.depth);
                let id = c.nodes@[node_id as int].identity;
                if path_has(p, id) {
                    lemma_walk_none_ends(c, opts, WalkModel {
                        frames: advanced,
                        path: p,
                        state: CauseTraversalState { cycle_detected: true, ..w.state },
                    });
                }
            }
        }
    }
}

/// The state after `k` steps of the walk from `w`, and what each step visited.
pub open spec fn walk_run(c: SourceErrorChain, opts: CauseCollectOptions, w: WalkModel, k: nat) -> (WalkModel, Seq<Option<(usize, usize)>>)
    decreases k,
{
    if k == 0 {
        (w, Seq::empty())
    } else {
        let step = walk_next(c, opts, w);
        let rest = walk_run(c, opts, step.0, (k - 1) as nat);
        (rest.0, seq![step.1] + rest.1)
    }
}

/// Over any number of steps: every node visited is a node of the chain and
/// lies below the depth limit, and once a step visits nothing, no later step
/// visits anything.
pub proof fn lemma_walk_run(c: SourceErrorChain, opts: CauseCollectOptions, w: WalkModel, k: nat)
    ensures
        walk_run(c, opts, w, k).1.len() == k,
        forall|i: int| 0 <= i < k ==> ((#[trigger] walk_run(c, opts, w, k).1[i]) matches Some(v)
            ==> v.0 < c.nodes@.len() && v.1 < opts.max_depth),
        forall|i: int, j: int| 0 <= i < j < k && (#[trigger] walk_run(c, opts, w, k).1[i]) is None
            ==> (#[trigger] walk_run(c, opts, w, k).1[j]) is None,
        w.frames.len() == 0 ==> forall|i: int| 0 <= i < k ==> (#[trigger] walk_run(c, opts, w, k).1[i]) is None,
    decreases k,
{
    if k > 0 {
        let step = walk_next(c, opts, w);
        lemma_walk_visits_nodes(c, opts, w);
        lemma_walk_none_ends(c, opts, w);
        lemma_walk_run(c, opts, step.0, (k - 1) as nat);
        let rest = walk_run(c, opts, step.0, (k - 1) as nat);
        let outs = walk_run(c, opts, w, k).1;
        assert(outs == seq![step.1] + rest.1);
        assert forall|i: int| 0 < i < k implies #[trigger] outs[i] == rest.1[i - 1] by {}
        assert(outs[0] == step.1);
        assert forall|i: int| 0 <= i < k implies ((#[trigger] outs[i]) matches Some(v)
            ==> v.0 < c.nodes@.len() && v.1 < opts.max_depth) by {
            if i > 0 {
                assert(outs[i] == rest.1[i - 1]);
            }
        }
        assert forall|i: int, j: int| 0 <= i < j < k && (#[trigger] outs[i]) is None implies (#[trigger] outs[j]) is None by {
            if i == 0 {
                assert(rest.1[j - 1] is None);
            } else {
                assert(rest.1[i - 1] is None);
                assert(rest.1[j - 1] is None);
            }
        }
        if w.frames.len() == 0 {
            assert forall|i: int| 0 <= i < k implies (#[trigger] outs[i]) is None by {
                if i > 0 {
                    assert(rest.1[i - 1] is None);
                }
            }
        }
    }
}

/// Identities on the path are pairwise distinct.
pub open spec fn path_distinct(path: Seq<(usize, usize)>) -> bool {
    forall|i: int, j: int| 0 <= i < j < path.len() ==> #[trigger] path[i].1 != #[trigger] path[j].1
}

proof fn lemma_path_pop_prefix(path: Seq<(usize, usize)>, depth: usize)
    ensures
        path_pop(path, depth).len() <= path.len(),
        forall|i: int| 0 <= i < path_pop(path, depth).len() ==> #[trigger] path_pop(path, depth)[i] == path[i],
    decreases path.len(),
{
    if path.len() > 0 && path.last().0 >= depth {
        lemma_path_pop_prefix(path.drop_last(), depth);
    }
}

/// With cycle detection on, the walk keeps the identities on its path
/// pairwise distinct: no node is visited below a node of the same error.
pub proof fn lemma_walk_path_distinct(c: SourceErrorChain, opts: CauseCollectOptions, w: WalkModel)
    requires
        opts.detect_cycle,
        path_distinct(w.path),
    ensures
        path_distinct(walk_next(c, opts, w).0.path),
    decreases w.frames.len(), top_remaining(c, w),
{
    if w.frames.len() > 0 {
        let f = w.frames.last();
        let rest = w.frames.drop_last();
        if f.depth >= opts.max_depth {
            lemma_walk_path_distinct(c, opts, WalkModel { frames: rest, state: CauseTraversalState { truncated: true, ..w.state }, ..w });
        } else if f.index >= ids_of(c, f.owner).len() || f.index == usize::MAX {
            lemma_walk_path_distinct(c, opts, WalkModel { frames: rest, ..w });
        } else {
            let node_id = ids_of(c, f.owner)[f.index as int];
            let advanced = rest.push(ChainFrame { index: (f.index + 1) as usize, ..f });
            if node_id >= c.nodes@.len() {
                lemma_walk_path_distinct(c, opts, WalkModel { frames: advanced, ..w });
            } else {
                let p = path_pop(w.path, f.depth);
                let id = c.nodes@[node_id as int].identity;
                lemma_path_pop_prefix(w.path, f.depth);
                assert(path_distinct(p));
                if path_has(p, id) {
                    lemma_walk_path_distinct(c, opts, WalkModel {
                        frames: advanced,
                        path: p,
                        state: CauseTraversalState { cycle_detected: true, ..w.state },
                    });
                } else {
                    let q = p.push((f.depth, id));
                    assert forall|i: int, j: int| 0 <= i < j < q.len() implies #[trigger] q[i].1 != #[trigger] q[j].1 by {
                        if j == q.len() - 1 {
                            if q[i].1 == id {
                                assert(p[i].1 == id);
                            }
                        }
                    }
                }
            }
        }
    }
}

/// Two nodes with the same message, type name, identity and sources.
pub open spec fn same_item(a: SourceErrorItem, b: SourceErrorItem) -> bool {
    &&& a.message@ == b.message@
    &&& opt_view(a.type_label) == opt_view(b.type_label)
    &&& a.identity == b.identity
    &&& a.source_roots@ == b.source_roots@
}

/// Two chains with the same nodes, roots and flags.
pub open spec fn same_chain(a: SourceErrorChain, b: SourceErrorChain) -> bool {
    &&& a.nodes@.len() == b.nodes@.len()
    &&& forall|i: int| 0 <= i < a.nodes@.len() ==> same_item(#[trigger] a.nodes@[i], b.nodes@[i])
    &&& a.roots@ == b.roots@
    &&& a.truncated == b.truncated
    &&& a.cycle_detected == b.cycle_detected
}

/// Copies a list of ids.
fn copy_ids(v: &Vec<usize>) -> (r: Vec<usize>)
    ensures
        r@ == v@,
{
    let mut out: Vec<usize> = Vec::new();
    let mut i: usize = 0;
    while i < v.len()
        invariant
            i <= v@.len(),
            out@ == v@.take(i as int),
        decreases v@.len() - i,
    {
        out.push(v[i]);
        proof {
            assert(v@.take(i as int + 1) =~= v@.take(i as int).push(v@[i as int]));
        }
        i = i + 1;
    }
    proof {
        assert(v@.take(v@.len() as int) =~= v@);
    }
    out
}

impl SourceErrorItem {
    /// A node with no sources.
    pub fn new(message: String, type_label: Option<String>, identity: usize) -> (r: Self)
        ensures
            r.message@ == message@,
            opt_view(r.type_label) == opt_view(type_label),
            r.identity == identity,
            r.source_roots@.len() == 0,
    {
        SourceErrorItem { message, type_label, identity, source_roots: Vec::new() }
    }

    /// The type name shown for this node.
    pub fn type_name_for_display(&self, hide_report_wrapper_types: bool) -> (r: Option<String>)
        ensures
            opt_view(r) == display_type_name(opt_view(self.type_label), hide_report_wrapper_types),
    {
        shown_type_name(&self.type_label, hide_report_wrapper_types)
    }

    /// A copy of the node.
    pub fn copy(&self) -> (r: Self)
        ensures
            same_item(r, *self),
    {
        match self {
            SourceErrorItem { message, type_label: t, identity, source_roots } => SourceErrorItem {
                message: message.clone(),
                type_label: copy_opt(t),
                identity: *identity,
                source_roots: copy_ids(source_roots),
            },
        }
    }
}

impl SourceErrorChain {
    /// An empty chain with no flags set.
    pub fn new() -> (r: Self)
        ensures
            r.nodes@.len() == 0,
            r.roots@.len() == 0,
            !r.truncated,
            !r.cycle_detected,
    {
        SourceErrorChain { nodes: Vec::new(), roots: Vec::new(), truncated: false, cycle_detected: false }
    }

    /// Whether the chain has no roots.
    pub fn is_empty(&self) -> (r: bool)
        ensures
            r == (self.roots@.len() == 0),
    {
        self.roots.len() == 0
    }

    /// The node `id`, when there is one.
    pub fn node(&self, id: usize) -> (r: Option<&SourceErrorItem>)
        ensures
            id < self.nodes@.len() ==> r == Some(&self.nodes@[id as int]),
            id >= self.nodes@.len() ==> r is None,
    {
        if id < self.nodes.len() {
            Some(&self.nodes[id])
        } else {
            None
        }
    }

    /// The first root's node, when there is one.
    pub fn first_error(&self) -> (r: Option<&SourceErrorItem>)
        ensures
            (self.roots@.len() > 0 && self.roots@[0] < self.nodes@.len()) ==> r == Some(&self.nodes@[self.roots@[0] as int]),
            !(self.roots@.len() > 0 && self.roots@[0] < self.nodes@.len()) ==> r is None,
    {
        if self.roots.len() == 0 {
            return None;
        }
        self.node(self.roots[0])
    }

    /// The flags the capture observed.
    pub fn state(&self) -> (r: CauseTraversalState)
        ensures
            r.truncated == self.truncated,
            r.cycle_detected == self.cycle_detected,
    {
        CauseTraversalState { truncated: self.truncated, cycle_detected: self.cycle_detected }
    }

    /// Adds a node and returns its id.
    pub fn push_node(&mut self, item: SourceErrorItem) -> (r: usize)
        requires
            old(self).nodes@.len() < usize::MAX,
        ensures
            r == old(self).nodes@.len(),
            final(self).nodes@ == old(self).nodes@.push(item),
            final(self).roots@ == old(self).roots@,
            final(self).truncated == old(self).truncated,
            final(self).cycle_detected == old(self).cycle_detected,
    {
        let id = self.nodes.len();
        self.nodes.push(item);
        id
    }

    /// Names `id` as a root.
    pub fn push_root(&mut self, id: usize)
        ensures
            final(self).roots@ == old(self).roots@.push(id),
            final(self).nodes@ == old(self).nodes@,
            final(self).truncated == old(self).truncated,
            final(self).cycle_detected == old(self).cycle_detected,
    {
        self.roots.push(id);
    }

    /// Every entry of the chain, depth first, with cycles skipped.
    pub fn iter_entries(self, hide_report_wrapper_types: bool) -> (r: SourceErrorChainEntries)
        ensures
            r.chain() == self,
            r.hides_wrappers() == hide_report_wrapper_types,
            r.model() == walk_start(self),
    {
        SourceErrorChainEntries::new(self, hide_report_wrapper_types)
    }

    /// A copy of the chain.
    pub fn copy(&self) -> (r: Self)
        ensures
            r.nodes@.len() == self.nodes@.len(),
            forall|i: int| 0 <= i < self.nodes@.len() ==> same_item(#[trigger] r.nodes@[i], self.nodes@[i]),
            r.roots@ == self.roots@,
            r.truncated == self.truncated,
            r.cycle_detected == self.cycle_detected,
    {
        let mut nodes: Vec<SourceErrorItem> = Vec::new();
        let mut i: usize = 0;
        while i < self.nodes.len()
            invariant
                i <= self.nodes@.len(),
                nodes@.len() == i,
                forall|j: int| 0 <= j < i ==> same_item(#[trigger] nodes@[j], self.nodes@[j]),
            decreases self.nodes@.len() - i,
        {
            nodes.push(self.nodes[i].copy());
            i = i + 1;
        }
        SourceErrorChain {
            nodes,
            roots: copy_ids(&self.roots),
            truncated: self.truncated,
            cycle_detected: self.cycle_detected,
        }
    }
}

/// Walks the root-level items of a chain in root order; it stops at the
/// first root that names no node.
pub struct SourceErrorItemIter<'a> {
    chain: &'a SourceErrorChain,
    index: usize,
}

impl<'a> SourceErrorItemIter<'a> {
    /// The chain walked.
    pub closed spec fn walked(&self) -> SourceErrorChain {
        *self.chain
    }

    /// How many roots were consumed.
    pub closed spec fn position(&self) -> nat {
        self.index as nat
    }

    /// The next root-level item: the node of the next root, `None` once the
    /// roots are exhausted or the root names no node.
    pub fn next(&mut self) -> (r: Option<&'a SourceErrorItem>)
        ensures
            final(self).walked() == old(self).walked(),
            ({
                let c = old(self).walked();
                let i = old(self).position();
                if i < c.roots@.len() {
                    &&& final(self).position() == i + 1
                    &&& (c.roots@[i as int] < c.nodes@.len() ==> r == Some(&c.nodes@[c.roots@[i as int] as int]))
                    &&& (c.roots@[i as int] >= c.nodes@.len() ==> r is None)
                } else {
                    &&& final(self).position() == i
                    &&& r is None
                }
            }),
    {
        if self.index >= self.chain.roots.len() {
            return None;
        }
        let id = self.chain.roots[self.index];
        self.index = self.index + 1;
        self.chain.node(id)
    }
}

impl SourceErrorChain {
    /// An iterator over the root-level items, from the first root.
    pub fn iter(&self) -> (r: SourceErrorItemIter<'_>)
        ensures
            r.walked() == *self,
            r.position() == 0,
    {
        SourceErrorItemIter { chain: self, index: 0 }
    }
}

/// Whether showing the nodes `ids` at depth `d` (roots at depth 1) under the
/// depth limit `max` leaves some node's sources out.
pub open spec fn cuts_below(c: SourceErrorChain, ids: Seq<usize>, d: int, max: int) -> bool
    decreases max - d, 1int, ids.len(),
{
    if ids.len() == 0 {
        false
    } else if cuts_below(c, ids.drop_last(), d, max) {
        true
    } else if ids.last() < c.nodes@.len() {
        node_cuts(c, ids.last(), d, max)
    } else {
        false
    }
}

/// Whether showing node `id` at depth `d` leaves some of its sources out.
pub open spec fn node_cuts(c: SourceErrorChain, id: usize, d: int, max: int) -> bool
    decreases max - d, 0int, 0nat,
{
    if id >= c.nodes@.len() || c.nodes@[id as int].source_roots@.len() == 0 {
        false
    } else if d >= max {
        true
    } else {
        cuts_below(c, c.nodes@[id as int].source_roots@, d + 1, max)
    }
}

/// Whether a chain shown under the depth limit `max` is truncated: it was
/// captured truncated, the limit is zero, or the limit leaves sources out.
pub open spec fn view_truncated(c: SourceErrorChain, max: int) -> bool {
    c.truncated || max == 0 || cuts_below(c, c.roots@, 1, max)
}

fn node_cuts_exec(c: &SourceErrorChain, id: usize, d: usize, max: usize) -> (r: bool)
    ensures
        r == node_cuts(*c, id, d as int, max as int),
    decreases max - d, 0int, 0nat,
{
    if id >= c.nodes.len() || c.nodes[id].source_roots.len() == 0 {
        false
    } else if d >= max {
        true
    } else {
        cuts_below_exec(c, &c.nodes[id].source_roots, d + 1, max)
    }
}

fn cuts_below_exec(c: &SourceErrorChain, ids: &Vec<usize>, d: usize, max: usize) -> (r: bool)
    requires
        d <= max || ids@.len() == 0 || d == 1,
    ensures
        r == cuts_below(*c, ids@, d as int, max as int),
    decreases max - d, 1int, 0nat,
{
    let mut i: usize = 0;
    proof {
        assert(ids@.take(0) =~= Seq::<usize>::empty());
    }
    while i < ids.len()
        invariant
            i <= ids@.len(),
            !cuts_below(*c, ids@.take(i as int), d as int, max as int),
        decreases ids@.len() - i,
    {
        proof {
            assert(ids@.take(i as int + 1).drop_last() =~= ids@.take(i as int));
            assert(ids@.take(i as int + 1).last() == ids@[i as int]);
        }
        if node_cuts_exec(c, ids[i], d, max) {
            proof {
                lemma_cuts_below_prefix(*c, ids@, i as int + 1, d as int, max as int);
            }
            return true;
        }
        i = i + 1;
    }
    proof {
        assert(ids@.take(i as int) =~= ids@);
    }
    false
}

/// A prefix that leaves sources out makes the whole list leave sources out.
proof fn lemma_cuts_below_prefix(c: SourceErrorChain, ids: Seq<usize>, k: int, d: int, max: int)
    requires
        0 <= k <= ids.len(),
        cuts_below(c, ids.take(k), d, max),
    ensures
        cuts_below(c, ids, d, max),
    decreases ids.len() - k,
{
    if k < ids.len() {
        assert(ids.take(k + 1).drop_last() =~= ids.take(k));
        lemma_cuts_below_prefix(c, ids, k + 1, d, max);
    } else {
        assert(ids.take(k) =~= ids);
    }
}

impl SourceErrorChain {
    /// The flags the chain shows under `options`: truncated as
    /// [`view_truncated`] says, and a cycle only when cycles are detected.
    pub fn view_flags(&self, options: CauseCollectOptions) -> (r: CauseTraversalState)
        ensures
            r.truncated == view_truncated(*self, options.max_depth as int),
            r.cycle_detected == (self.cycle_detected && options.detect_cycle),
    {
        let truncated = self.truncated || options.max_depth == 0 || cuts_below_exec(self, &self.roots, 1, options.max_depth);
        CauseTraversalState { truncated, cycle_detected: self.cycle_detected && options.detect_cycle }
    }
}

} // verus!


