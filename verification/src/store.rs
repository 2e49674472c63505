//! Cause stores: where a report keeps the causes it was given (errors,
//! event messages and groups of both), and how they are collected into
//! messages under a depth limit and cycle detection.

use vstd::prelude::*;
use crate::cause::{chain_walk, collect_error_chain, messages_view, seen_set, CauseCollection, ErrorGraph, ErrorNode, SeenErrorAddrs};
use crate::config::CauseCollectOptions;
use crate::text::append_str;

verus! {

/// The state of a collection: (messages, depth, identities seen, truncated,
/// cycle detected).
pub type WalkState = (Seq<Seq<char>>, nat, Set<usize>, bool, bool);

/// The state a collection starts from.
pub open spec fn walk_start() -> WalkState {
    (Seq::empty(), 0, Set::empty(), false, false)
}

/// What a collection reports of a walk state: its messages and flags.
pub open spec fn collection_matches(c: CauseCollection, s: WalkState) -> bool {
    &&& messages_view(c.messages@) == s.0
    &&& c.truncated == s.3
    &&& c.cycle_detected == s.4
}

/// The message recorded for an event.
pub open spec fn event_text(message: Seq<char>) -> Seq<char> {
    "event: "@ + message
}

/// The message recorded when a local error is kept as an event.
pub open spec fn local_error_text(message: Seq<char>) -> Seq<char> {
    "local-error: "@ + message
}

/// The node an error's `source()` names in the graph, if any.
pub open spec fn node_source(g: ErrorGraph, n: ErrorNode) -> Option<usize> {
    match n.source {
        Some(s) => if s < g.nodes@.len() { Some(s) } else { None },
        None => None,
    }
}

/// A cause: an error, an event message, or a group of causes.
#[derive(Debug)]
pub enum StdCause {
    Error(ErrorNode),
    Event(String),
    Group(Vec<StdCause>),
}

/// Causes kept by a store that also holds errors that are not thread-safe;
/// their shape is that of [`StdCause`].
pub type LocalCause = StdCause;

/// The walk state after collecting one cause: nothing more once the depth
/// limit is reached (then `truncated`); an error adds its message and walks
/// its source chain; an event adds its message; a group collects its members
/// in order until one truncates or detects a cycle.
pub open spec fn collect_cause(g: ErrorGraph, c: StdCause, o: CauseCollectOptions, s: WalkState) -> WalkState
    decreases c, 1nat, 0int,
{
    if s.1 >= o.max_depth {
        (s.0, s.1, s.2, true, s.4)
    } else {
        match c {
            StdCause::Error(n) => chain_walk(g, node_source(g, n), o, s.0.push(n.message@), s.1 + 1, s.2, s.3, s.4),
            StdCause::Event(m) => (s.0.push(event_text(m@)), s.1 + 1, s.2, s.3, s.4),
            StdCause::Group(children) => collect_list(g, children@, 0, o, s),
        }
    }
}

/// The walk state after collecting `cs[i..]` in order, stopping after the
/// first one that truncates or detects a cycle.
pub open spec fn collect_list(g: ErrorGraph, cs: Seq<StdCause>, i: int, o: CauseCollectOptions, s: WalkState) -> WalkState
    decreases cs, 0nat, cs.len() - i,
{
    if i < 0 || i >= cs.len() {
        s
    } else {
        let s1 = collect_cause(g, cs[i], o, s);
        if s1.3 || s1.4 {
            s1
        } else {
            collect_list(g, cs, i + 1, o, s1)
        }
    }
}

/// The first error of a cause, depth first.
pub open spec fn first_error_of(c: StdCause) -> Option<ErrorNode>
    decreases c, 1nat, 0int,
{
    match c {
        StdCause::Error(n) => Some(n),
        StdCause::Event(_) => None,
        StdCause::Group(children) => first_error_in(children@, 0),
    }
}

/// The first error among `cs[i..]`, depth first.
pub open spec fn first_error_in(cs: Seq<StdCause>, i: int) -> Option<ErrorNode>
    decreases cs, 0nat, cs.len() - i,
{
    if i < 0 || i >= cs.len() {
        None
    } else {
        match first_error_of(cs[i]) {
            Some(n) => Some(n),
            None => first_error_in(cs, i + 1),
        }
    }
}

/// Whether `c` is the event cause with text `m`.
pub open spec fn is_event_cause(c: StdCause, m: Seq<char>) -> bool {
    c matches StdCause::Event(s) && s@ == m
}

impl StdCause {
    /// An error cause.
    pub fn error(err: ErrorNode) -> (r: Self)
        ensures
            r == StdCause::Error(err),
    {
        StdCause::Error(err)
    }

    /// An event cause.
    pub fn event(message: String) -> (r: Self)
        ensures
            is_event_cause(r, message@),
    {
        StdCause::Event(message)
    }

    /// A group of causes, in the given order.
    pub fn group(causes: Vec<StdCause>) -> (r: Self)
        ensures
            r == StdCause::Group(causes),
    {
        StdCause::Group(causes)
    }
}

fn event_message(message: &str) -> (r: String)
    ensures
        r@ == event_text(message@),
{
    let mut s = String::new();
    append_str(&mut s, "event: ");
    append_str(&mut s, message);
    s
}

/// Collects one cause into `state`, as [`collect_cause`] says.
fn collect_one(
    graph: &ErrorGraph,
    cause: &StdCause,
    options: CauseCollectOptions,
    state: &mut CauseCollection,
    depth: &mut usize,
    seen: &mut SeenErrorAddrs,
)
    requires
        old(seen).wf(),
    ensures
        final(seen).wf(),
        ({
            let r = collect_cause(*graph, *cause, options,
                (messages_view(old(state).messages@), *old(depth) as nat, seen_set(old(seen)), old(state).truncated, old(state).cycle_detected));
            &&& messages_view(final(state).messages@) == r.0
            &&& *final(depth) == r.1
            &&& seen_set(final(seen)) == r.2
            &&& final(state).truncated == r.3
            &&& final(state).cycle_detected == r.4
        }),
    decreases cause, 1nat,
{
    if *depth >= options.max_depth {
        state.truncated = true;
        return;
    }
    match cause {
        StdCause::Error(err) => {
            let ghost old_msgs = state.messages@;
            state.messages.push(err.message.clone());
            proof {
                assert(messages_view(state.messages@) =~= messages_view(old_msgs).push(err.message@));
            }
            *depth = *depth + 1;
            let start = match err.source {
                Some(s) => if s < graph.nodes.len() { Some(s) } else { None },
                None => None,
            };
            collect_error_chain(graph, start, options, state, depth, seen);
        },
        StdCause::Event(message) => {
            let ghost old_msgs = state.messages@;
            state.messages.push(event_message(message.as_str()));
            proof {
                assert(messages_view(state.messages@) =~= messages_view(old_msgs).push(event_text(message@)));
            }
            *depth = *depth + 1;
        },
        StdCause::Group(children) => {
            collect_many(graph, children, options, state, depth, seen);
        },
    }
}

/// Collects `causes` in order into `state`, as [`collect_list`] says.
fn collect_many(
    graph: &ErrorGraph,
    causes: &Vec<StdCause>,
    options: CauseCollectOptions,
    state: &mut CauseCollection,
    depth: &mut usize,
    seen: &mut SeenErrorAddrs,
)
    requires
        old(seen).wf(),
    ensures
        final(seen).wf(),
        ({
            let r = collect_list(*graph, causes@, 0, options,
                (messages_view(old(state).messages@), *old(depth) as nat, seen_set(old(seen)), old(state).truncated, old(state).cycle_detected));
            &&& messages_view(final(state).messages@) == r.0
            &&& *final(depth) == r.1
            &&& seen_set(final(seen)) == r.2
            &&& final(state).truncated == r.3
            &&& final(state).cycle_detected == r.4
        }),
    decreases causes@, 0nat,
{
    let ghost target = collect_list(*graph, causes@, 0, options,
        (messages_view(state.messages@), *depth as nat, seen_set(seen), state.truncated, state.cycle_detected));
    let mut i: usize = 0;
    while i < causes.len()
        invariant_except_break
            target == collect_list(*graph, causes@, i as int, options,
                (messages_view(state.messages@), *depth as nat, seen_set(seen), state.truncated, state.cycle_detected)),
        invariant
            seen.wf(),
            i <= causes@.len(),
        ensures
            seen.wf(),
            target == (messages_view(state.messages@), *depth as nat, seen_set(seen), state.truncated, state.cycle_detected),
        decreases causes@.len() - i,
    {
        proof {
            assert(decreases_to!(causes@ => causes@[i as int]));
        }
        collect_one(graph, &causes[i], options, state, depth, seen);
        i = i + 1;
        if state.truncated || state.cycle_detected {
            break;
        }
    }
}

/// Finds the first error of a cause, depth first.
fn first_error_one(cause: &StdCause) -> (r: Option<&ErrorNode>)
    ensures
        match r {
            Some(n) => first_error_of(*cause) == Some(*n),
            None => first_error_of(*cause) is None,
        },
    decreases cause, 1nat,
{
    match cause {
        StdCause::Error(err) => Some(err),
        StdCause::Event(_) => None,
        StdCause::Group(children) => first_error_many(children),
    }
}

/// Finds the first error among `causes`, depth first.
fn first_error_many(causes: &Vec<StdCause>) -> (r: Option<&ErrorNode>)
    ensures
        match r {
            Some(n) => first_error_in(causes@, 0) == Some(*n),
            None => first_error_in(causes@, 0) is None,
        },
    decreases causes@, 0nat,
{
    let mut i: usize = 0;
    while i < causes.len()
        invariant
            i <= causes@.len(),
            first_error_in(causes@, 0) == first_error_in(causes@, i as int),
        decreases causes@.len() - i,
    {
        proof {
            assert(decreases_to!(causes@ => causes@[i as int]));
        }
        let found = first_error_one(&causes[i]);
        if found.is_some() {
            return found;
        }
        i = i + 1;
    }
    None
}

/// Where a report keeps its causes, and how it collects them.
pub trait CauseStore: Sized {
    /// What one cause is in this store.
    type Cause;

    /// The causes held, in the order they were pushed.
    spec fn held(&self) -> Seq<Self::Cause>;

    /// What collecting the held causes yields.
    spec fn collected(&self, g: ErrorGraph, o: CauseCollectOptions) -> WalkState;

    /// The first error held, depth first.
    spec fn first_held_error(&self) -> Option<ErrorNode>;

    /// Adds a cause after the others.
    fn push(&mut self, cause: Self::Cause)
        ensures
            final(self).held() == old(self).held().push(cause),
    ;

    /// Adds causes after the others, in order.
    fn extend(&mut self, causes: Vec<Self::Cause>)
        ensures
            final(self).held() == old(self).held() + causes@,
    {
        let ghost start = self.held();
        let ghost all = causes@;
        let mut rest = causes;
        let total: usize = rest.len();
        let mut k: usize = 0;
        while rest.len() > 0
            invariant
                all.len() == total,
                k + rest@.len() == all.len(),
                rest@ == all.subrange(k as int, all.len() as int),
                self.held() == start + all.subrange(0, k as int),
            decreases rest@.len(),
        {
            let c = rest.remove(0);
            proof {
                assert(c == all[k as int]);
            }
            self.push(c);
            k = k + 1;
            proof {
                assert(start + all.subrange(0, k as int) =~= (start + all.subrange(0, k - 1)).push(all[k - 1]));
                assert(rest@ =~= all.subrange(k as int, all.len() as int));
            }
        }
        proof {
            assert(all.subrange(0, k as int) =~= all);
        }
    }

    /// The first error held, depth first.
    fn first_error(&self) -> (r: Option<&ErrorNode>)
        ensures
            match r {
                Some(n) => self.first_held_error() == Some(*n),
                None => self.first_held_error() is None,
            },
    ;

    /// Collects the held causes into messages.
    fn collect(&self, graph: &ErrorGraph, options: CauseCollectOptions) -> (r: CauseCollection)
        ensures
            collection_matches(r, self.collected(*graph, options)),
    ;
}

/// A store that can record event messages.
pub trait EventCauseStore: CauseStore {
    /// Whether `c` records the event `message`.
    spec fn is_event(c: Self::Cause, message: Seq<char>) -> bool;

    /// The cause recording the event `message`.
    fn event_cause(message: String) -> (r: Self::Cause)
        ensures
            Self::is_event(r, message@),
    ;
}

/// A store that can record thread-safe errors.
pub trait StdErrorCauseStore: CauseStore {
    /// Whether `c` records the error `err`.
    spec fn holds_error(c: Self::Cause, err: ErrorNode) -> bool;

    /// The cause recording the error `err`.
    fn std_error_cause(err: ErrorNode) -> (r: Self::Cause)
        ensures
            Self::holds_error(r, err),
    ;
}

/// A store that can record errors that are not thread-safe.
pub trait LocalErrorCauseStore: CauseStore {
    /// Whether `c` records the local error `err`.
    spec fn holds_local_error(c: Self::Cause, err: ErrorNode) -> bool;

    /// The cause recording the local error `err`.
    fn local_error_cause(err: ErrorNode) -> (r: Self::Cause)
        ensures
            Self::holds_local_error(r, err),
    ;
}

/// Collects a list of causes from a fresh state.
fn collect_from_start(graph: &ErrorGraph, causes: &Vec<StdCause>, options: CauseCollectOptions) -> (r: CauseCollection)
    ensures
        collection_matches(r, collect_list(*graph, causes@, 0, options, walk_start())),
{
    let mut state = CauseCollection { messages: Vec::new(), truncated: false, cycle_detected: false };
    let mut depth: usize = 0;
    let mut seen = SeenErrorAddrs::new();
    proof {
        assert(messages_view(state.messages@) =~= Seq::empty());
        assert(seen_set(&seen) =~= Set::empty());
    }
    collect_many(graph, causes, options, &mut state, &mut depth, &mut seen);
    state
}

/// Keeps thread-safe errors, events and groups.
#[derive(Debug)]
pub struct StdCauseStore {
    causes: Vec<StdCause>,
}

impl StdCauseStore {
    /// The causes held, in order.
    pub fn causes(&self) -> (r: &[StdCause])
        ensures
            r@ == self.held(),
    {
        self.causes.as_slice()
    }
}

impl Default for StdCauseStore {
    fn default() -> (r: Self)
        ensures
            r.held().len() == 0,
    {
        StdCauseStore { causes: Vec::new() }
    }
}

impl CauseStore for StdCauseStore {
    type Cause = StdCause;

    closed spec fn held(&self) -> Seq<StdCause> {
        self.causes@
    }

    open spec fn collected(&self, g: ErrorGraph, o: CauseCollectOptions) -> WalkState {
        collect_list(g, self.held(), 0, o, walk_start())
    }

    open spec fn first_held_error(&self) -> Option<ErrorNode> {
        first_error_in(self.held(), 0)
    }

    fn push(&mut self, cause: StdCause) {
        self.causes.push(cause);
    }

    fn first_error(&self) -> (r: Option<&ErrorNode>) {
        first_error_many(&self.causes)
    }

    fn collect(&self, graph: &ErrorGraph, options: CauseCollectOptions) -> (r: CauseCollection) {
        collect_from_start(graph, &self.causes, options)
    }
}

impl EventCauseStore for StdCauseStore {
    open spec fn is_event(c: StdCause, message: Seq<char>) -> bool {
        is_event_cause(c, message)
    }

    fn event_cause(message: String) -> (r: StdCause) {
        StdCause::Event(message)
    }
}

impl StdErrorCauseStore for StdCauseStore {
    open spec fn holds_error(c: StdCause, err: ErrorNode) -> bool {
        c == StdCause::Error(err)
    }

    fn std_error_cause(err: ErrorNode) -> (r: StdCause) {
        StdCause::Error(err)
    }
}

fn local_error_message(message: &str) -> (r: String)
    ensures
        r@ == local_error_text(message@),
{
    let mut s = String::new();
    append_str(&mut s, "local-error: ");
    append_str(&mut s, message);
    s
}

impl LocalErrorCauseStore for StdCauseStore {
    /// A local error is kept as an event carrying its text.
    open spec fn holds_local_error(c: StdCause, err: ErrorNode) -> bool {
        is_event_cause(c, local_error_text(err.message@))
    }

    fn local_error_cause(err: ErrorNode) -> (r: StdCause) {
        StdCause::Event(local_error_message(err.message.as_str()))
    }
}

/// Keeps errors that need not be thread-safe, events and groups.
#[derive(Debug)]
pub struct LocalCauseStore {
    causes: Vec<LocalCause>,
}

impl LocalCauseStore {
    /// The causes held, in order.
    pub fn causes(&self) -> (r: &[LocalCause])
        ensures
            r@ == self.held(),
    {
        self.causes.as_slice()
    }
}

impl Default for LocalCauseStore {
    fn default() -> (r: Self)
        ensures
            r.held().len() == 0,
    {
        LocalCauseStore { causes: Vec::new() }
    }
}

impl CauseStore for LocalCauseStore {
    type Cause = LocalCause;

    closed spec fn held(&self) -> Seq<LocalCause> {
        self.causes@
    }

    open spec fn collected(&self, g: ErrorGraph, o: CauseCollectOptions) -> WalkState {
        collect_list(g, self.held(), 0, o, walk_start())
    }

    open spec fn first_held_error(&self) -> Option<ErrorNode> {
        first_error_in(self.held(), 0)
    }

    fn push(&mut self, cause: LocalCause) {
        self.causes.push(cause);
    }

    fn first_error(&self) -> (r: Option<&ErrorNode>) {
        first_error_many(&self.causes)
    }

    fn collect(&self, graph: &ErrorGraph, options: CauseCollectOptions) -> (r: CauseCollection) {
        collect_from_start(graph, &self.causes, options)
    }
}

impl EventCauseStore for LocalCauseStore {
    open spec fn is_event(c: LocalCause, message: Seq<char>) -> bool {
        is_event_cause(c, message)
    }

    fn event_cause(message: String) -> (r: LocalCause) {
        StdCause::Event(message)
    }
}

impl StdErrorCauseStore for LocalCauseStore {
    open spec fn holds_error(c: LocalCause, err: ErrorNode) -> bool {
        c == StdCause::Error(err)
    }

    fn std_error_cause(err: ErrorNode) -> (r: LocalCause) {
        StdCause::Error(err)
    }
}

impl LocalErrorCauseStore for LocalCauseStore {
    open spec fn holds_local_error(c: LocalCause, err: ErrorNode) -> bool {
        c == StdCause::Error(err)
    }

    fn local_error_cause(err: ErrorNode) -> (r: LocalCause) {
        StdCause::Error(err)
    }
}

/// What collecting event messages yields: the first `max_depth` of them as
/// event messages, truncated when there were more.
pub open spec fn collect_events(events: Seq<String>, o: CauseCollectOptions) -> WalkState {
    let n: nat = if events.len() <= o.max_depth { events.len() } else { o.max_depth as nat };
    (Seq::new(n, |i: int| event_text(events[i]@)), n, Set::empty(), events.len() > o.max_depth, false)
}

/// Keeps only event messages; errors are kept by their text.
#[derive(Debug)]
pub struct EventOnlyStore {
    events: Vec<String>,
}

impl EventOnlyStore {
    /// The messages held, in order.
    pub fn events(&self) -> (r: &[String])
        ensures
            r@ == self.held(),
    {
        self.events.as_slice()
    }
}

impl Default for EventOnlyStore {
    fn default() -> (r: Self)
        ensures
            r.held().len() == 0,
    {
        EventOnlyStore { events: Vec::new() }
    }
}

impl CauseStore for EventOnlyStore {
    type Cause = String;

    closed spec fn held(&self) -> Seq<String> {
        self.events@
    }

    open spec fn collected(&self, g: ErrorGraph, o: CauseCollectOptions) -> WalkState {
        collect_events(self.held(), o)
    }

    open spec fn first_held_error(&self) -> Option<ErrorNode> {
        None
    }

    fn push(&mut self, cause: String) {
        self.events.push(cause);
    }

    fn first_error(&self) -> (r: Option<&ErrorNode>) {
        None
    }

    fn collect(&self, graph: &ErrorGraph, options: CauseCollectOptions) -> (r: CauseCollection) {
        let ghost target = collect_events(self.events@, options);
        let mut state = CauseCollection { messages: Vec::new(), truncated: false, cycle_detected: false };
        let mut i: usize = 0;
        while i < self.events.len()
            invariant_except_break
                !state.truncated,
            invariant
                i <= self.events@.len(),
                i <= options.max_depth,
                state.messages@.len() == i,
                !state.cycle_detected,
                messages_view(state.messages@) == Seq::new(i as nat, |j: int| event_text(self.events@[j]@)),
            ensures
                state.truncated == (self.events@.len() > options.max_depth),
                i == (if self.events@.len() <= options.max_depth { self.events@.len() } else { options.max_depth as nat }),
            decreases self.events@.len() - i,
        {
            if state.messages.len() >= options.max_depth {
                state.truncated = true;
                break;
            }
            let ghost old_msgs = state.messages@;
            state.messages.push(event_message(self.events[i].as_str()));
            i = i + 1;
            proof {
                assert(messages_view(state.messages@) =~= messages_view(old_msgs).push(event_text(self.events@[i - 1]@)));
                assert(messages_view(state.messages@) =~= Seq::new(i as nat, |j: int| event_text(self.events@[j]@)));
            }
        }
        state
    }
}

impl EventCauseStore for EventOnlyStore {
    open spec fn is_event(c: String, message: Seq<char>) -> bool {
        c@ == message
    }

    fn event_cause(message: String) -> (r: String) {
        message
    }
}

impl StdErrorCauseStore for EventOnlyStore {
    /// An error is kept by its text.
    open spec fn holds_error(c: String, err: ErrorNode) -> bool {
        c@ == err.message@
    }

    fn std_error_cause(err: ErrorNode) -> (r: String) {
        err.message
    }
}

impl LocalErrorCauseStore for EventOnlyStore {
    /// A local error is kept by its text.
    open spec fn holds_local_error(c: String, err: ErrorNode) -> bool {
        c@ == err.message@
    }

    fn local_error_cause(err: ErrorNode) -> (r: String) {
        err.message
    }
}

/// A walk of an error chain adds one message per level it descends, and
/// never descends past the depth limit.
proof fn lemma_chain_walk_counts(
    g: ErrorGraph,
    start: Option<usize>,
    o: CauseCollectOptions,
    messages: Seq<Seq<char>>,
    depth: nat,
    seen: Set<usize>,
    truncated: bool,
    cycle: bool,
)
    requires
        depth <= o.max_depth,
    ensures
        ({
            let r = chain_walk(g, start, o, messages, depth, seen, truncated, cycle);
            &&& r.0.len() + depth == messages.len() + r.1
            &&& depth <= r.1 <= o.max_depth
        }),
    decreases o.max_depth - depth,
{
    match start {
        None => {},
        Some(e) => {
            if e >= g.nodes@.len() {
            } else if depth >= o.max_depth {
            } else if o.detect_cycle && seen.contains(g.nodes@[e as int].identity) {
            } else {
                lemma_chain_walk_counts(
                    g,
                    crate::cause::source_of(g, e),
                    o,
                    messages.push(g.nodes@[e as int].message@),
                    depth + 1,
                    if o.detect_cycle { seen.insert(g.nodes@[e as int].identity) } else { seen },
                    truncated,
                    cycle,
                );
            }
        },
    }
}

proof fn lemma_collect_cause_counts(g: ErrorGraph, c: StdCause, o: CauseCollectOptions, s: WalkState)
    requires
        s.1 <= o.max_depth,
    ensures
        ({
            let r = collect_cause(g, c, o, s);
            &&& r.0.len() + s.1 == s.0.len() + r.1
            &&& s.1 <= r.1 <= o.max_depth
        }),
    decreases c, 1nat, 0int,
{
    if s.1 >= o.max_depth {
    } else {
        match c {
            StdCause::Error(n) => {
                lemma_chain_walk_counts(g, node_source(g, n), o, s.0.push(n.message@), s.1 + 1, s.2, s.3, s.4);
            },
            StdCause::Event(m) => {},
            StdCause::Group(children) => {
                lemma_collect_list_counts(g, children@, 0, o, s);
            },
        }
    }
}

proof fn lemma_collect_list_counts(g: ErrorGraph, cs: Seq<StdCause>, i: int, o: CauseCollectOptions, s: WalkState)
    requires
        s.1 <= o.max_depth,
    ensures
        ({
            let r = collect_list(g, cs, i, o, s);
            &&& r.0.len() + s.1 == s.0.len() + r.1
            &&& s.1 <= r.1 <= o.max_depth
        }),
    decreases cs, 0nat, cs.len() - i,
{
    if i < 0 || i >= cs.len() {
    } else {
        let s1 = collect_cause(g, cs[i], o, s);
        lemma_collect_cause_counts(g, cs[i], o, s);
        if s1.3 || s1.4 {
        } else {
            lemma_collect_list_counts(g, cs, i + 1, o, s1);
        }
    }
}

/// Collecting a store never yields more than `max_depth` messages, whether
/// it holds causes or only event messages.
pub proof fn lemma_collect_within_depth(g: ErrorGraph, causes: Seq<StdCause>, events: Seq<String>, o: CauseCollectOptions)
    ensures
        collect_list(g, causes, 0, o, walk_start()).0.len() <= o.max_depth,
        collect_events(events, o).0.len() <= o.max_depth,
{
    lemma_collect_list_counts(g, causes, 0, o, walk_start());
}

} // verus!
