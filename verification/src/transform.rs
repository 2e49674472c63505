//! Changing the error a report wraps while keeping its diagnostics, and
//! recording the replaced error in the origin source chain.

use vstd::prelude::*;
use crate::config::{resolve_option, GlobalConfig};
use crate::report::{has_diagnostics, has_metadata, Report};
use crate::source_chain::{opt_view, SourceErrorChain, SourceErrorItem};
use crate::text::str_to_string;

verus! {

/// The node recording a replaced error: its text and type name, its
/// identity, and the roots of the chain held before as its sources.
pub open spec fn is_replaced_node(n: SourceErrorItem, message: Seq<char>, type_label: Seq<char>, identity: usize, sources: Seq<usize>) -> bool {
    &&& n.message@ == message
    &&& opt_view(n.type_label) == Some(type_label)
    &&& n.identity == identity
    &&& n.source_roots@ == sources
}

/// The chain after recording the replaced error above `before`: the nodes
/// held before, then the new node, which is the only root.
pub open spec fn is_origin_after(c: SourceErrorChain, before: Option<SourceErrorChain>, message: Seq<char>, type_label: Seq<char>, identity: usize) -> bool {
    let old_nodes = match before { Some(b) => b.nodes@, None => Seq::empty() };
    let old_roots = match before { Some(b) => b.roots@, None => Seq::empty() };
    &&& c.nodes@.len() == old_nodes.len() + 1
    &&& c.nodes@.take(old_nodes.len() as int) == old_nodes
    &&& is_replaced_node(c.nodes@[old_nodes.len() as int], message, type_label, identity, old_roots)
    &&& c.roots@ == seq![old_nodes.len() as usize]
    &&& c.truncated == (match before { Some(b) => b.truncated, None => false })
    &&& c.cycle_detected == (match before { Some(b) => b.cycle_detected, None => false })
}

fn record_replaced(before: Option<SourceErrorChain>, message: &str, type_label: &str, identity: usize) -> (r: SourceErrorChain)
    requires
        before matches Some(b) ==> b.nodes@.len() < usize::MAX,
    ensures
        is_origin_after(r, before, message@, type_label@, identity),
{
    let mut chain = match before {
        Some(b) => b,
        None => SourceErrorChain::new(),
    };
    let ghost old_nodes = chain.nodes@;
    let ghost old_roots = chain.roots@;
    proof {
        assert(old_nodes =~= (match before { Some(b) => b.nodes@, None => Seq::empty() }));
        assert(old_roots =~= (match before { Some(b) => b.roots@, None => Seq::empty() }));
    }
    let mut roots: Vec<usize> = Vec::new();
    std::mem::swap(&mut roots, &mut chain.roots);
    let item = SourceErrorItem {
        message: str_to_string(message),
        type_label: Some(str_to_string(type_label)),
        identity,
        source_roots: roots,
    };
    let id = chain.push_node(item);
    chain.push_root(id);
    proof {
        assert(chain.nodes@.take(old_nodes.len() as int) =~= old_nodes);
        assert(chain.roots@ =~= seq![old_nodes.len() as usize]);
        assert(chain.nodes@[old_nodes.len() as int].source_roots@ == old_roots);
    }
    chain
}

impl<E> Report<E> {
    /// Replaces the wrapped error by `map(inner)`, whose text is `message`
    /// and whose type is named `type_label`, keeping every diagnostic.
    ///
    /// When source chains accumulate (the report's option, else `global`'s),
    /// the replaced error, identified by `inner_identity`, becomes the root
    /// of the origin source chain, above the chain held before.
    pub fn map_err<Outer, F: FnOnce(E) -> Outer>(
        self,
        map: F,
        message: String,
        type_label: String,
        inner_identity: usize,
        global: &GlobalConfig,
    ) -> (r: Report<Outer>)
        requires
            map.requires((self.inner,)),
            self.origin_source_errors matches Some(b) ==> b.nodes@.len() < usize::MAX,
        ensures
            map.ensures((self.inner,), r.inner),
            r.message@ == message@,
            r.type_label@ == type_label@,
            r.metadata == self.metadata,
            r.stack_trace == self.stack_trace,
            r.context == self.context,
            r.system == self.system,
            r.attachments == self.attachments,
            r.display_causes == self.display_causes,
            r.diagnostic_source_errors == self.diagnostic_source_errors,
            r.trace == self.trace,
            r.options == self.options,
            resolve_option(self.options.accumulate_source_chain, global.accumulate_source_chain).value ==> is_origin_after(
                r.origin_source_errors->0, self.origin_source_errors, self.message@, self.type_label@, inner_identity)
                && r.origin_source_errors is Some,
            !resolve_option(self.options.accumulate_source_chain, global.accumulate_source_chain).value
                ==> r.origin_source_errors == self.origin_source_errors,
    {
        let accumulate = self.options.resolve_accumulate_source_chain(global);
        let Report {
            inner,
            message: old_message,
            type_label: old_type,
            metadata,
            stack_trace,
            context,
            system,
            attachments,
            display_causes,
            origin_source_errors,
            diagnostic_source_errors,
            trace,
            options,
        } = self;
        let origin = if accumulate {
            Some(record_replaced(origin_source_errors, old_message.as_str(), old_type.as_str(), inner_identity))
        } else {
            origin_source_errors
        };
        let outer = map(inner);
        Report {
            inner: outer,
            message,
            type_label,
            metadata,
            stack_trace,
            context,
            system,
            attachments,
            display_causes,
            origin_source_errors: origin,
            diagnostic_source_errors,
            trace,
            options,
        }
    }
}

} // verus!

verus! {

/// Turning the error of a result into a report.
pub trait Diagnostic<T, E>: Sized {
    /// Wraps the error in a new report whose text `describe` gives and
    /// whose type is named `type_label`; a success passes through.
    fn diag<F: FnOnce(&E) -> String>(self, describe: F, type_label: String) -> Result<T, Report<E>>
        requires
            forall|e: &E| #[trigger] describe.requires((e,)),
    ;
}

impl<T, E> Diagnostic<T, E> for Result<T, E> {
    fn diag<F: FnOnce(&E) -> String>(self, describe: F, type_label: String) -> (r: Result<T, Report<E>>)
        ensures
            r is Ok <==> self is Ok,
            r matches Ok(w) ==> self == Ok::<T, E>(w),
            r matches Err(rep) ==> {
                &&& self == Err::<T, E>(rep.inner)
                &&& describe.ensures((&rep.inner,), rep.message)
                &&& rep.type_label@ == type_label@
                &&& !has_metadata(rep.metadata)
                &&& !has_diagnostics(rep)
                &&& rep.display_causes is None
                &&& rep.origin_source_errors is None
                &&& rep.diagnostic_source_errors is None
            },
    {
        match self {
            Ok(v) => Ok(v),
            Err(e) => {
                let message = describe(&e);
                Err(Report::new(e, message, type_label))
            },
        }
    }
}

} // verus!
