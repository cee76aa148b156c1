//! Error and warning values raised during validation.
//!
//! Every failure carries a kind plus breadcrumbs that record where in
//! the graph the failure arose.  Warnings are ordinary `Error` values
//! attached to successful results; they never abort a traversal.

use vstd::prelude::*;

verus! {

/// What went wrong.
#[derive(Clone, Debug)]
pub enum ErrorKind {
    /// The computation graph is not acyclic; the id names a node on a cycle.
    CycleDetected(u32),
    /// A node id was referenced but is not in the graph.
    MissingNode(u32),
    /// A component lacks a required argument of this name.
    MissingArgument(String),
    /// A node was expanded more often than the depth limit allows.
    ExpansionLoop(u32),
    /// A value or property had the wrong variant: (expected, got).
    TypeMismatch(String, String),
    /// A list had the wrong length.
    Arity,
    /// Partitioning was attempted over a category type that cannot key a partition.
    UnsupportedCategoryType,
    /// A required attribute of this name is not known.
    Missing(String),
    /// A structural rule of the analysis was broken.
    InvariantViolation(String),
    /// The summed privacy usage exceeds the privacy budget.
    BudgetExceeded,
    /// A privacy usage was used before its distance was defined.
    UsageUndefined,
    /// Sentinel raised by composite components: the node must be
    /// expanded before its properties can be propagated.  Consumed by
    /// the graph engine, never surfaced.
    Abstract,
}

/// One step of context attached to an error as it bubbles up.
#[derive(Clone, Debug)]
pub enum Breadcrumb {
    /// The failure arose while processing this node.
    AtNode(u32),
    /// The failure arose while reading the argument of this name.
    Argument(String),
}

/// A failure, with the trail of nodes and arguments it bubbled through.
#[derive(Clone, Debug)]
pub struct Error {
    pub kind: ErrorKind,
    pub context: Vec<Breadcrumb>,
}

impl Error {
    /// An error with no context yet.
    pub fn new(kind: ErrorKind) -> (r: Error)
        ensures
            r.kind == kind,
            r.context@.len() == 0,
    {
        Error { kind, context: Vec::new() }
    }

    /// Records that the error arose at the given node.
    pub fn at_node(self, node_id: u32) -> (r: Error)
        ensures
            r.kind == self.kind,
            r.context@ == self.context@.push(Breadcrumb::AtNode(node_id)),
    {
        let Error { kind, mut context } = self;
        context.push(Breadcrumb::AtNode(node_id));
        Error { kind, context }
    }

    /// Records that the error arose while reading the named argument.
    pub fn at_argument(self, name: String) -> (r: Error)
        ensures
            r.kind == self.kind,
            r.context@ == self.context@.push(Breadcrumb::Argument(name)),
    {
        let Error { kind, mut context } = self;
        context.push(Breadcrumb::Argument(name));
        Error { kind, context }
    }
}

} // verus!
