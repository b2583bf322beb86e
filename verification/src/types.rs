//! Flow-description value types and the per-run context.

use vstd::prelude::*;

verus! {

/// Identifies an operator in a flow description.
pub type ZFOperatorId = String;

/// What a described component does with data.
#[derive(Clone, Copy, Debug, PartialEq, Eq, Structural)]
pub enum ZFOperatorKind {
    Source,
    Sink,
    Compute,
}

/// One component of a flow description: its identity, arity and the library
/// implementing it.
pub struct ZFOperatorDescription {
    pub id: ZFOperatorId,
    pub name: String,
    pub inputs: u8,
    pub outputs: u8,
    pub lib: String,
    pub kind: ZFOperatorKind,
}

/// A directed connection between two described components.
pub struct ZFOperatorConnection {
    pub from: ZFOperatorId,
    pub to: ZFOperatorId,
}

/// A whole flow: its components and the connections between them.
pub struct DataFlowDescription {
    pub operators: Vec<ZFOperatorDescription>,
    pub connections: Vec<ZFOperatorConnection>,
}

impl DataFlowDescription {
    /// The description with `id`, if the flow has one, by its index.
    pub fn find_operator(&self, id: &String) -> (r: Option<usize>)
        ensures
            r matches Some(i) ==> i < self.operators@.len()
                && self.operators@[i as int].id@ == id@,
            r is None ==> forall|i: int|
                0 <= i < self.operators@.len() ==> self.operators@[i].id@ != id@,
    {
        let n = self.operators.len();
        for i in 0..n
            invariant
                n == self.operators@.len(),
                forall|j: int| 0 <= j < i ==> self.operators@[j].id@ != id@,
        {
            if self.operators[i].id.eq(id) {
                return Some(i);
            }
        }
        None
    }
}

/// The context a node's callbacks run in: the node's opaque state blob and
/// the mode it executes under.
pub struct ZFContext {
    pub state: Vec<u8>,
    pub mode: u128,
}

impl ZFContext {
    pub fn new(state: Vec<u8>, mode: u128) -> (r: ZFContext)
        ensures
            r.state@ == state@,
            r.mode == mode,
    {
        ZFContext { state, mode }
    }
}

} // verus!
