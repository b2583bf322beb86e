//! The descriptor model: ports, links, per-kind node descriptors and the
//! records a flattened flow is made of.

use vstd::prelude::*;
use crate::config::Configuration;

verus! {

/// The characters of an optional string.
pub open spec fn opt_str_view(o: Option<String>) -> Option<Seq<char>> {
    match o {
        Some(s) => Some(s@),
        None => None,
    }
}

/// Copies an optional string.
pub fn dup_opt_string(o: &Option<String>) -> (r: Option<String>)
    ensures
        opt_str_view(r) == opt_str_view(*o),
{
    match o {
        Some(s) => Some(s.clone()),
        None => None,
    }
}

/// Copies an optional configuration, preserving the mapping it denotes.
pub fn dup_opt_config(o: &Option<Configuration>) -> (r: Option<Configuration>)
    ensures
        r is Some <==> o is Some,
        crate::config::opt_config_map(r) == crate::config::opt_config_map(*o),
        crate::config::opt_config_wf(*o) ==> crate::config::opt_config_wf(r),
{
    match o {
        Some(c) => Some(c.duplicate()),
        None => None,
    }
}

/// Identifies a node, unique within a flow.
pub type NodeId = String;

/// Identifies a port, unique within a node.
pub type PortId = String;

/// Identifies the runtime a node is placed on.
pub type RuntimeId = String;

/// A port and the opaque type tag used for compatibility checks at link
/// time: the tags at the two ends of a link must be equal.
#[derive(Debug)]
pub struct PortDescriptor {
    pub port_id: PortId,
    pub port_type: String,
}

impl PortDescriptor {
    /// The characters of the port's name and type tag.
    pub open spec fn dv(self) -> (Seq<char>, Seq<char>) {
        (self.port_id@, self.port_type@)
    }

    pub fn duplicate(&self) -> (r: PortDescriptor)
        ensures
            r.dv() == self.dv(),
    {
        PortDescriptor { port_id: self.port_id.clone(), port_type: self.port_type.clone() }
    }
}

/// The views of a list of ports.
pub open spec fn ports_view(s: Seq<PortDescriptor>) -> Seq<(Seq<char>, Seq<char>)> {
    s.map_values(|p: PortDescriptor| p.dv())
}

/// Copies a list of ports.
pub fn dup_ports(ports: &Vec<PortDescriptor>) -> (r: Vec<PortDescriptor>)
    ensures
        ports_view(r@) == ports_view(ports@),
{
    let mut r: Vec<PortDescriptor> = Vec::new();
    let n = ports.len();
    for i in 0..n
        invariant
            n == ports@.len(),
            r@.len() == i,
            forall|j: int| 0 <= j < i ==> r@[j].dv() == ports@[j].dv(),
    {
        r.push(ports[i].duplicate());
    }
    proof {
        assert(ports_view(r@) =~= ports_view(ports@));
    }
    r
}

/// The upstream end of a link: a node and one of its output ports.
#[derive(Debug)]
pub struct LinkFrom {
    pub node: NodeId,
    pub output: PortId,
}

/// The downstream end of a link: a node and one of its input ports.
#[derive(Debug)]
pub struct LinkTo {
    pub node: NodeId,
    pub input: PortId,
}

/// A directed edge of the graph.  A port may appear as `from` in many links
/// (fan-out) but as `to` in at most one link per input.
#[derive(Debug)]
pub struct LinkDescriptor {
    pub from: LinkFrom,
    pub to: LinkTo,
}

/// Links survive flattening unchanged in shape.
pub type LinkRecord = LinkDescriptor;

impl LinkDescriptor {
    /// The characters of the two endpoints: (from node, from port, to node,
    /// to port).
    pub open spec fn dv(self) -> (Seq<char>, Seq<char>, Seq<char>, Seq<char>) {
        (self.from.node@, self.from.output@, self.to.node@, self.to.input@)
    }

    pub fn duplicate(&self) -> (r: LinkDescriptor)
        ensures
            r.dv() == self.dv(),
    {
        LinkDescriptor {
            from: LinkFrom { node: self.from.node.clone(), output: self.from.output.clone() },
            to: LinkTo { node: self.to.node.clone(), input: self.to.input.clone() },
        }
    }
}

/// The period a source snaps its timestamps to, in the clock's units.
#[derive(Clone, Copy, Debug, PartialEq, Eq, Structural)]
pub struct PeriodDescriptor {
    pub length: u64,
}

impl PeriodDescriptor {
    /// The period in the clock's units; a period is never zero.
    pub fn to_duration(&self) -> (r: u64)
        ensures
            r == self.length,
    {
        self.length
    }
}

/// A node of a flow before flattening: where to find its descriptor and the
/// configuration the instantiation supplies.
#[derive(Debug)]
pub struct NodeDescriptor {
    pub id: NodeId,
    pub descriptor: String,
    pub configuration: Option<Configuration>,
}

impl NodeDescriptor {
    pub open spec fn wf(self) -> bool {
        crate::config::opt_config_wf(self.configuration)
    }

    pub fn duplicate(&self) -> (r: NodeDescriptor)
        ensures
            r.id@ == self.id@,
            r.descriptor@ == self.descriptor@,
            r.configuration is Some <==> self.configuration is Some,
            crate::config::opt_config_map(r.configuration) == crate::config::opt_config_map(
                self.configuration,
            ),
            self.wf() ==> r.wf(),
    {
        NodeDescriptor {
            id: self.id.clone(),
            descriptor: self.descriptor.clone(),
            configuration: dup_opt_config(&self.configuration),
        }
    }
}

/// A resolved source: one output port and an optional period.
#[derive(Debug)]
pub struct SourceDescriptor {
    pub id: NodeId,
    pub output: PortDescriptor,
    pub period: Option<PeriodDescriptor>,
    pub uri: Option<String>,
    pub configuration: Option<Configuration>,
    pub runtime: Option<RuntimeId>,
}

/// A resolved sink: one input port.
#[derive(Debug)]
pub struct SinkDescriptor {
    pub id: NodeId,
    pub input: PortDescriptor,
    pub uri: Option<String>,
    pub configuration: Option<Configuration>,
    pub runtime: Option<RuntimeId>,
}

/// A resolved operator: its input and output ports.
#[derive(Debug)]
pub struct OperatorDescriptor {
    pub id: NodeId,
    pub inputs: Vec<PortDescriptor>,
    pub outputs: Vec<PortDescriptor>,
    pub uri: Option<String>,
    pub configuration: Option<Configuration>,
    pub runtime: Option<RuntimeId>,
}

impl OperatorDescriptor {
    /// Whether `other` carries the same ports, URI and runtime as `self`,
    /// character for character; identity and configuration may differ.
    pub open spec fn same_shape(self, other: OperatorDescriptor) -> bool {
        &&& ports_view(other.inputs@) == ports_view(self.inputs@)
        &&& ports_view(other.outputs@) == ports_view(self.outputs@)
        &&& opt_str_view(other.uri) == opt_str_view(self.uri)
        &&& opt_str_view(other.runtime) == opt_str_view(self.runtime)
    }

    pub open spec fn wf(self) -> bool {
        crate::config::opt_config_wf(self.configuration)
    }

    pub fn duplicate(&self) -> (r: OperatorDescriptor)
        ensures
            r.id@ == self.id@,
            self.same_shape(r),
            r.configuration is Some <==> self.configuration is Some,
            crate::config::opt_config_map(r.configuration) == crate::config::opt_config_map(
                self.configuration,
            ),
            self.wf() ==> r.wf(),
    {
        OperatorDescriptor {
            id: self.id.clone(),
            inputs: dup_ports(&self.inputs),
            outputs: dup_ports(&self.outputs),
            uri: dup_opt_string(&self.uri),
            configuration: dup_opt_config(&self.configuration),
            runtime: dup_opt_string(&self.runtime),
        }
    }
}

impl SourceDescriptor {
    /// Whether `other` carries the same port, period, URI and runtime as
    /// `self`; identity and configuration may differ.
    pub open spec fn same_shape(self, other: SourceDescriptor) -> bool {
        &&& other.output.dv() == self.output.dv()
        &&& other.period == self.period
        &&& opt_str_view(other.uri) == opt_str_view(self.uri)
        &&& opt_str_view(other.runtime) == opt_str_view(self.runtime)
    }

    pub open spec fn wf(self) -> bool {
        crate::config::opt_config_wf(self.configuration)
    }

    pub fn duplicate(&self) -> (r: SourceDescriptor)
        ensures
            r.id@ == self.id@,
            self.same_shape(r),
            r.configuration is Some <==> self.configuration is Some,
            crate::config::opt_config_map(r.configuration) == crate::config::opt_config_map(
                self.configuration,
            ),
            self.wf() ==> r.wf(),
    {
        SourceDescriptor {
            id: self.id.clone(),
            output: self.output.duplicate(),
            period: self.period,
            uri: dup_opt_string(&self.uri),
            configuration: dup_opt_config(&self.configuration),
            runtime: dup_opt_string(&self.runtime),
        }
    }
}

impl SinkDescriptor {
    /// Whether `other` carries the same port, URI and runtime as `self`;
    /// identity and configuration may differ.
    pub open spec fn same_shape(self, other: SinkDescriptor) -> bool {
        &&& other.input.dv() == self.input.dv()
        &&& opt_str_view(other.uri) == opt_str_view(self.uri)
        &&& opt_str_view(other.runtime) == opt_str_view(self.runtime)
    }

    pub open spec fn wf(self) -> bool {
        crate::config::opt_config_wf(self.configuration)
    }

    pub fn duplicate(&self) -> (r: SinkDescriptor)
        ensures
            r.id@ == self.id@,
            self.same_shape(r),
            r.configuration is Some <==> self.configuration is Some,
            crate::config::opt_config_map(r.configuration) == crate::config::opt_config_map(
                self.configuration,
            ),
            self.wf() ==> r.wf(),
    {
        SinkDescriptor {
            id: self.id.clone(),
            input: self.input.duplicate(),
            uri: dup_opt_string(&self.uri),
            configuration: dup_opt_config(&self.configuration),
            runtime: dup_opt_string(&self.runtime),
        }
    }
}

/// An exposed input of a composite: the port the outside sees and the inner
/// node and input it stands for.
#[derive(Debug)]
pub struct CompositeInput {
    pub id: PortId,
    pub node: NodeId,
    pub input: PortId,
}

/// An exposed output of a composite: the port the outside sees and the inner
/// node and output it stands for.
#[derive(Debug)]
pub struct CompositeOutput {
    pub id: PortId,
    pub node: NodeId,
    pub output: PortId,
}

/// An operator whose implementation is itself a sub-graph, inlined by the
/// flattener.
#[derive(Debug)]
pub struct CompositeOperatorDescriptor {
    pub id: NodeId,
    pub inputs: Vec<CompositeInput>,
    pub outputs: Vec<CompositeOutput>,
    pub operators: Vec<NodeDescriptor>,
    pub links: Vec<LinkDescriptor>,
    pub configuration: Option<Configuration>,
}

// Records: the per-node results of flattening, placed on a runtime.

/// A source placed on a runtime.
#[derive(Debug)]
pub struct SourceRecord {
    pub id: NodeId,
    pub output: PortDescriptor,
    pub period: Option<PeriodDescriptor>,
    pub uri: Option<String>,
    pub configuration: Option<Configuration>,
    pub runtime: RuntimeId,
}

impl SourceRecord {
    /// The type tag of the output port named `id`, if it is this record's.
    pub fn get_output_type(&self, id: &String) -> (r: Option<String>)
        ensures
            r matches Some(t) ==> self.output.port_id@ == id@ && t@ == self.output.port_type@,
            r is None ==> self.output.port_id@ != id@,
    {
        if self.output.port_id.eq(id) {
            Some(self.output.port_type.clone())
        } else {
            None
        }
    }
}

/// A sink placed on a runtime.
#[derive(Debug)]
pub struct SinkRecord {
    pub id: NodeId,
    pub input: PortDescriptor,
    pub uri: Option<String>,
    pub configuration: Option<Configuration>,
    pub runtime: RuntimeId,
}

impl SinkRecord {
    /// The type tag of the input port named `id`, if it is this record's.
    pub fn get_input_type(&self, id: &String) -> (r: Option<String>)
        ensures
            r matches Some(t) ==> self.input.port_id@ == id@ && t@ == self.input.port_type@,
            r is None ==> self.input.port_id@ != id@,
    {
        if self.input.port_id.eq(id) {
            Some(self.input.port_type.clone())
        } else {
            None
        }
    }
}

/// An operator placed on a runtime.
#[derive(Debug)]
pub struct OperatorRecord {
    pub id: NodeId,
    pub inputs: Vec<PortDescriptor>,
    pub outputs: Vec<PortDescriptor>,
    pub uri: Option<String>,
    pub configuration: Option<Configuration>,
    pub runtime: RuntimeId,
}

/// The first port of `ports` named `id`, if any, by its index.
fn find_port(ports: &Vec<PortDescriptor>, id: &String) -> (r: Option<usize>)
    ensures
        r matches Some(i) ==> i < ports@.len() && ports@[i as int].port_id@ == id@,
        r is None ==> forall|i: int| 0 <= i < ports@.len() ==> ports@[i].port_id@ != id@,
{
    let n = ports.len();
    for i in 0..n
        invariant
            n == ports@.len(),
            forall|j: int| 0 <= j < i ==> ports@[j].port_id@ != id@,
    {
        if ports[i].port_id.eq(id) {
            return Some(i);
        }
    }
    None
}

impl OperatorRecord {
    /// The type tag of the output port named `id`, if the record has one.
    pub fn get_output_type(&self, id: &String) -> (r: Option<String>)
        ensures
            r matches Some(t) ==> exists|i: int|
                0 <= i < self.outputs@.len() && self.outputs@[i].port_id@ == id@
                    && t@ == self.outputs@[i].port_type@,
            r is None ==> forall|i: int|
                0 <= i < self.outputs@.len() ==> self.outputs@[i].port_id@ != id@,
    {
        match find_port(&self.outputs, id) {
            Some(i) => Some(self.outputs[i].port_type.clone()),
            None => None,
        }
    }

    /// The type tag of the input port named `id`, if the record has one.
    pub fn get_input_type(&self, id: &String) -> (r: Option<String>)
        ensures
            r matches Some(t) ==> exists|i: int|
                0 <= i < self.inputs@.len() && self.inputs@[i].port_id@ == id@
                    && t@ == self.inputs@[i].port_type@,
            r is None ==> forall|i: int|
                0 <= i < self.inputs@.len() ==> self.inputs@[i].port_id@ != id@,
    {
        match find_port(&self.inputs, id) {
            Some(i) => Some(self.inputs[i].port_type.clone()),
            None => None,
        }
    }
}

} // verus!
