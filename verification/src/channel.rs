//! The channel fabric: typed messages, per-port channel tables and their
//! construction from link records.
//!
//! Channels come from the `flume` crate: one unbounded multi-producer,
//! multi-consumer pair per retained link.  An output port owns the sending
//! halves of every link leaving it (fan-out); an input port owns the
//! receiving halves of every link entering it (fan-in).

use vstd::prelude::*;
use std::sync::Arc;
use crate::errors::ZFError;
use crate::kvmap::StrMap;
use crate::model::{LinkRecord, NodeId, PortId};

verus! {

/// What a message carries: serialized bytes across runtimes, or a live
/// value within one.
#[derive(Clone, Debug)]
pub enum Payload {
    Bytes(Vec<u8>),
    Int(i64),
}

/// When a message was produced, and by which clock.
#[derive(Clone, Copy, Debug, PartialEq, Eq, Structural)]
pub struct Timestamp {
    pub time: u64,
    pub id: u128,
}

/// What travels over a link: a payload under the timestamp its producer
/// drew from the hybrid logical clock.
#[derive(Clone, Debug)]
pub struct Message {
    pub timestamp: Timestamp,
    pub payload: Payload,
}

#[verifier::external_type_specification]
#[verifier::external_body]
#[verifier::reject_recursive_types(T)]
pub struct ExSender<T>(flume::Sender<T>);

#[verifier::external_type_specification]
#[verifier::external_body]
#[verifier::reject_recursive_types(T)]
pub struct ExReceiver<T>(flume::Receiver<T>);

#[verifier::external_type_specification]
#[verifier::external_body]
pub struct ExHLC(uhlc::HLC);

/// Relies on `flume::unbounded`: a fresh unbounded channel pair.
#[verifier::external_body]
pub fn new_channel() -> (flume::Sender<Message>, flume::Receiver<Message>) {
    flume::unbounded()
}

/// Relies on `flume::Sender::send`: the message is queued, or handed back
/// inside the error when every receiver is gone.
#[verifier::external_body]
pub fn send_message(tx: &flume::Sender<Message>, msg: Message) -> (r: Result<(), Message>)
    ensures
        r matches Err(m) ==> m == msg,
{
    tx.send(msg).map_err(|e| e.0)
}

/// The outcome of polling an input channel without blocking.
pub enum TryRecv {
    /// A message was waiting.
    Msg(Message),
    /// Nothing is waiting, but senders remain.
    Empty,
    /// The channel is empty and every sender is gone.
    Disconnected,
}

/// Relies on `flume::Receiver::try_recv`: a waiting message, or why none
/// was handed out.
#[verifier::external_body]
pub fn try_recv_message(rx: &flume::Receiver<Message>) -> (r: TryRecv) {
    match rx.try_recv() {
        Ok(m) => TryRecv::Msg(m),
        Err(flume::TryRecvError::Empty) => TryRecv::Empty,
        Err(flume::TryRecvError::Disconnected) => TryRecv::Disconnected,
    }
}

/// Relies on `uhlc::HLC::new_timestamp`: a fresh timestamp; what it is
/// depends on the wall clock and the clock's history, so nothing is assumed
/// of the value.
#[verifier::external_body]
pub fn hlc_new_time(hlc: &uhlc::HLC) -> u64 {
    hlc.new_timestamp().get_time().as_u64()
}

/// The receiving side of one input port: its fan-in of channel consumers.
pub struct Input {
    pub port_id: PortId,
    pub receivers: Vec<flume::Receiver<Message>>,
}

impl Input {
    pub fn new(port_id: PortId) -> (r: Input)
        ensures
            r.port_id@ == port_id@,
            r.receivers@.len() == 0,
    {
        Input { port_id, receivers: Vec::new() }
    }

    pub fn add(&mut self, rx: flume::Receiver<Message>)
        ensures
            final(self).port_id == old(self).port_id,
            final(self).receivers@ == old(self).receivers@.push(rx),
    {
        self.receivers.push(rx);
    }
}

/// The sending side of one output port: its fan-out of channel producers,
/// and the clock messages leaving here are stamped by.
pub struct Output {
    pub port_id: PortId,
    pub senders: Vec<flume::Sender<Message>>,
    pub hlc: Arc<uhlc::HLC>,
}

impl Output {
    pub fn new(port_id: PortId, hlc: Arc<uhlc::HLC>) -> (r: Output)
        ensures
            r.port_id@ == port_id@,
            r.senders@.len() == 0,
    {
        Output { port_id, senders: Vec::new(), hlc }
    }

    pub fn add(&mut self, tx: flume::Sender<Message>)
        ensures
            final(self).port_id == old(self).port_id,
            final(self).hlc == old(self).hlc,
            final(self).senders@ == old(self).senders@.push(tx),
    {
        self.senders.push(tx);
    }
}

/// The channel tables of one node: its inputs and outputs, keyed by port.
pub type Inputs = StrMap<Input>;

pub type Outputs = StrMap<Output>;

/// Whether `id` is one of the nodes placed on this runtime.
pub open spec fn node_listed(nodes: Seq<String>, id: Seq<char>) -> bool {
    exists|i: int| 0 <= i < nodes.len() && nodes[i]@ == id
}

fn contains_node(nodes: &Vec<NodeId>, id: &String) -> (r: bool)
    ensures
        r == node_listed(nodes@, id@),
{
    let n = nodes.len();
    for i in 0..n
        invariant
            n == nodes@.len(),
            forall|j: int| 0 <= j < i ==> nodes@[j]@ != id@,
    {
        if nodes[i].eq(id) {
            return true;
        }
    }
    false
}

/// Whether some link of `links`, both of whose endpoints are listed in
/// `nodes`, starts or ends at the node named `k`.
#[verifier::opaque]
pub open spec fn node_touched(nodes: Seq<String>, links: Seq<LinkRecord>, k: Seq<char>) -> bool {
    exists|j: int| 0 <= j < links.len() && {
        let l = #[trigger] links[j];
        node_listed(nodes, l.from.node@) && node_listed(nodes, l.to.node@) && (l.from.node@ == k
            || l.to.node@ == k)
    }
}

/// Whether the channel tables of `io` reach every endpoint of every link of
/// `links` whose two ends are placed on this runtime: the upstream node has
/// an output table for the link's output port holding at least one sender,
/// and the downstream node an input table for the link's input port holding
/// at least one receiver.
pub open spec fn links_covered(
    io: Map<Seq<char>, (Inputs, Outputs)>,
    nodes: Seq<String>,
    links: Seq<LinkRecord>,
) -> bool {
    forall|k: int| 0 <= k < links.len() ==> {
        let l = #[trigger] links[k];
        (node_listed(nodes, l.from.node@) && node_listed(nodes, l.to.node@)) ==> {
            &&& io.contains_key(l.from.node@)
            &&& io[l.from.node@].1.as_map().contains_key(l.from.output@)
            &&& io[l.from.node@].1.as_map()[l.from.output@].senders@.len() >= 1
            &&& io[l.from.node@].1.as_map()[l.from.output@].port_id@ == l.from.output@
            &&& io.contains_key(l.to.node@)
            &&& io[l.to.node@].0.as_map().contains_key(l.to.input@)
            &&& io[l.to.node@].0.as_map()[l.to.input@].receivers@.len() >= 1
            &&& io[l.to.node@].0.as_map()[l.to.input@].port_id@ == l.to.input@
        }
    }
}

/// How many retained links leave node `k` through its output port `q`.
pub open spec fn count_out(
    nodes: Seq<String>,
    links: Seq<LinkRecord>,
    k: Seq<char>,
    q: Seq<char>,
) -> nat
    decreases links.len(),
{
    if links.len() == 0 {
        0
    } else {
        count_out(nodes, links.drop_last(), k, q) + ({
            let l = links.last();
            if node_listed(nodes, l.from.node@) && node_listed(nodes, l.to.node@)
                && l.from.node@ == k && l.from.output@ == q {
                1nat
            } else {
                0nat
            }
        })
    }
}

/// How many retained links enter node `k` through its input port `q`.
pub open spec fn count_in(
    nodes: Seq<String>,
    links: Seq<LinkRecord>,
    k: Seq<char>,
    q: Seq<char>,
) -> nat
    decreases links.len(),
{
    if links.len() == 0 {
        0
    } else {
        count_in(nodes, links.drop_last(), k, q) + ({
            let l = links.last();
            if node_listed(nodes, l.from.node@) && node_listed(nodes, l.to.node@) && l.to.node@
                == k && l.to.input@ == q {
                1nat
            } else {
                0nat
            }
        })
    }
}

/// Every retained link contributes exactly one sender to its upstream port
/// and exactly one receiver to its downstream port, and nothing else does:
/// a port's fan-out (fan-in) is exactly the number of retained links
/// leaving (entering) it, and a port absent from the tables has none.
pub open spec fn io_counts(
    io: Map<Seq<char>, (Inputs, Outputs)>,
    nodes: Seq<String>,
    links: Seq<LinkRecord>,
) -> bool {
    &&& forall|k: Seq<char>, q: Seq<char>| #[trigger] count_out(nodes, links, k, q) == (
    if io.contains_key(k) && io[k].1.as_map().contains_key(q) {
        io[k].1.as_map()[q].senders@.len()
    } else {
        0
    })
    &&& forall|k: Seq<char>, q: Seq<char>| #[trigger] count_in(nodes, links, k, q) == (
    if io.contains_key(k) && io[k].0.as_map().contains_key(q) {
        io[k].0.as_map()[q].receivers@.len()
    } else {
        0
    })
}

/// A node's channel tables are well-formed mappings whose entries are named
/// by the port they are filed under: at most one `Input` or `Output` per
/// (node, port).
pub open spec fn slot_wf(slot: (Inputs, Outputs)) -> bool {
    &&& slot.0.wf()
    &&& slot.1.wf()
    &&& forall|q: Seq<char>| #[trigger] slot.0.as_map().contains_key(q)
        ==> slot.0.as_map()[q].port_id@ == q
    &&& forall|q: Seq<char>| #[trigger] slot.1.as_map().contains_key(q)
        ==> slot.1.as_map()[q].port_id@ == q
}

/// Every channel table in `io` is well-formed.
pub open spec fn io_wf(io: StrMap<(Inputs, Outputs)>) -> bool {
    &&& io.wf()
    &&& forall|k: Seq<char>| #[trigger] io.as_map().contains_key(k) ==> slot_wf(io.as_map()[k])
}

/// The running shape of the channel tables while links are wired one by
/// one: well-formed, covering every processed link, with exact fan-out and
/// fan-in counts.
pub open spec fn fabric_inv(
    io: StrMap<(Inputs, Outputs)>,
    nodes: Seq<String>,
    processed: Seq<LinkRecord>,
) -> bool {
    &&& io_wf(io)
    &&& links_covered(io.as_map(), nodes, processed)
    &&& io_counts(io.as_map(), nodes, processed)
    &&& forall|k: Seq<char>| #[trigger] io.as_map().contains_key(k) ==> node_touched(
        nodes,
        processed,
        k,
    )
}

/// A key set that only grew by the two endpoint nodes of one more retained
/// link still holds only endpoints of retained links.
proof fn lemma_touched_grow(
    m0: Map<Seq<char>, (Inputs, Outputs)>,
    m2: Map<Seq<char>, (Inputs, Outputs)>,
    nodes: Seq<String>,
    processed: Seq<LinkRecord>,
    link: LinkRecord,
)
    requires
        forall|x: Seq<char>| #[trigger] m2.contains_key(x) ==> (m0.contains_key(x) || x
            == link.from.node@ || x == link.to.node@),
        forall|x: Seq<char>| #[trigger] m0.contains_key(x) ==> node_touched(nodes, processed, x),
        node_listed(nodes, link.from.node@),
        node_listed(nodes, link.to.node@),
    ensures
        forall|x: Seq<char>| #[trigger] m2.contains_key(x) ==> node_touched(
            nodes,
            processed.push(link),
            x,
        ),
{
    reveal(node_touched);
    let taken1 = processed.push(link);
    assert forall|x: Seq<char>| #[trigger] m2.contains_key(x) implies node_touched(
        nodes,
        taken1,
        x,
    ) by {
        if x == link.from.node@ || x == link.to.node@ {
            assert(taken1[taken1.len() - 1] == link);
        } else {
            assert(m0.contains_key(x));
            let j = choose|j: int|
                0 <= j < processed.len() && {
                    let l = #[trigger] processed[j];
                    node_listed(nodes, l.from.node@) && node_listed(nodes, l.to.node@) && (
                    l.from.node@ == x || l.to.node@ == x)
                };
            assert(taken1[j] == processed[j]);
        }
    }
}

/// A key set left unchanged while a skipped link is processed still holds
/// only endpoints of retained links.
proof fn lemma_touched_keep(
    m: Map<Seq<char>, (Inputs, Outputs)>,
    nodes: Seq<String>,
    processed: Seq<LinkRecord>,
    link: LinkRecord,
)
    requires
        forall|x: Seq<char>| #[trigger] m.contains_key(x) ==> node_touched(nodes, processed, x),
    ensures
        forall|x: Seq<char>| #[trigger] m.contains_key(x) ==> node_touched(
            nodes,
            processed.push(link),
            x,
        ),
{
    reveal(node_touched);
    let taken1 = processed.push(link);
    assert forall|x: Seq<char>| #[trigger] m.contains_key(x) implies node_touched(
        nodes,
        taken1,
        x,
    ) by {
        let j = choose|j: int|
            0 <= j < processed.len() && {
                let l = #[trigger] processed[j];
                node_listed(nodes, l.from.node@) && node_listed(nodes, l.to.node@) && (
                l.from.node@ == x || l.to.node@ == x)
            };
        assert(taken1[j] == processed[j]);
    }
}

/// Wires one retained link: one fresh channel, its sender appended to the
/// upstream output port and its receiver to the downstream input port.
#[verifier::rlimit(100)]
fn wire_retained(
    io: &mut StrMap<(Inputs, Outputs)>,
    nodes: &Vec<NodeId>,
    link: &LinkRecord,
    hlc: &Arc<uhlc::HLC>,
    Ghost(processed): Ghost<Seq<LinkRecord>>,
)
    requires
        fabric_inv(*old(io), nodes@, processed),
        node_listed(nodes@, link.from.node@),
        node_listed(nodes@, link.to.node@),
    ensures
        fabric_inv(*final(io), nodes@, processed.push(*link)),
{
    let ghost m0 = io.as_map();
    let ghost taken1 = processed.push(*link);
    proof {
        assert(taken1.drop_last() =~= processed);
        assert(taken1.last() == *link);
    }
    let (tx, rx) = new_channel();

    // Upstream: append the sender to the output port's fan-out.
    let (up_inputs, mut up_outputs) = match io.remove(&link.from.node) {
        Some(slot) => slot,
        None => (StrMap::new(), StrMap::new()),
    };
    let mut output = match up_outputs.remove(&link.from.output) {
        Some(o) => o,
        None => Output::new(link.from.output.clone(), Arc::clone(hlc)),
    };
    output.add(tx);
    up_outputs.insert(link.from.output.clone(), output);
    io.insert(link.from.node.clone(), (up_inputs, up_outputs));

    // Downstream: append the receiver to the input port's fan-in.
    let (mut down_inputs, down_outputs) = match io.remove(&link.to.node) {
        Some(slot) => slot,
        None => (StrMap::new(), StrMap::new()),
    };
    let mut input = match down_inputs.remove(&link.to.input) {
        Some(i) => i,
        None => Input::new(link.to.input.clone()),
    };
    input.add(rx);
    down_inputs.insert(link.to.input.clone(), input);
    io.insert(link.to.node.clone(), (down_inputs, down_outputs));

    proof {
        let m2 = io.as_map();
        let fnode = link.from.node@;
        let tnode = link.to.node@;
        let fport = link.from.output@;
        let tport = link.to.input@;
        // Nothing already reachable is lost: tables only grow.
        assert forall|x: Seq<char>| m0.contains_key(x) implies m2.contains_key(x) && (
        forall|q: Seq<char>| #[trigger] m0[x].1.as_map().contains_key(q)
            ==> m2[x].1.as_map().contains_key(q) && m2[x].1.as_map()[q].senders@.len()
            >= m0[x].1.as_map()[q].senders@.len() && m2[x].1.as_map()[q].port_id@
            == m0[x].1.as_map()[q].port_id@) && (forall|q: Seq<char>| #[trigger] m0[
        x].0.as_map().contains_key(q) ==> m2[x].0.as_map().contains_key(q)
            && m2[x].0.as_map()[q].receivers@.len() >= m0[x].0.as_map()[q].receivers@.len()
            && m2[x].0.as_map()[q].port_id@ == m0[x].0.as_map()[q].port_id@) by {}
        // The link wired this turn is reachable.
        assert(m2.contains_key(fnode) && m2[fnode].1.as_map().contains_key(fport)
            && m2[fnode].1.as_map()[fport].senders@.len() >= 1
            && m2[fnode].1.as_map()[fport].port_id@ == fport);
        assert(m2.contains_key(tnode) && m2[tnode].0.as_map().contains_key(tport)
            && m2[tnode].0.as_map()[tport].receivers@.len() >= 1
            && m2[tnode].0.as_map()[tport].port_id@ == tport);
        assert(links_covered(m2, nodes@, taken1)) by {
            assert forall|t: int| 0 <= t < taken1.len() - 1 implies taken1[t]
                == processed[t] by {}
        }
        // Every key of the grown tables is an endpoint of a processed
        // retained link.
        assert forall|x: Seq<char>| #[trigger] m2.contains_key(x) implies (m0.contains_key(x)
            || x == fnode || x == tnode) by {}
        lemma_touched_grow(m0, m2, nodes@, processed, *link);
        // One sender and one receiver were added, exactly where this
        // link demands them; every other count is untouched.
        assert forall|x: Seq<char>, q: Seq<char>| #[trigger] count_out(
            nodes@,
            taken1,
            x,
            q,
        ) == (if m2.contains_key(x) && m2[x].1.as_map().contains_key(q) {
            m2[x].1.as_map()[q].senders@.len()
        } else {
            0
        }) by {
            let c0 = count_out(nodes@, processed, x, q);
            assert(c0 == (if m0.contains_key(x) && m0[x].1.as_map().contains_key(q) {
                m0[x].1.as_map()[q].senders@.len()
            } else {
                0
            }));
        }
        assert forall|x: Seq<char>, q: Seq<char>| #[trigger] count_in(
            nodes@,
            taken1,
            x,
            q,
        ) == (if m2.contains_key(x) && m2[x].0.as_map().contains_key(q) {
            m2[x].0.as_map()[q].receivers@.len()
        } else {
            0
        }) by {
            let c0 = count_in(nodes@, processed, x, q);
            assert(c0 == (if m0.contains_key(x) && m0[x].0.as_map().contains_key(q) {
                m0[x].0.as_map()[q].receivers@.len()
            } else {
                0
            }));
        }
    }
}

/// Wires one link into the channel tables: nothing when an endpoint is
/// placed elsewhere.
fn wire_link(
    io: &mut StrMap<(Inputs, Outputs)>,
    nodes: &Vec<NodeId>,
    link: &LinkRecord,
    hlc: &Arc<uhlc::HLC>,
    Ghost(processed): Ghost<Seq<LinkRecord>>,
)
    requires
        fabric_inv(*old(io), nodes@, processed),
    ensures
        fabric_inv(*final(io), nodes@, processed.push(*link)),
{
    let ghost taken1 = processed.push(*link);
    let retained = contains_node(nodes, &link.from.node) && contains_node(nodes, &link.to.node);
    if retained {
        wire_retained(io, nodes, link, hlc, Ghost(processed));
    } else {
        proof {
            assert(taken1.drop_last() =~= processed);
            assert(taken1.last() == *link);
            let m2 = io.as_map();
            assert(links_covered(m2, nodes@, taken1)) by {
                assert forall|t: int| 0 <= t < taken1.len() - 1 implies taken1[t]
                    == processed[t] by {}
            }
            assert forall|x: Seq<char>, q: Seq<char>| #[trigger] count_out(nodes@, taken1, x, q)
                == count_out(nodes@, processed, x, q) by {}
            assert forall|x: Seq<char>, q: Seq<char>| #[trigger] count_in(nodes@, taken1, x, q)
                == count_in(nodes@, processed, x, q) by {}
            lemma_touched_keep(m2, nodes@, processed, *link);
        }
    }
}

/// Builds the per-node channel tables for every link whose two endpoints
/// are placed on this runtime: one fresh unbounded channel per such link,
/// its sender appended to the upstream node's output port, its receiver to
/// the downstream node's input port; a port's table is created on first
/// use.  A link with an endpoint placed elsewhere leaves no trace.
pub fn create_links(nodes: &Vec<NodeId>, links: &Vec<LinkRecord>, hlc: &Arc<uhlc::HLC>) -> (r:
    Result<StrMap<(Inputs, Outputs)>, ZFError>)
    ensures
        r matches Ok(io) ==> fabric_inv(io, nodes@, links@),
        r is Ok,
{
    let mut io: StrMap<(Inputs, Outputs)> = StrMap::new();
    let n = links.len();
    for k in 0..n
        invariant
            n == links@.len(),
            fabric_inv(io, nodes@, links@.take(k as int)),
    {
        wire_link(&mut io, nodes, &links[k], hlc, Ghost(links@.take(k as int)));
        proof {
            assert(links@.take(k + 1) =~= links@.take(k as int).push(links@[k as int]));
        }
    }
    proof {
        assert(links@.take(n as int) =~= links@);
    }
    Ok(io)
}

} // verus!
