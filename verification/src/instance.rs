//! The instance of a data flow graph: one runner slot per node, the shared
//! instance context, and per-node control.

use vstd::prelude::*;
use std::sync::Arc;
use crate::channel::{create_links, Inputs, Outputs};
use crate::errors::{ErrorKind, ZFError};
use crate::kvmap::StrMap;
use crate::model::{LinkRecord, NodeId, OperatorRecord, RuntimeId, SinkRecord, SourceRecord};
use crate::runners::RunnerKind;

verus! {

/// How a connector bridges its link: publishing to the shared bus, or
/// subscribing from it.
#[derive(Clone, Copy, Debug, PartialEq, Eq, Structural)]
pub enum ZFConnectorKind {
    Sender,
    Receiver,
}

/// A connector placed on this runtime: a pseudo-node bridging one link
/// across runtimes over the shared bus.
pub struct ZFConnectorRecord {
    pub id: NodeId,
    pub kind: ZFConnectorKind,
    pub resource: String,
}

/// A validated flow, ready to instantiate: its records and links, and the
/// identifiers of the flow, the instance and the runtime.
pub struct Dataflow {
    pub flow_id: String,
    pub uuid: u128,
    pub runtime_id: RuntimeId,
    pub sources: Vec<SourceRecord>,
    pub operators: Vec<OperatorRecord>,
    pub sinks: Vec<SinkRecord>,
    pub connectors: Vec<ZFConnectorRecord>,
    pub links: Vec<LinkRecord>,
}

/// Relies on `uuid::Uuid::new_v4`: a random instance identifier; nothing is
/// assumed of the value.
#[verifier::external_body]
pub fn generate_instance_id() -> u128 {
    uuid::Uuid::new_v4().as_u128()
}

impl Dataflow {
    /// An empty flow under a fresh random instance identifier.
    pub fn new(flow_id: String, runtime_id: RuntimeId) -> (r: Dataflow)
        ensures
            r.flow_id@ == flow_id@,
            r.runtime_id@ == runtime_id@,
            r.sources@.len() == 0,
            r.operators@.len() == 0,
            r.sinks@.len() == 0,
            r.connectors@.len() == 0,
            r.links@.len() == 0,
    {
        Dataflow {
            flow_id,
            uuid: generate_instance_id(),
            runtime_id,
            sources: Vec::new(),
            operators: Vec::new(),
            sinks: Vec::new(),
            connectors: Vec::new(),
            links: Vec::new(),
        }
    }
}

/// The identifiers of every node of the flow, sources first, then
/// operators, sinks and connectors.
pub open spec fn spec_node_ids(d: Dataflow) -> Seq<String> {
    d.sources@.map_values(|r: SourceRecord| r.id) + d.operators@.map_values(
        |r: OperatorRecord| r.id,
    ) + d.sinks@.map_values(|r: SinkRecord| r.id) + d.connectors@.map_values(
        |r: ZFConnectorRecord| r.id,
    )
}

/// Whether the flow's node identifiers are pairwise distinct.
pub open spec fn ids_distinct(d: Dataflow) -> bool {
    forall|i: int, j: int| 0 <= i < j < spec_node_ids(d).len() ==> spec_node_ids(d)[i]@
        != spec_node_ids(d)[j]@
}

/// Whether some link of the flow, both of whose endpoints are placed here,
/// starts or ends at the node named `x`.
#[verifier::opaque]
pub open spec fn node_linked(d: Dataflow, x: Seq<char>) -> bool {
    exists|k: int| 0 <= k < d.links@.len() && {
        let l = #[trigger] d.links@[k];
        crate::channel::node_listed(spec_node_ids(d), l.from.node@) && crate::channel::node_listed(
            spec_node_ids(d),
            l.to.node@,
        ) && (l.from.node@ == x || l.to.node@ == x)
    }
}

/// Whether every node of the flow is touched by some retained link; exactly
/// then does every node get its channel tables and instantiation succeed.
pub open spec fn every_node_linked(d: Dataflow) -> bool {
    forall|t: int| 0 <= t < spec_node_ids(d).len() ==> node_linked(
        d,
        (#[trigger] spec_node_ids(d)[t])@,
    )
}

/// What every runner of one instance shares: the flow, instance and runtime
/// identifiers.
pub struct InstanceContext {
    pub flow_id: String,
    pub instance_id: u128,
    pub runtime_id: RuntimeId,
}

/// One node's slot in the instance: its kind, whether its task is running,
/// the period its source snaps to (a source's record declares one; every
/// other kind carries none), and the channel tables its runner consumes.
pub struct Runner {
    pub id: NodeId,
    pub kind: RunnerKind,
    pub running: bool,
    pub period: Option<u64>,
    pub inputs: Inputs,
    pub outputs: Outputs,
}

impl Runner {
    pub fn get_id(&self) -> (r: NodeId)
        ensures
            r@ == self.id@,
    {
        self.id.clone()
    }

    pub fn get_kind(&self) -> (r: RunnerKind)
        ensures
            r == self.kind,
    {
        self.kind
    }

    pub fn is_running(&self) -> (r: bool)
        ensures
            r == self.running,
    {
        self.running
    }
}


/// The period a source record declares, in the clock's units.
pub open spec fn spec_period(p: Option<crate::model::PeriodDescriptor>) -> Option<u64> {
    match p {
        Some(pd) => Some(pd.length),
        None => None,
    }
}

/// The runner slot the instance owes the node named `idv`: present, named
/// by its key, of the node's kind, carrying its period, not yet running.
#[verifier::opaque]
pub open spec fn runner_entry(
    m: Map<Seq<char>, Runner>,
    idv: Seq<char>,
    kind: RunnerKind,
    period: Option<u64>,
) -> bool {
    &&& m.contains_key(idv)
    &&& m[idv].id@ == idv
    &&& m[idv].kind == kind
    &&& m[idv].period == period
    &&& !m[idv].running
}

/// The kind of the node at position `t` of `spec_node_ids`: sources first,
/// then operators, sinks and connectors.
pub open spec fn trip_kind(d: Dataflow, t: int) -> RunnerKind {
    if t < d.sources@.len() {
        RunnerKind::Source
    } else if t < d.sources@.len() + d.operators@.len() {
        RunnerKind::Operator
    } else if t < d.sources@.len() + d.operators@.len() + d.sinks@.len() {
        RunnerKind::Sink
    } else {
        RunnerKind::Connector
    }
}

/// The period of the node at position `t` of `spec_node_ids`: a source's
/// declared period, nothing for every other kind.
pub open spec fn trip_period(d: Dataflow, t: int) -> Option<u64> {
    if t < d.sources@.len() {
        spec_period(d.sources@[t].period)
    } else {
        None
    }
}

/// Whether some entry of kind `kind` bears the identifier `idv`.
pub open spec fn names_entry_of_kind(
    entries: Seq<(String, Runner)>,
    idv: Seq<char>,
    kind: RunnerKind,
) -> bool {
    exists|j: int| 0 <= j < entries.len() && (#[trigger] entries[j]).0@ == idv
        && entries[j].1.kind == kind
}

/// Whether `r` lists the identifier `idv`.
pub open spec fn id_listed(r: Seq<String>, idv: Seq<char>) -> bool {
    exists|i: int| 0 <= i < r.len() && (#[trigger] r[i])@ == idv
}

/// `r` lists exactly the identifiers of the entries of kind `kind`:
/// every listed identifier is such an entry's, and every such entry is
/// listed.
pub open spec fn lists_kind(entries: Seq<(String, Runner)>, r: Seq<String>, kind: RunnerKind) -> bool {
    &&& forall|i: int| 0 <= i < r.len() ==> names_entry_of_kind(entries, (#[trigger] r[i])@, kind)
    &&& forall|j: int| 0 <= j < entries.len() ==> ((#[trigger] entries[j]).1.kind == kind
        ==> id_listed(r, entries[j].0@))
}

/// The instance of a data flow graph: the shared context and one runner
/// slot per node placed on this runtime.
pub struct DataflowInstance {
    pub instance_context: InstanceContext,
    pub runners: StrMap<Runner>,
}

/// The message a node whose channel tables were never created is refused
/// with: it names the node.
pub open spec fn missing_links_message(id: Seq<char>) -> Seq<char> {
    "Missing links for < "@ + id + " >"@
}

/// Takes `id`'s channel tables out of `io`; a node whose tables were never
/// created is a hard error naming the node.
fn take_io(io: &mut StrMap<(Inputs, Outputs)>, id: &NodeId) -> (r: Result<
    (Inputs, Outputs),
    ZFError,
>)
    requires
        old(io).wf(),
    ensures
        final(io).wf(),
        r is Ok <==> old(io).as_map().contains_key(id@),
        r is Ok ==> final(io).as_map() == old(io).as_map().remove(id@),
        r matches Err(e) ==> e.kind == ErrorKind::IOError && e.message@
            == missing_links_message(id@) && final(io).as_map() == old(io).as_map(),
{
    match io.remove(id) {
        Some(slot) => Ok(slot),
        None => {
            let msg = crate::strutil::concat3("Missing links for < ", id.as_str(), " >");
            Err(ZFError::new(ErrorKind::IOError, msg))
        },
    }
}

/// One (identifier, kind, period) triple per node of the flow, in the
/// order of `spec_node_ids`.
fn node_triples(dataflow: &Dataflow) -> (r: Vec<(NodeId, RunnerKind, Option<u64>)>)
    ensures
        r@.len() == spec_node_ids(*dataflow).len(),
        forall|u: int| 0 <= u < r@.len() ==> ((#[trigger] r@[u]).0@ == spec_node_ids(
            *dataflow,
        )[u]@ && r@[u].1 == trip_kind(*dataflow, u) && r@[u].2 == trip_period(*dataflow, u)),
{
let ghost all = spec_node_ids(*dataflow);
    let mut trips: Vec<(NodeId, RunnerKind, Option<u64>)> = Vec::new();
    let ns = dataflow.sources.len();
    for i in 0..ns
        invariant
            ns == dataflow.sources@.len(),
            all == spec_node_ids(*dataflow),
            trips@.len() == i,
            forall|t: int| 0 <= t < i ==> ((#[trigger] trips@[t]).0@ == all[t]@
                && trips@[t].1 == RunnerKind::Source && trips@[t].2 == spec_period(
                dataflow.sources@[t].period,
            )),
    {
        let period = match dataflow.sources[i].period {
            Some(p) => Some(p.length),
            None => None,
        };
        trips.push((dataflow.sources[i].id.clone(), RunnerKind::Source, period));
    }
    let no = dataflow.operators.len();
    for i in 0..no
        invariant
            ns == dataflow.sources@.len(),
            no == dataflow.operators@.len(),
            all == spec_node_ids(*dataflow),
            trips@.len() == ns + i,
            forall|t: int| 0 <= t < ns ==> ((#[trigger] trips@[t]).0@ == all[t]@
                && trips@[t].1 == RunnerKind::Source && trips@[t].2 == spec_period(
                dataflow.sources@[t].period,
            )),
            forall|t: int| ns <= t < ns + i ==> ((#[trigger] trips@[t]).0@ == all[t]@
                && trips@[t].1 == RunnerKind::Operator && trips@[t].2 is None),
    {
        trips.push((dataflow.operators[i].id.clone(), RunnerKind::Operator, None));
    }
    let nk = dataflow.sinks.len();
    for i in 0..nk
        invariant
            ns == dataflow.sources@.len(),
            no == dataflow.operators@.len(),
            nk == dataflow.sinks@.len(),
            all == spec_node_ids(*dataflow),
            trips@.len() == ns + no + i,
            forall|t: int| 0 <= t < ns ==> ((#[trigger] trips@[t]).0@ == all[t]@
                && trips@[t].1 == RunnerKind::Source && trips@[t].2 == spec_period(
                dataflow.sources@[t].period,
            )),
            forall|t: int| ns <= t < ns + no ==> ((#[trigger] trips@[t]).0@ == all[t]@
                && trips@[t].1 == RunnerKind::Operator && trips@[t].2 is None),
            forall|t: int| ns + no <= t < ns + no + i ==> ((#[trigger] trips@[t]).0@
                == all[t]@ && trips@[t].1 == RunnerKind::Sink && trips@[t].2 is None),
    {
        trips.push((dataflow.sinks[i].id.clone(), RunnerKind::Sink, None));
    }
    let nc = dataflow.connectors.len();
    for i in 0..nc
        invariant
            ns == dataflow.sources@.len(),
            no == dataflow.operators@.len(),
            nk == dataflow.sinks@.len(),
            nc == dataflow.connectors@.len(),
            all == spec_node_ids(*dataflow),
            trips@.len() == ns + no + nk + i,
            forall|t: int| 0 <= t < ns ==> ((#[trigger] trips@[t]).0@ == all[t]@
                && trips@[t].1 == RunnerKind::Source && trips@[t].2 == spec_period(
                dataflow.sources@[t].period,
            )),
            forall|t: int| ns <= t < ns + no ==> ((#[trigger] trips@[t]).0@ == all[t]@
                && trips@[t].1 == RunnerKind::Operator && trips@[t].2 is None),
            forall|t: int| ns + no <= t < ns + no + nk ==> ((#[trigger] trips@[t]).0@
                == all[t]@ && trips@[t].1 == RunnerKind::Sink && trips@[t].2 is None),
            forall|t: int| ns + no + nk <= t < ns + no + nk + i ==> ((
            #[trigger] trips@[t]).0@ == all[t]@ && trips@[t].1 == RunnerKind::Connector
                && trips@[t].2 is None),
    {
        trips.push((dataflow.connectors[i].id.clone(), RunnerKind::Connector, None));
    }

    proof {
        assert(trips@.len() == all.len());
        assert forall|u: int| 0 <= u < trips@.len() implies ((#[trigger] trips@[u]).0@
            == all[u]@ && trips@[u].1 == trip_kind(*dataflow, u) && trips@[u].2
            == trip_period(*dataflow, u)) by {}
    }
    trips
}

/// The per-category runner clauses, read off the triple order of
/// `spec_node_ids`: each record's slot is present, and under distinct
/// identifiers it is of the record's kind and carries its period.
proof fn lemma_runners_by_category(m: Map<Seq<char>, Runner>, d: Dataflow)
    requires
        forall|j: int| 0 <= j < spec_node_ids(d).len() ==> m.contains_key(
            (#[trigger] spec_node_ids(d)[j])@,
        ),
        ids_distinct(d) ==> forall|j: int| 0 <= j < spec_node_ids(d).len() ==> runner_entry(
            m,
            (#[trigger] spec_node_ids(d)[j])@,
            trip_kind(d, j),
            trip_period(d, j),
        ),
    ensures
        forall|i: int| 0 <= i < d.sources@.len() ==> m.contains_key(
            (#[trigger] d.sources@[i]).id@,
        ),
        forall|i: int| 0 <= i < d.operators@.len() ==> m.contains_key(
            (#[trigger] d.operators@[i]).id@,
        ),
        forall|i: int| 0 <= i < d.sinks@.len() ==> m.contains_key((#[trigger] d.sinks@[i]).id@),
        forall|i: int| 0 <= i < d.connectors@.len() ==> m.contains_key(
            (#[trigger] d.connectors@[i]).id@,
        ),
        ids_distinct(d) ==> forall|i: int| 0 <= i < d.sources@.len() ==> runner_entry(
            m,
            (#[trigger] d.sources@[i]).id@,
            RunnerKind::Source,
            spec_period(d.sources@[i].period),
        ),
        ids_distinct(d) ==> forall|i: int| 0 <= i < d.operators@.len() ==> runner_entry(
            m,
            (#[trigger] d.operators@[i]).id@,
            RunnerKind::Operator,
            None::<u64>,
        ),
        ids_distinct(d) ==> forall|i: int| 0 <= i < d.sinks@.len() ==> runner_entry(
            m,
            (#[trigger] d.sinks@[i]).id@,
            RunnerKind::Sink,
            None::<u64>,
        ),
        ids_distinct(d) ==> forall|i: int| 0 <= i < d.connectors@.len() ==> runner_entry(
            m,
            (#[trigger] d.connectors@[i]).id@,
            RunnerKind::Connector,
            None::<u64>,
        ),
{
    let all = spec_node_ids(d);
    let ns = d.sources@.len();
    let no = d.operators@.len();
    let nk = d.sinks@.len();
    assert forall|i: int| 0 <= i < d.sources@.len() implies m.contains_key(
        (#[trigger] d.sources@[i]).id@,
    ) by {
        assert(all[i] == d.sources@[i].id);
    }
    assert forall|i: int| 0 <= i < d.operators@.len() implies m.contains_key(
        (#[trigger] d.operators@[i]).id@,
    ) by {
        assert(all[ns + i] == d.operators@[i].id);
    }
    assert forall|i: int| 0 <= i < d.sinks@.len() implies m.contains_key(
        (#[trigger] d.sinks@[i]).id@,
    ) by {
        assert(all[ns + no + i] == d.sinks@[i].id);
    }
    assert forall|i: int| 0 <= i < d.connectors@.len() implies m.contains_key(
        (#[trigger] d.connectors@[i]).id@,
    ) by {
        assert(all[ns + no + nk + i] == d.connectors@[i].id);
    }
    if ids_distinct(d) {
        assert forall|i: int| 0 <= i < d.sources@.len() implies runner_entry(
            m,
            (#[trigger] d.sources@[i]).id@,
            RunnerKind::Source,
            spec_period(d.sources@[i].period),
        ) by {
            assert(all[i] == d.sources@[i].id);
            assert(trip_kind(d, i) == RunnerKind::Source);
            assert(trip_period(d, i) == spec_period(d.sources@[i].period));
        }
        assert forall|i: int| 0 <= i < d.operators@.len() implies runner_entry(
            m,
            (#[trigger] d.operators@[i]).id@,
            RunnerKind::Operator,
            None::<u64>,
        ) by {
            assert(all[ns + i] == d.operators@[i].id);
            assert(trip_kind(d, ns + i) == RunnerKind::Operator);
            assert(trip_period(d, ns + i) is None);
        }
        assert forall|i: int| 0 <= i < d.sinks@.len() implies runner_entry(
            m,
            (#[trigger] d.sinks@[i]).id@,
            RunnerKind::Sink,
            None::<u64>,
        ) by {
            assert(all[ns + no + i] == d.sinks@[i].id);
            assert(trip_kind(d, ns + no + i) == RunnerKind::Sink);
            assert(trip_period(d, ns + no + i) is None);
        }
        assert forall|i: int| 0 <= i < d.connectors@.len() implies runner_entry(
            m,
            (#[trigger] d.connectors@[i]).id@,
            RunnerKind::Connector,
            None::<u64>,
        ) by {
            assert(all[ns + no + nk + i] == d.connectors@[i].id);
            assert(trip_kind(d, ns + no + nk + i) == RunnerKind::Connector);
            assert(trip_period(d, ns + no + nk + i) is None);
        }
    }
}

/// The running shape while runner slots are filled, one node triple after
/// the other: the channel tables only shrink within what `create_links`
/// built, every processed node had its tables and has its slot, no slot
/// runs, every slot belongs to a node of the flow, under distinct
/// identifiers each processed slot is exactly the node's, and on the happy
/// path the unprocessed nodes still have their tables.
#[verifier::opaque]
pub open spec fn build_inv(
    m: Map<Seq<char>, Runner>,
    iom: Map<Seq<char>, (Inputs, Outputs)>,
    io0: Map<Seq<char>, (Inputs, Outputs)>,
    d: Dataflow,
    t: int,
) -> bool {
    &&& (forall|k: Seq<char>| #[trigger] iom.contains_key(k) ==> io0.contains_key(k))
    &&& (forall|j: int| 0 <= j < t ==> io0.contains_key((#[trigger] spec_node_ids(d)[j])@))
    &&& (forall|j: int| 0 <= j < t ==> m.contains_key((#[trigger] spec_node_ids(d)[j])@))
    &&& (forall|k: Seq<char>| #[trigger] m.contains_key(k) ==> !m[k].running
        && crate::channel::node_listed(spec_node_ids(d), k))
    &&& (ids_distinct(d) ==> forall|j: int| 0 <= j < t ==> runner_entry(
        m,
        (#[trigger] spec_node_ids(d)[j])@,
        trip_kind(d, j),
        trip_period(d, j),
    ))
    &&& ((ids_distinct(d) && every_node_linked(d)) ==> (forall|u: int|
        t <= u < spec_node_ids(d).len() ==> iom.contains_key((#[trigger] spec_node_ids(d)[u])@)))
}

/// Filling one slot preserves the running shape: the node's tables leave
/// `iom`, its runner joins `m`.
proof fn lemma_build_step(
    m: Map<Seq<char>, Runner>,
    m2: Map<Seq<char>, Runner>,
    iom: Map<Seq<char>, (Inputs, Outputs)>,
    iom2: Map<Seq<char>, (Inputs, Outputs)>,
    io0: Map<Seq<char>, (Inputs, Outputs)>,
    d: Dataflow,
    t: int,
    runner: Runner,
)
    requires
        build_inv(m, iom, io0, d, t),
        0 <= t < spec_node_ids(d).len(),
        iom.contains_key(spec_node_ids(d)[t]@),
        iom2 == iom.remove(spec_node_ids(d)[t]@),
        m2 == m.insert(spec_node_ids(d)[t]@, runner),
        runner.id@ == spec_node_ids(d)[t]@,
        runner.kind == trip_kind(d, t),
        runner.period == trip_period(d, t),
        !runner.running,
    ensures
        build_inv(m2, iom2, io0, d, t + 1),
{
    reveal(build_inv);
    reveal(runner_entry);
    let all = spec_node_ids(d);
    assert forall|j: int| 0 <= j < t + 1 implies io0.contains_key((#[trigger] all[j])@) by {}
    assert forall|j: int| 0 <= j < t + 1 implies m2.contains_key((#[trigger] all[j])@) by {}
    assert forall|k: Seq<char>| #[trigger] m2.contains_key(k) implies !m2[k].running
        && crate::channel::node_listed(all, k) by {
        if k == all[t]@ {
            assert((all[t])@ == k);
        }
    }
    if ids_distinct(d) {
        assert forall|j: int| 0 <= j < t + 1 implies runner_entry(
            m2,
            (#[trigger] all[j])@,
            trip_kind(d, j),
            trip_period(d, j),
        ) by {
            if j < t {
                assert(all[j]@ != all[t]@);
            }
        }
    }
    if ids_distinct(d) && every_node_linked(d) {
        assert forall|u: int| t + 1 <= u < all.len() implies iom2.contains_key(
            (#[trigger] all[u])@,
        ) by {
            assert(all[u]@ != all[t]@);
        }
    }
}

/// Consumes one node triple after the other: takes the node's channel
/// tables out of `io` and fills its runner slot.  A node whose tables are
/// missing is a hard error naming the node.
fn build_runners(
    io: &mut StrMap<(Inputs, Outputs)>,
    trips: Vec<(NodeId, RunnerKind, Option<u64>)>,
    Ghost(d): Ghost<Dataflow>,
    Ghost(io0): Ghost<Map<Seq<char>, (Inputs, Outputs)>>,
) -> (r: Result<StrMap<Runner>, ZFError>)
    requires
        old(io).wf(),
        old(io).as_map() == io0,
        trips@.len() == spec_node_ids(d).len(),
        forall|u: int| 0 <= u < trips@.len() ==> ((#[trigger] trips@[u]).0@ == spec_node_ids(
            d,
        )[u]@ && trips@[u].1 == trip_kind(d, u) && trips@[u].2 == trip_period(d, u)),
        (ids_distinct(d) && every_node_linked(d)) ==> (forall|t: int|
            0 <= t < spec_node_ids(d).len() ==> io0.contains_key(
                (#[trigger] spec_node_ids(d)[t])@,
            )),
    ensures
        r matches Ok(runners) ==> runners.wf() && build_inv(
            runners.as_map(),
            final(io).as_map(),
            io0,
            d,
            spec_node_ids(d).len() as int,
        ),
        r matches Err(e) ==> e.kind == ErrorKind::IOError && exists|t: int|
            0 <= t < spec_node_ids(d).len() && e.message@ == missing_links_message(
                (#[trigger] spec_node_ids(d)[t])@,
            ),
        (ids_distinct(d) && every_node_linked(d)) ==> r is Ok,
{
    let ghost all = spec_node_ids(d);
    let n = trips.len();
    let mut runners: StrMap<Runner> = StrMap::new();
    let mut rest = trips;
    proof {
        assert(build_inv(runners.as_map(), io.as_map(), io0, d, 0)) by {
            reveal(build_inv);
        }
    }
    for t in 0..n
        invariant
            all == spec_node_ids(d),
            n == all.len(),
            rest@.len() + t == n,
            forall|u: int| 0 <= u < rest@.len() ==> ((#[trigger] rest@[u]).0@ == all[t + u]@
                && rest@[u].1 == trip_kind(d, t + u) && rest@[u].2 == trip_period(d, t + u)),
            io.wf(),
            runners.wf(),
            build_inv(runners.as_map(), io.as_map(), io0, d, t as int),
    {
        let (id, kind, period) = rest.remove(0);
        proof {
            assert(id@ == all[t as int]@);
            assert(kind == trip_kind(d, t as int));
            assert(period == trip_period(d, t as int));
            assert forall|u: int| 0 <= u < rest@.len() implies ((#[trigger] rest@[u]).0@
                == all[t + 1 + u]@ && rest@[u].1 == trip_kind(d, t + 1 + u) && rest@[u].2
                == trip_period(d, t + 1 + u)) by {}
        }
        let ghost m_before = runners.as_map();
        let ghost iom_before = io.as_map();
        let (inputs, outputs) = match take_io(io, &id) {
            Ok(slot) => slot,
            Err(e) => {
                proof {
                    assert(spec_node_ids(d)[t as int]@ == id@);
                    assert(!(ids_distinct(d) && every_node_linked(d))) by {
                        reveal(build_inv);
                    }
                }
                return Err(e);
            },
        };
        let r_new = Runner { id, kind, running: false, period, inputs, outputs };
        let ghost r_ghost = r_new;
        let id_key = r_new.id.clone();
        runners.insert(id_key, r_new);
        proof {
            lemma_build_step(
                m_before,
                runners.as_map(),
                iom_before,
                io.as_map(),
                io0,
                d,
                t as int,
                r_ghost,
            );
        }
    }
    Ok(runners)
}

/// Two node lists with the same identifiers, position by position, list
/// the same identifiers.
proof fn lemma_listing_equiv(nodes: Seq<String>, all: Seq<String>)
    requires
        nodes.len() == all.len(),
        forall|u: int| 0 <= u < nodes.len() ==> (#[trigger] nodes[u])@ == all[u]@,
    ensures
        forall|x: Seq<char>| #[trigger] crate::channel::node_listed(nodes, x)
            == crate::channel::node_listed(all, x),
{
    assert forall|x: Seq<char>| #[trigger] crate::channel::node_listed(nodes, x)
        == crate::channel::node_listed(all, x) by {
        if crate::channel::node_listed(nodes, x) {
            let t = choose|t: int| 0 <= t < nodes.len() && (#[trigger] nodes[t])@ == x;
            assert(all[t]@ == x);
        }
        if crate::channel::node_listed(all, x) {
            let t = choose|t: int| 0 <= t < all.len() && (#[trigger] all[t])@ == x;
            assert(nodes[t]@ == x);
        }
    }
}

/// Every key of the built channel tables is a node some retained link of
/// the flow touches.
proof fn lemma_tables_linked(
    io0: Map<Seq<char>, (Inputs, Outputs)>,
    nodes: Seq<String>,
    d: Dataflow,
)
    requires
        forall|k: Seq<char>| #[trigger] io0.contains_key(k) ==> crate::channel::node_touched(
            nodes,
            d.links@,
            k,
        ),
        forall|x: Seq<char>| #[trigger] crate::channel::node_listed(nodes, x)
            == crate::channel::node_listed(spec_node_ids(d), x),
    ensures
        forall|k: Seq<char>| #[trigger] io0.contains_key(k) ==> node_linked(d, k),
{
    reveal(crate::channel::node_touched);
    reveal(node_linked);
    assert forall|k: Seq<char>| #[trigger] io0.contains_key(k) implies node_linked(d, k) by {
        let j = choose|j: int|
            0 <= j < d.links@.len() && {
                let l = #[trigger] d.links@[j];
                crate::channel::node_listed(nodes, l.from.node@) && crate::channel::node_listed(
                    nodes,
                    l.to.node@,
                ) && (l.from.node@ == k || l.to.node@ == k)
            };
        let l = d.links@[j];
        assert(crate::channel::node_listed(spec_node_ids(d), l.from.node@));
        assert(crate::channel::node_listed(spec_node_ids(d), l.to.node@));
    }
}

/// Conversely, every node some retained link of the flow touches has its
/// channel tables.
proof fn lemma_linked_tables(
    io0: Map<Seq<char>, (Inputs, Outputs)>,
    nodes: Seq<String>,
    d: Dataflow,
)
    requires
        crate::channel::links_covered(io0, nodes, d.links@),
        forall|x: Seq<char>| #[trigger] crate::channel::node_listed(nodes, x)
            == crate::channel::node_listed(spec_node_ids(d), x),
    ensures
        every_node_linked(d) ==> forall|t: int|
            0 <= t < spec_node_ids(d).len() ==> io0.contains_key(
                (#[trigger] spec_node_ids(d)[t])@,
            ),
{
    reveal(node_linked);
    if every_node_linked(d) {
        assert forall|t: int| 0 <= t < spec_node_ids(d).len() implies io0.contains_key(
            (#[trigger] spec_node_ids(d)[t])@,
        ) by {
            let all = spec_node_ids(d);
            assert(node_linked(d, all[t]@));
            let kx = choose|k: int|
                0 <= k < d.links@.len() && {
                    let l = #[trigger] d.links@[k];
                    crate::channel::node_listed(all, l.from.node@) && crate::channel::node_listed(
                        all,
                        l.to.node@,
                    ) && (l.from.node@ == all[t]@ || l.to.node@ == all[t]@)
                };
            let l = d.links@[kx];
            assert(crate::channel::node_listed(nodes, l.from.node@));
            assert(crate::channel::node_listed(nodes, l.to.node@));
            assert(io0.contains_key(l.from.node@) && io0.contains_key(l.to.node@));
        }
    }
}

impl DataflowInstance {
    /// Instantiates `dataflow`: builds the channels of every link whose two
    /// ends are placed here, then hands each node's channel tables to its
    /// runner slot, of the node's kind.  A node left without tables is a
    /// hard error naming the node, and nothing is instantiated.
    #[verifier::rlimit(100)]
    pub fn try_instantiate(dataflow: Dataflow, hlc: Arc<uhlc::HLC>) -> (r: Result<
        DataflowInstance,
        ZFError,
    >)
        ensures
            r matches Ok(inst) ==> {
                &&& inst.runners.wf()
                &&& inst.instance_context.flow_id@ == dataflow.flow_id@
                &&& inst.instance_context.instance_id == dataflow.uuid
                &&& inst.instance_context.runtime_id@ == dataflow.runtime_id@
                &&& every_node_linked(dataflow)
                &&& forall|i: int| 0 <= i < dataflow.sources@.len()
                    ==> inst.runners.as_map().contains_key(
                    (#[trigger] dataflow.sources@[i]).id@,
                )
                &&& forall|i: int| 0 <= i < dataflow.operators@.len()
                    ==> inst.runners.as_map().contains_key(
                    (#[trigger] dataflow.operators@[i]).id@,
                )
                &&& forall|i: int| 0 <= i < dataflow.sinks@.len()
                    ==> inst.runners.as_map().contains_key(
                    (#[trigger] dataflow.sinks@[i]).id@,
                )
                &&& forall|i: int| 0 <= i < dataflow.connectors@.len()
                    ==> inst.runners.as_map().contains_key(
                    (#[trigger] dataflow.connectors@[i]).id@,
                )
                &&& forall|k: Seq<char>| #[trigger] inst.runners.as_map().contains_key(k)
                    ==> crate::channel::node_listed(spec_node_ids(dataflow), k)
                &&& forall|k: Seq<char>| #[trigger] inst.runners.as_map().contains_key(k)
                    ==> !inst.runners.as_map()[k].running
                &&& (ids_distinct(dataflow) ==> {
                    &&& forall|i: int| 0 <= i < dataflow.sources@.len() ==> runner_entry(
                        inst.runners.as_map(),
                        (#[trigger] dataflow.sources@[i]).id@,
                        RunnerKind::Source,
                        spec_period(dataflow.sources@[i].period),
                    )
                    &&& forall|i: int| 0 <= i < dataflow.operators@.len() ==> runner_entry(
                        inst.runners.as_map(),
                        (#[trigger] dataflow.operators@[i]).id@,
                        RunnerKind::Operator,
                        None::<u64>,
                    )
                    &&& forall|i: int| 0 <= i < dataflow.sinks@.len() ==> runner_entry(
                        inst.runners.as_map(),
                        (#[trigger] dataflow.sinks@[i]).id@,
                        RunnerKind::Sink,
                        None::<u64>,
                    )
                    &&& forall|i: int| 0 <= i < dataflow.connectors@.len() ==> runner_entry(
                        inst.runners.as_map(),
                        (#[trigger] dataflow.connectors@[i]).id@,
                        RunnerKind::Connector,
                        None::<u64>,
                    )
                })
            },
            r matches Err(e) ==> e.kind == ErrorKind::IOError && exists|t: int|
                0 <= t < spec_node_ids(dataflow).len() && e.message@ == missing_links_message(
                    (#[trigger] spec_node_ids(dataflow)[t])@,
                ),
            ids_distinct(dataflow) && every_node_linked(dataflow) ==> r is Ok,
    {
        let ghost all = spec_node_ids(dataflow);
        let trips = node_triples(&dataflow);
        proof {
            assert(trips@.len() == all.len());
        }
        let mut node_ids: Vec<NodeId> = Vec::new();
        let n = trips.len();
        for t in 0..n
            invariant
                n == trips@.len() == all.len(),
                node_ids@.len() == t,
                forall|u: int| 0 <= u < t ==> (#[trigger] node_ids@[u])@ == all[u]@,
                forall|u: int| 0 <= u < n ==> (#[trigger] trips@[u]).0@ == all[u]@,
        {
            node_ids.push(trips[t].0.clone());
        }
        proof {
            lemma_listing_equiv(node_ids@, all);
        }

        let mut io = match create_links(&node_ids, &dataflow.links, &hlc) {
            Ok(io) => io,
            Err(e) => {
                proof {
                    assert(false);
                }
                return Err(ZFError::new(ErrorKind::IOError, e.message_string()));
            },
        };

        let ghost io0 = io.as_map();
        proof {
            lemma_tables_linked(io0, node_ids@, dataflow);
            lemma_linked_tables(io0, node_ids@, dataflow);
        }

        let context = InstanceContext {
            flow_id: dataflow.flow_id,
            instance_id: dataflow.uuid,
            runtime_id: dataflow.runtime_id,
        };

        let runners = match build_runners(&mut io, trips, Ghost(dataflow), Ghost(io0)) {
            Ok(runners) => runners,
            Err(e) => {
                return Err(e);
            },
        };

        proof {
            reveal(build_inv);
            // Every node was taken from the tables, so every node is linked.
            assert forall|t: int| 0 <= t < all.len() implies node_linked(
                dataflow,
                (#[trigger] all[t])@,
            ) by {
                assert(io0.contains_key(all[t]@));
            }
            lemma_runners_by_category(runners.as_map(), dataflow);
        }
        Ok(DataflowInstance { instance_context: context, runners })
    }

    /// The instance's identifier.
    pub fn get_uuid(&self) -> (r: u128)
        ensures
            r == self.instance_context.instance_id,
    {
        self.instance_context.instance_id
    }

    /// The flow's identifier.
    pub fn get_flow(&self) -> (r: String)
        ensures
            r@ == self.instance_context.flow_id@,
    {
        self.instance_context.flow_id.clone()
    }

    /// The shared instance context.
    pub fn get_instance_context(&self) -> (r: &InstanceContext)
        ensures
            r == &self.instance_context,
    {
        &self.instance_context
    }

    /// The identifiers of this instance's nodes of kind `kind`; under the
    /// runner map's key uniqueness each appears exactly once.
    fn get_by_kind(&self, kind: RunnerKind) -> (r: Vec<NodeId>)
        ensures
            lists_kind(self.runners.entries@, r@, kind),
            self.runners.wf() ==> forall|i: int, j: int| 0 <= i < j < r@.len() ==> r@[i]@
                != r@[j]@,
    {
        let mut r: Vec<NodeId> = Vec::new();
        let ghost mut w: Seq<int> = Seq::empty();
        let n = self.runners.len();
        for j in 0..n
            invariant
                n == self.runners.entries@.len(),
                w.len() == r@.len(),
                forall|i: int| 0 <= i < r@.len() ==> 0 <= #[trigger] w[i] < n && r@[i]@
                    == self.runners.entries@[w[i]].0@ && self.runners.entries@[w[i]].1.kind
                    == kind,
                forall|i: int| 0 <= i < w.len() ==> #[trigger] w[i] < j,
                forall|a: int, b: int| 0 <= a < b < w.len() ==> w[a] < w[b],
                forall|t: int| 0 <= t < j ==> ((#[trigger] self.runners.entries@[t]).1.kind
                    == kind ==> id_listed(r@, self.runners.entries@[t].0@)),
        {
            let ghost old_r = r@;
            if self.runners.entries[j].1.kind == kind {
                r.push(self.runners.entries[j].0.clone());
                proof {
                    w = w.push(j as int);
                    assert forall|t: int|
                        0 <= t < j + 1 && (#[trigger] self.runners.entries@[t]).1.kind == kind
                        implies id_listed(r@, self.runners.entries@[t].0@) by {
                        if t < j {
                            let i = choose|i: int|
                                0 <= i < old_r.len() && (#[trigger] old_r[i])@
                                    == self.runners.entries@[t].0@;
                            assert(r@[i] == old_r[i]);
                            assert((r@[i])@ == self.runners.entries@[t].0@);
                        } else {
                            assert((r@[r@.len() - 1])@ == self.runners.entries@[t].0@);
                        }
                    }
                }
            }
        }
        proof {
            assert forall|i: int| 0 <= i < r@.len() implies names_entry_of_kind(
                self.runners.entries@,
                (#[trigger] r@[i])@,
                kind,
            ) by {
                assert(0 <= w[i] < n && (self.runners.entries@[w[i]]).0@ == r@[i]@
                    && self.runners.entries@[w[i]].1.kind == kind);
            }
            if self.runners.wf() {
                assert forall|i: int, j: int| 0 <= i < j < r@.len() implies r@[i]@
                    != r@[j]@ by {
                    assert(w[i] < w[j]);
                    assert(self.runners.entries@[w[i]].0@ != self.runners.entries@[w[j]].0@);
                }
            }
        }
        r
    }

    /// The identifiers of this instance's sources.
    pub fn get_sources(&self) -> (r: Vec<NodeId>)
        ensures
            lists_kind(self.runners.entries@, r@, RunnerKind::Source),
            self.runners.wf() ==> forall|i: int, j: int| 0 <= i < j < r@.len() ==> r@[i]@
                != r@[j]@,
    {
        self.get_by_kind(RunnerKind::Source)
    }

    /// The identifiers of this instance's sinks.
    pub fn get_sinks(&self) -> (r: Vec<NodeId>)
        ensures
            lists_kind(self.runners.entries@, r@, RunnerKind::Sink),
            self.runners.wf() ==> forall|i: int, j: int| 0 <= i < j < r@.len() ==> r@[i]@
                != r@[j]@,
    {
        self.get_by_kind(RunnerKind::Sink)
    }

    /// The identifiers of this instance's operators.
    pub fn get_operators(&self) -> (r: Vec<NodeId>)
        ensures
            lists_kind(self.runners.entries@, r@, RunnerKind::Operator),
            self.runners.wf() ==> forall|i: int, j: int| 0 <= i < j < r@.len() ==> r@[i]@
                != r@[j]@,
    {
        self.get_by_kind(RunnerKind::Operator)
    }

    /// The identifiers of this instance's connectors.
    pub fn get_connectors(&self) -> (r: Vec<NodeId>)
        ensures
            lists_kind(self.runners.entries@, r@, RunnerKind::Connector),
            self.runners.wf() ==> forall|i: int, j: int| 0 <= i < j < r@.len() ==> r@[i]@
                != r@[j]@,
    {
        self.get_by_kind(RunnerKind::Connector)
    }

    /// The identifiers of all this instance's nodes.
    pub fn get_nodes(&self) -> (r: Vec<NodeId>)
        ensures
            r@.len() == self.runners.entries@.len(),
            forall|j: int| 0 <= j < r@.len() ==> (#[trigger] r@[j])@
                == self.runners.entries@[j].0@,
    {
        let mut r: Vec<NodeId> = Vec::new();
        let n = self.runners.len();
        for j in 0..n
            invariant
                n == self.runners.entries@.len(),
                r@.len() == j,
                forall|t: int| 0 <= t < j ==> (#[trigger] r@[t])@
                    == self.runners.entries@[t].0@,
        {
            r.push(self.runners.entries[j].0.clone());
        }
        r
    }

    /// Whether the named node's task is running; an unknown node is
    /// refused.
    pub fn is_node_running(&self, node_id: &NodeId) -> (r: Result<bool, ZFError>)
        requires
            self.runners.wf(),
        ensures
            self.runners.as_map().contains_key(node_id@) ==> r == Ok::<bool, ZFError>(
                self.runners.as_map()[node_id@].running,
            ),
            !self.runners.as_map().contains_key(node_id@) ==> (r matches Err(e) && e.kind
                == ErrorKind::NodeNotFound),
    {
        match self.runners.get(node_id) {
            Some(runner) => Ok(runner.running),
            None => Err(ZFError::new(ErrorKind::NodeNotFound, node_id.clone())),
        }
    }

    /// Marks the named node's task as started; an unknown node is refused.
    pub fn start_node(&mut self, node_id: &NodeId) -> (r: Result<(), ZFError>)
        requires
            old(self).runners.wf(),
        ensures
            final(self).runners.wf(),
            final(self).instance_context == old(self).instance_context,
            old(self).runners.as_map().contains_key(node_id@) ==> r is Ok && final(self).runners.as_map() == old(self).runners.as_map().insert(
                node_id@,
                (Runner { running: true, ..old(self).runners.as_map()[node_id@] }),
            ),
            !old(self).runners.as_map().contains_key(node_id@) ==> (r matches Err(e) && e.kind
                == ErrorKind::NodeNotFound && final(self).runners.as_map() == old(self).runners.as_map()),
    {
        match self.runners.remove(node_id) {
            Some(runner) => {
                let updated = Runner { running: true, ..runner };
                self.runners.insert(node_id.clone(), updated);
                proof {
                    assert(final(self).runners.as_map() =~= old(self).runners.as_map().insert(
                        node_id@,
                        (Runner { running: true, ..old(self).runners.as_map()[node_id@] }),
                    ));
                }
                Ok(())
            },
            None => Err(ZFError::new(ErrorKind::NodeNotFound, node_id.clone())),
        }
    }

    /// Marks the named node's task as stopped; an unknown node is refused.
    pub fn stop_node(&mut self, node_id: &NodeId) -> (r: Result<(), ZFError>)
        requires
            old(self).runners.wf(),
        ensures
            final(self).runners.wf(),
            final(self).instance_context == old(self).instance_context,
            old(self).runners.as_map().contains_key(node_id@) ==> r is Ok && final(self).runners.as_map() == old(self).runners.as_map().insert(
                node_id@,
                (Runner { running: false, ..old(self).runners.as_map()[node_id@] }),
            ),
            !old(self).runners.as_map().contains_key(node_id@) ==> (r matches Err(e) && e.kind
                == ErrorKind::NodeNotFound && final(self).runners.as_map() == old(self).runners.as_map()),
    {
        match self.runners.remove(node_id) {
            Some(runner) => {
                let updated = Runner { running: false, ..runner };
                self.runners.insert(node_id.clone(), updated);
                proof {
                    assert(final(self).runners.as_map() =~= old(self).runners.as_map().insert(
                        node_id@,
                        (Runner { running: false, ..old(self).runners.as_map()[node_id@] }),
                    ));
                }
                Ok(())
            },
            None => Err(ZFError::new(ErrorKind::NodeNotFound, node_id.clone())),
        }
    }

    /// Starting every source at once is reserved.
    pub fn start_sources(&mut self) -> (r: Result<(), ZFError>)
        ensures
            *final(self) == *old(self),
            r matches Err(e) && e.kind == ErrorKind::Unimplemented,
    {
        Err(ZFError::new(ErrorKind::Unimplemented, String::new()))
    }

    /// Starting every node at once is reserved.
    pub fn start_nodes(&mut self) -> (r: Result<(), ZFError>)
        ensures
            *final(self) == *old(self),
            r matches Err(e) && e.kind == ErrorKind::Unimplemented,
    {
        Err(ZFError::new(ErrorKind::Unimplemented, String::new()))
    }

    /// Stopping every source at once is reserved.
    pub fn stop_sources(&mut self) -> (r: Result<(), ZFError>)
        ensures
            *final(self) == *old(self),
            r matches Err(e) && e.kind == ErrorKind::Unimplemented,
    {
        Err(ZFError::new(ErrorKind::Unimplemented, String::new()))
    }

    /// Stopping every node at once is reserved.
    pub fn stop_nodes(&mut self) -> (r: Result<(), ZFError>)
        ensures
            *final(self) == *old(self),
            r matches Err(e) && e.kind == ErrorKind::Unimplemented,
    {
        Err(ZFError::new(ErrorKind::Unimplemented, String::new()))
    }
}

} // verus!
