use zenoh_flow::errors::ErrorKind;
use zenoh_flow::runners::RunnerKind;
use zenoh_flow::instance::{Dataflow, DataflowInstance, ZFConnectorKind, ZFConnectorRecord};
use zenoh_flow::kvmap::StrMap;
use zenoh_flow::model::{
    LinkDescriptor, LinkFrom, LinkTo, OperatorRecord, PeriodDescriptor, PortDescriptor,
    SinkRecord, SourceRecord,
};
use zenoh_flow::types::{
    DataFlowDescription, ZFContext, ZFOperatorConnection, ZFOperatorDescription, ZFOperatorKind,
};

fn new_hlc_for_tests() -> std::sync::Arc<uhlc::HLC> {
    std::sync::Arc::new(uhlc::HLC::default())
}

fn s(x: &str) -> String {
    x.to_string()
}

fn port(id: &str, ty: &str) -> PortDescriptor {
    PortDescriptor { port_id: s(id), port_type: s(ty) }
}

fn source_record(id: &str) -> SourceRecord {
    SourceRecord {
        id: s(id),
        output: port("OUT", "int"),
        period: None,
        uri: None,
        configuration: None,
        runtime: s("rt"),
    }
}

fn sink_record(id: &str) -> SinkRecord {
    SinkRecord { id: s(id), input: port("IN", "int"), uri: None, configuration: None, runtime: s("rt") }
}

fn operator_record(id: &str) -> OperatorRecord {
    OperatorRecord {
        id: s(id),
        inputs: vec![port("IN", "int")],
        outputs: vec![port("OUT", "int")],
        uri: None,
        configuration: None,
        runtime: s("rt"),
    }
}

fn link(fnode: &str, fport: &str, tnode: &str, tport: &str) -> LinkDescriptor {
    LinkDescriptor {
        from: LinkFrom { node: s(fnode), output: s(fport) },
        to: LinkTo { node: s(tnode), input: s(tport) },
    }
}

fn pipeline() -> Dataflow {
    Dataflow {
        flow_id: s("flow"),
        uuid: 7,
        runtime_id: s("rt"),
        sources: vec![source_record("s")],
        operators: vec![operator_record("o")],
        sinks: vec![sink_record("k")],
        connectors: vec![ZFConnectorRecord {
            id: s("c"),
            kind: ZFConnectorKind::Sender,
            resource: s("zflow/flow/7/l3"),
        }],
        links: vec![
            link("s", "OUT", "o", "IN"),
            link("o", "OUT", "k", "IN"),
            link("o", "OUT", "c", "IN"),
        ],
    }
}

#[test]
fn instantiate_builds_one_runner_per_node() {
    let inst = DataflowInstance::try_instantiate(pipeline(), new_hlc_for_tests()).unwrap();
    assert_eq!(inst.get_uuid(), 7);
    assert_eq!(inst.get_flow(), "flow");
    assert_eq!(inst.get_instance_context().runtime_id, "rt");

    let mut nodes = inst.get_nodes();
    nodes.sort();
    assert_eq!(nodes, vec![s("c"), s("k"), s("o"), s("s")]);
    assert_eq!(inst.get_sources(), vec![s("s")]);
    assert_eq!(inst.get_operators(), vec![s("o")]);
    assert_eq!(inst.get_sinks(), vec![s("k")]);
    assert_eq!(inst.get_connectors(), vec![s("c")]);
}

#[test]
fn instantiate_gives_each_runner_the_node_kind_and_period() {
    let mut flow = pipeline();
    flow.sources[0].period = Some(PeriodDescriptor { length: 100 });
    let mut inst = DataflowInstance::try_instantiate(flow, new_hlc_for_tests()).unwrap();
    let src = inst.runners.remove(&s("s")).unwrap();
    assert_eq!(src.get_kind(), RunnerKind::Source);
    assert_eq!(src.period, Some(100));
    assert!(!src.is_running());
    let op = inst.runners.remove(&s("o")).unwrap();
    assert_eq!(op.get_kind(), RunnerKind::Operator);
    assert_eq!(op.period, None);
    let sink = inst.runners.remove(&s("k")).unwrap();
    assert_eq!(sink.get_kind(), RunnerKind::Sink);
    let conn = inst.runners.remove(&s("c")).unwrap();
    assert_eq!(conn.get_kind(), RunnerKind::Connector);
    assert!(inst.runners.remove(&s("ghost_node")).is_none());
}

#[test]
fn instantiate_fails_on_a_node_without_links() {
    let mut flow = pipeline();
    flow.sources.push(source_record("lonely"));
    match DataflowInstance::try_instantiate(flow, new_hlc_for_tests()) {
        Err(e) => {
            assert_eq!(e.kind, ErrorKind::IOError);
            assert_eq!(e.message_string(), "Missing links for < lonely >");
        },
        Ok(_) => panic!("a node without links must abort instantiation"),
    }
}

#[test]
fn node_control_start_stop_and_unknown() {
    let mut inst = DataflowInstance::try_instantiate(pipeline(), new_hlc_for_tests()).unwrap();
    assert_eq!(inst.is_node_running(&s("s")).unwrap(), false);
    inst.start_node(&s("s")).unwrap();
    assert_eq!(inst.is_node_running(&s("s")).unwrap(), true);
    assert_eq!(inst.is_node_running(&s("o")).unwrap(), false);
    inst.stop_node(&s("s")).unwrap();
    assert_eq!(inst.is_node_running(&s("s")).unwrap(), false);

    assert_eq!(inst.is_node_running(&s("ghost")).unwrap_err().kind, ErrorKind::NodeNotFound);
    assert_eq!(inst.start_node(&s("ghost")).unwrap_err().kind, ErrorKind::NodeNotFound);
    assert_eq!(inst.stop_node(&s("ghost")).unwrap_err().kind, ErrorKind::NodeNotFound);
}

#[test]
fn fleet_operations_are_reserved() {
    let mut inst = DataflowInstance::try_instantiate(pipeline(), new_hlc_for_tests()).unwrap();
    assert_eq!(inst.start_sources().unwrap_err().kind, ErrorKind::Unimplemented);
    assert_eq!(inst.start_nodes().unwrap_err().kind, ErrorKind::Unimplemented);
    assert_eq!(inst.stop_sources().unwrap_err().kind, ErrorKind::Unimplemented);
    assert_eq!(inst.stop_nodes().unwrap_err().kind, ErrorKind::Unimplemented);
}

#[test]
fn record_port_type_lookups() {
    let src = source_record("s");
    assert_eq!(src.get_output_type(&s("OUT")).unwrap(), "int");
    assert!(src.get_output_type(&s("IN")).is_none());

    let snk = sink_record("k");
    assert_eq!(snk.get_input_type(&s("IN")).unwrap(), "int");
    assert!(snk.get_input_type(&s("OUT")).is_none());

    let op = operator_record("o");
    assert_eq!(op.get_input_type(&s("IN")).unwrap(), "int");
    assert!(op.get_input_type(&s("OUT")).is_none());
    assert_eq!(op.get_output_type(&s("OUT")).unwrap(), "int");
    assert!(op.get_output_type(&s("IN")).is_none());
}

#[test]
fn strmap_insert_get_remove() {
    let mut m: StrMap<i64> = StrMap::new();
    assert_eq!(m.len(), 0);
    m.insert(s("a"), 1);
    m.insert(s("b"), 2);
    m.insert(s("a"), 10);
    assert_eq!(m.len(), 2);
    assert!(m.contains_key(&s("a")));
    assert_eq!(*m.get(&s("a")).unwrap(), 10);
    assert_eq!(*m.get(&s("b")).unwrap(), 2);
    assert!(m.get(&s("c")).is_none());
    assert_eq!(m.remove(&s("a")), Some(10));
    assert_eq!(m.remove(&s("a")), None);
    assert!(!m.contains_key(&s("a")));
}

#[test]
fn flow_description_lookup() {
    let flow = DataFlowDescription {
        operators: vec![
            ZFOperatorDescription {
                id: s("cam"),
                name: s("camera"),
                inputs: 0,
                outputs: 1,
                lib: s("libcam.so"),
                kind: ZFOperatorKind::Source,
            },
            ZFOperatorDescription {
                id: s("show"),
                name: s("window"),
                inputs: 1,
                outputs: 0,
                lib: s("libshow.so"),
                kind: ZFOperatorKind::Sink,
            },
        ],
        connections: vec![ZFOperatorConnection { from: s("cam"), to: s("show") }],
    };
    assert_eq!(flow.find_operator(&s("show")), Some(1));
    assert_eq!(flow.find_operator(&s("nope")), None);
    assert_eq!(flow.connections[0].from, "cam");
}

#[test]
fn context_holds_state_and_mode() {
    let ctx = ZFContext::new(vec![1, 2, 3], 0);
    assert_eq!(ctx.state, vec![1, 2, 3]);
    assert_eq!(ctx.mode, 0);
}

#[test]
fn notready_token_starts_at_zero() {
    let t = zenoh_flow::tokens::NotReadyToken::new();
    assert_eq!(t.ts, 0);
}
