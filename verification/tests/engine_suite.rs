use zenoh_flow::channel::{
    create_links, new_channel, send_message, try_recv_message, Input, Message, Output, Payload,
    Timestamp, TryRecv,
};
use zenoh_flow::clock::{snap_timestamp, SourceClock};
use zenoh_flow::errors::ErrorKind;
use zenoh_flow::kvmap::StrMap;
use zenoh_flow::model::{
    LinkDescriptor, LinkFrom, LinkTo, PeriodDescriptor, PortDescriptor, SourceRecord,
};
use zenoh_flow::runners::{
    default_input_rule, OperatorRunner, SourceRunner, StepOutcome, ZFSinkRunner,
};
use zenoh_flow::tokens::{Token, TokenAction};

fn s(x: &str) -> String {
    x.to_string()
}

fn link(fnode: &str, fport: &str, tnode: &str, tport: &str) -> LinkDescriptor {
    LinkDescriptor {
        from: LinkFrom { node: s(fnode), output: s(fport) },
        to: LinkTo { node: s(tnode), input: s(tport) },
    }
}


fn new_hlc_for_tests() -> std::sync::Arc<uhlc::HLC> {
    std::sync::Arc::new(uhlc::HLC::default())
}

fn recv_one(rx: &flume::Receiver<Message>) -> Message {
    rx.recv().expect("a message must be waiting")
}

fn int_message(time: u64, value: i64) -> Message {
    Message { timestamp: Timestamp { time, id: 0 }, payload: Payload::Int(value) }
}

#[test]
fn snap_is_floor_multiple() {
    assert_eq!(snap_timestamp(250, 100), 200);
    assert_eq!(snap_timestamp(99, 100), 0);
    assert_eq!(snap_timestamp(100, 100), 100);
    assert_eq!(snap_timestamp(7, 1), 7);
}

#[test]
fn periodic_source_emits_once_per_snap() {
    // Period 100; the clock reads 250, so the emission is stamped 200; a
    // second reading of 260 snaps to 200 again and is suppressed; 310 snaps
    // to a new value and goes out.
    let mut clock = SourceClock::new(Some(100));
    assert_eq!(clock.next_timestamp(250), Some(200));
    assert_eq!(clock.next_timestamp(260), None);
    assert_eq!(clock.next_timestamp(310), Some(300));
}

#[test]
fn aperiodic_source_requires_strictly_increasing_stamps() {
    let mut clock = SourceClock::new(None);
    assert_eq!(clock.next_timestamp(5), Some(5));
    assert_eq!(clock.next_timestamp(5), None);
    assert_eq!(clock.next_timestamp(4), None);
    assert_eq!(clock.next_timestamp(6), Some(6));
}

#[test]
fn source_runner_timestamps_are_strictly_monotonic() {
    let hlc = new_hlc_for_tests();
    let (tx, rx) = new_channel();
    let record = SourceRecord {
        id: s("src"),
        output: PortDescriptor { port_id: s("OUT"), port_type: s("int") },
        period: None,
        uri: None,
        configuration: None,
        runtime: s("rt"),
    };
    let mut outputs: StrMap<Output> = StrMap::new();
    let mut out = Output::new(s("OUT"), hlc.clone());
    out.add(tx);
    outputs.insert(s("OUT"), out);
    let mut runner = SourceRunner::try_new(hlc, 1, record, outputs).unwrap();

    let t1 = runner.iteration(Payload::Int(1)).unwrap().unwrap();
    let t2 = runner.iteration(Payload::Int(2)).unwrap().unwrap();
    assert!(t1.time < t2.time);
    let m1 = recv_one(&rx);
    let m2 = recv_one(&rx);
    assert_eq!(m1.timestamp.time, t1.time);
    assert_eq!(m2.timestamp.time, t2.time);
}

#[test]
fn source_runner_missing_port_is_missing_output() {
    let hlc = new_hlc_for_tests();
    let record = SourceRecord {
        id: s("src"),
        output: PortDescriptor { port_id: s("OUT"), port_type: s("int") },
        period: Some(PeriodDescriptor { length: 10 }),
        uri: None,
        configuration: None,
        runtime: s("rt"),
    };
    let outputs: StrMap<Output> = StrMap::new();
    match SourceRunner::try_new(hlc, 1, record, outputs) {
        Err(e) => {
            assert_eq!(e.kind, ErrorKind::MissingOutput);
            assert_eq!(e.message_string(), "Missing output < OUT > for the source < src >");
        },
        Ok(_) => panic!("a source whose port has no links must be refused"),
    }
}

#[test]
fn send_fails_cleanly_once_all_receivers_are_gone() {
    let (tx, rx) = new_channel();
    drop(rx);
    let msg = int_message(3, 42);
    match send_message(&tx, msg) {
        Err(back) => match back.payload {
            Payload::Int(v) => {
                assert_eq!(v, 42);
                assert_eq!(back.timestamp.time, 3);
            },
            _ => panic!("the failed send must hand the message back"),
        },
        Ok(()) => panic!("sending on a channel with no receivers must fail"),
    }
}

#[test]
fn try_recv_reports_empty_and_disconnected() {
    let (tx, rx) = new_channel();
    assert!(matches!(try_recv_message(&rx), TryRecv::Empty));
    send_message(&tx, int_message(0, 7)).unwrap();
    match try_recv_message(&rx) {
        TryRecv::Msg(m) => assert!(matches!(m.payload, Payload::Int(7))),
        _ => panic!("a queued message must come out"),
    }
    drop(tx);
    assert!(matches!(try_recv_message(&rx), TryRecv::Disconnected));
}

#[test]
fn default_input_rule_fires_iff_all_ready() {
    let all_ready: Vec<Token<i64>> = vec![Token::new_ready(1, 5), Token::new_ready(2, 6)];
    assert!(default_input_rule(&all_ready));
    let one_missing: Vec<Token<i64>> = vec![Token::new_ready(1, 5), Token::new_not_ready(0)];
    assert!(!default_input_rule(&one_missing));
    let none: Vec<Token<i64>> = Vec::new();
    assert!(default_input_rule(&none));
}

#[test]
fn token_actions_and_accessors() {
    let mut t: Token<i64> = Token::new_ready(9, 41);
    assert!(t.is_ready());
    assert!(!t.is_not_ready());
    assert_eq!(t.action(), TokenAction::Consume);
    t.keep().unwrap();
    assert_eq!(t.action(), TokenAction::Keep);
    t.keep_run().unwrap();
    assert_eq!(t.action(), TokenAction::KeepRun);
    t.drop().unwrap();
    assert_eq!(t.action(), TokenAction::Drop);
    t.consume().unwrap();
    assert_eq!(*t.data().unwrap(), 41);
    let (data, action) = t.split();
    assert_eq!(data, Some(41));
    assert_eq!(action, TokenAction::Consume);

    let mut nr: Token<i64> = Token::new_not_ready(4);
    assert!(nr.is_not_ready());
    assert_eq!(nr.action(), TokenAction::Wait);
    assert_eq!(nr.consume().unwrap_err().kind, ErrorKind::GenericError);
    assert!(nr.data().is_err());
    let (data, action) = nr.split();
    assert!(data.is_none());
    assert_eq!(action, TokenAction::Wait);
}

#[test]
fn passthrough_source_to_sink() {
    // One source port OUT linked to one sink port IN; the source emits
    // [1, 2, 3] at time 0 and the sink's storage holds exactly that.
    let hlc = new_hlc_for_tests();
    let nodes = vec![s("src"), s("snk")];
    let links = vec![link("src", "OUT", "snk", "IN")];
    let mut io = create_links(&nodes, &links, &hlc).unwrap();

    let (_src_in, src_out) = io.remove(&s("src")).unwrap();
    let (mut snk_in, _snk_out) = io.remove(&s("snk")).unwrap();

    let out = src_out.get(&s("OUT")).unwrap();
    assert_eq!(out.senders.len(), 1);
    send_message(
        &out.senders[0],
        Message { timestamp: Timestamp { time: 0, id: 0 }, payload: Payload::Bytes(vec![1, 2, 3]) },
    )
    .unwrap();

    let mut sink = ZFSinkRunner::new();
    sink.add_input(snk_in.remove(&s("IN")).unwrap());

    let mut storage: Vec<(u128, Vec<u8>)> = Vec::new();
    sink.engine.fill_tokens();
    assert!(sink.engine.ready());
    let ts = sink.engine.latest_input_time();
    for (port, payload) in sink.engine.collect_inputs() {
        assert_eq!(port, "IN");
        match payload {
            Payload::Bytes(v) => storage.push((ts, v)),
            _ => panic!("expected bytes"),
        }
    }
    sink.engine.apply_actions();
    assert_eq!(storage, vec![(0, vec![1, 2, 3])]);
    // The consumed token is cleared: the rule does not fire again.
    assert!(!sink.engine.ready());
}

#[test]
fn two_input_sum_operator() {
    // Inputs A and B under the default rule; the operator adds them and
    // emits the sum on port S, stamped no earlier than either input.
    let hlc = new_hlc_for_tests();
    let (tx_a, rx_a) = new_channel();
    let (tx_b, rx_b) = new_channel();
    let (tx_s, rx_s) = new_channel();

    let mut in_a = Input::new(s("A"));
    in_a.add(rx_a);
    let mut in_b = Input::new(s("B"));
    in_b.add(rx_b);
    let mut outputs: StrMap<Output> = StrMap::new();
    let mut out_s = Output::new(s("S"), hlc);
    out_s.add(tx_s);
    outputs.insert(s("S"), out_s);

    let mut op = OperatorRunner::new(s("sum"), 0, vec![in_a, in_b], outputs);

    send_message(&tx_a, int_message(5, 2)).unwrap();
    // The rule must not fire while B is missing.
    op.engine.fill_tokens();
    assert!(!op.engine.ready());
    send_message(&tx_b, int_message(7, 3)).unwrap();
    op.engine.fill_tokens();
    assert!(op.engine.ready());

    let ts = op.engine.latest_input_time();
    assert_eq!(ts, 7);
    let mut sum: i64 = 0;
    for (_port, payload) in op.engine.collect_inputs() {
        match payload {
            Payload::Int(v) => sum += v,
            _ => panic!("expected integers"),
        }
    }
    op.engine.apply_actions();
    op.emit(&s("S"), Payload::Int(sum), ts as u64).unwrap();

    let m = recv_one(&rx_s);
    match m.payload {
        Payload::Int(v) => assert_eq!(v, 5),
        _ => panic!("expected an integer"),
    }
    assert!(m.timestamp.time >= 7);
}

#[test]
fn operator_emit_unknown_port_is_missing_output() {
    let outputs: StrMap<Output> = StrMap::new();
    let op = OperatorRunner::new(s("op"), 0, Vec::new(), outputs);
    let e = op.emit(&s("nope"), Payload::Int(0), 1).unwrap_err();
    assert_eq!(e.kind, ErrorKind::MissingOutput);
}

#[test]
fn fan_out_reaches_every_sink_with_one_timestamp() {
    let hlc = new_hlc_for_tests();
    let nodes = vec![s("src"), s("k1"), s("k2")];
    let links = vec![link("src", "OUT", "k1", "IN"), link("src", "OUT", "k2", "IN")];
    let mut io = create_links(&nodes, &links, &hlc).unwrap();

    let (_ins, outs) = io.remove(&s("src")).unwrap();
    let record = SourceRecord {
        id: s("src"),
        output: PortDescriptor { port_id: s("OUT"), port_type: s("int") },
        period: None,
        uri: None,
        configuration: None,
        runtime: s("rt"),
    };
    let mut runner = SourceRunner::try_new(hlc, 0, record, outs).unwrap();
    assert_eq!(runner.links.len(), 2);
    let ts = runner.iteration(Payload::Int(99)).unwrap().unwrap();

    for sink_id in ["k1", "k2"] {
        let (mut ins, _outs) = io.remove(&s(sink_id)).unwrap();
        let input = ins.remove(&s("IN")).unwrap();
        let m = recv_one(&input.receivers[0]);
        assert_eq!(m.timestamp.time, ts.time);
        match m.payload {
            Payload::Int(v) => assert_eq!(v, 99),
            _ => panic!("expected an integer"),
        }
    }
}

#[test]
fn keep_and_keep_run_retain_tokens() {
    let (tx, rx) = new_channel();
    let mut input = Input::new(s("IN"));
    input.add(rx);
    let mut sink = ZFSinkRunner::new();
    sink.add_input(input);
    send_message(&tx, int_message(1, 10)).unwrap();
    sink.engine.fill_tokens();
    assert!(sink.engine.ready());

    // KeepRun: the value is passed and the token survives the run.
    match &mut sink.engine.ports[0].token {
        Token::Ready(rt) => rt.action = TokenAction::KeepRun,
        _ => panic!("token must be ready"),
    }
    let passed = sink.engine.collect_inputs();
    assert_eq!(passed.len(), 1);
    sink.engine.apply_actions();
    assert!(sink.engine.ready());

    // Keep: the value is not passed this turn and the token survives.
    match &mut sink.engine.ports[0].token {
        Token::Ready(rt) => rt.action = TokenAction::Keep,
        _ => panic!("token must be ready"),
    }
    let passed = sink.engine.collect_inputs();
    assert!(passed.is_empty());
    sink.engine.apply_actions();
    assert!(sink.engine.ready());

    // Drop: the value is discarded and the token cleared.
    match &mut sink.engine.ports[0].token {
        Token::Ready(rt) => rt.action = TokenAction::Drop,
        _ => panic!("token must be ready"),
    }
    let passed = sink.engine.collect_inputs();
    assert!(passed.is_empty());
    sink.engine.apply_actions();
    assert!(!sink.engine.ready());
}

#[test]
fn sink_step_fires_only_when_every_token_is_ready() {
    let (tx, rx) = new_channel();
    let mut input = Input::new(s("IN"));
    input.add(rx);
    let mut sink = ZFSinkRunner::new();
    sink.add_input(input);

    match sink.run_step() {
        StepOutcome::NotReady => (),
        _ => panic!("an empty channel cannot fire the rule"),
    }
    send_message(&tx, int_message(2, 1)).unwrap();
    match sink.run_step() {
        StepOutcome::Fired(data) => {
            assert_eq!(data.len(), 1);
            assert_eq!(data[0].0, "IN");
        },
        _ => panic!("a ready token on every port must fire the rule"),
    }
}
