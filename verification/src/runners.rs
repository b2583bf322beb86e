//! Per-node execution: the token-driven step machines behind sources,
//! operators and sinks.
//!
//! A runner owns its node's channel tables and, for operators and sinks, one
//! token per input port.  The surrounding task loop (plug-in calls, awaiting
//! and scheduling) lives outside; every decision — when the input rule
//! fires, which values a run receives, what each action does to its token,
//! which timestamp an emission carries — is taken here.

use vstd::prelude::*;
use std::sync::Arc;
use crate::channel::{
    hlc_new_time, send_message, try_recv_message, Input, Message, Output, Outputs, Payload,
    Timestamp, TryRecv,
};
use crate::clock::SourceClock;
use crate::errors::{ErrorKind, ZFError};
use crate::model::{NodeId, PortDescriptor, PortId, SourceRecord};
use crate::tokens::{Token, TokenAction, ZFTimestamp};

verus! {

/// What kind of node a runner executes.
#[derive(Clone, Copy, Debug, PartialEq, Eq, Structural)]
pub enum RunnerKind {
    Source,
    Operator,
    Sink,
    Connector,
}

/// The spec-level value of a payload.
pub enum PayloadV {
    Bytes(Seq<u8>),
    Int(i64),
}

impl Payload {
    /// The value this payload carries.
    pub open spec fn dv(self) -> PayloadV {
        match self {
            Payload::Bytes(v) => PayloadV::Bytes(v@),
            Payload::Int(i) => PayloadV::Int(i),
        }
    }

    pub fn duplicate(&self) -> (r: Payload)
        ensures
            r.dv() == self.dv(),
    {
        match self {
            Payload::Bytes(v) => Payload::Bytes(vstd::slice::slice_to_vec(v.as_slice())),
            Payload::Int(i) => Payload::Int(*i),
        }
    }
}

impl Message {
    /// The timestamp and value this message carries.
    pub open spec fn dv(self) -> (Timestamp, PayloadV) {
        (self.timestamp, self.payload.dv())
    }

    pub fn duplicate(&self) -> (r: Message)
        ensures
            r.dv() == self.dv(),
    {
        Message { timestamp: self.timestamp, payload: self.payload.duplicate() }
    }
}

/// The default input rule: a node may run exactly when every input token is
/// ready.
pub fn default_input_rule<T>(tokens: &Vec<Token<T>>) -> (r: bool)
    ensures
        r <==> forall|i: int| 0 <= i < tokens@.len() ==> (#[trigger] tokens@[i]) is Ready,
{
    let n = tokens.len();
    for i in 0..n
        invariant
            n == tokens@.len(),
            forall|j: int| 0 <= j < i ==> (#[trigger] tokens@[j]) is Ready,
    {
        if tokens[i].is_not_ready() {
            return false;
        }
    }
    true
}

/// One input port of an operator or sink: its fan-in of channels and the
/// token the input rule evaluates.
pub struct PortState {
    pub input: Input,
    pub token: Token<Payload>,
}

/// The token after the post-run action semantics are applied: a consumed or
/// dropped value clears the token, a kept one stays.
pub open spec fn spec_after_action(t: Token<Payload>) -> Token<Payload> {
    match t {
        Token::Ready(rt) => match rt.action {
            TokenAction::Consume | TokenAction::Drop => Token::new_spec_not_ready(rt.ts),
            _ => Token::Ready(rt),
        },
        Token::NotReady(nr) => Token::NotReady(nr),
    }
}

impl<T> Token<T> {
    /// The not-ready token carrying `ts`.
    pub open spec fn new_spec_not_ready(ts: ZFTimestamp) -> Token<T> {
        Token::NotReady(crate::tokens::NotReadyToken { ts })
    }
}

/// The (port, value) pairs the node's `run` receives: every ready token
/// whose action passes its value on, in port order.
pub open spec fn collected_inputs(ports: Seq<PortState>) -> Seq<(Seq<char>, PayloadV)>
    decreases ports.len(),
{
    if ports.len() == 0 {
        Seq::empty()
    } else {
        let rest = collected_inputs(ports.drop_last());
        let p = ports.last();
        match p.token {
            Token::Ready(rt) => if rt.action == TokenAction::Consume || rt.action
                == TokenAction::KeepRun {
                rest.push((p.input.port_id@, rt.data.dv()))
            } else {
                rest
            },
            Token::NotReady(_) => rest,
        }
    }
}

/// How many ports turned from not ready to ready between two states `o` and
/// `f` of the same port list.
pub open spec fn count_turned_ready(o: Seq<PortState>, f: Seq<PortState>) -> int
    decreases o.len(),
{
    if o.len() == 0 || f.len() != o.len() {
        0
    } else {
        count_turned_ready(o.drop_last(), f.drop_last()) + (
        if !(o.last().token is Ready) && f.last().token is Ready {
            1int
        } else {
            0int
        })
    }
}

/// The shared token engine of operators and sinks.
pub struct TokenPorts {
    pub ports: Vec<PortState>,
}

impl TokenPorts {
    /// One port per input, each starting not ready.
    pub fn new(inputs: Vec<Input>) -> (r: TokenPorts)
        ensures
            r.ports@.len() == inputs@.len(),
            forall|i: int| 0 <= i < r.ports@.len() ==> !((#[trigger] r.ports@[i]).token is Ready),
    {
        let mut ports: Vec<PortState> = Vec::new();
        let mut rest = inputs;
        let n = rest.len();
        for _i in 0..n
            invariant
                rest@.len() + ports@.len() == n,
                rest@.len() + _i == n,
                forall|i: int| 0 <= i < ports@.len() ==> !((#[trigger] ports@[i]).token
                    is Ready),
        {
            let input = rest.remove(0);
            ports.push(PortState { input, token: Token::new_not_ready(0) });
        }
        TokenPorts { ports }
    }

    /// Polls every port that is not ready yet; the first waiting message of
    /// a port becomes its ready token, with the default action.  Returns
    /// exactly how many tokens turned from not ready to ready.
    pub fn fill_tokens(&mut self) -> (turned: usize)
        ensures
            final(self).ports@.len() == old(self).ports@.len(),
            forall|i: int| 0 <= i < old(self).ports@.len() ==> {
                let o = #[trigger] old(self).ports@[i];
                let f = final(self).ports@[i];
                &&& f.input == o.input
                &&& (o.token is Ready ==> f.token == o.token)
                &&& (!(o.token is Ready) ==> (f.token == o.token || (f.token matches
                    Token::Ready(rt) && rt.action == TokenAction::Consume)))
            },
            turned == count_turned_ready(old(self).ports@, final(self).ports@),
    {
        let mut turned: usize = 0;
        let n = self.ports.len();
        for i in 0..n
            invariant
                n == self.ports@.len(),
                n == old(self).ports@.len(),
                turned <= i,
                forall|t: int| i <= t < n ==> #[trigger] self.ports@[t] == old(self).ports@[t],
                forall|t: int| 0 <= t < i ==> (#[trigger] self.ports@[t]).input == old(
                    self,
                ).ports@[t].input,
                forall|t: int| 0 <= t < i ==> (old(self).ports@[t].token is Ready
                    ==> (#[trigger] self.ports@[t]).token == old(self).ports@[t].token),
                forall|t: int| 0 <= t < i ==> (!(old(self).ports@[t].token is Ready) ==> ((
                #[trigger] self.ports@[t]).token == old(self).ports@[t].token
                    || (self.ports@[t].token matches Token::Ready(rt) && rt.action
                    == TokenAction::Consume))),
                turned == count_turned_ready(
                    old(self).ports@.take(i as int),
                    self.ports@.take(i as int),
                ),
        {
            let ghost pre = self.ports@;
            if self.ports[i].token.is_not_ready() {
                let mut got: Option<Message> = None;
                let m = self.ports[i].input.receivers.len();
                for c in 0..m
                    invariant
                        m == self.ports@[i as int].input.receivers@.len(),
                        i < n == self.ports@.len(),
                        self.ports@ == pre,
                    {
                    if got.is_none() {
                        match try_recv_message(&self.ports[i].input.receivers[c]) {
                            TryRecv::Msg(msg) => {
                                got = Some(msg);
                            },
                            _ => (),
                        }
                    }
                }
                if let Some(msg) = got {
                    let ts: ZFTimestamp = msg.timestamp.time as ZFTimestamp;
                    self.ports[i].token = Token::new_ready(ts, msg.payload);
                    turned = turned + 1;
                }
            }
            proof {
                assert(old(self).ports@.take(i + 1).drop_last() =~= old(self).ports@.take(
                    i as int,
                ));
                assert(self.ports@.take(i + 1).drop_last() =~= self.ports@.take(i as int));
                assert(self.ports@.take(i + 1).last() == self.ports@[i as int]);
                assert(old(self).ports@.take(i + 1).last() == old(self).ports@[i as int]);
                assert(self.ports@.take(i as int) =~= pre.take(i as int));
            }
        }
        proof {
            assert(old(self).ports@.take(n as int) =~= old(self).ports@);
            assert(self.ports@.take(n as int) =~= self.ports@);
        }
        turned
    }

    /// Whether the default input rule fires: every token ready.
    pub fn ready(&self) -> (r: bool)
        ensures
            r <==> forall|i: int| 0 <= i < self.ports@.len() ==> (#[trigger] self.ports@[i]).token
                is Ready,
    {
        let n = self.ports.len();
        for i in 0..n
            invariant
                n == self.ports@.len(),
                forall|j: int| 0 <= j < i ==> (#[trigger] self.ports@[j]).token is Ready,
        {
            if self.ports[i].token.is_not_ready() {
                return false;
            }
        }
        true
    }

    /// The values this run receives: every ready token whose action is
    /// `Consume` or `KeepRun`, in port order.
    pub fn collect_inputs(&self) -> (r: Vec<(PortId, Payload)>)
        ensures
            r@.map_values(|e: (PortId, Payload)| (e.0@, e.1.dv())) == collected_inputs(
                self.ports@,
            ),
    {
        let mut r: Vec<(PortId, Payload)> = Vec::new();
        let n = self.ports.len();
        for i in 0..n
            invariant
                n == self.ports@.len(),
                r@.map_values(|e: (PortId, Payload)| (e.0@, e.1.dv())) == collected_inputs(
                    self.ports@.take(i as int),
                ),
        {
            proof {
                assert(self.ports@.take(i + 1).drop_last() =~= self.ports@.take(i as int));
                assert(self.ports@.take(i + 1).last() == self.ports@[i as int]);
            }
            let ghost before = r@;
            match &self.ports[i].token {
                Token::Ready(rt) => {
                    let pass = match rt.action {
                        TokenAction::Consume => true,
                        TokenAction::KeepRun => true,
                        _ => false,
                    };
                    if pass {
                        r.push((self.ports[i].input.port_id.clone(), rt.data.duplicate()));
                    }
                },
                Token::NotReady(_) => (),
            }
            proof {
                assert(r@.map_values(|e: (PortId, Payload)| (e.0@, e.1.dv()))
                    =~= collected_inputs(self.ports@.take(i + 1)));
            }
        }
        proof {
            assert(self.ports@.take(n as int) =~= self.ports@);
        }
        r
    }

    /// Applies the post-run action of every token: consumed and dropped
    /// values clear their token, kept ones stay.
    pub fn apply_actions(&mut self)
        ensures
            final(self).ports@.len() == old(self).ports@.len(),
            forall|i: int| 0 <= i < old(self).ports@.len() ==> {
                let o = #[trigger] old(self).ports@[i];
                let f = final(self).ports@[i];
                f.input == o.input && f.token == spec_after_action(o.token)
            },
    {
        let n = self.ports.len();
        for i in 0..n
            invariant
                n == self.ports@.len(),
                forall|t: int| i <= t < n ==> #[trigger] self.ports@[t] == old(self).ports@[t],
                forall|t: int| 0 <= t < i ==> {
                    let o = #[trigger] old(self).ports@[t];
                    let f = self.ports@[t];
                    f.input == o.input && f.token == spec_after_action(o.token)
                },
        {
            let clear = match &self.ports[i].token {
                Token::Ready(rt) => match rt.action {
                    TokenAction::Consume => true,
                    TokenAction::Drop => true,
                    _ => false,
                },
                Token::NotReady(_) => false,
            };
            if clear {
                let ts = match &self.ports[i].token {
                    Token::Ready(rt) => rt.ts,
                    Token::NotReady(nr) => nr.ts,
                };
                self.ports[i].token = Token::new_not_ready(ts);
            }
        }
    }

    /// The greatest timestamp among the ready tokens, zero when none is.
    pub fn latest_input_time(&self) -> (r: ZFTimestamp)
        ensures
            forall|i: int| 0 <= i < self.ports@.len() ==> ((#[trigger] self.ports@[i]).token
                matches Token::Ready(rt) ==> rt.ts <= r),
            r == 0 || exists|i: int| 0 <= i < self.ports@.len()
                && ((#[trigger] self.ports@[i]).token matches Token::Ready(rt) && rt.ts == r),
    {
        let mut r: ZFTimestamp = 0;
        let n = self.ports.len();
        for i in 0..n
            invariant
                n == self.ports@.len(),
                forall|j: int| 0 <= j < i ==> ((#[trigger] self.ports@[j]).token matches
                    Token::Ready(rt) ==> rt.ts <= r),
                r == 0 || exists|j: int| 0 <= j < n && ((#[trigger] self.ports@[j]).token
                    matches Token::Ready(rt) && rt.ts == r),
        {
            match &self.ports[i].token {
                Token::Ready(rt) => {
                    if rt.ts > r {
                        r = rt.ts;
                    }
                },
                Token::NotReady(_) => (),
            }
        }
        r
    }
}

/// Sends `msg` on every sender of `out`: the default output rule forwards a
/// produced value unchanged to every consumer of its port.
pub fn send_to_all(out: &Output, msg: &Message) -> (r: Result<(), ZFError>)
    ensures
        r matches Err(e) ==> e.kind == ErrorKind::SendError && out.senders@.len() > 0,
        out.senders@.len() == 0 ==> r is Ok,
{
    let n = out.senders.len();
    for i in 0..n
        invariant
            n == out.senders@.len(),
    {
        match send_message(&out.senders[i], msg.duplicate()) {
            Ok(()) => (),
            Err(_) => {
                return Err(ZFError::new(
                    ErrorKind::SendError,
                    String::from_str("every receiver of the link is gone"),
                ));
            },
        }
    }
    Ok(())
}

/// What one engine step decided: either the input rule fired and these are
/// the values the run receives, or it did not and the loop must await more
/// input.
pub enum StepOutcome {
    Fired(Vec<(PortId, Payload)>),
    NotReady,
}

/// How the port states the engine fired on relate to the port states it was
/// entered with: inputs are untouched, ready tokens are kept as they are,
/// and a token that was not ready either stayed so or turned ready with the
/// default action.
pub open spec fn polled_from(o: Seq<PortState>, p: Seq<PortState>) -> bool {
    &&& p.len() == o.len()
    &&& forall|i: int| 0 <= i < o.len() ==> {
        let ot = #[trigger] o[i];
        let pt = p[i];
        &&& pt.input == ot.input
        &&& (ot.token is Ready ==> pt.token == ot.token)
        &&& (!(ot.token is Ready) ==> (pt.token == ot.token || (pt.token matches Token::Ready(rt)
            && rt.action == TokenAction::Consume)))
    }
}

impl TokenPorts {
    /// The default input rule's decision on the tokens as they stand, with
    /// no polling: when every token is ready, hand out exactly the values
    /// the run receives and apply the post-run actions; otherwise change
    /// nothing.
    pub fn fire(&mut self) -> (r: StepOutcome)
        ensures
            (forall|i: int| 0 <= i < old(self).ports@.len() ==> (#[trigger] old(
                self,
            ).ports@[i]).token is Ready) ==> (r matches StepOutcome::Fired(data) && {
                &&& data@.map_values(|e: (PortId, Payload)| (e.0@, e.1.dv()))
                    == collected_inputs(old(self).ports@)
                &&& final(self).ports@.len() == old(self).ports@.len()
                &&& forall|i: int| 0 <= i < old(self).ports@.len() ==> {
                    let o = #[trigger] old(self).ports@[i];
                    let f = final(self).ports@[i];
                    f.input == o.input && f.token == spec_after_action(o.token)
                }
            }),
            !(forall|i: int| 0 <= i < old(self).ports@.len() ==> (#[trigger] old(
                self,
            ).ports@[i]).token is Ready) ==> (r is NotReady && *final(self) == *old(self)),
    {
        if self.ready() {
            let data = self.collect_inputs();
            self.apply_actions();
            StepOutcome::Fired(data)
        } else {
            StepOutcome::NotReady
        }
    }

    /// One scheduling step of the default input rule: poll the channels,
    /// and when every token then stands ready, hand out the values the run
    /// receives and apply the post-run actions; otherwise change nothing
    /// beyond the tokens that turned ready.  The decision, the data handed
    /// out and the final tokens are all tied to the one post-poll state.
    pub fn step(&mut self) -> (r: StepOutcome)
        ensures
            exists|polled: Seq<PortState>|
                {
                    &&& #[trigger] polled_from(old(self).ports@, polled)
                    &&& match r {
                        StepOutcome::Fired(data) => {
                            &&& forall|i: int| 0 <= i < polled.len() ==> (
                            #[trigger] polled[i]).token is Ready
                            &&& data@.map_values(|e: (PortId, Payload)| (e.0@, e.1.dv()))
                                == collected_inputs(polled)
                            &&& final(self).ports@.len() == polled.len()
                            &&& forall|i: int| 0 <= i < polled.len() ==> {
                                let p = #[trigger] polled[i];
                                let f = final(self).ports@[i];
                                f.input == p.input && f.token == spec_after_action(p.token)
                            }
                        },
                        StepOutcome::NotReady => final(self).ports@ == polled && exists|i: int|
                            0 <= i < polled.len() && !((#[trigger] polled[i]).token is Ready),
                    }
                },
            final(self).ports@.len() == old(self).ports@.len(),
    {
        let _ = self.fill_tokens();
        let ghost polled = self.ports@;
        let r = self.fire();
        proof {
            assert(polled_from(old(self).ports@, polled));
            if !(forall|i: int| 0 <= i < polled.len() ==> (#[trigger] polled[i]).token
                is Ready) {
                let i = choose|i: int| 0 <= i < polled.len() && !((#[trigger] polled[i]).token
                    is Ready);
                assert(0 <= i < polled.len() && !(polled[i].token is Ready));
            }
        }
        r
    }
}

/// The per-operator step machine: the token engine of its inputs and the
/// fan-out tables of its outputs.
pub struct OperatorRunner {
    pub id: NodeId,
    pub engine: TokenPorts,
    pub outputs: Outputs,
    pub clock_id: u128,
    pub running: bool,
}

impl OperatorRunner {
    pub fn new(id: NodeId, clock_id: u128, inputs: Vec<Input>, outputs: Outputs) -> (r:
        OperatorRunner)
        requires
            outputs.wf(),
        ensures
            r.id@ == id@,
            r.engine.ports@.len() == inputs@.len(),
            r.outputs == outputs,
            !r.running,
    {
        OperatorRunner { id, engine: TokenPorts::new(inputs), outputs, clock_id, running: false }
    }

    /// Forwards one produced value to every consumer of the named output
    /// port — the default output rule — stamped with `time`.
    pub fn emit(&self, port: &PortId, payload: Payload, time: u64) -> (r: Result<(), ZFError>)
        requires
            self.outputs.wf(),
        ensures
            !self.outputs.as_map().contains_key(port@) ==> (r matches Err(e) && e.kind
                == ErrorKind::MissingOutput),
            r matches Err(e) && e.kind == ErrorKind::MissingOutput
                ==> !self.outputs.as_map().contains_key(port@),
            self.outputs.as_map().contains_key(port@)
                && self.outputs.as_map()[port@].senders@.len() == 0 ==> r is Ok,
            r matches Err(e) ==> e.kind == ErrorKind::MissingOutput || e.kind
                == ErrorKind::SendError,
    {
        match self.outputs.get(port) {
            Some(out) => {
                let msg = Message {
                    timestamp: Timestamp { time, id: self.clock_id },
                    payload,
                };
                send_to_all(out, &msg)
            },
            None => Err(ZFError::new(
                ErrorKind::MissingOutput,
                String::from_str("no links were created for the output port"),
            )),
        }
    }
}

/// The per-sink step machine: the token engine of its inputs; a sink has no
/// outputs.
pub struct ZFSinkRunner {
    pub engine: TokenPorts,
    pub running: bool,
}

impl ZFSinkRunner {
    pub fn new() -> (r: ZFSinkRunner)
        ensures
            r.engine.ports@.len() == 0,
            !r.running,
    {
        ZFSinkRunner { engine: TokenPorts { ports: Vec::new() }, running: false }
    }

    /// Adds one input port to the sink's fan-in; its token starts not
    /// ready.
    pub fn add_input(&mut self, input: Input)
        ensures
            final(self).engine.ports@.len() == old(self).engine.ports@.len() + 1,
            final(self).engine.ports@.drop_last() == old(self).engine.ports@,
            !(final(self).engine.ports@.last().token is Ready),
            final(self).running == old(self).running,
    {
        self.engine.ports.push(PortState { input, token: Token::new_not_ready(0) });
        proof {
            assert(self.engine.ports@.drop_last() =~= old(self).engine.ports@);
        }
    }

    /// One scheduling step of the sink loop: poll the channels, and when
    /// every token then stands ready, hand out the values the sink's `run`
    /// receives and apply the post-run actions; otherwise change nothing
    /// beyond the tokens that turned ready.  The decision, the data handed
    /// out and the final tokens are all tied to the one post-poll state.
    pub fn run_step(&mut self) -> (r: StepOutcome)
        ensures
            final(self).running == old(self).running,
            final(self).engine.ports@.len() == old(self).engine.ports@.len(),
            exists|polled: Seq<PortState>|
                {
                    &&& #[trigger] polled_from(old(self).engine.ports@, polled)
                    &&& match r {
                        StepOutcome::Fired(data) => {
                            &&& forall|i: int| 0 <= i < polled.len() ==> (
                            #[trigger] polled[i]).token is Ready
                            &&& data@.map_values(|e: (PortId, Payload)| (e.0@, e.1.dv()))
                                == collected_inputs(polled)
                            &&& final(self).engine.ports@.len() == polled.len()
                            &&& forall|i: int| 0 <= i < polled.len() ==> {
                                let p = #[trigger] polled[i];
                                let f = final(self).engine.ports@[i];
                                f.input == p.input && f.token == spec_after_action(p.token)
                            }
                        },
                        StepOutcome::NotReady => final(self).engine.ports@ == polled && exists|
                            i: int,
                        |
                            0 <= i < polled.len() && !((#[trigger] polled[i]).token is Ready),
                    }
                },
    {
        self.engine.step()
    }
}

/// The message a source whose output port has no channel table is refused
/// with: it names the port and the source.
pub open spec fn missing_output_message(src: Seq<char>, port: Seq<char>) -> Seq<char> {
    "Missing output < "@ + port + " > for the source < "@ + src + " >"@
}

/// The per-source step machine: it owns the source's fan-out and its
/// timestamping state.
pub struct SourceRunner {
    pub id: NodeId,
    pub output: PortDescriptor,
    pub clock: SourceClock,
    pub clock_id: u128,
    pub hlc: Arc<uhlc::HLC>,
    pub links: Vec<flume::Sender<Message>>,
    pub running: bool,
}

impl SourceRunner {
    pub open spec fn wf(self) -> bool {
        self.clock.wf()
    }

    /// Builds the runner for `source`, taking the fan-out of its single
    /// output port out of `outputs`; a source whose port has no channel
    /// table is refused.
    pub fn try_new(hlc: Arc<uhlc::HLC>, clock_id: u128, source: SourceRecord, outputs: Outputs)
        -> (r: Result<SourceRunner, ZFError>)
        requires
            outputs.wf(),
            source.period matches Some(p) ==> p.length > 0,
        ensures
            !outputs.as_map().contains_key(source.output.port_id@) ==> (r matches Err(e)
                && e.kind == ErrorKind::MissingOutput && e.message@ == missing_output_message(
                source.id@,
                source.output.port_id@,
            )),
            outputs.as_map().contains_key(source.output.port_id@) ==> (r matches Ok(runner) && {
                &&& runner.wf()
                &&& runner.id@ == source.id@
                &&& runner.output.dv() == source.output.dv()
                &&& runner.clock.last is None
                &&& runner.clock.period == (match source.period {
                    Some(p) => Some(p.length),
                    None => None,
                })
                &&& runner.clock_id == clock_id
                &&& runner.links@ == outputs.as_map()[source.output.port_id@].senders@
                &&& !runner.running
            }),
    {
        let mut outputs = outputs;
        match outputs.remove(&source.output.port_id) {
            Some(out) => {
                let period = match &source.period {
                    Some(p) => Some(p.length),
                    None => None,
                };
                Ok(SourceRunner {
                    id: source.id,
                    output: source.output,
                    clock: SourceClock::new(period),
                    clock_id,
                    hlc,
                    links: out.senders,
                    running: false,
                })
            },
            None => {
                let mut msg = crate::strutil::concat3(
                    "Missing output < ",
                    source.output.port_id.as_str(),
                    " > for the source < ",
                );
                msg.append(source.id.as_str());
                msg.append(" >");
                Err(ZFError::new(ErrorKind::MissingOutput, msg))
            },
        }
    }

    /// Adds one more consumer link to the source's fan-out; everything else
    /// stays.
    pub fn add_output(&mut self, output: flume::Sender<Message>)
        ensures
            final(self).links@ == old(self).links@.push(output),
            final(self).id == old(self).id,
            final(self).output == old(self).output,
            final(self).clock == old(self).clock,
            final(self).clock_id == old(self).clock_id,
            final(self).hlc == old(self).hlc,
            final(self).running == old(self).running,
            final(self).wf() == old(self).wf(),
    {
        self.links.push(output);
    }

    /// Draws a timestamp for the next emission: the hybrid logical clock's
    /// time, snapped to the period when one is set, suppressed when it would
    /// not exceed the last emitted timestamp.  What comes back is therefore
    /// strictly increasing over the runner's lifetime.
    pub fn next_emission_time(&mut self) -> (r: Option<u64>)
        requires
            old(self).wf(),
        ensures
            final(self).wf(),
            final(self).id@ == old(self).id@,
            final(self).links@ == old(self).links@,
            final(self).output == old(self).output,
            final(self).clock_id == old(self).clock_id,
            final(self).hlc == old(self).hlc,
            final(self).running == old(self).running,
            final(self).clock.period == old(self).clock.period,
            r matches Some(t) ==> {
                &&& (old(self).clock.last matches Some(l) ==> t > l)
                &&& (old(self).clock.period matches Some(p) ==> t % p == 0)
                &&& final(self).clock.last == Some(t)
            },
            r is None ==> final(self).clock == old(self).clock,
            old(self).clock.last is None ==> r is Some,
    {
        let raw = hlc_new_time(&self.hlc);
        proof {
            if let Some(p) = old(self).clock.period {
                crate::clock::lemma_snap_mod(raw, p);
            }
        }
        self.clock.next_timestamp(raw)
    }

    /// One iteration of the source loop, given what the plug-in's `run`
    /// produced: stamps the value and forwards it to every consumer of the
    /// output port.  An emission whose snapped timestamp is not new is
    /// suppressed: a periodic source emits at most once per distinct snapped
    /// timestamp.
    pub fn iteration(&mut self, produced: Payload) -> (r: Result<Option<Timestamp>, ZFError>)
        requires
            old(self).wf(),
        ensures
            final(self).wf(),
            final(self).id@ == old(self).id@,
            final(self).links@ == old(self).links@,
            final(self).output == old(self).output,
            final(self).clock_id == old(self).clock_id,
            final(self).clock.period == old(self).clock.period,
            r matches Ok(Some(ts)) ==> {
                &&& (old(self).clock.last matches Some(l) ==> ts.time > l)
                &&& (old(self).clock.period matches Some(p) ==> ts.time % p == 0)
                &&& ts.id == old(self).clock_id
                &&& final(self).clock.last == Some(ts.time)
            },
            r == Ok::<Option<Timestamp>, ZFError>(None) ==> final(self).clock == old(self).clock,
            r matches Err(e) ==> e.kind == ErrorKind::SendError && old(self).links@.len() > 0,
            old(self).links@.len() == 0 ==> r is Ok,
            old(self).clock.last is None ==> !(r == Ok::<Option<Timestamp>, ZFError>(None)),
    {
        match self.next_emission_time() {
            None => Ok(None),
            Some(t) => {
                let ts = Timestamp { time: t, id: self.clock_id };
                let msg = Message { timestamp: ts, payload: produced };
                let n = self.links.len();
                for i in 0..n
                    invariant
                        n == self.links@.len(),
                        self.wf(),
                        self.id@ == old(self).id@,
                        self.links@ == old(self).links@,
                        self.output == old(self).output,
                        self.clock_id == old(self).clock_id,
                        self.clock.last == Some(t),
                        self.clock.period == old(self).clock.period,
                        ts == (Timestamp { time: t, id: old(self).clock_id }),
                        old(self).clock.last matches Some(l) ==> t > l,
                        old(self).clock.period matches Some(p) ==> t % p == 0,
                {
                    match send_message(&self.links[i], msg.duplicate()) {
                        Ok(()) => (),
                        Err(_) => {
                            return Err(ZFError::new(
                                ErrorKind::SendError,
                                String::from_str("every receiver of the link is gone"),
                            ));
                        },
                    }
                }
                Ok(Some(ts))
            },
        }
    }
}

} // verus!
