//! Per-input tokens and their post-run actions.
//!
//! Each input port of a node holds one token: `Ready` when a value has
//! arrived and waits to be handed to the node's `run`, `NotReady` otherwise.
//! After a successful run the token's action decides what happens to the
//! value: consumed, kept, both, or dropped.

use vstd::prelude::*;
use crate::errors::{ErrorKind, ZFError};

verus! {

/// Timestamps carried by tokens.
pub type ZFTimestamp = u128;

/// What happens to a ready token's value around a run of the node.
#[derive(Clone, Copy, Debug, PartialEq, Eq, Structural)]
pub enum TokenAction {
    /// The value is passed to the run and cleared afterwards.
    Consume,
    /// The value is discarded without being passed.
    Drop,
    /// The value is passed to the run and retained for the next evaluation.
    KeepRun,
    /// The value is not passed this turn and retained.
    Keep,
    /// Only for a token that is not ready: await a new arrival.
    Wait,
}

/// The token of an input that has not received a value yet.
#[derive(Clone, Copy, Debug, PartialEq, Eq, Structural, Default)]
pub struct NotReadyToken {
    pub ts: ZFTimestamp,
}

impl NotReadyToken {
    /// Creates a `NotReadyToken` with its timestamp set to 0.
    pub fn new() -> (r: NotReadyToken)
        ensures
            r.ts == 0,
    {
        NotReadyToken { ts: 0 }
    }
}

/// The token of an input holding a value that arrived at `ts`.
#[derive(Clone, Debug)]
pub struct ReadyToken<T> {
    pub ts: ZFTimestamp,
    pub data: T,
    pub action: TokenAction,
}

/// The per-input cell the input rules evaluate.
#[derive(Clone, Debug)]
pub enum Token<T> {
    NotReady(NotReadyToken),
    Ready(ReadyToken<T>),
}

impl<T> Token<T> {
    /// A ready token starts with the default action, `Consume`.
    pub fn new_ready(ts: ZFTimestamp, data: T) -> (r: Token<T>)
        ensures
            r matches Token::Ready(rt) && rt.ts == ts && rt.data == data
                && rt.action == TokenAction::Consume,
    {
        Token::Ready(ReadyToken { ts, data, action: TokenAction::Consume })
    }

    pub fn new_not_ready(ts: ZFTimestamp) -> (r: Token<T>)
        ensures
            r matches Token::NotReady(nr) && nr.ts == ts,
    {
        Token::NotReady(NotReadyToken { ts })
    }

    pub open spec fn spec_is_ready(self) -> bool {
        self is Ready
    }

    pub fn is_ready(&self) -> (r: bool)
        ensures
            r == self.spec_is_ready(),
    {
        match self {
            Token::Ready(_) => true,
            _ => false,
        }
    }

    pub fn is_not_ready(&self) -> (r: bool)
        ensures
            r == !self.spec_is_ready(),
    {
        match self {
            Token::NotReady(_) => true,
            _ => false,
        }
    }

    /// The token after its action was set to `act`; only a ready token
    /// changes.
    pub open spec fn spec_with_action(self, act: TokenAction) -> Token<T> {
        match self {
            Token::Ready(rt) => Token::Ready(ReadyToken { action: act, ..rt }),
            Token::NotReady(nr) => Token::NotReady(nr),
        }
    }

    fn set_action(&mut self, act: TokenAction) -> (r: Result<(), ZFError>)
        ensures
            *old(self) is Ready <==> r is Ok,
            r is Ok ==> *final(self) == old(self).spec_with_action(act),
            r is Err ==> *final(self) == *old(self)
                && r->Err_0.kind == ErrorKind::GenericError,
    {
        match self {
            Token::Ready(ready) => {
                ready.action = act;
                Ok(())
            },
            _ => Err(ZFError::new(ErrorKind::GenericError, String::new())),
        }
    }

    /// Marks the value to be passed to the run and cleared afterwards.
    pub fn consume(&mut self) -> (r: Result<(), ZFError>)
        ensures
            *old(self) is Ready <==> r is Ok,
            r is Ok ==> *final(self) == old(self).spec_with_action(TokenAction::Consume),
            r is Err ==> *final(self) == *old(self)
                && r->Err_0.kind == ErrorKind::GenericError,
    {
        self.set_action(TokenAction::Consume)
    }

    /// Marks the value to be discarded.
    pub fn drop(&mut self) -> (r: Result<(), ZFError>)
        ensures
            *old(self) is Ready <==> r is Ok,
            r is Ok ==> *final(self) == old(self).spec_with_action(TokenAction::Drop),
            r is Err ==> *final(self) == *old(self)
                && r->Err_0.kind == ErrorKind::GenericError,
    {
        self.set_action(TokenAction::Drop)
    }

    /// Marks the value to be passed to the run and retained.
    pub fn keep_run(&mut self) -> (r: Result<(), ZFError>)
        ensures
            *old(self) is Ready <==> r is Ok,
            r is Ok ==> *final(self) == old(self).spec_with_action(TokenAction::KeepRun),
            r is Err ==> *final(self) == *old(self)
                && r->Err_0.kind == ErrorKind::GenericError,
    {
        self.set_action(TokenAction::KeepRun)
    }

    /// Marks the value to be retained without being passed this turn.
    pub fn keep(&mut self) -> (r: Result<(), ZFError>)
        ensures
            *old(self) is Ready <==> r is Ok,
            r is Ok ==> *final(self) == old(self).spec_with_action(TokenAction::Keep),
            r is Err ==> *final(self) == *old(self)
                && r->Err_0.kind == ErrorKind::GenericError,
    {
        self.set_action(TokenAction::Keep)
    }

    /// The value, for a ready token.
    pub fn data(&self) -> (r: Result<&T, ZFError>)
        ensures
            self is Ready <==> r is Ok,
            r matches Ok(d) ==> d == &self->Ready_0.data,
            r matches Err(e) ==> e.kind == ErrorKind::GenericError,
    {
        match self {
            Token::Ready(ready) => Ok(&ready.data),
            _ => Err(ZFError::new(ErrorKind::GenericError, String::new())),
        }
    }

    /// The action: a not-ready token always waits.
    pub fn action(&self) -> (r: TokenAction)
        ensures
            self matches Token::Ready(rt) ==> r == rt.action,
            self is NotReady ==> r == TokenAction::Wait,
    {
        match self {
            Token::Ready(ready) => ready.action,
            Token::NotReady(_) => TokenAction::Wait,
        }
    }

    /// Takes the token apart: its value, if ready, and its action.
    pub fn split(self) -> (r: (Option<T>, TokenAction))
        ensures
            self matches Token::Ready(rt) ==> r.0 == Some(rt.data) && r.1 == rt.action,
            self is NotReady ==> r.0 is None && r.1 == TokenAction::Wait,
    {
        match self {
            Token::Ready(ready) => (Some(ready.data), ready.action),
            Token::NotReady(_) => (None, TokenAction::Wait),
        }
    }
}

} // verus!
