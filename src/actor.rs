//! The pool actor's decisions: one message at a time, from the pool and the
//! message to the new pool, the reply, and whether to persist. Running the
//! mailbox, sending replies and persisting are left to the caller.

use vstd::prelude::*;
use crate::credential::{CookieStatus, Reason};
use crate::model::{
    accept_spec, collect_persists, collect_spec, delete_spec, dispatch_spec, in_pool,
    possible_answer, promote_spec, some_window_due, tick_spec, PoolView,
};
use crate::pool::{CookieActorState, CookieStatusInfo, PoolError};

verus! {

/// Messages the pool actor serves.
pub enum CookieActorMessage {
    /// A used credential comes back, with the verdict on it.
    Return(CookieStatus, Option<Reason>),
    /// A new credential.
    Submit(CookieStatus),
    /// Periodic maintenance.
    CheckReset,
    /// A credential is wanted, with an optional affinity fingerprint.
    Request(Option<u64>),
    /// A snapshot of the pool is wanted, after maintenance.
    GetStatus,
    /// A credential is to be removed.
    Delete(CookieStatus),
}

/// The answer to a message.
pub enum ActorReply {
    /// Messages that are not answered.
    Nothing,
    /// The answer to `Request`.
    Cookie(Result<CookieStatus, PoolError>),
    /// The answer to `GetStatus`.
    Status(CookieStatusInfo),
    /// The answer to `Delete`.
    Deleted(Result<(), PoolError>),
}

/// What handling a message produced.
pub struct ActorOutcome {
    pub reply: ActorReply,
    /// The persisted state changed and is to be saved.
    pub persist: bool,
}

/// How handling `msg` at `now` relates the pool before (`p`) and after (`q`)
/// and the outcome.
pub open spec fn handled(p: PoolView, msg: CookieActorMessage, now: i64, q: PoolView, out: ActorOutcome) -> bool {
    match msg {
        CookieActorMessage::Return(c, reason) => {
            &&& q == collect_spec(p, c, reason)
            &&& out.reply is Nothing
            &&& out.persist == collect_persists(p, c, reason)
        },
        CookieActorMessage::Submit(c) => {
            &&& q == accept_spec(p, c)
            &&& out.reply is Nothing
            &&& out.persist == !in_pool(p, c.cookie@)
        },
        CookieActorMessage::CheckReset => {
            &&& q == tick_spec(p, now)
            &&& out.reply is Nothing
            &&& out.persist == some_window_due(p, now)
        },
        CookieActorMessage::Request(hash) => {
            &&& out.reply is Cookie
            &&& !out.persist
            &&& exists|cached: Option<Seq<char>>|
                possible_answer(promote_spec(p, now), hash, cached) && (q, out.reply->Cookie_0)
                    == #[trigger] dispatch_spec(p, hash, cached, now)
        },
        CookieActorMessage::GetStatus => {
            &&& q == tick_spec(p, now)
            &&& out.reply is Status
            &&& out.reply->Status_0.valid@ == q.valid
            &&& out.reply->Status_0.exhausted@ == q.exhausted
            &&& out.reply->Status_0.invalid@ == q.invalid
            &&& out.persist == some_window_due(p, now)
        },
        CookieActorMessage::Delete(c) => {
            &&& q == delete_spec(p, c.cookie@)
            &&& out.reply is Deleted
            &&& (out.reply->Deleted_0 is Ok <==> in_pool(p, c.cookie@))
            &&& (out.reply->Deleted_0 is Err ==> out.reply->Deleted_0->Err_0
                == PoolError::CookieNotFound)
            &&& out.persist == in_pool(p, c.cookie@)
        },
    }
}

/// Relies on chrono's `Utc::now` and `DateTime::timestamp`: the current time
/// in whole seconds since the epoch. Nothing is promised of its value.
#[verifier::external_body]
fn now_timestamp() -> (r: i64) {
    chrono::Utc::now().timestamp()
}

impl CookieActorState {
    /// Handles one message at `now`.
    pub fn handle(&mut self, msg: CookieActorMessage, now: i64) -> (out: ActorOutcome)
        requires
            old(self)@.wf(),
        ensures
            final(self)@.wf(),
            handled(old(self)@, msg, now, final(self)@, out),
    {
        match msg {
            CookieActorMessage::Return(c, reason) => {
                let persist = self.collect(c, reason);
                ActorOutcome { reply: ActorReply::Nothing, persist }
            },
            CookieActorMessage::Submit(c) => {
                let persist = self.accept(c);
                ActorOutcome { reply: ActorReply::Nothing, persist }
            },
            CookieActorMessage::CheckReset => {
                let persist = self.check_reset(now);
                ActorOutcome { reply: ActorReply::Nothing, persist }
            },
            CookieActorMessage::Request(hash) => {
                let r = self.dispatch(hash, now);
                ActorOutcome { reply: ActorReply::Cookie(r), persist: false }
            },
            CookieActorMessage::GetStatus => {
                let persist = self.check_reset(now);
                let info = self.report();
                ActorOutcome { reply: ActorReply::Status(info), persist }
            },
            CookieActorMessage::Delete(c) => {
                let r = self.delete(c);
                let persist = r.is_ok();
                ActorOutcome { reply: ActorReply::Deleted(r), persist }
            },
        }
    }

    /// Handles one message at the current time of the clock.
    pub fn handle_message(&mut self, msg: CookieActorMessage) -> (out: ActorOutcome)
        requires
            old(self)@.wf(),
        ensures
            final(self)@.wf(),
            exists|now: i64| #[trigger] handled(old(self)@, msg, now, final(self)@, out),
    {
        let now = now_timestamp();
        self.handle(msg, now)
    }
}

} // verus!
