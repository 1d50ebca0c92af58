use clewdr_pool::actor::{ActorReply, CookieActorMessage};
use clewdr_pool::credential::{CookieStatus, Reason};
use clewdr_pool::pool::{CookieActorState, PoolError};

const NOW: i64 = 1_700_000_000;

fn cookie(token: &str) -> CookieStatus {
    CookieStatus::new(token.to_string())
}

#[test]
fn messages_update_pool_and_reply() {
    let mut pool = CookieActorState::new();
    let out = pool.handle(CookieActorMessage::Submit(cookie("A")), NOW);
    assert!(out.persist);
    assert!(matches!(out.reply, ActorReply::Nothing));
    let out = pool.handle(CookieActorMessage::Submit(cookie("A")), NOW);
    assert!(!out.persist);
    let out = pool.handle(CookieActorMessage::Request(Some(1)), NOW);
    assert!(!out.persist);
    match out.reply {
        ActorReply::Cookie(Ok(c)) => assert_eq!(c.cookie, "A"),
        _ => panic!("expected a credential"),
    }
    let out = pool.handle(CookieActorMessage::Return(cookie("A"), Some(Reason::TooManyRequest(NOW + 10))), NOW);
    assert!(out.persist);
    match pool.handle(CookieActorMessage::Request(None), NOW).reply {
        ActorReply::Cookie(Err(e)) => assert_eq!(e, PoolError::NoCookieAvailable),
        _ => panic!("expected no credential"),
    }
    let out = pool.handle(CookieActorMessage::CheckReset, NOW + 10);
    assert!(!out.persist);
    match pool.handle(CookieActorMessage::GetStatus, NOW + 10).reply {
        ActorReply::Status(info) => {
            assert_eq!(info.valid.len(), 1);
            assert!(info.exhausted.is_empty());
        }
        _ => panic!("expected a status"),
    }
    match pool.handle(CookieActorMessage::Delete(cookie("A")), NOW).reply {
        ActorReply::Deleted(r) => assert_eq!(r, Ok(())),
        _ => panic!("expected a delete answer"),
    }
    match pool.handle(CookieActorMessage::Delete(cookie("A")), NOW).reply {
        ActorReply::Deleted(r) => assert_eq!(r, Err(PoolError::CookieNotFound)),
        _ => panic!("expected a delete answer"),
    }
}

#[test]
fn clock_drives_promotion() {
    let mut pool = CookieActorState::new();
    pool.accept(cookie("A"));
    pool.accept(cookie("B"));
    pool.collect(cookie("A"), Some(Reason::Restricted(1)));
    pool.collect(cookie("B"), Some(Reason::Restricted(i64::MAX)));
    pool.handle_message(CookieActorMessage::CheckReset);
    assert_eq!(pool.valid.len(), 1);
    assert_eq!(pool.valid[0].cookie, "A");
    assert_eq!(pool.exhausted.len(), 1);
    assert_eq!(pool.exhausted[0].cookie, "B");
}
