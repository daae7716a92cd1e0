use tendermint_rpc::error::Code;
use tendermint_rpc::query::{EventType, Query};
use tendermint_rpc::response::Id;
use tendermint_rpc::router::{Delivery, Frame, Phase, Router, Subscribed, Unsubscribed};
use tendermint_rpc::table::Table;

fn running() -> Router {
    let mut router = Router::new();
    assert!(router.connected());
    router
}

fn event(query: &str) -> Frame {
    Frame { id: None, query: Some(query.to_string()) }
}

fn response(id: i64) -> Frame {
    Frame { id: Some(Id::Num(id)), query: None }
}

#[test]
fn connection_goes_through_its_phases() {
    let mut router = Router::new();
    assert_eq!(Phase::Connecting, router.phase());
    assert!(!router.finish());
    assert!(router.connected());
    assert_eq!(Phase::Running, router.phase());
    assert!(!router.connected());
    router.drain();
    assert_eq!(Phase::Draining, router.phase());
    assert!(!router.connected());
    assert!(router.finish());
    assert_eq!(Phase::Closed, router.phase());
    router.drain();
    assert_eq!(Phase::Closed, router.phase());
}

#[test]
fn nothing_is_accepted_before_the_connection_runs() {
    let mut router = Router::new();
    assert_eq!(Code::ConnectionClosed, router.send(Id::Num(1)).unwrap_err().code());
    assert_eq!(
        Code::ConnectionClosed,
        router.subscribe("tm.event = 'Tx'", 1).unwrap_err().code()
    );
}

#[test]
fn response_frees_its_slot() {
    let mut router = running();
    assert!(router.send(Id::Num(1)).is_ok());
    assert!(router.send(Id::Str("1".to_string())).is_ok());
    let twice = router.send(Id::Num(1)).unwrap_err();
    assert_eq!(Code::InvalidParams, twice.code());
    assert_eq!("request identifier is already in flight", twice.message());
    assert_eq!(Delivery::Dropped, router.receive(&response(2)));
    assert_eq!(Delivery::Response, router.receive(&response(1)));
    assert_eq!(Delivery::Dropped, router.receive(&response(1)));
    assert!(router.send(Id::Num(1)).is_ok());
    assert!(router.abandon(&Id::Num(1)));
    assert!(!router.abandon(&Id::Num(1)));
    assert_eq!(Delivery::Dropped, router.receive(&response(1)));
    let answer = Frame { id: Some(Id::Str("1".to_string())), query: Some("q".to_string()) };
    assert_eq!(Delivery::Response, router.receive(&answer));
}

#[test]
fn two_subscribers_share_one_subscription() {
    let mut router = running();
    let first = Query::from(EventType::Tx).and_eq("tx.height", 3_i64.into());
    let second = Query::from(EventType::Tx).and_eq("tx.height", 3_u8.into());
    assert!(first.routing_equivalent(&second));
    assert_eq!(Ok(Subscribed::SendSubscribe), router.subscribe(&first.to_string(), 10));
    assert_eq!(Ok(Subscribed::Queued), router.subscribe(&second.to_string(), 20));
    assert_eq!(0, router.reference_count(&first.to_string()));
    assert_eq!(Delivery::Dropped, router.receive(&event(&first.to_string())));
    assert_eq!(vec![10, 20], router.acknowledge(&first.to_string(), true));
    assert_eq!(2, router.reference_count(&second.to_string()));
    assert_eq!(Ok(Subscribed::Joined), router.subscribe(&first.to_string(), 30));
    assert_eq!(
        Delivery::Event(vec![10, 20, 30]),
        router.receive(&event("tm.event = 'Tx' AND tx.height = 3"))
    );
    assert_eq!(
        Delivery::Event(vec![10, 20, 30]),
        router.receive(&event("tm.event = 'Tx' AND tx.height = 3"))
    );
    assert_eq!(Delivery::Dropped, router.receive(&event("tm.event = 'Tx'")));
    assert_eq!(Unsubscribed::Released, router.unsubscribe(&first.to_string(), 10));
    assert_eq!(
        Delivery::Event(vec![20, 30]),
        router.receive(&event(&second.to_string()))
    );
}

#[test]
fn last_unsubscribe_removes_the_entry() {
    let mut router = running();
    assert_eq!(Ok(Subscribed::SendSubscribe), router.subscribe("q", 1));
    assert_eq!(vec![1], router.acknowledge("q", true));
    assert_eq!(Ok(Subscribed::Joined), router.subscribe("q", 2));
    assert_eq!(Unsubscribed::Unknown, router.unsubscribe("q", 3));
    assert_eq!(Unsubscribed::Unknown, router.unsubscribe("other", 1));
    assert_eq!(Unsubscribed::Released, router.unsubscribe("q", 1));
    assert_eq!(Unsubscribed::Unknown, router.unsubscribe("q", 1));
    assert_eq!(1, router.reference_count("q"));
    assert_eq!(Unsubscribed::SendUnsubscribe, router.unsubscribe("q", 2));
    assert_eq!(0, router.reference_count("q"));
    assert_eq!(Delivery::Dropped, router.receive(&event("q")));
    assert_eq!(Ok(Subscribed::SendSubscribe), router.subscribe("q", 4));
}

#[test]
fn refused_subscription_makes_no_entry() {
    let mut router = running();
    assert_eq!(Ok(Subscribed::SendSubscribe), router.subscribe("q", 1));
    assert_eq!(Ok(Subscribed::Queued), router.subscribe("q", 2));
    assert_eq!(vec![1, 2], router.acknowledge("q", false));
    assert_eq!(0, router.reference_count("q"));
    assert_eq!(Delivery::Dropped, router.receive(&event("q")));
    assert_eq!(Vec::<u64>::new(), router.acknowledge("q", true));
    assert_eq!(Ok(Subscribed::SendSubscribe), router.subscribe("q", 3));
}

#[test]
fn empty_query_is_routed_by_its_empty_text() {
    let mut router = running();
    let all = Query::default().to_string();
    assert_eq!("", all);
    assert_eq!(Ok(Subscribed::SendSubscribe), router.subscribe(&all, 1));
    assert_eq!(vec![1], router.acknowledge(&all, true));
    assert_eq!(Delivery::Event(vec![1]), router.receive(&event("")));
}

#[test]
fn drain_fails_everything_that_is_open() {
    let mut router = running();
    assert!(router.send(Id::Num(1)).is_ok());
    assert!(router.send(Id::Str("two".to_string())).is_ok());
    assert_eq!(Ok(Subscribed::SendSubscribe), router.subscribe("a", 1));
    assert_eq!(vec![1], router.acknowledge("a", true));
    assert_eq!(Ok(Subscribed::Joined), router.subscribe("a", 2));
    assert_eq!(Ok(Subscribed::SendSubscribe), router.subscribe("b", 3));
    assert_eq!(vec![3], router.acknowledge("b", true));
    assert_eq!(Ok(Subscribed::SendSubscribe), router.subscribe("c", 4));
    let drained = router.drain();
    assert_eq!(vec![Id::Num(1), Id::Str("two".to_string())], drained.failed);
    let mut closed = drained.closed.clone();
    closed.sort();
    assert_eq!(vec![1, 2, 3], closed);
    assert_eq!(vec![4], drained.refused);
    assert_eq!(Code::ConnectionClosed, drained.error.code());
    assert_eq!("connection closed", drained.error.message());
    assert_eq!(Phase::Draining, router.phase());
    assert_eq!(Delivery::Dropped, router.receive(&response(1)));
    assert_eq!(Delivery::Dropped, router.receive(&event("a")));
    assert_eq!(Code::ConnectionClosed, router.send(Id::Num(9)).unwrap_err().code());
    assert_eq!(Code::ConnectionClosed, router.subscribe("a", 5).unwrap_err().code());
    assert_eq!(Unsubscribed::Unknown, router.unsubscribe("a", 1));
    assert_eq!(Vec::<u64>::new(), router.acknowledge("c", true));
    let again = router.drain();
    assert!(again.failed.is_empty() && again.closed.is_empty() && again.refused.is_empty());
}

#[test]
fn table_keeps_listeners_by_query() {
    let mut table = Table::new();
    let a = "a".to_string();
    let b = "b".to_string();
    assert!(!table.contains(&a));
    table.join(&a, 1);
    table.join(&b, 2);
    table.join(&a, 3);
    assert!(table.contains(&a));
    assert_eq!(vec![1, 3], table.listeners(&a));
    assert_eq!(vec![2], table.listeners(&b));
    table.put(&b, vec![7, 8]);
    assert_eq!(vec![7, 8], table.take(&b));
    assert_eq!(Vec::<u64>::new(), table.take(&b));
    assert!(!table.contains(&b));
    assert_eq!(vec![1, 3], table.clear());
    assert!(!table.contains(&a));
}
