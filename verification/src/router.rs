//! The router of one duplex connection. It keeps the requests in flight and
//! the subscriptions that local listeners share, and decides for each
//! command and each inbound frame what changes and what goes over the wire.
//! The caller owns the connection: it sends what a step asks for and hands
//! back what arrives.

use crate::error::{Code, Error};
use crate::response::{Id, IdView};
use crate::table::{
    listens, without_first, without_first_is_remove, without_first_keeps_distinct,
    without_first_of_absent, without_first_shortens, Table,
};
use vstd::prelude::*;

verus! {

/// The states of a connection.
#[derive(Debug, Clone, Copy, PartialEq, Eq, Structural)]
pub enum Phase {
    Connecting,
    Running,
    Draining,
    Closed,
}

/// What a router holds, as plain values.
pub struct RouterView {
    /// The state of the connection.
    pub phase: Phase,
    /// The identifiers of the requests in flight, oldest first.
    pub pending: Seq<IdView>,
    /// The subscriptions that the peer has acknowledged: for each query
    /// string its listeners, in the order in which they joined.
    pub active: Map<Seq<char>, Seq<u64>>,
    /// The subscriptions asked for and not yet acknowledged, with the
    /// listeners that wait for them.
    pub awaiting: Map<Seq<char>, Seq<u64>>,
}

/// The listeners of `q` in `m`; none where `q` has no entry.
pub open spec fn listeners_of(m: Map<Seq<char>, Seq<u64>>, q: Seq<char>) -> Seq<u64> {
    if m.contains_key(q) {
        m[q]
    } else {
        Seq::empty()
    }
}

/// What holds of a router at all times: no request identifier is in flight
/// twice, every entry has a listener, no query is both acknowledged and
/// waiting, and a connection that is not running holds nothing.
pub open spec fn consistent(s: RouterView) -> bool {
    &&& s.pending.no_duplicates()
    &&& forall|q: Seq<char>| #[trigger] s.active.contains_key(q) ==> s.active[q].len() > 0
    &&& forall|q: Seq<char>| #[trigger] s.awaiting.contains_key(q) ==> s.awaiting[q].len() > 0
    &&& forall|q: Seq<char>| !(#[trigger] s.active.contains_key(q) && s.awaiting.contains_key(q))
    &&& s.phase != Phase::Running ==> s.pending.len() == 0 && s.active
        == Map::<Seq<char>, Seq<u64>>::empty() && s.awaiting == Map::<Seq<char>, Seq<u64>>::empty()
}

/// The message of the error for a command on a connection that is not
/// running.
pub open spec fn closed_message() -> Seq<char> {
    "connection closed"@
}

/// The message of the error for a request identifier that is in flight.
pub open spec fn duplicate_id_message() -> Seq<char> {
    "request identifier is already in flight"@
}

/// What a subscribe command led to.
#[derive(Debug, Clone, Copy, PartialEq, Eq, Structural)]
pub enum Subscribed {
    /// The query has an acknowledged subscription: the listener shares it.
    Joined,
    /// The query's subscription is asked for: the listener waits with the
    /// others for the acknowledgement.
    Queued,
    /// The query is new: a subscribe request is due on the wire, and the
    /// listener waits for its acknowledgement.
    SendSubscribe,
}

/// What an unsubscribe command led to.
#[derive(Debug, Clone, Copy, PartialEq, Eq, Structural)]
pub enum Unsubscribed {
    /// The query has no such listener: nothing changed.
    Unknown,
    /// The listener left; others still share the subscription.
    Released,
    /// The last listener left: the entry is gone and an unsubscribe request
    /// is due on the wire.
    SendUnsubscribe,
}

/// An inbound frame, as far as routing reads it.
#[derive(Debug, Clone, PartialEq, Eq)]
pub struct Frame {
    /// The request identifier that the frame carries, if any.
    pub id: Option<Id>,
    /// The query string that the frame carries, if it is a pushed event.
    pub query: Option<String>,
}

/// A frame, as plain values.
pub struct FrameView {
    pub id: Option<IdView>,
    pub query: Option<Seq<char>>,
}

impl View for Frame {
    type V = FrameView;

    open spec fn view(&self) -> FrameView {
        FrameView {
            id: match self.id {
                Some(id) => Some(id@),
                None => None,
            },
            query: match self.query {
                Some(q) => Some(q@),
                None => None,
            },
        }
    }
}

/// Where an inbound frame goes.
#[derive(Debug, Clone, PartialEq, Eq)]
pub enum Delivery {
    /// To the caller that waits for the response with the frame's
    /// identifier.
    Response,
    /// To these listeners, in this order.
    Event(Vec<u64>),
    /// Nowhere.
    Dropped,
}

/// A delivery, as plain values.
pub enum DeliveryView {
    Response,
    Event(Seq<u64>),
    Dropped,
}

impl View for Delivery {
    type V = DeliveryView;

    open spec fn view(&self) -> DeliveryView {
        match self {
            Delivery::Response => DeliveryView::Response,
            Delivery::Event(listeners) => DeliveryView::Event(listeners@),
            Delivery::Dropped => DeliveryView::Dropped,
        }
    }
}

/// What was open when a connection began to drain.
#[derive(Debug, Clone, PartialEq, Eq)]
pub struct Drained {
    /// The requests to fail, oldest first.
    pub failed: Vec<Id>,
    /// The listeners whose event sequences end.
    pub closed: Vec<u64>,
    /// The listeners whose subscriptions were never acknowledged.
    pub refused: Vec<u64>,
    /// The error for the failed requests and the refused listeners.
    pub error: Error,
}

/// Whether a frame answers a request in flight.
pub open spec fn is_response(s: RouterView, f: FrameView) -> bool {
    f.id is Some && s.pending.contains(f.id->Some_0)
}

/// What a subscribe command for `q` leads to; nothing on a connection
/// that is not running.
pub open spec fn subscribe_outcome(s: RouterView, q: Seq<char>) -> Option<Subscribed> {
    if s.phase != Phase::Running {
        None
    } else if s.active.contains_key(q) {
        Some(Subscribed::Joined)
    } else if s.awaiting.contains_key(q) {
        Some(Subscribed::Queued)
    } else {
        Some(Subscribed::SendSubscribe)
    }
}

/// The router after a subscribe command of `listener` for `q`.
pub open spec fn after_subscribe(s: RouterView, q: Seq<char>, listener: u64) -> RouterView {
    match subscribe_outcome(s, q) {
        None => s,
        Some(Subscribed::Joined) => RouterView {
            active: s.active.insert(q, s.active[q].push(listener)),
            ..s
        },
        Some(_) => RouterView {
            awaiting: s.awaiting.insert(q, listeners_of(s.awaiting, q).push(listener)),
            ..s
        },
    }
}

/// The router after the peer has answered the subscribe request for `q`.
pub open spec fn after_acknowledge(s: RouterView, q: Seq<char>, accepted: bool) -> RouterView {
    if !s.awaiting.contains_key(q) {
        s
    } else if accepted {
        RouterView { active: s.active.insert(q, s.awaiting[q]), awaiting: s.awaiting.remove(q), ..s }
    } else {
        RouterView { awaiting: s.awaiting.remove(q), ..s }
    }
}

/// What an unsubscribe command of `listener` for `q` leads to.
pub open spec fn unsubscribe_outcome(s: RouterView, q: Seq<char>, listener: u64) -> Unsubscribed {
    if !listeners_of(s.active, q).contains(listener) {
        Unsubscribed::Unknown
    } else if s.active[q].len() > 1 {
        Unsubscribed::Released
    } else {
        Unsubscribed::SendUnsubscribe
    }
}

/// The router after an unsubscribe command of `listener` for `q`.
pub open spec fn after_unsubscribe(s: RouterView, q: Seq<char>, listener: u64) -> RouterView {
    match unsubscribe_outcome(s, q, listener) {
        Unsubscribed::Unknown => s,
        Unsubscribed::Released => RouterView {
            active: s.active.insert(q, without_first(s.active[q], listener)),
            ..s
        },
        Unsubscribed::SendUnsubscribe => RouterView { active: s.active.remove(q), ..s },
    }
}

/// Where a frame goes: to the request that it answers; else to the
/// listeners of the query that it carries; else nowhere.
pub open spec fn delivery(s: RouterView, f: FrameView) -> DeliveryView {
    if is_response(s, f) {
        DeliveryView::Response
    } else if f.query is Some && s.active.contains_key(f.query->Some_0) {
        DeliveryView::Event(s.active[f.query->Some_0])
    } else {
        DeliveryView::Dropped
    }
}

/// The router after a frame: a response frees its request's slot, and
/// nothing else changes.
pub open spec fn after_receive(s: RouterView, f: FrameView) -> RouterView {
    if is_response(s, f) {
        RouterView { pending: without_first(s.pending, f.id->Some_0), ..s }
    } else {
        s
    }
}

/// The router after the connection has failed or was closed: it holds
/// nothing, and drains unless it was closed before.
pub open spec fn after_drain(s: RouterView) -> RouterView {
    RouterView {
        phase: if s.phase == Phase::Closed {
            Phase::Closed
        } else {
            Phase::Draining
        },
        pending: Seq::empty(),
        active: Map::empty(),
        awaiting: Map::empty(),
    }
}

/// The views of a sequence of identifiers.
pub open spec fn id_views(ids: Seq<Id>) -> Seq<IdView> {
    Seq::new(ids.len(), |i: int| ids[i]@)
}

/// The router of one connection.
pub struct Router {
    phase: Phase,
    pending: Vec<Id>,
    active: Table,
    awaiting: Table,
}

impl View for Router {
    type V = RouterView;

    closed spec fn view(&self) -> RouterView {
        RouterView {
            phase: self.phase,
            pending: id_views(self.pending@),
            active: self.active@,
            awaiting: self.awaiting@,
        }
    }
}

fn position(listeners: &Vec<u64>, listener: u64) -> (r: Option<usize>)
    ensures
        match r {
            Some(i) => i < listeners@.len() && listeners@[i as int] == listener && forall|j: int|
                0 <= j < i ==> listeners@[j] != listener,
            None => !listeners@.contains(listener),
        },
{
    let mut i: usize = 0;
    while i < listeners.len()
        invariant
            i <= listeners.len(),
            forall|j: int| 0 <= j < i ==> listeners@[j] != listener,
        decreases listeners.len() - i,
    {
        if listeners[i] == listener {
            return Some(i);
        }
        i += 1;
    }
    None
}

fn position_of_id(ids: &Vec<Id>, id: &Id) -> (r: Option<usize>)
    ensures
        match r {
            Some(i) => i < ids@.len() && id_views(ids@)[i as int] == id@ && forall|j: int|
                0 <= j < i ==> id_views(ids@)[j] != id@,
            None => !id_views(ids@).contains(id@),
        },
{
    let mut i: usize = 0;
    while i < ids.len()
        invariant
            i <= ids.len(),
            forall|j: int| 0 <= j < i ==> id_views(ids@)[j] != id@,
        decreases ids.len() - i,
    {
        if ids[i].same(id) {
            return Some(i);
        }
        i += 1;
    }
    None
}

fn closed_error() -> (e: Error)
    ensures
        e.spec_code() == Code::ConnectionClosed,
        e.spec_message() == closed_message(),
{
    Error::connection_closed("connection closed")
}

impl Router {
    /// The tables are in order and the router is consistent.
    pub closed spec fn wf(&self) -> bool {
        &&& self.active.wf()
        &&& self.awaiting.wf()
        &&& consistent(self@)
    }

    /// A well-formed router is consistent.
    pub proof fn well_formed_is_consistent(&self)
        requires
            self.wf(),
        ensures
            consistent(self@),
    {
    }

    /// The router of a connection that is being made: it holds nothing.
    pub fn new() -> (r: Router)
        ensures
            r.wf(),
            r@ == (RouterView {
                phase: Phase::Connecting,
                pending: Seq::empty(),
                active: Map::empty(),
                awaiting: Map::empty(),
            }),
    {
        let r = Router {
            phase: Phase::Connecting,
            pending: Vec::new(),
            active: Table::new(),
            awaiting: Table::new(),
        };
        assert(r@.pending =~= Seq::empty());
        r
    }

    /// The state of the connection.
    pub fn phase(&self) -> (p: Phase)
        ensures
            p == self@.phase,
    {
        self.phase
    }

    /// The number of listeners that share the subscription of `query`.
    pub fn reference_count(&self, query: &str) -> (n: usize)
        requires
            self.wf(),
        ensures
            n == listeners_of(self@.active, query@).len(),
    {
        let key = query.to_owned();
        self.active.listeners(&key).len()
    }

    /// The connection is made: a connecting router runs. Any other stays as
    /// it is.
    pub fn connected(&mut self) -> (r: bool)
        requires
            old(self).wf(),
        ensures
            final(self).wf(),
            r == (old(self)@.phase == Phase::Connecting),
            final(self)@ == (RouterView {
                phase: if r {
                    Phase::Running
                } else {
                    old(self)@.phase
                },
                ..old(self)@
            }),
    {
        match self.phase {
            Phase::Connecting => {
                self.phase = Phase::Running;
                true
            },
            _ => false,
        }
    }

    /// Registers the slot of an outbound request. Refused with
    /// `ConnectionClosed` unless the connection runs, and with
    /// `InvalidParams` for an identifier that is in flight.
    pub fn send(&mut self, id: Id) -> (r: Result<(), Error>)
        requires
            old(self).wf(),
        ensures
            final(self).wf(),
            old(self)@.phase != Phase::Running ==> *final(self) == *old(self) && r is Err
                && r->Err_0.spec_code() == Code::ConnectionClosed && r->Err_0.spec_message()
                == closed_message(),
            old(self)@.phase == Phase::Running && old(self)@.pending.contains(id@) ==> *final(self)
                == *old(self) && r is Err && r->Err_0.spec_code() == Code::InvalidParams
                && r->Err_0.spec_message() == duplicate_id_message(),
            old(self)@.phase == Phase::Running && !old(self)@.pending.contains(id@) ==> r is Ok
                && final(self)@ == (RouterView {
                pending: old(self)@.pending.push(id@),
                ..old(self)@
            }),
    {
        match self.phase {
            Phase::Running => {},
            _ => {
                return Err(closed_error());
            },
        }
        match position_of_id(&self.pending, &id) {
            Some(_) => Err(Error::invalid_params("request identifier is already in flight")),
            None => {
                self.pending.push(id);
                proof {
                    let before = old(self)@.pending;
                    let after = id_views(self.pending@);
                    assert(after =~= before.push(id@));
                    assert forall|i: int, j: int|
                        0 <= i < after.len() && 0 <= j < after.len() && i != j implies after[i]
                        != after[j] by {
                        if i < before.len() && j < before.len() {
                            assert(before[i] != before[j]);
                        } else if i < before.len() {
                            assert(before.contains(before[i]));
                        } else {
                            assert(before.contains(before[j]));
                        }
                    }
                }
                Ok(())
            },
        }
    }

    /// Gives up the request `id`: its slot is freed. Says whether there was
    /// one.
    pub fn abandon(&mut self, id: &Id) -> (r: bool)
        requires
            old(self).wf(),
        ensures
            final(self).wf(),
            r == old(self)@.pending.contains(id@),
            final(self)@ == (RouterView {
                pending: without_first(old(self)@.pending, id@),
                ..old(self)@
            }),
    {
        match position_of_id(&self.pending, id) {
            Some(i) => {
                proof {
                    let before = old(self)@.pending;
                    without_first_is_remove(before, id@, i as int);
                    assert(before[i as int] == id@);
                    lemma_remove_keeps_distinct(before, i as int);
                }
                let _ = self.pending.remove(i);
                assert(id_views(self.pending@) =~= old(self)@.pending.remove(i as int));
                true
            },
            None => {
                proof {
                    without_first_of_absent(old(self)@.pending, id@);
                }
                false
            },
        }
    }

    /// A local listener asks for the events of `query`. Where the query has
    /// a subscription the listener shares it, and nothing goes over the
    /// wire. Where its subscription is asked for the listener waits with the
    /// others. Only for a query that is new a subscribe request is due.
    /// Refused with `ConnectionClosed` unless the connection runs.
    pub fn subscribe(&mut self, query: &str, listener: u64) -> (r: Result<Subscribed, Error>)
        requires
            old(self).wf(),
        ensures
            final(self).wf(),
            final(self)@ == after_subscribe(old(self)@, query@, listener),
            match subscribe_outcome(old(self)@, query@) {
                Some(outcome) => r == Ok::<Subscribed, Error>(outcome),
                None => r is Err && r->Err_0.spec_code() == Code::ConnectionClosed
                    && r->Err_0.spec_message() == closed_message(),
            },
    {
        match self.phase {
            Phase::Running => {},
            _ => {
                return Err(closed_error());
            },
        }
        let key = query.to_owned();
        if self.active.contains(&key) {
            self.active.join(&key, listener);
            Ok(Subscribed::Joined)
        } else if self.awaiting.contains(&key) {
            self.awaiting.join(&key, listener);
            Ok(Subscribed::Queued)
        } else {
            self.awaiting.join(&key, listener);
            Ok(Subscribed::SendSubscribe)
        }
    }

    /// The peer has answered the subscribe request for `query`. The
    /// listeners that waited for it are returned. Where the peer accepted,
    /// they are from now on the listeners of the query; where it refused,
    /// no entry is made.
    pub fn acknowledge(&mut self, query: &str, accepted: bool) -> (r: Vec<u64>)
        requires
            old(self).wf(),
        ensures
            final(self).wf(),
            final(self)@ == after_acknowledge(old(self)@, query@, accepted),
            r@ == listeners_of(old(self)@.awaiting, query@),
    {
        let key = query.to_owned();
        proof {
            if self.awaiting@.contains_key(key@) {
                self.awaiting.every_query_has_a_listener(key@);
            }
        }
        let waiting = self.awaiting.take(&key);
        if accepted && waiting.len() > 0 {
            self.active.put(&key, waiting.clone());
        }
        proof {
            if !old(self)@.awaiting.contains_key(key@) {
                assert(self.awaiting@ =~= old(self)@.awaiting);
            }
        }
        waiting
    }

    /// A listener leaves `query`. The last one takes the entry with it, and
    /// an unsubscribe request is due on the wire; local state is released
    /// whatever becomes of that request.
    pub fn unsubscribe(&mut self, query: &str, listener: u64) -> (r: Unsubscribed)
        requires
            old(self).wf(),
        ensures
            final(self).wf(),
            final(self)@ == after_unsubscribe(old(self)@, query@, listener),
            r == unsubscribe_outcome(old(self)@, query@, listener),
    {
        let key = query.to_owned();
        let mut listeners = self.active.listeners(&key);
        match position(&listeners, listener) {
            None => Unsubscribed::Unknown,
            Some(i) => {
                proof {
                    without_first_is_remove(listeners@, listener, i as int);
                    assert(listeners@.contains(listener));
                }
                if listeners.len() == 1 {
                    let _ = self.active.take(&key);
                    Unsubscribed::SendUnsubscribe
                } else {
                    let _ = listeners.remove(i);
                    self.active.put(&key, listeners);
                    Unsubscribed::Released
                }
            },
        }
    }

    /// Routes an inbound frame. A frame that answers a request in flight
    /// goes to that request, whose slot is freed. Any other frame is an
    /// event: it goes to the listeners of the query that it carries, in the
    /// order in which they joined, and is dropped where there are none.
    pub fn receive(&mut self, frame: &Frame) -> (r: Delivery)
        requires
            old(self).wf(),
        ensures
            final(self).wf(),
            final(self)@ == after_receive(old(self)@, frame@),
            r@ == delivery(old(self)@, frame@),
    {
        match &frame.id {
            Some(id) => {
                if self.abandon(id) {
                    return Delivery::Response;
                }
            },
            None => {},
        }
        proof {
            if frame@.id is Some {
                without_first_of_absent(old(self)@.pending, frame@.id->Some_0);
            }
        }
        match &frame.query {
            Some(query) => {
                if self.active.contains(query) {
                    Delivery::Event(self.active.listeners(query))
                } else {
                    Delivery::Dropped
                }
            },
            None => Delivery::Dropped,
        }
    }

    /// The connection has failed or is being closed. The router gives up
    /// all it holds: the requests in flight, to be failed with
    /// `ConnectionClosed`; the listeners of every subscription, whose event
    /// sequences end; and the listeners that still waited. From now on it
    /// accepts nothing.
    pub fn drain(&mut self) -> (r: Drained)
        requires
            old(self).wf(),
        ensures
            final(self).wf(),
            final(self)@ == after_drain(old(self)@),
            id_views(r.failed@) == old(self)@.pending,
            forall|l: u64| r.closed@.contains(l) <==> listens(old(self)@.active, l),
            forall|l: u64| r.refused@.contains(l) <==> listens(old(self)@.awaiting, l),
            r.error.spec_code() == Code::ConnectionClosed,
            r.error.spec_message() == closed_message(),
    {
        let mut failed: Vec<Id> = Vec::new();
        std::mem::swap(&mut failed, &mut self.pending);
        let closed = self.active.clear();
        let refused = self.awaiting.clear();
        match self.phase {
            Phase::Closed => {},
            _ => {
                self.phase = Phase::Draining;
            },
        }
        assert(id_views(self.pending@) =~= Seq::empty());
        Drained { failed, closed, refused, error: closed_error() }
    }

    /// The draining is done: the connection is closed. Says whether the
    /// router was draining.
    pub fn finish(&mut self) -> (r: bool)
        requires
            old(self).wf(),
        ensures
            final(self).wf(),
            r == (old(self)@.phase == Phase::Draining),
            final(self)@ == (RouterView {
                phase: if r {
                    Phase::Closed
                } else {
                    old(self)@.phase
                },
                ..old(self)@
            }),
    {
        match self.phase {
            Phase::Draining => {
                self.phase = Phase::Closed;
                true
            },
            _ => false,
        }
    }
}

proof fn lemma_remove_keeps_distinct<A>(s: Seq<A>, k: int)
    requires
        s.no_duplicates(),
        0 <= k < s.len(),
    ensures
        s.remove(k).no_duplicates(),
{
    let fewer = s.remove(k);
    assert forall|i: int, j: int| 0 <= i < fewer.len() && 0 <= j < fewer.len() && i != j implies fewer[i]
        != fewer[j] by {
        let a = if i < k {
            i
        } else {
            i + 1
        };
        let b = if j < k {
            j
        } else {
            j + 1
        };
        assert(s[a] != s[b]);
    }
}

/// Every step leads from a consistent router to a consistent one.
pub proof fn steps_keep_consistency(
    s: RouterView,
    q: Seq<char>,
    listener: u64,
    accepted: bool,
    f: FrameView,
)
    requires
        consistent(s),
    ensures
        consistent(after_subscribe(s, q, listener)),
        consistent(after_acknowledge(s, q, accepted)),
        consistent(after_unsubscribe(s, q, listener)),
        consistent(after_receive(s, f)),
        consistent(after_drain(s)),
{
    if is_response(s, f) {
        without_first_keeps_distinct(s.pending, f.id->Some_0);
        without_first_shortens(s.pending, f.id->Some_0);
    }
    if listeners_of(s.active, q).contains(listener) {
        without_first_shortens(s.active[q], listener);
    }
    if s.phase != Phase::Running {
        assert(!s.awaiting.contains_key(q));
        assert(!s.active.contains_key(q));
    }
}

/// A query has at most one subscription on the wire however many listeners
/// ask for it: once a listener has asked for a query, a further subscribe
/// command for it sends nothing.
pub proof fn one_wire_subscription_per_query(s: RouterView, q: Seq<char>, first: u64, second: u64)
    requires
        consistent(s),
        s.phase == Phase::Running,
    ensures
        subscribe_outcome(after_subscribe(s, q, first), q) is Some,
        subscribe_outcome(after_subscribe(s, q, first), q) != Some(Subscribed::SendSubscribe),
        subscribe_outcome(after_subscribe(after_subscribe(s, q, first), q, second), q) != Some(
            Subscribed::SendSubscribe,
        ),
{
}

/// Two listeners that ask for a new query share one subscription: the
/// first command asks for it on the wire, the second waits, and once the
/// peer has accepted an event of that query goes to both, the first
/// before the second. Each can leave without the other: when one has left
/// the other still listens, and only the last to leave sends an
/// unsubscribe request.
pub proof fn shared_subscription(s: RouterView, q: Seq<char>, first: u64, second: u64, f: FrameView)
    requires
        consistent(s),
        subscribe_outcome(s, q) == Some(Subscribed::SendSubscribe),
        first != second,
        f.query == Some(q),
        !is_response(s, f),
    ensures
        ({
            let one = after_subscribe(s, q, first);
            let two = after_subscribe(one, q, second);
            let shared = after_acknowledge(two, q, true);
            let left = after_unsubscribe(shared, q, first);
            &&& subscribe_outcome(one, q) == Some(Subscribed::Queued)
            &&& delivery(shared, f) == DeliveryView::Event(seq![first, second])
            &&& after_receive(shared, f) == shared
            &&& unsubscribe_outcome(shared, q, first) == Unsubscribed::Released
            &&& delivery(left, f) == DeliveryView::Event(seq![second])
            &&& unsubscribe_outcome(left, q, second) == Unsubscribed::SendUnsubscribe
        }),
{
    let one = after_subscribe(s, q, first);
    let two = after_subscribe(one, q, second);
    let shared = after_acknowledge(two, q, true);
    assert(one.awaiting[q] =~= seq![first]);
    assert(two.awaiting[q] =~= seq![first, second]);
    assert(shared.active[q] == seq![first, second]);
    let both = seq![first, second];
    assert(both[0] == first);
    assert(both.contains(first));
    without_first_is_remove(both, first, 0);
    assert(both.remove(0) =~= seq![second]);
    let left = after_unsubscribe(shared, q, first);
    assert(left.active[q] == seq![second]);
    assert(seq![second][0] == second);
    assert(seq![second].contains(second));
}

/// A listener that joins a subscription is served after those that were
/// there, whose order stays.
pub proof fn joining_keeps_the_order(s: RouterView, q: Seq<char>, listener: u64, f: FrameView)
    requires
        consistent(s),
        subscribe_outcome(s, q) == Some(Subscribed::Joined),
        f.query == Some(q),
        !is_response(s, f),
    ensures
        delivery(after_subscribe(s, q, listener), f) == DeliveryView::Event(
            s.active[q].push(listener),
        ),
{
}

/// When the last listener of a query leaves, the entry goes and an
/// unsubscribe request is due; an event of that query that still arrives
/// is dropped, and changes nothing.
pub proof fn last_unsubscribe_drops_later_events(
    s: RouterView,
    q: Seq<char>,
    listener: u64,
    f: FrameView,
)
    requires
        consistent(s),
        listeners_of(s.active, q) == seq![listener],
        f.query == Some(q),
        !is_response(s, f),
    ensures
        unsubscribe_outcome(s, q, listener) == Unsubscribed::SendUnsubscribe,
        !after_unsubscribe(s, q, listener).active.contains_key(q),
        delivery(after_unsubscribe(s, q, listener), f) == DeliveryView::Dropped,
        after_receive(after_unsubscribe(s, q, listener), f) == after_unsubscribe(s, q, listener),
{
    assert(seq![listener][0] == listener);
    assert(seq![listener].contains(listener));
}

/// A router that has drained holds nothing and accepts nothing: no request
/// is in flight, every frame is dropped, and a subscribe command is
/// refused.
pub proof fn drained_router_serves_nothing(s: RouterView, q: Seq<char>, f: FrameView)
    ensures
        after_drain(s).pending.len() == 0,
        after_drain(s).phase != Phase::Running,
        delivery(after_drain(s), f) == DeliveryView::Dropped,
        subscribe_outcome(after_drain(s), q) is None,
        after_subscribe(after_drain(s), q, 0) == after_drain(s),
{
}

} // verus!
