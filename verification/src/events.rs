//! Facts that more than one part of the UI cares about, and the bus that fans them out.
//!
//! The bus keeps its subscribers in subscription order, each under an id it never hands
//! out twice. Dispatching means calling each subscriber of a snapshot taken before the
//! first call, so a subscriber that subscribes or unsubscribes while reacting changes who
//! hears the next event, not this one.
use vstd::prelude::*;

verus! {

/// Something that happened in the client that more than one part of the UI cares about.
#[derive(Debug, Clone, PartialEq, Eq)]
pub enum ClientEvent {
    /// A login succeeded, or a stored session was restored on reload.
    SessionStarted { login: String, admin: bool },
    /// The user logged out deliberately.
    SessionEnded,
    /// A call came back 401. Published by the transport, not by a use case.
    SessionExpired,
    /// Shared reference data changed, so every category picker is stale.
    CategoryChanged,
    /// The wallet list, and any balance shown beside it, are stale.
    WalletChanged,
    /// An expense was added, edited or removed in `wallet_id`.
    ExpenseChanged { wallet_id: i32 },
    /// A budget was created, edited or removed.
    BudgetChanged,
    /// An account was edited.
    AccountChanged { login: String },
    AccountRemoved { login: String },
    AccountRegistered { login: String },
}

/// [`ClientEvent`] with its text as character sequences.
pub enum EventView {
    SessionStarted { login: Seq<char>, admin: bool },
    SessionEnded,
    SessionExpired,
    CategoryChanged,
    WalletChanged,
    ExpenseChanged { wallet_id: i32 },
    BudgetChanged,
    AccountChanged { login: Seq<char> },
    AccountRemoved { login: Seq<char> },
    AccountRegistered { login: Seq<char> },
}

impl View for ClientEvent {
    type V = EventView;

    open spec fn view(&self) -> EventView {
        match self {
            ClientEvent::SessionStarted { login, admin } => EventView::SessionStarted {
                login: login@,
                admin: *admin,
            },
            ClientEvent::SessionEnded => EventView::SessionEnded,
            ClientEvent::SessionExpired => EventView::SessionExpired,
            ClientEvent::CategoryChanged => EventView::CategoryChanged,
            ClientEvent::WalletChanged => EventView::WalletChanged,
            ClientEvent::ExpenseChanged { wallet_id } => EventView::ExpenseChanged {
                wallet_id: *wallet_id,
            },
            ClientEvent::BudgetChanged => EventView::BudgetChanged,
            ClientEvent::AccountChanged { login } => EventView::AccountChanged { login: login@ },
            ClientEvent::AccountRemoved { login } => EventView::AccountRemoved { login: login@ },
            ClientEvent::AccountRegistered { login } => EventView::AccountRegistered {
                login: login@,
            },
        }
    }
}

/// What a change announces once the server has answered: `event` when it succeeded,
/// nothing when it failed, because nothing changed.
pub fn announce_on_success<T, E>(outcome: &Result<T, E>, event: ClientEvent) -> (r: Vec<ClientEvent>)
    ensures
        outcome is Ok ==> r@ == seq![event],
        outcome is Err ==> r@.len() == 0,
{
    let mut r = Vec::new();
    if outcome.is_ok() {
        r.push(event);
    }
    proof {
        if outcome is Ok {
            assert(r@ =~= seq![event]);
        }
    }
    r
}

/// The handle a subscriber is removed by.
#[derive(Debug, Clone, Copy, PartialEq, Eq, Hash, PartialOrd, Ord)]
pub struct SubscriptionId(pub u64);

/// Fan-out inside the client: a use case announces a fact without knowing who reacts.
pub trait EventBus {
    /// Whatever reacts to an event; in the browser, a shared closure.
    type Subscriber;

    fn publish(&self, event: ClientEvent);

    fn subscribe(&self, subscriber: Self::Subscriber) -> SubscriptionId;

    fn unsubscribe(&self, id: SubscriptionId);
}

/// Fan-out inside the client, over subscribers of type `S`.
pub struct InProcessBus<S> {
    ids: Vec<u64>,
    subscribers: Vec<S>,
    next_id: u64,
}

impl<S> InProcessBus<S> {
    /// The ids of the current subscribers, in subscription order.
    pub closed spec fn ids(&self) -> Seq<u64> {
        self.ids@
    }

    /// The current subscribers, in subscription order.
    pub closed spec fn subs(&self) -> Seq<S> {
        self.subscribers@
    }

    /// The id the next subscriber will get.
    pub closed spec fn next(&self) -> u64 {
        self.next_id
    }

    /// One id per subscriber, increasing in subscription order, all below `next`.
    pub open spec fn wf(&self) -> bool {
        &&& self.ids().len() == self.subs().len()
        &&& forall|i: int, j: int|
            0 <= i < j < self.ids().len() ==> #[trigger] self.ids()[i] < #[trigger] self.ids()[j]
        &&& forall|i: int| 0 <= i < self.ids().len() ==> #[trigger] self.ids()[i] < self.next()
    }

    /// A bus with nobody listening.
    pub fn new() -> (r: Self)
        ensures
            r.wf(),
            r.ids().len() == 0,
            r.next() == 0,
    {
        InProcessBus { ids: Vec::new(), subscribers: Vec::new(), next_id: 0 }
    }

    pub fn subscriber_count(&self) -> (r: usize)
        requires
            self.wf(),
        ensures
            r == self.subs().len(),
    {
        self.subscribers.len()
    }

    /// The id the next subscriber will be given.
    pub fn next_id(&self) -> (r: u64)
        ensures
            r == self.next(),
    {
        self.next_id
    }

    /// Adds `subscriber` after every current one, under an id no subscriber has held.
    pub fn subscribe(&mut self, subscriber: S) -> (r: SubscriptionId)
        requires
            old(self).wf(),
            old(self).next() < u64::MAX,
        ensures
            final(self).wf(),
            r.0 == old(self).next(),
            !old(self).ids().contains(r.0),
            final(self).next() == old(self).next() + 1,
            final(self).ids() == old(self).ids().push(r.0),
            final(self).subs() == old(self).subs().push(subscriber),
            bus_step(*old(self), BusCall::Subscribe(r.0), *final(self)),
    {
        let id = self.next_id;
        self.ids.push(id);
        self.subscribers.push(subscriber);
        self.next_id = id + 1;
        SubscriptionId(id)
    }

    /// Removes the subscriber held under `id`; an id nobody holds changes nothing.
    pub fn unsubscribe(&mut self, id: SubscriptionId)
        requires
            old(self).wf(),
        ensures
            final(self).wf(),
            final(self).next() == old(self).next(),
            !final(self).ids().contains(id.0),
            old(self).ids().contains(id.0) ==> {
                let k = old(self).ids().index_of(id.0);
                &&& final(self).ids() == old(self).ids().remove(k)
                &&& final(self).subs() == old(self).subs().remove(k)
            },
            !old(self).ids().contains(id.0) ==> {
                &&& final(self).ids() == old(self).ids()
                &&& final(self).subs() == old(self).subs()
            },
            bus_step(*old(self), BusCall::Unsubscribe(id.0), *final(self)),
    {
        let n = self.ids.len();
        let mut i: usize = 0;
        while i < n
            invariant
                n == self.ids@.len(),
                i <= n,
                self == old(self),
                self.wf(),
                forall|k: int| 0 <= k < i ==> self.ids@[k] != id.0,
            decreases n - i,
        {
            if self.ids[i] == id.0 {
                proof {
                    assert(self.ids@.contains(id.0));
                    let k = self.ids@.index_of(id.0);
                    assert(self.ids@[k] == id.0);
                    if k < i {
                        assert(false);
                    } else if k > i {
                        assert(self.ids()[i as int] < self.ids()[k]);
                    }
                    assert(k == i);
                }
                let ghost before = self.ids@;
                self.ids.remove(i);
                self.subscribers.remove(i);
                proof {
                    assert(self.ids@ == before.remove(i as int));
                    assert forall|a: int, b: int|
                        0 <= a < b < self.ids@.len() implies #[trigger] self.ids@[a]
                        < #[trigger] self.ids@[b] by {
                        if a < i {
                            if b < i {
                            } else {
                                assert(self.ids@[b] == before[b + 1]);
                            }
                        } else {
                            assert(self.ids@[a] == before[a + 1]);
                            assert(self.ids@[b] == before[b + 1]);
                        }
                    }
                    assert forall|a: int| 0 <= a < self.ids@.len() implies #[trigger] self.ids@[a]
                        < self.next_id by {
                        if a >= i {
                            assert(self.ids@[a] == before[a + 1]);
                        }
                    }
                    if self.ids@.contains(id.0) {
                        let j = self.ids@.index_of(id.0);
                        if j < i {
                            assert(before[j] == id.0);
                        } else {
                            assert(before[j + 1] == id.0);
                            assert(before[i as int] < before[j + 1]);
                        }
                    }
                }
                return;
            }
            i = i + 1;
        }
    }

    /// The subscribers to call for one event, in subscription order.
    ///
    /// Callers take a copy before calling any of them, so a subscriber that subscribes or
    /// unsubscribes while reacting does not change who hears the event in flight.
    pub fn subscribers(&self) -> (r: &Vec<S>)
        ensures
            r@ == self.subs(),
    {
        &self.subscribers
    }
}

/// Subscribing and then unsubscribing the id handed back leaves the same subscribers, in
/// the same order, as before.
pub proof fn lemma_subscribe_unsubscribe_restores<S>(
    before: InProcessBus<S>,
    middle: InProcessBus<S>,
    after: InProcessBus<S>,
    id: u64,
    subscriber: S,
)
    requires
        before.wf(),
        id == before.next(),
        middle.ids() == before.ids().push(id),
        middle.subs() == before.subs().push(subscriber),
        middle.ids().contains(id) ==> {
            let k = middle.ids().index_of(id);
            &&& after.ids() == middle.ids().remove(k)
            &&& after.subs() == middle.subs().remove(k)
        },
    ensures
        after.ids() == before.ids(),
        after.subs() == before.subs(),
{
    let n = before.ids().len();
    assert(middle.ids()[n as int] == id);
    assert(middle.ids().contains(id));
    let k = middle.ids().index_of(id);
    if k < n {
        assert(before.ids()[k] < before.next());
        assert(middle.ids()[k] == before.ids()[k]);
    }
    assert(k == n);
    assert(middle.ids().remove(k) =~= before.ids());
    assert(middle.subs().remove(k) =~= before.subs());
}

/// One call made on a bus: a subscribe that was handed `id`, or an unsubscribe of `id`.
pub enum BusCall {
    Subscribe(u64),
    Unsubscribe(u64),
}

/// Whether `after` is what `call` leaves of `before`, as [`InProcessBus::subscribe`] and
/// [`InProcessBus::unsubscribe`] promise.
pub open spec fn bus_step<S>(before: InProcessBus<S>, call: BusCall, after: InProcessBus<S>) -> bool {
    match call {
        BusCall::Subscribe(id) => {
            &&& id == before.next()
            &&& after.next() == before.next() + 1
            &&& after.ids() == before.ids().push(id)
            &&& after.subs().len() == before.subs().len() + 1
        },
        BusCall::Unsubscribe(id) => {
            &&& after.next() == before.next()
            &&& before.ids().contains(id) ==> {
                let k = before.ids().index_of(id);
                &&& after.ids() == before.ids().remove(k)
                &&& after.subs() == before.subs().remove(k)
            }
            &&& !before.ids().contains(id) ==> {
                &&& after.ids() == before.ids()
                &&& after.subs() == before.subs()
            }
        },
    }
}

/// Whether `states` is a history of the bus under `calls`: each state what the call before
/// it left, every one of them well formed.
pub open spec fn bus_history<S>(states: Seq<InProcessBus<S>>, calls: Seq<BusCall>) -> bool {
    &&& states.len() == calls.len() + 1
    &&& forall|i: int| 0 <= i < states.len() ==> (#[trigger] states[i]).wf()
    &&& forall|i: int| 0 <= i < calls.len() ==> bus_step(states[i], #[trigger] calls[i], states[i + 1])
}

/// How many of the first `n` calls are subscribes.
pub open spec fn subscribes_among(calls: Seq<BusCall>, n: nat) -> nat
    decreases n,
{
    if n == 0 {
        0
    } else {
        subscribes_among(calls, (n - 1) as nat) + if calls[n - 1] is Subscribe {
            1nat
        } else {
            0nat
        }
    }
}

/// How many of the first `n` calls unsubscribed an id that was held at the time.
pub open spec fn removals_among<S>(states: Seq<InProcessBus<S>>, calls: Seq<BusCall>, n: nat) -> nat
    decreases n,
{
    if n == 0 {
        0
    } else {
        removals_among(states, calls, (n - 1) as nat) + match calls[n - 1] {
            BusCall::Unsubscribe(id) => if states[n - 1].ids().contains(id) {
                1nat
            } else {
                0nat
            },
            BusCall::Subscribe(_) => 0nat,
        }
    }
}

/// Over any history, the subscribers are those there at the start, plus one for every
/// subscribe, less one for every unsubscribe of an id then held; an unknown id removes
/// nothing. From a new bus, the count is the subscribes less those unsubscribed.
pub proof fn lemma_subscriber_count_over_history<S>(
    states: Seq<InProcessBus<S>>,
    calls: Seq<BusCall>,
    n: nat,
)
    requires
        bus_history(states, calls),
        n <= calls.len(),
    ensures
        states[n as int].subs().len() + removals_among(states, calls, n) == states[0].subs().len()
            + subscribes_among(calls, n),
    decreases n,
{
    if n > 0 {
        let i = n - 1;
        lemma_subscriber_count_over_history(states, calls, (n - 1) as nat);
        let before = states[i];
        let after = states[i + 1];
        assert(bus_step(before, calls[i], after));
        assert(before.wf());
        match calls[i] {
            BusCall::Subscribe(_) => {},
            BusCall::Unsubscribe(id) => {
                if before.ids().contains(id) {
                    let k = before.ids().index_of(id);
                    assert(0 <= k < before.subs().len());
                }
            },
        }
    }
}

proof fn lemma_next_grows<S>(states: Seq<InProcessBus<S>>, calls: Seq<BusCall>, i: int, j: int)
    requires
        bus_history(states, calls),
        0 <= i <= j < states.len(),
    ensures
        states[i].next() <= states[j].next(),
    decreases j - i,
{
    if i < j {
        lemma_next_grows(states, calls, i, j - 1);
        assert(bus_step(states[j - 1], calls[j - 1], states[j]));
    }
}

/// Ids are never reused: over any history, no two subscribes are handed the same id.
pub proof fn lemma_ids_never_reused<S>(states: Seq<InProcessBus<S>>, calls: Seq<BusCall>, i: int, j: int)
    requires
        bus_history(states, calls),
        0 <= i < j < calls.len(),
        calls[i] is Subscribe,
        calls[j] is Subscribe,
    ensures
        calls[i]->Subscribe_0 != calls[j]->Subscribe_0,
{
    assert(bus_step(states[i], calls[i], states[i + 1]));
    assert(bus_step(states[j], calls[j], states[j + 1]));
    lemma_next_grows(states, calls, i + 1, j);
}

} // verus!
