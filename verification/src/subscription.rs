//! The subscription fan-out: it turns the few streams of upstream events
//! into one stream of notifications for each subscribed client.
//!
//! The fan-out keeps the registry of subscriptions and writes the
//! notifications. The channels to the clients are driven from outside: for
//! each event the driver asks for the deliveries, makes them, and reports
//! the subscriptions whose client could not take its message.

use vstd::prelude::*;
use vstd::string::StringExecFns;
use crate::encoding::{
    bytes_data, data, escape, escaped, lemma_quantity_is_plain, quantity, u64_quantity,
};
use crate::errors::ErrorKind;
use crate::jsonrpc::{
    canonical_params, canonicalize, quoted, JsonRpcForwardedResponse, JsonRpcRequest,
};
use crate::pending::{TxState, TxStatus};
use crate::text::str_equal;

verus! {

/// What a client subscribes to.
#[derive(Clone, Copy, Debug, PartialEq, Eq, Structural)]
pub enum SubscriptionKind {
    /// The canonical head, each time it changes.
    NewHeads,
    /// The hash of each pending transaction.
    NewPendingTransactions,
    /// Each pending transaction as a whole.
    NewPendingFullTransactions,
    /// The RLP encoding of each pending transaction.
    NewPendingRawTransactions,
}

/// The kind that the parameters of a subscription request ask for, given
/// in canonical form.
pub open spec fn kind_of(params: Seq<char>) -> Option<SubscriptionKind> {
    if params == "[\"newHeads\"]"@ {
        Some(SubscriptionKind::NewHeads)
    } else if params == "[\"newPendingTransactions\"]"@ {
        Some(SubscriptionKind::NewPendingTransactions)
    } else if params == "[\"newPendingFullTransactions\"]"@ {
        Some(SubscriptionKind::NewPendingFullTransactions)
    } else if params == "[\"newPendingRawTransactions\"]"@ {
        Some(SubscriptionKind::NewPendingRawTransactions)
    } else {
        None
    }
}

impl SubscriptionKind {
    /// The kind that the parameters of a subscription request ask for,
    /// given in canonical form.
    pub fn parse(params: &str) -> (r: Option<SubscriptionKind>)
        ensures
            r == kind_of(params@),
    {
        if str_equal(params, "[\"newHeads\"]") {
            Some(SubscriptionKind::NewHeads)
        } else if str_equal(params, "[\"newPendingTransactions\"]") {
            Some(SubscriptionKind::NewPendingTransactions)
        } else if str_equal(params, "[\"newPendingFullTransactions\"]") {
            Some(SubscriptionKind::NewPendingFullTransactions)
        } else if str_equal(params, "[\"newPendingRawTransactions\"]") {
            Some(SubscriptionKind::NewPendingRawTransactions)
        } else {
            None
        }
    }
}

/// One subscription of one client.
#[derive(Clone, Copy, Debug, PartialEq, Eq, Structural)]
pub struct Subscription {
    /// Its id, unique while the process lives.
    pub id: u64,
    /// What it delivers.
    pub kind: SubscriptionKind,
}

/// An upstream event that the fan-out passes on.
#[derive(Clone, Debug, PartialEq, Eq)]
pub enum Event {
    /// The canonical head changed; the block comes as JSON text, as the
    /// upstream that produced it reported it.
    Head(String),
    /// A transaction moved to another state.
    Tx(TxState),
}

/// One notification on its way to one client.
#[derive(Clone, Debug, PartialEq, Eq)]
pub struct Delivery {
    /// The subscription that it belongs to.
    pub subscription: u64,
    /// The notification as it is written to the client.
    pub message: String,
}

impl View for Delivery {
    type V = (u64, Seq<char>);

    open spec fn view(&self) -> (u64, Seq<char>) {
        (self.subscription, self.message@)
    }
}

/// The views of `deliveries`, in order.
pub open spec fn delivery_views(deliveries: Seq<Delivery>) -> Seq<(u64, Seq<char>)> {
    Seq::new(deliveries.len(), |i: int| deliveries[i]@)
}

/// The notification that carries `result` to subscription `id`: a JSON-RPC
/// notification of the method `eth_subscription` whose parameters hold the
/// result and the id of the subscription as a quantity.
pub open spec fn notification_text(id: u64, result: Seq<char>) -> Seq<char> {
    "{\"jsonrpc\":\"2.0\",\"method\":\"eth_subscription\",\"params\":{\"result\":"@ + result
        + ",\"subscription\":\""@ + quantity(id as nat) + "\"}}"@
}

/// What a subscription of kind `kind` is sent on `event`, as JSON text:
/// the block for a new head; for a transaction its hash, the whole of it or
/// its raw form as a JSON string. A confirmed transaction is passed on to
/// nobody, an orphaned one to everybody again.
pub open spec fn result_for(kind: SubscriptionKind, event: Event) -> Option<Seq<char>> {
    match event {
        Event::Head(block) => if kind == SubscriptionKind::NewHeads {
            Some(block@)
        } else {
            None
        },
        Event::Tx(state) => if state.spec_status() == TxStatus::Confirmed {
            None
        } else {
            match kind {
                SubscriptionKind::NewHeads => None,
                SubscriptionKind::NewPendingTransactions => Some(
                    quoted(data(state.spec_transaction().hash@)),
                ),
                SubscriptionKind::NewPendingFullTransactions => Some(
                    state.spec_transaction().body@,
                ),
                SubscriptionKind::NewPendingRawTransactions => Some(
                    quoted(escaped(state.spec_transaction().raw@)),
                ),
            }
        },
    }
}

/// The notification that `sub` is sent on `event`, if it is sent one.
pub open spec fn message_for(sub: Subscription, event: Event) -> Option<Seq<char>> {
    match result_for(sub.kind, event) {
        Some(result) => Some(notification_text(sub.id, result)),
        None => None,
    }
}

/// The notifications that `event` leads to: one for each of `subs` that it
/// concerns, in the order of the subscriptions.
pub open spec fn deliveries(subs: Seq<Subscription>, event: Event) -> Seq<(u64, Seq<char>)>
    decreases subs.len(),
{
    if subs.len() == 0 {
        Seq::empty()
    } else {
        match message_for(subs.last(), event) {
            Some(m) => deliveries(subs.drop_last(), event).push((subs.last().id, m)),
            None => deliveries(subs.drop_last(), event),
        }
    }
}

/// No id occurs twice, and every id is below `next`.
pub open spec fn distinct_ids(subs: Seq<Subscription>, next: u64) -> bool {
    &&& forall|i: int| 0 <= i < subs.len() ==> (#[trigger] subs[i]).id < next
    &&& forall|i: int, j: int|
        0 <= i < subs.len() && 0 <= j < subs.len() && i != j ==> (#[trigger] subs[i]).id != (
        #[trigger] subs[j]).id
}

/// The id of a new subscription has never been given before: it differs
/// from the id of every subscription in the registry, and every later id
/// is greater.
pub proof fn lemma_new_id_is_new(subs: Seq<Subscription>, next: u64, kind: SubscriptionKind)
    requires
        distinct_ids(subs, next),
        next < u64::MAX,
    ensures
        forall|i: int| 0 <= i < subs.len() ==> (#[trigger] subs[i]).id != next,
        distinct_ids(subs.push((Subscription { id: next, kind })), (next + 1) as u64),
{
    let after = subs.push((Subscription { id: next, kind }));
    assert forall|i: int| 0 <= i < after.len() implies (#[trigger] after[i]).id < next + 1 by {
        if i < subs.len() {
            assert(after[i] == subs[i]);
        }
    }
    assert forall|i: int, j: int|
        0 <= i < after.len() && 0 <= j < after.len() && i != j implies (#[trigger] after[i]).id != (
    #[trigger] after[j]).id by {
        if i < subs.len() {
            assert(after[i] == subs[i]);
        }
        if j < subs.len() {
            assert(after[j] == subs[j]);
        }
    }
}

/// A notification is delivered exactly where a subscription is sent it.
pub proof fn lemma_deliveries_contain(
    subs: Seq<Subscription>,
    event: Event,
    id: u64,
    message: Seq<char>,
)
    ensures
        deliveries(subs, event).contains((id, message)) <==> exists|i: int|
            0 <= i < subs.len() && (#[trigger] subs[i]).id == id && message_for(subs[i], event)
                == Some(message),
    decreases subs.len(),
{
    if subs.len() > 0 {
        let rest = subs.drop_last();
        let all = deliveries(subs, event);
        let before = deliveries(rest, event);
        lemma_deliveries_contain(rest, event, id, message);
        if all.contains((id, message)) {
            let k = choose|k: int| 0 <= k < all.len() && all[k] == (id, message);
            if k < before.len() {
                assert(before[k] == (id, message));
                assert(before.contains((id, message)));
                let i = choose|i: int|
                    0 <= i < rest.len() && (#[trigger] rest[i]).id == id && message_for(
                        rest[i],
                        event,
                    ) == Some(message);
                assert(subs[i] == rest[i]);
            } else {
                assert(subs[subs.len() - 1].id == id);
            }
        }
        if exists|i: int|
            0 <= i < subs.len() && (#[trigger] subs[i]).id == id && message_for(subs[i], event)
                == Some(message) {
            let i = choose|i: int|
                0 <= i < subs.len() && (#[trigger] subs[i]).id == id && message_for(
                    subs[i],
                    event,
                ) == Some(message);
            if i < rest.len() {
                assert(rest[i] == subs[i]);
                assert(before.contains((id, message)));
                let k = choose|k: int| 0 <= k < before.len() && before[k] == (id, message);
                assert(all[k] == (id, message));
            } else {
                assert(all[all.len() - 1] == (id, message));
            }
        }
    }
}

/// Cancelling one subscription changes nothing for another: whatever an
/// event delivers to subscription `other`, it delivers with or without the
/// subscription at position `k`.
pub proof fn lemma_cancel_leaves_others(
    subs: Seq<Subscription>,
    k: int,
    event: Event,
    other: u64,
    message: Seq<char>,
)
    requires
        0 <= k < subs.len(),
        subs[k].id != other,
    ensures
        deliveries(subs.remove(k), event).contains((other, message)) <==> deliveries(
            subs,
            event,
        ).contains((other, message)),
{
    let rest = subs.remove(k);
    lemma_deliveries_contain(subs, event, other, message);
    lemma_deliveries_contain(rest, event, other, message);
    if deliveries(subs, event).contains((other, message)) {
        let i = choose|i: int|
            0 <= i < subs.len() && (#[trigger] subs[i]).id == other && message_for(subs[i], event)
                == Some(message);
        if i < k {
            assert(rest[i] == subs[i]);
        } else {
            assert(rest[i - 1] == subs[i]);
        }
    }
    if deliveries(rest, event).contains((other, message)) {
        let i = choose|i: int|
            0 <= i < rest.len() && (#[trigger] rest[i]).id == other && message_for(rest[i], event)
                == Some(message);
        if i < k {
            assert(rest[i] == subs[i]);
        } else {
            assert(rest[i] == subs[i + 1]);
        }
    }
}

/// The notification that carries `result` to subscription `id`.
pub fn notification(id: u64, result: &str) -> (text: String)
    ensures
        text@ == notification_text(id, result@),
{
    let mut text = String::from_str(
        "{\"jsonrpc\":\"2.0\",\"method\":\"eth_subscription\",\"params\":{\"result\":",
    );
    text.append(result);
    text.append(",\"subscription\":\"");
    text.append(u64_quantity(id).as_str());
    text.append("\"}}");
    assert(text@ =~= notification_text(id, result@));
    text
}

/// `text` between double quotes.
fn in_quotes(text: &str) -> (r: String)
    ensures
        r@ == quoted(text@),
{
    let mut r = String::from_str("\"");
    r.append(text);
    r.append("\"");
    r
}

/// The notification that `sub` is sent on `event`, if it is sent one.
pub fn message(sub: &Subscription, event: &Event) -> (r: Option<String>)
    ensures
        r is Some <==> message_for(*sub, *event) is Some,
        r matches Some(m) ==> message_for(*sub, *event) == Some(m@),
{
    match event {
        Event::Head(block) => match sub.kind {
            SubscriptionKind::NewHeads => Some(notification(sub.id, block.as_str())),
            _ => None,
        },
        Event::Tx(state) => {
            match state.status() {
                TxStatus::Confirmed => None,
                _ => {
                    let tx = state.transaction();
                    match sub.kind {
                        SubscriptionKind::NewHeads => None,
                        SubscriptionKind::NewPendingTransactions => {
                            let hash = bytes_data(&tx.hash.bytes);
                            let result = in_quotes(hash.as_str());
                            Some(notification(sub.id, result.as_str()))
                        },
                        SubscriptionKind::NewPendingFullTransactions => Some(
                            notification(sub.id, tx.body.as_str()),
                        ),
                        SubscriptionKind::NewPendingRawTransactions => {
                            let raw = escape(tx.raw.as_str());
                            let result = in_quotes(raw.as_str());
                            Some(notification(sub.id, result.as_str()))
                        },
                    }
                },
            }
        },
    }
}

/// What `Fanout::eth_subscribe` does with the request `payload`.
///
/// A request without parameters, or with parameters that are no JSON, is
/// invalid; one for a kind that does not exist is unsupported; one that
/// comes when the ids are used up finds no capacity. Each leaves the
/// registry as it is. Every other request registers a subscription under
/// the next id and is answered with that id as a quantity.
pub open spec fn subscribed(
    before: Fanout,
    after: Fanout,
    payload: JsonRpcRequest,
    r: Result<(u64, JsonRpcForwardedResponse), ErrorKind>,
) -> bool {
    &&& r is Err ==> after == before
    &&& match canonical_params(payload.params) {
        Err(_) => r matches Err(e) && e == ErrorKind::InvalidRequest,
        Ok(None) => r matches Err(e) && e == ErrorKind::InvalidRequest,
        Ok(Some(p)) => match kind_of(p) {
            None => r matches Err(e) && e == ErrorKind::Unsupported,
            Some(kind) => if before.next_subscription_id == u64::MAX {
                r matches Err(e) && e == ErrorKind::Capacity
            } else {
                &&& r matches Ok(made)
                &&& made.0 == before.next_subscription_id
                &&& made.1.id == payload.id
                &&& made.1.payload is Result
                &&& made.1.payload.json() == quoted(quantity(made.0 as nat))
                &&& after.next_subscription_id == made.0 + 1
                &&& after.subscriptions@ == before.subscriptions@.push(
                    (Subscription { id: made.0, kind }),
                )
            },
        },
    }
}

/// The registry of subscriptions.
#[derive(Clone, Debug, PartialEq, Eq)]
pub struct Fanout {
    /// The id that the next subscription gets.
    pub next_subscription_id: u64,
    /// The subscriptions, in the order in which they were made.
    pub subscriptions: Vec<Subscription>,
}

impl Fanout {
    /// The invariant of the registry: ids start at 1, none occurs twice,
    /// and all are below the next one.
    pub open spec fn wf(self) -> bool {
        self.next_subscription_id >= 1 && distinct_ids(
            self.subscriptions@,
            self.next_subscription_id,
        )
    }

    /// A registry without subscriptions, whose first id will be 1.
    pub fn new() -> (f: Fanout)
        ensures
            f.wf(),
            f.next_subscription_id == 1,
            f.subscriptions@.len() == 0,
    {
        Fanout { next_subscription_id: 1, subscriptions: Vec::new() }
    }

    /// Registers a subscription of kind `kind` and returns its id. The ids
    /// rise by one with each subscription and are never given twice; when
    /// they are used up, no subscription is made.
    pub fn subscribe(&mut self, kind: SubscriptionKind) -> (r: Result<u64, ErrorKind>)
        requires
            old(self).wf(),
        ensures
            final(self).wf(),
            r is Ok <==> old(self).next_subscription_id < u64::MAX,
            r matches Ok(id) ==> id == old(self).next_subscription_id
                && final(self).next_subscription_id == id + 1 && final(self).subscriptions@
                == old(self).subscriptions@.push((Subscription { id, kind })),
            r matches Err(e) ==> e == ErrorKind::Capacity && *final(self) == *old(self),
    {
        if self.next_subscription_id == u64::MAX {
            return Err(ErrorKind::Capacity);
        }
        let id = self.next_subscription_id;
        self.subscriptions.push(Subscription { id, kind });
        self.next_subscription_id = id + 1;
        Ok(id)
    }

    /// The position of subscription `id`.
    fn position(&self, id: u64) -> (r: Option<usize>)
        ensures
            r matches Some(k) ==> k < self.subscriptions.len() && self.subscriptions[k as int].id
                == id,
            r is None ==> forall|i: int|
                0 <= i < self.subscriptions.len() ==> (#[trigger] self.subscriptions[i]).id != id,
    {
        let mut k: usize = 0;
        while k < self.subscriptions.len()
            invariant
                k <= self.subscriptions.len(),
                forall|i: int| 0 <= i < k ==> (#[trigger] self.subscriptions[i]).id != id,
            decreases self.subscriptions.len() - k,
        {
            if self.subscriptions[k].id == id {
                return Some(k);
            }
            k += 1;
        }
        None
    }

    /// Whether subscription `id` is registered.
    pub open spec fn has(self, id: u64) -> bool {
        exists|i: int|
            0 <= i < self.subscriptions.len() && (#[trigger] self.subscriptions[i]).id == id
    }

    /// Cancels subscription `id`: it is taken out of the registry, and all
    /// others stay as they are, in their order. Returns whether there was
    /// such a subscription.
    pub fn cancel(&mut self, id: u64) -> (r: bool)
        requires
            old(self).wf(),
        ensures
            final(self).wf(),
            final(self).next_subscription_id == old(self).next_subscription_id,
            r == old(self).has(id),
            !r ==> final(self).subscriptions@ == old(self).subscriptions@,
            r ==> exists|k: int|
                0 <= k < old(self).subscriptions.len() && (#[trigger] old(self).subscriptions[k]).id
                    == id && final(self).subscriptions@ == old(self).subscriptions@.remove(k),
            !final(self).has(id),
    {
        match self.position(id) {
            None => false,
            Some(k) => {
                let ghost before = self.subscriptions@;
                let _ = self.subscriptions.remove(k);
                proof {
                    let after = self.subscriptions@;
                    assert(after =~= before.remove(k as int));
                    assert(before[k as int].id == id);
                    assert forall|i: int| 0 <= i < after.len() implies (#[trigger] after[i]).id
                        < self.next_subscription_id && after[i].id != id by {
                        if i < k {
                            assert(after[i] == before[i]);
                        } else {
                            assert(after[i] == before[i + 1]);
                        }
                    }
                    assert forall|i: int, j: int|
                        0 <= i < after.len() && 0 <= j < after.len() && i != j implies (
                    #[trigger] after[i]).id != (#[trigger] after[j]).id by {
                        let a = if i < k {
                            i
                        } else {
                            i + 1
                        };
                        let b = if j < k {
                            j
                        } else {
                            j + 1
                        };
                        assert(after[i] == before[a]);
                        assert(after[j] == before[b]);
                    }
                }
                true
            },
        }
    }

    /// A client could not take the notification of subscription `id`: the
    /// subscription is cancelled, and no other is held up or changed.
    pub fn delivery_failed(&mut self, id: u64) -> (r: bool)
        requires
            old(self).wf(),
        ensures
            final(self).wf(),
            final(self).next_subscription_id == old(self).next_subscription_id,
            r == old(self).has(id),
            !r ==> final(self).subscriptions@ == old(self).subscriptions@,
            r ==> exists|k: int|
                0 <= k < old(self).subscriptions.len() && (#[trigger] old(self).subscriptions[k]).id
                    == id && final(self).subscriptions@ == old(self).subscriptions@.remove(k),
            !final(self).has(id),
    {
        self.cancel(id)
    }

    /// The notifications that `event` leads to: one for each subscription
    /// that it concerns, in the order of the subscriptions.
    pub fn deliver(&self, event: &Event) -> (r: Vec<Delivery>)
        ensures
            delivery_views(r@) == deliveries(self.subscriptions@, *event),
    {
        let mut out: Vec<Delivery> = Vec::new();
        let mut i: usize = 0;
        assert(self.subscriptions@.take(0) =~= Seq::<Subscription>::empty());
        assert(delivery_views(out@) =~= Seq::<(u64, Seq<char>)>::empty());
        while i < self.subscriptions.len()
            invariant
                i <= self.subscriptions.len(),
                delivery_views(out@) == deliveries(self.subscriptions@.take(i as int), *event),
            decreases self.subscriptions.len() - i,
        {
            let sub = self.subscriptions[i];
            let ghost before = delivery_views(out@);
            assert(self.subscriptions@.take(i + 1).drop_last() =~= self.subscriptions@.take(
                i as int,
            ));
            assert(self.subscriptions@.take(i + 1).last() == sub);
            match message(&sub, event) {
                Some(m) => {
                    let ghost view = (sub.id, m@);
                    out.push(Delivery { subscription: sub.id, message: m });
                    assert(delivery_views(out@) =~= before.push(view));
                },
                None => {},
            }
            i += 1;
        }
        assert(self.subscriptions@.take(self.subscriptions.len() as int) =~= self.subscriptions@);
        out
    }

    /// Handles a subscription request whose parameters have the canonical
    /// form `params`: registers the subscription that they ask for and
    /// answers the request with the id of the subscription as a quantity.
    /// A request without parameters is invalid; one for a kind that does
    /// not exist is unsupported.
    pub fn subscribe_with(&mut self, id: String, params: Option<String>) -> (r: Result<
        (u64, JsonRpcForwardedResponse),
        ErrorKind,
    >)
        requires
            old(self).wf(),
        ensures
            final(self).wf(),
            r is Err ==> *final(self) == *old(self),
            match params {
                None => r matches Err(e) && e == ErrorKind::InvalidRequest,
                Some(p) => match kind_of(p@) {
                    None => r matches Err(e) && e == ErrorKind::Unsupported,
                    Some(kind) => if old(self).next_subscription_id == u64::MAX {
                        r matches Err(e) && e == ErrorKind::Capacity
                    } else {
                        &&& r matches Ok(made)
                        &&& made.0 == old(self).next_subscription_id
                        &&& made.1.id == id
                        &&& made.1.payload is Result
                        &&& made.1.payload.json() == quoted(quantity(made.0 as nat))
                        &&& final(self).next_subscription_id == made.0 + 1
                        &&& final(self).subscriptions@ == old(self).subscriptions@.push(
                            (Subscription { id: made.0, kind }),
                        )
                    },
                },
            },
    {
        let kind = match &params {
            None => {
                return Err(ErrorKind::InvalidRequest);
            },
            Some(p) => match SubscriptionKind::parse(p.as_str()) {
                None => {
                    return Err(ErrorKind::Unsupported);
                },
                Some(kind) => kind,
            },
        };
        match self.subscribe(kind) {
            Err(e) => Err(e),
            Ok(subscription) => {
                let response = JsonRpcForwardedResponse::from_string(
                    u64_quantity(subscription),
                    id,
                );
                proof {
                    lemma_quantity_is_plain(subscription as nat);
                }
                Ok((subscription, response))
            },
        }
    }

    /// Handles a subscription request: its parameters are brought into
    /// canonical form, and the rest is as `subscribe_with` describes it.
    /// Parameters that are no JSON make the request invalid.
    pub fn eth_subscribe(&mut self, payload: &JsonRpcRequest) -> (r: Result<
        (u64, JsonRpcForwardedResponse),
        ErrorKind,
    >)
        requires
            old(self).wf(),
        ensures
            final(self).wf(),
            subscribed(*old(self), *final(self), *payload, r),
    {
        match canonicalize(&payload.params) {
            Err(e) => Err(e),
            Ok(params) => self.subscribe_with(payload.id.clone(), params),
        }
    }
}

} // verus!
