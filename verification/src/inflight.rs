//! The table of requests in flight, by which identical requests made at
//! the same time collapse into one upstream call.

use vstd::prelude::*;
use dashmap::DashMap;
use crate::cache::{raw_key, raw_view, CacheKey, CacheKeyView, RawKey};

verus! {

/// The concurrent map that holds the requests in flight: for each key the
/// ticket of the request that owns the upstream call.
pub type FlightMap = DashMap<RawKey, u64>;

/// The requests in flight as the contracts see them.
pub type Flights = Map<CacheKeyView, u64>;

/// What a flight map holds.
pub uninterp spec fn flights(m: FlightMap) -> Flights;

/// The ticket filed under `key`, if there is one.
pub open spec fn ticket_of(table: Flights, key: CacheKeyView) -> Option<u64> {
    if table.contains_key(key) {
        Some(table[key])
    } else {
        None
    }
}

/// `DashMap::new`: the map it makes holds nothing.
#[verifier::external_body]
fn flight_map_new() -> (m: FlightMap)
    ensures
        flights(m) == Flights::empty(),
{
    DashMap::new()
}

/// `DashMap::get`, with the value copied out of the guard: the ticket under
/// the key, or `None` where the map has none.
#[verifier::external_body]
fn flight_map_get(m: &FlightMap, key: &RawKey) -> (r: Option<u64>)
    ensures
        r == ticket_of(flights(*m), raw_view(*key)),
{
    m.get(key).map(|e| *e.value())
}

/// `DashMap::insert`: afterwards the key holds the ticket and every other
/// key what it held; the ticket that the key held before is returned.
#[verifier::external_body]
fn flight_map_insert(m: &mut FlightMap, key: RawKey, ticket: u64) -> (previous: Option<u64>)
    ensures
        flights(*final(m)) == flights(*old(m)).insert(raw_view(key), ticket),
        previous == ticket_of(flights(*old(m)), raw_view(key)),
{
    m.insert(key, ticket)
}

/// `DashMap::remove`: afterwards the key holds nothing and every other key
/// what it held; the ticket that the key held is returned.
#[verifier::external_body]
fn flight_map_remove(m: &mut FlightMap, key: &RawKey) -> (previous: Option<u64>)
    ensures
        flights(*final(m)) == flights(*old(m)).remove(raw_view(*key)),
        previous == ticket_of(flights(*old(m)), raw_view(*key)),
{
    m.remove(key).map(|kv| kv.1)
}

/// What a request is told when it asks for the upstream call of its key.
#[derive(Clone, Copy, Debug, PartialEq, Eq, Structural)]
pub enum Claim {
    /// No other request is in flight for the key: this one makes the call,
    /// under the given ticket.
    Owner(u64),
    /// Another request is making the call, under the given ticket: this one
    /// waits for it.
    Join(u64),
}

/// The map of the table, which only the table reaches into.
pub struct FlightStore {
    map: FlightMap,
}

impl View for FlightStore {
    type V = Flights;

    closed spec fn view(&self) -> Flights {
        flights(self.map)
    }
}

/// The table of requests in flight.
pub struct InflightTable {
    /// The keys in flight, each with the ticket of its owner.
    pub flights: FlightStore,
    /// The ticket that the next owner gets.
    pub next_ticket: u64,
}

impl View for InflightTable {
    type V = Flights;

    open spec fn view(&self) -> Flights {
        self.flights@
    }
}

/// The keys in flight after a request has asked for `key`.
pub open spec fn after_claim(table: Flights, key: CacheKeyView, ticket: u64) -> Flights {
    if table.contains_key(key) {
        table
    } else {
        table.insert(key, ticket)
    }
}

/// How many requests are made the owner when one request after the other
/// asks for `key`, with none finishing in between. `table` holds the
/// requests in flight when the first one asks, and `tickets` the ticket
/// that is on offer to each.
pub open spec fn owners(table: Flights, key: CacheKeyView, tickets: Seq<u64>) -> nat
    decreases tickets.len(),
{
    if tickets.len() == 0 {
        0
    } else {
        (if table.contains_key(key) {
            0nat
        } else {
            1nat
        }) + owners(after_claim(table, key, tickets[0]), key, tickets.drop_first())
    }
}

/// Of any number of requests for one key that overlap, exactly one is made
/// the owner of the upstream call where none was in flight before, and none
/// where one was.
pub proof fn lemma_single_flight(table: Flights, key: CacheKeyView, tickets: Seq<u64>)
    requires
        tickets.len() >= 1,
    ensures
        owners(table, key, tickets) == (if table.contains_key(key) {
            0nat
        } else {
            1nat
        }),
    decreases tickets.len(),
{
    let next = after_claim(table, key, tickets[0]);
    assert(next.contains_key(key));
    if tickets.len() > 1 {
        lemma_single_flight(next, key, tickets.drop_first());
    } else {
        assert(owners(next, key, tickets.drop_first()) == 0);
    }
}

/// A request for another key changes nothing for `key`: it is in flight
/// afterwards exactly if it was before, under the same ticket.
pub proof fn lemma_other_keys_do_not_interfere(
    table: Flights,
    key: CacheKeyView,
    other: CacheKeyView,
    ticket: u64,
)
    requires
        other != key,
    ensures
        ticket_of(after_claim(table, other, ticket), key) == ticket_of(table, key),
        ticket_of(table.remove(other), key) == ticket_of(table, key),
{
}

impl InflightTable {
    /// An empty table.
    pub fn new() -> (t: InflightTable)
        ensures
            t@ == Flights::empty(),
            t.next_ticket == 0,
    {
        InflightTable { flights: FlightStore { map: flight_map_new() }, next_ticket: 0 }
    }

    /// The ticket of the request in flight for `key`, if there is one.
    pub fn get(&self, key: &CacheKey) -> (r: Option<u64>)
        ensures
            r == ticket_of(self@, key@),
    {
        let raw = raw_key(key);
        flight_map_get(&self.flights.map, &raw)
    }

    /// Asks for the upstream call of `key`. Where a request is in flight for
    /// the key, the table stays as it is and the caller joins that request.
    /// Where none is, the caller is registered as the owner under the next
    /// ticket.
    pub fn claim(&mut self, key: &CacheKey) -> (r: Claim)
        ensures
            final(self)@ == after_claim(old(self)@, key@, old(self).next_ticket),
            old(self)@.contains_key(key@) ==> r == Claim::Join(old(self)@[key@])
                && final(self).next_ticket == old(self).next_ticket,
            !old(self)@.contains_key(key@) ==> r == Claim::Owner(old(self).next_ticket)
                && final(self).next_ticket == (if old(self).next_ticket == u64::MAX {
                0
            } else {
                old(self).next_ticket + 1
            }),
    {
        let raw = raw_key(key);
        match flight_map_get(&self.flights.map, &raw) {
            Some(ticket) => Claim::Join(ticket),
            None => {
                let ticket = self.next_ticket;
                let _ = flight_map_insert(&mut self.flights.map, raw, ticket);
                self.next_ticket = if ticket == u64::MAX {
                    0
                } else {
                    ticket + 1
                };
                Claim::Owner(ticket)
            },
        }
    }

    /// Ends the flight of `key`: the key is in flight no more, and the
    /// ticket whose waiters are to be woken is returned.
    pub fn release(&mut self, key: &CacheKey) -> (r: Option<u64>)
        ensures
            final(self)@ == old(self)@.remove(key@),
            final(self).next_ticket == old(self).next_ticket,
            r == ticket_of(old(self)@, key@),
    {
        let raw = raw_key(key);
        flight_map_remove(&mut self.flights.map, &raw)
    }
}

} // verus!
