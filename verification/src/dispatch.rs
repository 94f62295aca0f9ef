//! What to make of the outcomes of upstream calls: of one call that may be
//! retried, and of the many calls of a broadcast.

use vstd::prelude::*;
use crate::errors::ErrorKind;
use crate::jsonrpc::Payload;
use crate::text::str_equal;

verus! {

/// How often a call that failed in transport is sent again, where nothing
/// else is configured.
pub const DEFAULT_MAX_RETRIES: u32 = 3;

/// How one call to an upstream ended.
#[derive(Clone, Debug, PartialEq, Eq)]
pub enum SendOutcome {
    /// The upstream answered, with a result or with an error of its own.
    Reply(Payload),
    /// The transport failed.
    Transport,
    /// The upstream or the shared limiter had no capacity.
    Capacity,
    /// The upstream was shut down.
    Canceled,
}

impl Payload {
    /// A copy of the payload.
    pub fn duplicate(&self) -> (r: Payload)
        ensures
            r == *self,
    {
        match self {
            Payload::Result(j) => Payload::Result(j.clone()),
            Payload::Error(j) => Payload::Error(j.clone()),
        }
    }

    /// Whether the payload is the result `null`.
    pub open spec fn is_null(self) -> bool {
        self matches Payload::Result(j) && j@ == "null"@
    }

    /// Whether the payload is a result other than `null`.
    pub open spec fn is_value(self) -> bool {
        self is Result && !self.is_null()
    }
}

/// What follows a call to the best upstream.
#[derive(Debug, PartialEq, Eq)]
pub enum Attempt {
    /// The call is sent again, to the upstream that is the best by then.
    Retry,
    /// The request is answered.
    Done(Result<Payload, ErrorKind>),
}

/// What follows a call that ended with `outcome` after `retries` earlier
/// retries: a failure of the transport is retried up to `max_retries`
/// times and surfaced only then; an answer of the upstream, its errors
/// included, is handed on as it is; everything else is surfaced.
pub open spec fn attempt_result(outcome: SendOutcome, retries: u32, max_retries: u32) -> Attempt {
    match outcome {
        SendOutcome::Reply(p) => Attempt::Done(Ok(p)),
        SendOutcome::Transport => if retries < max_retries {
            Attempt::Retry
        } else {
            Attempt::Done(Err(ErrorKind::Transport))
        },
        SendOutcome::Capacity => Attempt::Done(Err(ErrorKind::Capacity)),
        SendOutcome::Canceled => Attempt::Done(Err(ErrorKind::Canceled)),
    }
}

/// What follows a call that ended with `outcome` after `retries` earlier
/// retries.
pub fn after_attempt(outcome: SendOutcome, retries: u32, max_retries: u32) -> (r: Attempt)
    ensures
        r == attempt_result(outcome, retries, max_retries),
{
    match outcome {
        SendOutcome::Reply(p) => Attempt::Done(Ok(p)),
        SendOutcome::Transport => if retries < max_retries {
            Attempt::Retry
        } else {
            Attempt::Done(Err(ErrorKind::Transport))
        },
        SendOutcome::Capacity => Attempt::Done(Err(ErrorKind::Capacity)),
        SendOutcome::Canceled => Attempt::Done(Err(ErrorKind::Canceled)),
    }
}

/// Which payloads a broadcast looks for.
#[derive(Clone, Copy, Debug, PartialEq, Eq, Structural)]
pub enum Wanted {
    /// A result, whatever it holds.
    AnyResult,
    /// A result other than `null`.
    Value,
    /// The result `null`.
    Null,
    /// An error of the upstream.
    UpstreamError,
}

/// Whether `outcome` is an answer of the kind `wanted`.
pub open spec fn is_wanted(outcome: SendOutcome, wanted: Wanted) -> bool {
    outcome matches SendOutcome::Reply(p) && match wanted {
        Wanted::AnyResult => p is Result,
        Wanted::Value => p.is_value(),
        Wanted::Null => p.is_null(),
        Wanted::UpstreamError => p is Error,
    }
}

/// The first of `outcomes` that is an answer of the kind `wanted`.
pub open spec fn first_wanted(outcomes: Seq<SendOutcome>, wanted: Wanted) -> Option<Payload>
    decreases outcomes.len(),
{
    if outcomes.len() == 0 {
        None
    } else if is_wanted(outcomes[0], wanted) {
        Some(outcomes[0]->Reply_0)
    } else {
        first_wanted(outcomes.drop_first(), wanted)
    }
}

/// Whether a call among `outcomes` failed in transport.
pub open spec fn any_transport(outcomes: Seq<SendOutcome>) -> bool {
    exists|i: int| 0 <= i < outcomes.len() && (#[trigger] outcomes[i]) is Transport
}

/// Whether a call among `outcomes` was refused for capacity.
pub open spec fn any_capacity(outcomes: Seq<SendOutcome>) -> bool {
    exists|i: int| 0 <= i < outcomes.len() && (#[trigger] outcomes[i]) is Capacity
}

/// Whether a call among `outcomes` was cancelled.
pub open spec fn any_canceled(outcomes: Seq<SendOutcome>) -> bool {
    exists|i: int| 0 <= i < outcomes.len() && (#[trigger] outcomes[i]) is Canceled
}

/// The answer for a broadcast none of whose calls gave what was looked
/// for: the most severe of the failures. An error of the upstream, which is
/// relayed as it came, is more severe than a failure of the transport, and
/// that more than a lack of capacity. Without any call there was no server.
pub open spec fn worst_failure(outcomes: Seq<SendOutcome>) -> Result<Payload, ErrorKind> {
    match first_wanted(outcomes, Wanted::UpstreamError) {
        Some(p) => Ok(p),
        None => if any_transport(outcomes) {
            Err(ErrorKind::Transport)
        } else if any_capacity(outcomes) {
            Err(ErrorKind::Capacity)
        } else if any_canceled(outcomes) {
            Err(ErrorKind::Canceled)
        } else {
            Err(ErrorKind::NoServers)
        },
    }
}

/// The answer to a request that was broadcast, from the outcomes of the
/// calls in the order in which they ended: the first result, or the most
/// severe failure where there is none.
pub open spec fn broadcast_result(outcomes: Seq<SendOutcome>) -> Result<Payload, ErrorKind> {
    match first_wanted(outcomes, Wanted::AnyResult) {
        Some(p) => Ok(p),
        None => worst_failure(outcomes),
    }
}

/// The answer to a query that was put to every upstream, from the outcomes
/// of the calls in the order in which they ended: the first result that is
/// not `null`; `null` where some upstream said so and none knew better; the
/// most severe failure where none gave a result.
pub open spec fn fan_query_result(outcomes: Seq<SendOutcome>) -> Result<Payload, ErrorKind> {
    match first_wanted(outcomes, Wanted::Value) {
        Some(p) => Ok(p),
        None => match first_wanted(outcomes, Wanted::Null) {
            Some(p) => Ok(p),
            None => worst_failure(outcomes),
        },
    }
}

/// Where one upstream answers with a value, the query is answered with a
/// value that an upstream gave, whatever the others say: with the first
/// such value in the order in which the calls ended.
pub proof fn lemma_fan_query_prefers_a_value(outcomes: Seq<SendOutcome>, i: int)
    requires
        0 <= i < outcomes.len(),
        is_wanted(outcomes[i], Wanted::Value),
    ensures
        fan_query_result(outcomes) == Ok::<Payload, ErrorKind>(
            first_wanted(outcomes, Wanted::Value).unwrap(),
        ),
        exists|k: int|
            0 <= k < outcomes.len() && (#[trigger] outcomes[k]) == SendOutcome::Reply(
                fan_query_result(outcomes).unwrap(),
            ) && fan_query_result(outcomes).unwrap().is_value(),
{
    lemma_first_wanted_is_wanted(outcomes, Wanted::Value);
    lemma_first_wanted_finds(outcomes, Wanted::Value, i);
    let p = first_wanted(outcomes, Wanted::Value).unwrap();
    let k = choose|k: int|
        0 <= k < outcomes.len() && is_wanted(#[trigger] outcomes[k], Wanted::Value) && outcomes[k]
            == SendOutcome::Reply(p);
    assert(outcomes[k] == SendOutcome::Reply(p));
}

/// Of two upstreams of which one answers `null` and the other a value, the
/// value is the answer, whichever of them answers first.
pub proof fn lemma_fan_query_of_two(null: Payload, value: Payload)
    requires
        null.is_null(),
        value.is_value(),
    ensures
        fan_query_result(seq![SendOutcome::Reply(null), SendOutcome::Reply(value)]) == Ok::<
            Payload,
            ErrorKind,
        >(value),
        fan_query_result(seq![SendOutcome::Reply(value), SendOutcome::Reply(null)]) == Ok::<
            Payload,
            ErrorKind,
        >(value),
{
    let a = seq![SendOutcome::Reply(null), SendOutcome::Reply(value)];
    let b = seq![SendOutcome::Reply(value), SendOutcome::Reply(null)];
    assert(a.drop_first() =~= seq![SendOutcome::Reply(value)]);
    assert(first_wanted(a.drop_first(), Wanted::Value) == Some(value));
    assert(first_wanted(a, Wanted::Value) == Some(value));
    assert(first_wanted(b, Wanted::Value) == Some(value));
}

/// What `first_wanted` finds is of the kind looked for.
pub proof fn lemma_first_wanted_is_wanted(outcomes: Seq<SendOutcome>, wanted: Wanted)
    ensures
        first_wanted(outcomes, wanted) matches Some(p) ==> exists|i: int|
            0 <= i < outcomes.len() && is_wanted(#[trigger] outcomes[i], wanted) && outcomes[i]
                == SendOutcome::Reply(p),
    decreases outcomes.len(),
{
    if outcomes.len() > 0 && !is_wanted(outcomes[0], wanted) {
        lemma_first_wanted_is_wanted(outcomes.drop_first(), wanted);
        if first_wanted(outcomes, wanted) is Some {
            let p = first_wanted(outcomes, wanted).unwrap();
            let i = choose|i: int|
                0 <= i < outcomes.drop_first().len() && is_wanted(
                    #[trigger] outcomes.drop_first()[i],
                    wanted,
                ) && outcomes.drop_first()[i] == SendOutcome::Reply(p);
            assert(outcomes[i + 1] == outcomes.drop_first()[i]);
        }
    } else if outcomes.len() > 0 {
        assert(is_wanted(outcomes[0], wanted));
    }
}

/// `first_wanted` finds something wherever there is something to find.
pub proof fn lemma_first_wanted_finds(outcomes: Seq<SendOutcome>, wanted: Wanted, i: int)
    requires
        0 <= i < outcomes.len(),
        is_wanted(outcomes[i], wanted),
    ensures
        first_wanted(outcomes, wanted) is Some,
    decreases outcomes.len(),
{
    if !is_wanted(outcomes[0], wanted) {
        assert(outcomes.drop_first()[i - 1] == outcomes[i]);
        lemma_first_wanted_finds(outcomes.drop_first(), wanted, i - 1);
    }
}

fn matches_wanted(outcome: &SendOutcome, wanted: Wanted) -> (r: bool)
    ensures
        r == is_wanted(*outcome, wanted),
{
    match outcome {
        SendOutcome::Reply(Payload::Result(j)) => {
            let null = str_equal(j.as_str(), "null");
            match wanted {
                Wanted::AnyResult => true,
                Wanted::Value => !null,
                Wanted::Null => null,
                Wanted::UpstreamError => false,
            }
        },
        SendOutcome::Reply(Payload::Error(_)) => match wanted {
            Wanted::UpstreamError => true,
            _ => false,
        },
        _ => false,
    }
}

fn find_wanted(outcomes: &Vec<SendOutcome>, wanted: Wanted) -> (r: Option<Payload>)
    ensures
        r == first_wanted(outcomes@, wanted),
{
    let mut i: usize = 0;
    assert(outcomes@.skip(0) =~= outcomes@);
    while i < outcomes.len()
        invariant
            i <= outcomes.len(),
            first_wanted(outcomes@, wanted) == first_wanted(outcomes@.skip(i as int), wanted),
        decreases outcomes.len() - i,
    {
        assert(outcomes@.skip(i as int)[0] == outcomes@[i as int]);
        if matches_wanted(&outcomes[i], wanted) {
            match &outcomes[i] {
                SendOutcome::Reply(p) => {
                    return Some(p.duplicate());
                },
                _ => {},
            }
        }
        assert(outcomes@.skip(i as int).drop_first() =~= outcomes@.skip(i + 1));
        i += 1;
    }
    None
}

fn find_worst(outcomes: &Vec<SendOutcome>) -> (r: Result<Payload, ErrorKind>)
    ensures
        r == worst_failure(outcomes@),
{
    if let Some(p) = find_wanted(outcomes, Wanted::UpstreamError) {
        return Ok(p);
    }
    let mut transport = false;
    let mut capacity = false;
    let mut canceled = false;
    let mut i: usize = 0;
    while i < outcomes.len()
        invariant
            i <= outcomes.len(),
            transport == any_transport(outcomes@.take(i as int)),
            capacity == any_capacity(outcomes@.take(i as int)),
            canceled == any_canceled(outcomes@.take(i as int)),
        decreases outcomes.len() - i,
    {
        let ghost before = outcomes@.take(i as int);
        let ghost after = outcomes@.take(i + 1);
        assert(after[i as int] == outcomes@[i as int]);
        assert(forall|j: int| 0 <= j < i ==> before[j] == after[j]);
        match &outcomes[i] {
            SendOutcome::Transport => {
                transport = true;
            },
            SendOutcome::Capacity => {
                capacity = true;
            },
            SendOutcome::Canceled => {
                canceled = true;
            },
            _ => {},
        }
        proof {
            if any_transport(before) {
                let j = choose|j: int| 0 <= j < before.len() && (#[trigger] before[j]) is Transport;
                assert(after[j] is Transport);
            }
            if any_capacity(before) {
                let j = choose|j: int| 0 <= j < before.len() && (#[trigger] before[j]) is Capacity;
                assert(after[j] is Capacity);
            }
            if any_canceled(before) {
                let j = choose|j: int| 0 <= j < before.len() && (#[trigger] before[j]) is Canceled;
                assert(after[j] is Canceled);
            }
            if any_transport(after) {
                let j = choose|j: int| 0 <= j < after.len() && (#[trigger] after[j]) is Transport;
                if j < i {
                    assert(before[j] is Transport);
                }
            }
            if any_capacity(after) {
                let j = choose|j: int| 0 <= j < after.len() && (#[trigger] after[j]) is Capacity;
                if j < i {
                    assert(before[j] is Capacity);
                }
            }
            if any_canceled(after) {
                let j = choose|j: int| 0 <= j < after.len() && (#[trigger] after[j]) is Canceled;
                if j < i {
                    assert(before[j] is Canceled);
                }
            }
        }
        i += 1;
    }
    assert(outcomes@.take(outcomes.len() as int) =~= outcomes@);
    if transport {
        Err(ErrorKind::Transport)
    } else if capacity {
        Err(ErrorKind::Capacity)
    } else if canceled {
        Err(ErrorKind::Canceled)
    } else {
        Err(ErrorKind::NoServers)
    }
}

/// The answer to a request that was broadcast, from the outcomes of the
/// calls in the order in which they ended.
pub fn combine_broadcast(outcomes: &Vec<SendOutcome>) -> (r: Result<Payload, ErrorKind>)
    ensures
        r == broadcast_result(outcomes@),
{
    match find_wanted(outcomes, Wanted::AnyResult) {
        Some(p) => Ok(p),
        None => find_worst(outcomes),
    }
}

/// The answer to a query that was put to every upstream, from the outcomes
/// of the calls in the order in which they ended.
pub fn combine_fan_query(outcomes: &Vec<SendOutcome>) -> (r: Result<Payload, ErrorKind>)
    ensures
        r == fan_query_result(outcomes@),
{
    match find_wanted(outcomes, Wanted::Value) {
        Some(p) => Ok(p),
        None => match find_wanted(outcomes, Wanted::Null) {
            Some(p) => Ok(p),
            None => find_worst(outcomes),
        },
    }
}

} // verus!
