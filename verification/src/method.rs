//! The classes of JSON-RPC methods, by which a request is routed.

use vstd::prelude::*;
use crate::text::{has_prefix, starts_with, str_equal};

verus! {

/// How a method is routed and whether its result is cached.
#[derive(Clone, Copy, Debug, PartialEq, Eq, Structural)]
pub enum MethodClass {
    /// Rejected as unsupported.
    Forbidden,
    /// Broadcast to the private pool; never cached.
    PrivateSend,
    /// Broadcast to all upstreams, the first result that is not null wins;
    /// never cached.
    FanQuery,
    /// Answered from the configuration; cached without a head in the key.
    HeadIndependent,
    /// Sent to the best upstream; cached under the canonical head.
    HeadDependent,
}

/// The methods that are forbidden by name, beside those forbidden by their
/// prefix.
pub open spec fn forbidden_by_name(m: Seq<char>) -> bool {
    ||| m == "debug_chaindbCompact"@
    ||| m == "debug_freezeClient"@
    ||| m == "debug_goTrace"@
    ||| m == "debug_mutexProfile"@
    ||| m == "debug_standardTraceBlockToFile"@
    ||| m == "debug_standardTraceBadBlockToFile"@
    ||| m == "debug_startCPUProfile"@
    ||| m == "debug_startGoTrace"@
    ||| m == "debug_stopCPUProfile"@
    ||| m == "debug_stopGoTrace"@
    ||| m == "debug_writeBlockProfile"@
    ||| m == "debug_writeMemProfile"@
    ||| m == "debug_writeMutexProfile"@
    ||| m == "les_addBalance"@
    ||| m == "les_setClientParams"@
    ||| m == "les_setDefaultParams"@
}

/// The forbidden methods: those that administer the node, handle its keys,
/// drive its miner or change its debug settings, and some more by name.
pub open spec fn is_forbidden(m: Seq<char>) -> bool {
    ||| has_prefix(m, "admin_"@)
    ||| has_prefix(m, "personal_"@)
    ||| has_prefix(m, "miner_"@)
    ||| has_prefix(m, "debug_set"@)
    ||| forbidden_by_name(m)
}

/// The class of the method named `m`.
pub open spec fn method_class(m: Seq<char>) -> MethodClass {
    if is_forbidden(m) {
        MethodClass::Forbidden
    } else if m == "eth_sendRawTransaction"@ {
        MethodClass::PrivateSend
    } else if m == "eth_getTransactionByHash"@ || m == "eth_getTransactionReceipt"@ {
        MethodClass::FanQuery
    } else if m == "eth_chainId"@ || m == "net_version"@ {
        MethodClass::HeadIndependent
    } else {
        MethodClass::HeadDependent
    }
}

fn is_forbidden_by_name(m: &str) -> (r: bool)
    ensures
        r == forbidden_by_name(m@),
{
    str_equal(m, "debug_chaindbCompact") || str_equal(m, "debug_freezeClient") || str_equal(
        m,
        "debug_goTrace",
    ) || str_equal(m, "debug_mutexProfile") || str_equal(m, "debug_standardTraceBlockToFile")
        || str_equal(m, "debug_standardTraceBadBlockToFile") || str_equal(
        m,
        "debug_startCPUProfile",
    ) || str_equal(m, "debug_startGoTrace") || str_equal(m, "debug_stopCPUProfile") || str_equal(
        m,
        "debug_stopGoTrace",
    ) || str_equal(m, "debug_writeBlockProfile") || str_equal(m, "debug_writeMemProfile")
        || str_equal(m, "debug_writeMutexProfile") || str_equal(m, "les_addBalance") || str_equal(
        m,
        "les_setClientParams",
    ) || str_equal(m, "les_setDefaultParams")
}

/// The class of the method named `m`.
pub fn classify(m: &str) -> (r: MethodClass)
    ensures
        r == method_class(m@),
{
    if starts_with(m, "admin_") || starts_with(m, "personal_") || starts_with(m, "miner_")
        || starts_with(m, "debug_set") || is_forbidden_by_name(m) {
        MethodClass::Forbidden
    } else if str_equal(m, "eth_sendRawTransaction") {
        MethodClass::PrivateSend
    } else if str_equal(m, "eth_getTransactionByHash") || str_equal(
        m,
        "eth_getTransactionReceipt",
    ) {
        MethodClass::FanQuery
    } else if str_equal(m, "eth_chainId") || str_equal(m, "net_version") {
        MethodClass::HeadIndependent
    } else {
        MethodClass::HeadDependent
    }
}

impl MethodClass {
    /// Whether the results of the methods of this class are cached.
    pub open spec fn cacheable(self) -> bool {
        self == MethodClass::HeadIndependent || self == MethodClass::HeadDependent
    }

    /// Whether the results of the methods of this class are cached.
    pub fn is_cacheable(&self) -> (r: bool)
        ensures
            r == self.cacheable(),
    {
        match self {
            MethodClass::HeadIndependent => true,
            MethodClass::HeadDependent => true,
            _ => false,
        }
    }
}

} // verus!
