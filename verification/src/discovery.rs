//! The decisions of service discovery: a search for an advertised server
//! races a timeout, and the first decisive event settles the attempt.
//!
//! The caller runs the search and the timer and hands each event to
//! [`discovery_step`]; the first step that is not
//! [`DiscoveryStep::KeepSearching`] is the outcome.

use crate::net::{Ipv4Address, SocketAddress};
use vstd::prelude::*;

verus! {

/// Seconds that discovery waits unless told otherwise.
pub const DEFAULT_DISCOVERY_TIMEOUT_SECS: u64 = 60;

/// The service type under which servers advertise themselves.
pub const SERVICE_TYPE: &'static str = "_speedtestd._tcp.local.";

/// The message of a discovery that timed out.
pub const TIMEOUT_MESSAGE: &'static str = "Timeout while trying to discover speed test servers.";

/// The timeout to use, in seconds: the one asked for, else the default.
pub open spec fn timeout_or_default(requested: Option<u64>) -> u64 {
    match requested {
        Some(given) => given,
        None => DEFAULT_DISCOVERY_TIMEOUT_SECS,
    }
}

/// The timeout to use, in seconds: the one asked for, else the default.
pub fn effective_timeout(requested: Option<u64>) -> (seconds: u64)
    ensures
        seconds == timeout_or_default(requested),
{
    match requested {
        Some(given) => given,
        None => DEFAULT_DISCOVERY_TIMEOUT_SECS,
    }
}

/// What can happen while discovery runs.
#[derive(Clone, Debug, PartialEq, Eq)]
pub enum DiscoveryEvent {
    /// A service instance was resolved, with its addresses and port.
    Resolved {
        /// The addresses that the instance advertises.
        addresses: Vec<Ipv4Address>,
        /// The port on which it listens.
        port: u16,
    },
    /// Any other event of the search: nothing is decided.
    Other,
    /// The channel of search events closed with an error.
    ChannelClosed {
        /// The channel's error, as text.
        reason: String,
    },
    /// The timeout elapsed.
    TimedOut,
}

/// Why discovery failed.
#[derive(Clone, Debug, PartialEq, Eq)]
pub enum DiscoveryError {
    /// No service was resolved before the timeout elapsed.
    TimedOut,
    /// The channel of search events closed with an error.
    Channel {
        /// The channel's error, as text.
        reason: String,
    },
}

/// What discovery does after an event.
#[derive(Clone, Debug, PartialEq, Eq)]
pub enum DiscoveryStep {
    /// Nothing is decided: wait for the next event.
    KeepSearching,
    /// A service was found: these are its candidate socket addresses.
    Found {
        /// One candidate for each advertised address, in the same order.
        candidates: Vec<SocketAddress>,
    },
    /// Discovery failed.
    Failed {
        /// Why.
        error: DiscoveryError,
    },
}

/// The candidate socket addresses of a service: each advertised address with
/// the service's port, in the same order.
pub open spec fn candidates_of(addresses: Seq<Ipv4Address>, port: u16) -> Seq<SocketAddress> {
    Seq::new(addresses.len(), |i: int| SocketAddress { ip: addresses[i], port })
}

/// Whether `step` is what discovery does after `event`.
pub open spec fn is_step_for(step: DiscoveryStep, event: DiscoveryEvent) -> bool {
    match event {
        DiscoveryEvent::Resolved { addresses, port } => if addresses@.len() == 0 {
            step is KeepSearching
        } else {
            step matches DiscoveryStep::Found { candidates } && candidates@ == candidates_of(
                addresses@,
                port,
            )
        },
        DiscoveryEvent::Other => step is KeepSearching,
        DiscoveryEvent::ChannelClosed { reason } => step matches DiscoveryStep::Failed {
            error: DiscoveryError::Channel { reason: given },
        } && given@ == reason@,
        DiscoveryEvent::TimedOut => step matches DiscoveryStep::Failed {
            error: DiscoveryError::TimedOut,
        },
    }
}

/// A found service always has a candidate: discovery reports `Found` only
/// for a resolved service, with one candidate for each of its addresses, of
/// which there is at least one; and it fails only on the timeout or on a
/// closed channel.
pub proof fn lemma_found_has_candidates(step: DiscoveryStep, event: DiscoveryEvent)
    requires
        is_step_for(step, event),
    ensures
        step matches DiscoveryStep::Found { candidates } ==> (event is Resolved
            && candidates@.len() > 0 && candidates@.len() == event->addresses@.len()),
        step is Failed <==> (event is TimedOut || event is ChannelClosed),
        step is Failed ==> (step->error is TimedOut <==> event is TimedOut),
{
}

/// Each of `addresses` paired with `port`, in the same order.
pub fn candidate_addresses(addresses: &Vec<Ipv4Address>, port: u16) -> (candidates: Vec<
    SocketAddress,
>)
    ensures
        candidates@ == candidates_of(addresses@, port),
{
    let mut candidates: Vec<SocketAddress> = Vec::new();
    let mut i: usize = 0;
    while i < addresses.len()
        invariant
            i <= addresses.len(),
            candidates@ == candidates_of(addresses@.take(i as int), port),
        decreases addresses.len() - i,
    {
        candidates.push(SocketAddress { ip: addresses[i], port });
        i = i + 1;
        proof {
            assert(candidates@ =~= candidates_of(addresses@.take(i as int), port));
        }
    }
    proof {
        assert(addresses@.take(i as int) =~= addresses@);
    }
    candidates
}

/// Decides what discovery does after `event`. The first resolved service
/// that advertises an address wins, and its addresses become the candidates;
/// the timeout and a closed channel fail the attempt; anything else leaves it
/// searching.
pub fn discovery_step(event: DiscoveryEvent) -> (step: DiscoveryStep)
    ensures
        is_step_for(step, event),
{
    match event {
        DiscoveryEvent::Resolved { addresses, port } => {
            if addresses.len() == 0 {
                DiscoveryStep::KeepSearching
            } else {
                DiscoveryStep::Found { candidates: candidate_addresses(&addresses, port) }
            }
        },
        DiscoveryEvent::Other => DiscoveryStep::KeepSearching,
        DiscoveryEvent::ChannelClosed { reason } => DiscoveryStep::Failed {
            error: DiscoveryError::Channel { reason },
        },
        DiscoveryEvent::TimedOut => DiscoveryStep::Failed { error: DiscoveryError::TimedOut },
    }
}

impl DiscoveryError {
    /// The message shown for this error: the fixed timeout message, or the
    /// channel's own.
    pub open spec fn message_text(&self) -> Seq<char> {
        match self {
            DiscoveryError::TimedOut => TIMEOUT_MESSAGE@,
            DiscoveryError::Channel { reason } => reason@,
        }
    }

    /// The message shown for this error.
    pub fn message(&self) -> (text: String)
        ensures
            text@ == self.message_text(),
    {
        match self {
            DiscoveryError::TimedOut => TIMEOUT_MESSAGE.to_owned(),
            DiscoveryError::Channel { reason } => reason.clone(),
        }
    }
}

/// The candidate to probe once the first `failed` candidates have refused a
/// connection: the next in order, or none when all have refused.
pub fn next_candidate(candidates: &Vec<SocketAddress>, failed: usize) -> (next: Option<
    SocketAddress,
>)
    ensures
        failed < candidates@.len() ==> next == Some(candidates@[failed as int]),
        failed >= candidates@.len() ==> next is None,
{
    if failed < candidates.len() {
        Some(candidates[failed])
    } else {
        None
    }
}

} // verus!
