//! The append-only event log.
//!
//! Every accepted state transition appends exactly one record. A record's
//! identifier is its index in the log, so identifiers are strictly
//! increasing and no record is ever mutated or deleted.

use vstd::prelude::*;

use crate::account::AccountId;

verus! {

/// One record of the event log.
#[derive(Debug)]
pub enum AuctionEvent {
    Bid { account: AccountId, bid: u64, synthetic: bool },
    BidCancelled { account: AccountId },
    Cancelled,
    PendingSettlement { account: AccountId, bid: (u64, bool) },
    SettlementRejected { account: Option<AccountId> },
    Settled { account: Option<AccountId>, bid: Option<(u64, bool)> },
    Gifted { account: AccountId, token_id: String },
    Claimed { account: AccountId, token_id: String },
}

/// The indexed, append-only record store of one contract instance.
#[derive(Debug)]
pub struct EventLog {
    entries: Vec<AuctionEvent>,
}

impl View for EventLog {
    type V = Seq<AuctionEvent>;

    closed spec fn view(&self) -> Seq<AuctionEvent> {
        self.entries@
    }
}

impl EventLog {
    /// An empty log.
    pub fn new() -> (r: EventLog)
        ensures
            r@ == Seq::<AuctionEvent>::empty(),
    {
        EventLog { entries: Vec::new() }
    }

    /// The record stored under an identifier.
    pub fn get_event(&self, id: usize) -> (r: &AuctionEvent)
        requires
            id < self@.len(),
        ensures
            *r == self@[id as int],
    {
        &self.entries[id]
    }
}

/// Append one record; its identifier is the count before the append.
pub fn emit(log: &mut EventLog, event: AuctionEvent)
    ensures
        final(log)@ == old(log)@.push(event),
{
    log.entries.push(event);
}

/// How many records have been emitted.
pub fn get_events_count(log: &EventLog) -> (r: usize)
    ensures
        r == log@.len(),
{
    log.entries.len()
}

} // verus!
