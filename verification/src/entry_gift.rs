//! The entry actions of the gift contract: each is restricted to the
//! store's administrator, then drives the escrow flow.

use vstd::prelude::*;

use crate::account::{AccountId, CollectionRef};
use crate::error::AuctionError;
use crate::events::AuctionEvent;
use crate::gift::{gift_for, gift_index_of, Gift, GiftRecord, GiftStore, GiftTransfer};

verus! {

/// Record a gift, as the administrator-only entry point does.
pub fn gift(
    store: &mut GiftStore,
    caller: AccountId,
    sender: AccountId,
    token_id: String,
    token_package_hash: CollectionRef,
) -> (r: Result<(), AuctionError>)
    requires
        old(store).wf(),
    ensures
        final(store).wf(),
        caller@ != old(store).admin@ ==> r == Err::<(), AuctionError>(AuctionError::InvalidCaller)
            && *final(store) == *old(store),
        caller@ == old(store).admin@ ==> (r is Ok && {
            &&& final(store).records_view() == (match gift_for(
                old(store).records_view(),
                token_id@,
            ) {
                Some(_) => old(store).records_view().update(
                    gift_index_of(old(store).records_view(), token_id@),
                    (token_id, GiftRecord { sender, collection: token_package_hash }),
                ),
                None => old(store).records_view().push(
                    (token_id, GiftRecord { sender, collection: token_package_hash }),
                ),
            })
            &&& gift_for(final(store).records_view(), token_id@) is Some
            &&& final(store).events@ == old(store).events@.push(
                AuctionEvent::Gifted { account: sender, token_id },
            )
            &&& final(store).admin == old(store).admin
        }),
{
    if !caller.same(&store.admin) {
        return Err(AuctionError::InvalidCaller);
    }
    Gift::gift(store, sender, token_id, token_package_hash);
    Ok(())
}

/// Claim a gifted token, as the administrator-only entry point does.
pub fn claim(store: &mut GiftStore, caller: AccountId, receiver: AccountId, token_id: String) -> (r:
    Result<GiftTransfer, AuctionError>)
    requires
        old(store).wf(),
    ensures
        final(store).wf(),
        caller@ != old(store).admin@ ==> r == Err::<GiftTransfer, AuctionError>(
            AuctionError::InvalidCaller,
        ) && *final(store) == *old(store),
        caller@ == old(store).admin@ ==> (match gift_for(old(store).records_view(), token_id@) {
            None => r == Err::<GiftTransfer, AuctionError>(AuctionError::TokenNotFound)
                && *final(store) == *old(store),
            Some(rec) => (r matches Ok(out) && {
                &&& out.recipient == receiver
                &&& out.token_id@ == token_id@
                &&& out.collection == rec.collection
                &&& final(store).records_view() == old(store).records_view().remove(
                    gift_index_of(old(store).records_view(), token_id@),
                )
                &&& gift_for(final(store).records_view(), token_id@) is None
                &&& final(store).events@ == old(store).events@.push(
                    AuctionEvent::Claimed { account: receiver, token_id },
                )
                &&& final(store).admin == old(store).admin
            }),
        }),
{
    if !caller.same(&store.admin) {
        return Err(AuctionError::InvalidCaller);
    }
    Gift::claim(store, receiver, token_id)
}

/// Cancel a gift, as the administrator-only entry point does.
pub fn cancel(store: &mut GiftStore, caller: AccountId, token_id: String) -> (r: Result<
    GiftTransfer,
    AuctionError,
>)
    requires
        old(store).wf(),
    ensures
        final(store).wf(),
        caller@ != old(store).admin@ ==> r == Err::<GiftTransfer, AuctionError>(
            AuctionError::InvalidCaller,
        ) && *final(store) == *old(store),
        caller@ == old(store).admin@ ==> (match gift_for(old(store).records_view(), token_id@) {
            None => r == Err::<GiftTransfer, AuctionError>(AuctionError::TokenNotFound)
                && *final(store) == *old(store),
            Some(rec) => (r matches Ok(out) && {
                &&& out.recipient == rec.sender
                &&& out.token_id@ == token_id@
                &&& out.collection == rec.collection
                &&& final(store).records_view() == old(store).records_view().remove(
                    gift_index_of(old(store).records_view(), token_id@),
                )
                &&& gift_for(final(store).records_view(), token_id@) is None
                &&& final(store).events@ == old(store).events@.push(AuctionEvent::Cancelled)
                &&& final(store).admin == old(store).admin
            }),
        }),
{
    if !caller.same(&store.admin) {
        return Err(AuctionError::InvalidCaller);
    }
    Gift::cancel(store, token_id)
}

} // verus!
