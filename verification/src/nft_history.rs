//! What holds of the token registry over whole sequences of mints and
//! transfers.

use crate::nft::{Error, NFTView, RegistryView};
use vstd::prelude::*;

verus! {

/// One call that changes the registry without initializing it again.
pub enum RegistryCall {
    Mint { caller: Seq<char>, metadata: Seq<char> },
    Transfer { caller: Seq<char>, to: Seq<char>, id: nat },
}

/// The registry after one call.
pub open spec fn apply(registry: RegistryView, call: RegistryCall) -> RegistryView {
    match call {
        RegistryCall::Mint { caller, metadata } => registry.mint(caller, metadata),
        RegistryCall::Transfer { caller, to, id } => registry.transfer(caller, to, id),
    }
}

/// The registry after a sequence of calls, made in order.
pub open spec fn replay(registry: RegistryView, calls: Seq<RegistryCall>) -> RegistryView
    decreases calls.len(),
{
    if calls.len() == 0 {
        registry
    } else {
        apply(replay(registry, calls.drop_last()), calls.last())
    }
}

/// How many of the calls are mints by `admin`.
pub open spec fn mints_by(calls: Seq<RegistryCall>, admin: Seq<char>) -> nat
    decreases calls.len(),
{
    if calls.len() == 0 {
        0
    } else {
        let earlier = mints_by(calls.drop_last(), admin);
        match calls.last() {
            RegistryCall::Mint { caller, .. } => if caller == admin {
                earlier + 1
            } else {
                earlier
            },
            RegistryCall::Transfer { .. } => earlier,
        }
    }
}

/// The tokens are numbered without gaps: the ids in use are exactly 1 up to
/// the counter, and each token is stored under its own id.
pub open spec fn numbered_without_gaps(registry: RegistryView) -> bool {
    &&& forall|id: nat| #[trigger]
        registry.nfts.contains_key(id) <==> 1 <= id <= registry.next_nft_id
    &&& forall|id: nat| #[trigger]
        registry.nfts.contains_key(id) ==> registry.nfts[id].id == id
}

/// Only the admin mints: for any other caller a mint is refused as
/// unauthorized and changes nothing, and for the admin it succeeds with the
/// id that follows the counter.
pub proof fn mint_is_for_the_admin(registry: RegistryView, caller: Seq<char>, metadata: Seq<char>)
    ensures
        registry.admin != Some(caller) ==> {
            &&& registry.mint_result(caller) == Err::<nat, Error>(Error::Unauthorized)
            &&& registry.mint(caller, metadata) == registry
        },
        registry.admin == Some(caller) ==> {
            &&& registry.mint_result(caller) == Ok::<nat, Error>(registry.next_nft_id + 1)
            &&& registry.mint(caller, metadata).next_nft_id == registry.next_nft_id + 1
            &&& registry.mint(caller, metadata).get_nft(registry.next_nft_id + 1) == Ok::<
                NFTView,
                Error,
            >(NFTView { id: registry.next_nft_id + 1, owner: caller, metadata })
        },
{
}

/// Mints and transfers never change the admin and never lower the counter:
/// the counter grows by exactly the number of mints by the admin.
pub proof fn counter_counts_mints(registry: RegistryView, admin: Seq<char>, calls: Seq<RegistryCall>)
    requires
        registry.admin == Some(admin),
    ensures
        replay(registry, calls).admin == Some(admin),
        replay(registry, calls).next_nft_id == registry.next_nft_id + mints_by(calls, admin),
        replay(registry, calls).next_nft_id >= registry.next_nft_id,
    decreases calls.len(),
{
    if calls.len() > 0 {
        counter_counts_mints(registry, admin, calls.drop_last());
    }
}

/// After N successful mints on a freshly initialized registry, whatever else
/// was attempted in between, the counter is N.
pub proof fn counter_is_the_number_of_mints(
    registry: RegistryView,
    admin: Seq<char>,
    calls: Seq<RegistryCall>,
)
    ensures
        replay(registry.initialize(admin), calls).next_nft_id == mints_by(calls, admin),
{
    counter_counts_mints(registry.initialize(admin), admin, calls);
}

/// On a freshly initialized registry each successful mint returns the number
/// of successful mints up to and including itself, so the ids returned are
/// 1, 2, ..., N in order, without gaps or repeats.
pub proof fn ids_are_consecutive(
    registry: RegistryView,
    admin: Seq<char>,
    calls: Seq<RegistryCall>,
    upto: int,
)
    requires
        0 <= upto < calls.len(),
        calls[upto] matches RegistryCall::Mint { caller, .. } && caller == admin,
    ensures
        replay(registry.initialize(admin), calls.take(upto)).mint_result(admin) == Ok::<
            nat,
            Error,
        >(mints_by(calls.take(upto + 1), admin)),
{
    counter_counts_mints(registry.initialize(admin), admin, calls.take(upto));
    assert(calls.take(upto + 1).drop_last() =~= calls.take(upto));
    assert(calls.take(upto + 1).last() == calls[upto]);
}

/// Of two successful mints, the later one returns the larger id.
pub proof fn ids_strictly_increase(
    registry: RegistryView,
    admin: Seq<char>,
    first_metadata: Seq<char>,
    between: Seq<RegistryCall>,
)
    requires
        registry.admin == Some(admin),
    ensures
        replay(registry.mint(admin, first_metadata), between).mint_result(admin) matches Ok(later)
            && registry.mint_result(admin) matches Ok(earlier) && later > earlier,
{
    counter_counts_mints(registry.mint(admin, first_metadata), admin, between);
}

/// A transfer succeeds exactly when the caller is the current owner of the
/// token. Then the token belongs to the recipient afterwards; otherwise the
/// registry, and with it the owner, is what it was.
pub proof fn transfer_is_for_the_owner(
    registry: RegistryView,
    caller: Seq<char>,
    to: Seq<char>,
    id: nat,
)
    ensures
        registry.transfer_result(caller, id) is Ok <==> registry.get_owner(id) == Ok::<
            Seq<char>,
            Error,
        >(caller),
        registry.transfer_result(caller, id) is Ok ==> registry.transfer(caller, to, id).get_owner(
            id,
        ) == Ok::<Seq<char>, Error>(to),
        !(registry.transfer_result(caller, id) is Ok) ==> registry.transfer(caller, to, id)
            == registry,
{
}

/// A registry without tokens is numbered without gaps once it is
/// initialized, and mints and transfers keep it so.
pub proof fn numbering_is_kept(registry: RegistryView, calls: Seq<RegistryCall>)
    requires
        numbered_without_gaps(registry),
    ensures
        numbered_without_gaps(replay(registry, calls)),
        numbered_without_gaps(RegistryView::empty()),
        forall|admin: Seq<char>| numbered_without_gaps(#[trigger] RegistryView::empty().initialize(admin)),
    decreases calls.len(),
{
    if calls.len() > 0 {
        numbering_is_kept(registry, calls.drop_last());
        let before = replay(registry, calls.drop_last());
        let after = replay(registry, calls);
        assert forall|id: nat| #[trigger]
            after.nfts.contains_key(id) <==> 1 <= id <= after.next_nft_id by {
            assert(before.nfts.contains_key(id) <==> 1 <= id <= before.next_nft_id);
        }
        assert forall|id: nat| #[trigger] after.nfts.contains_key(id) implies after.nfts[id].id
            == id by {
            assert(before.nfts.contains_key(id) ==> before.nfts[id].id == id);
        }
    }
}

/// A token is never deleted, and only its owner ever changes: after any
/// mints and transfers a token that existed is still there, with the id and
/// the metadata it had.
pub proof fn tokens_keep_id_and_metadata(
    registry: RegistryView,
    calls: Seq<RegistryCall>,
    id: nat,
)
    requires
        numbered_without_gaps(registry),
        registry.nfts.contains_key(id),
    ensures
        replay(registry, calls).nfts.contains_key(id),
        replay(registry, calls).nfts[id].id == registry.nfts[id].id,
        replay(registry, calls).nfts[id].metadata == registry.nfts[id].metadata,
    decreases calls.len(),
{
    if calls.len() > 0 {
        tokens_keep_id_and_metadata(registry, calls.drop_last(), id);
        numbering_is_kept(registry, calls.drop_last());
    }
}

/// An id that was never minted is not found: in a registry numbered without
/// gaps, transfer, `get_nft` and `get_owner` answer `NotFound` for zero and
/// for every id above the counter, and for no other id.
pub proof fn unminted_ids_are_not_found(
    registry: RegistryView,
    caller: Seq<char>,
    to: Seq<char>,
    id: nat,
)
    requires
        numbered_without_gaps(registry),
    ensures
        (id == 0 || id > registry.next_nft_id) <==> registry.get_nft(id) == Err::<NFTView, Error>(
            Error::NotFound,
        ),
        (id == 0 || id > registry.next_nft_id) <==> registry.get_owner(id) == Err::<
            Seq<char>,
            Error,
        >(Error::NotFound),
        (id == 0 || id > registry.next_nft_id) <==> registry.transfer_result(caller, id) == Err::<
            (),
            Error,
        >(Error::NotFound),
        (id == 0 || id > registry.next_nft_id) ==> registry.transfer(caller, to, id) == registry,
{
    assert(registry.nfts.contains_key(id) <==> 1 <= id <= registry.next_nft_id);
}

} // verus!
