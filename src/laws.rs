//! Properties of the registry that relate several calls, proved over the
//! transition functions that `NFT::mint` and `NFT::burn` are specified by.
use vstd::prelude::*;

use crate::identity::Address;
use crate::registry::{NftError, NftView, TokenView};

verus! {

/// One call on the registry, as a value.
pub enum NftCall {
    Mint { caller: Address, owner: Address, metadata: Seq<char> },
    Burn { caller: Address, id: u64 },
}

/// The state and result of one call.
pub open spec fn step(s: NftView, c: NftCall) -> (NftView, Result<u64, NftError>) {
    match c {
        NftCall::Mint { caller, owner, metadata } => s.mint_step(caller, owner, metadata),
        NftCall::Burn { caller, id } => s.burn_step(caller, id),
    }
}

/// Whether the call may be made on this state.
pub open spec fn may_call(s: NftView, c: NftCall) -> bool {
    match c {
        NftCall::Mint { caller, .. } => s.may_mint(caller),
        NftCall::Burn { .. } => true,
    }
}

/// Whether each call of the sequence may be made, one after the other.
pub open spec fn callable(s: NftView, calls: Seq<NftCall>) -> bool
    decreases calls.len(),
{
    if calls.len() == 0 {
        true
    } else {
        may_call(s, calls[0]) && callable(step(s, calls[0]).0, calls.drop_first())
    }
}

/// The state after making the calls one after the other.
pub open spec fn run(s: NftView, calls: Seq<NftCall>) -> NftView
    decreases calls.len(),
{
    if calls.len() == 0 {
        s
    } else {
        run(step(s, calls[0]).0, calls.drop_first())
    }
}

/// The identifiers returned by the mints that succeeded, in call order.
pub open spec fn minted_ids(s: NftView, calls: Seq<NftCall>) -> Seq<u64>
    decreases calls.len(),
{
    if calls.len() == 0 {
        Seq::empty()
    } else {
        let next = step(s, calls[0]);
        let rest = minted_ids(next.0, calls.drop_first());
        if calls[0] is Mint && next.1 is Ok {
            seq![next.1->Ok_0] + rest
        } else {
            rest
        }
    }
}

/// Each element is smaller than every later one.
pub open spec fn strictly_increasing(ids: Seq<u64>) -> bool {
    forall|i: int, j: int| 0 <= i < j < ids.len() ==> ids[i] < ids[j]
}

/// Over any sequence of mints and burns, the identifiers that successful
/// mints return strictly increase, so none repeats; each is at least the
/// counter's starting value, so none was issued before, and the counter
/// never goes down.
pub proof fn lemma_minted_ids_strictly_increase(s: NftView, calls: Seq<NftCall>)
    requires
        callable(s, calls),
    ensures
        strictly_increasing(minted_ids(s, calls)),
        forall|i: int|
            0 <= i < minted_ids(s, calls).len() ==> s.next_id <= #[trigger] minted_ids(s, calls)[i]
                < run(s, calls).next_id,
        s.next_id <= run(s, calls).next_id,
        s.wf() ==> forall|i: int|
            0 <= i < minted_ids(s, calls).len() ==> !s.tokens.contains_key(
                #[trigger] minted_ids(s, calls)[i],
            ),
    decreases calls.len(),
{
    if calls.len() > 0 {
        let next = step(s, calls[0]);
        let rest = calls.drop_first();
        lemma_minted_ids_strictly_increase(next.0, rest);
        assert(s.next_id <= next.0.next_id);
        assert(run(s, calls) == run(next.0, rest));
        let ids = minted_ids(s, calls);
        let tail = minted_ids(next.0, rest);
        if calls[0] is Mint && next.1 is Ok {
            let id = next.1->Ok_0;
            assert(id == s.next_id && next.0.next_id == s.next_id + 1);
            assert(ids == seq![id] + tail);
            assert forall|i: int| 0 < i < ids.len() implies ids[i] == tail[i - 1] by {}
        } else {
            assert(ids == tail);
        }
    }
}

/// A mint by anyone but the admin is rejected with `Unauthorized` and
/// changes nothing: neither the tokens nor the counter.
pub proof fn lemma_outsider_mint_changes_nothing(
    s: NftView,
    caller: Address,
    owner: Address,
    metadata: Seq<char>,
)
    requires
        caller != s.admin,
    ensures
        s.mint_step(caller, owner, metadata) == (s, Err::<u64, NftError>(NftError::Unauthorized)),
{
}

/// A burn by anyone but the admin is rejected with `Unauthorized` and
/// removes nothing, whether or not the target is held.
pub proof fn lemma_outsider_burn_removes_nothing(s: NftView, caller: Address, id: u64)
    requires
        caller != s.admin,
    ensures
        s.burn_step(caller, id) == (s, Err::<u64, NftError>(NftError::Unauthorized)),
{
}

/// A burn of an identifier that is not held leaves the registry unchanged;
/// the admin is told `NotFound`, anyone else `Unauthorized`.
pub proof fn lemma_burn_of_absent_id(s: NftView, caller: Address, id: u64)
    requires
        !s.tokens.contains_key(id),
    ensures
        s.burn_step(caller, id).0 == s,
        caller == s.admin ==> s.burn_step(caller, id).1 == Err::<u64, NftError>(
            NftError::NotFound,
        ),
        caller != s.admin ==> s.burn_step(caller, id).1 == Err::<u64, NftError>(
            NftError::Unauthorized,
        ),
{
}

/// After a mint returns `k`, the tokens hold exactly one record at `k`, with
/// the given owner and metadata, beside the records held before; a burn of
/// `k` by the same caller then succeeds, after which `k` is no longer held
/// and the tokens are those from before the mint.
pub proof fn lemma_mint_then_burn(s: NftView, caller: Address, owner: Address, metadata: Seq<char>)
    requires
        s.wf(),
        s.may_mint(caller),
    ensures
        ({
            let minted = s.mint_step(caller, owner, metadata);
            let k = minted.1->Ok_0;
            let burned = minted.0.burn_step(caller, k);
            minted.1 is Ok ==> {
                &&& !s.tokens.contains_key(k)
                &&& minted.0.tokens == s.tokens.insert(k, TokenView { owner, metadata })
                &&& minted.0.tokens[k] == TokenView { owner, metadata }
                &&& burned.1 == Ok::<u64, NftError>(k)
                &&& !burned.0.tokens.contains_key(k)
                &&& burned.0.tokens == s.tokens
            }
        }),
{
    let minted = s.mint_step(caller, owner, metadata);
    if minted.1 is Ok {
        let k = minted.1->Ok_0;
        assert(minted.0.burn_step(caller, k).0.tokens =~= s.tokens);
    }
}

} // verus!
