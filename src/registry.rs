use std::collections::BTreeMap;
use vstd::prelude::*;

use crate::identity::Address;

verus! {

/// Why a mutating call on the registry was rejected.
#[derive(Clone, Copy, Debug, PartialEq, Eq, Structural)]
pub enum NftError {
    /// The caller is not the registry's admin.
    Unauthorized,
    /// No token with the given identifier is held.
    NotFound,
}

/// A minted token: who owns it and its metadata.
#[derive(Debug)]
pub struct TokenRecord {
    pub owner: Address,
    pub metadata: String,
}

/// The mathematical value of a token record.
pub struct TokenView {
    pub owner: Address,
    pub metadata: Seq<char>,
}

impl View for TokenRecord {
    type V = TokenView;

    open spec fn view(&self) -> TokenView {
        TokenView { owner: self.owner, metadata: self.metadata@ }
    }
}

/// The mathematical value of a registry.
pub struct NftView {
    /// The held tokens, by identifier.
    pub tokens: Map<u64, TokenView>,
    /// The identifier that the next mint hands out.
    pub next_id: nat,
    /// The fee balance collected so far. No call of the registry collects
    /// a fee yet, so it keeps the value it was created with.
    pub payment_pool: u64,
    /// The only identity allowed to mint and burn.
    pub admin: Address,
}

impl NftView {
    /// Every held identifier was issued before the counter moved past it.
    pub open spec fn wf(self) -> bool {
        forall|k: u64| #[trigger] self.tokens.contains_key(k) ==> k < self.next_id
    }

    /// Whether `mint` may be called on this state: an admin call needs a
    /// counter that can still be incremented in a `u64`.
    pub open spec fn may_mint(self, caller: Address) -> bool {
        caller == self.admin ==> self.next_id < u64::MAX
    }

    /// The state and result of a `mint` call.
    pub open spec fn mint_step(self, caller: Address, owner: Address, metadata: Seq<char>) -> (
        NftView,
        Result<u64, NftError>,
    ) {
        if caller != self.admin {
            (self, Err(NftError::Unauthorized))
        } else {
            let id = self.next_id as u64;
            (
                NftView {
                    tokens: self.tokens.insert(id, TokenView { owner, metadata }),
                    next_id: self.next_id + 1,
                    ..self
                },
                Ok(id),
            )
        }
    }

    /// The state and result of a `burn` call.
    pub open spec fn burn_step(self, caller: Address, id: u64) -> (NftView, Result<u64, NftError>) {
        if caller != self.admin {
            (self, Err(NftError::Unauthorized))
        } else if !self.tokens.contains_key(id) {
            (self, Err(NftError::NotFound))
        } else {
            (NftView { tokens: self.tokens.remove(id), ..self }, Ok(id))
        }
    }
}

/// The map of token records as seen through their views.
pub open spec fn tokens_view(m: Map<u64, TokenRecord>) -> Map<u64, TokenView> {
    m.map_values(|r: TokenRecord| r@)
}

/// A registry of non-fungible tokens controlled by one admin.
pub struct NFT {
    tokens: BTreeMap<u64, TokenRecord>,
    next_id: u64,
    payment_pool: u64,
    admin: Address,
}

impl View for NFT {
    type V = NftView;

    closed spec fn view(&self) -> NftView {
        NftView {
            tokens: tokens_view(self.tokens@),
            next_id: self.next_id as nat,
            payment_pool: self.payment_pool,
            admin: self.admin,
        }
    }
}

impl NFT {
    /// Well-formedness of the registry.
    pub open spec fn wf(&self) -> bool {
        self@.wf()
    }

    /// Creates a registry with no tokens, a counter at zero, an empty
    /// payment pool and the given admin.
    pub fn instantiate(admin_address: Address) -> (r: NFT)
        ensures
            r.wf(),
            r@.tokens == Map::<u64, TokenView>::empty(),
            r@.next_id == 0,
            r@.payment_pool == 0,
            r@.admin == admin_address,
    {
        let r = NFT { tokens: BTreeMap::new(), next_id: 0, payment_pool: 0, admin: admin_address };
        assert(r@.tokens =~= Map::<u64, TokenView>::empty());
        r
    }

    /// Mints a token for `owner` with the given metadata. Only the admin may
    /// mint: the new token takes the counter's value as its identifier, which
    /// is returned, and the counter moves on by one. Any other caller is
    /// rejected and the registry is left as it was.
    pub fn mint(&mut self, caller: Address, owner: Address, metadata: String) -> (r: Result<
        u64,
        NftError,
    >)
        requires
            old(self).wf(),
            old(self)@.may_mint(caller),
        ensures
            final(self).wf(),
            (final(self)@, r) == old(self)@.mint_step(caller, owner, metadata@),
    {
        if caller != self.admin {
            return Err(NftError::Unauthorized);
        }
        let id = self.next_id;
        let ghost before = self.tokens@;
        let rec = TokenRecord { owner, metadata };
        self.tokens.insert(id, rec);
        self.next_id = id + 1;
        proof {
            assert(tokens_view(self.tokens@) =~= tokens_view(before).insert(
                id,
                TokenView { owner, metadata: metadata@ },
            ));
            assert forall|k: u64| #[trigger] self@.tokens.contains_key(k) implies k
                < self@.next_id by {
                if k != id {
                    assert(old(self)@.tokens.contains_key(k));
                }
            }
        }
        Ok(id)
    }

    /// Burns the token with identifier `nft_id` and returns that identifier.
    /// A caller other than the admin is rejected with `Unauthorized`; an
    /// identifier that is not held is rejected with `NotFound`. A rejected
    /// call leaves the registry as it was.
    pub fn burn(&mut self, caller: Address, nft_id: u64) -> (r: Result<u64, NftError>)
        requires
            old(self).wf(),
        ensures
            final(self).wf(),
            (final(self)@, r) == old(self)@.burn_step(caller, nft_id),
    {
        if caller != self.admin {
            return Err(NftError::Unauthorized);
        }
        if !self.tokens.contains_key(&nft_id) {
            return Err(NftError::NotFound);
        }
        let ghost before = self.tokens@;
        self.tokens.remove(&nft_id);
        proof {
            assert(tokens_view(self.tokens@) =~= tokens_view(before).remove(nft_id));
        }
        Ok(nft_id)
    }
    /// The identifier that the next successful mint returns.
    pub fn next_id(&self) -> (r: u64)
        ensures
            r == self@.next_id,
    {
        self.next_id
    }

    /// The identity allowed to mint and burn.
    pub fn admin(&self) -> (r: Address)
        ensures
            r == self@.admin,
    {
        self.admin
    }

    /// The fee balance collected so far.
    pub fn payment_pool(&self) -> (r: u64)
        ensures
            r == self@.payment_pool,
    {
        self.payment_pool
    }

    /// The number of tokens held.
    pub fn len(&self) -> (r: usize)
        ensures
            r == self@.tokens.len(),
    {
        assert(self@.tokens.dom() =~= self.tokens@.dom());
        self.tokens.len()
    }

    /// Whether a token with identifier `id` is held.
    pub fn contains(&self, id: u64) -> (r: bool)
        ensures
            r == self@.tokens.contains_key(id),
    {
        self.tokens.contains_key(&id)
    }

    /// The record of the token with identifier `id`, if it is held.
    pub fn get(&self, id: u64) -> (r: Option<&TokenRecord>)
        ensures
            r is Some <==> self@.tokens.contains_key(id),
            r is Some ==> r->Some_0@ == self@.tokens[id],
    {
        self.tokens.get(&id)
    }
}

} // verus!
