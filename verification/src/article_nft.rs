//! Minting and ownership of collectibles: one collectible per item.
//!
//! When the tips of an item reach the threshold, the item can be minted, and
//! only once. Tips are not counted here: the caller states the item's total,
//! which is held against the stored threshold. Every collectible stands in the
//! list of exactly one owner, the one that its own record names, and a transfer
//! moves it from one list to the other. The lists are vectors of the host
//! environment, as they are kept in storage.

use vstd::prelude::*;
use crate::auth::Authorization;
use crate::error::Error;
use crate::governance::{
    threshold_or_default, Governance, GovernanceConfig, DEFAULT_PLATFORM_FEE_BPS,
    MINIMUM_TIP_THRESHOLD,
};
use crate::identity::{Address, Symbol};
use crate::registry::{
    cells_of, copy_list, lemma_same_ids_same_cells, lemma_without_distinct, lemma_without_present,
    list_ids, list_len, list_readable, new_list, push_token_id, remove_token_id, same_list,
    without_first,
};
use crate::table::Table;

verus! {

/// A collectible minted for an item.
#[derive(Debug)]
pub struct NFTToken {
    pub token_id: u64,
    pub article_id: Symbol,
    pub owner: Address,
    pub minter: Address,
    pub metadata_url: String,
    pub arweave_tx_id: Option<String>,
    pub minted_at: u64,
    pub tip_amount: i128,
}

impl Clone for NFTToken {
    fn clone(&self) -> (copy: NFTToken)
        ensures
            copy == *self,
    {
        let arweave_tx_id = match &self.arweave_tx_id {
            Some(reference) => Some(reference.clone()),
            None => None,
        };
        NFTToken {
            token_id: self.token_id,
            article_id: self.article_id.clone(),
            owner: self.owner.clone(),
            minter: self.minter.clone(),
            metadata_url: self.metadata_url.clone(),
            arweave_tx_id,
            minted_at: self.minted_at,
            tip_amount: self.tip_amount,
        }
    }
}

/// The state of the collectible contract.
pub struct ArticleNFTContract {
    env: soroban_sdk::Env,
    governance: Governance,
    token_counter: u64,
    tokens: Vec<NFTToken>,
    article_token: Table<u64>,
    owner_tokens: Table<soroban_sdk::Vec<u64>>,
}

/// The weight under which a list of token ids counts its ids.
pub open spec fn id_count() -> spec_fn(soroban_sdk::Vec<u64>) -> nat {
    |ids: soroban_sdk::Vec<u64>| list_ids(ids).len()
}

spec fn ids_in(table: Table<soroban_sdk::Vec<u64>>, owner: Seq<char>) -> Seq<u64> {
    if table@.contains_key(owner) {
        list_ids(table@[owner])
    } else {
        Seq::empty()
    }
}

spec fn readable_in(table: Table<soroban_sdk::Vec<u64>>, owner: Seq<char>) -> bool {
    table@.contains_key(owner) ==> list_readable(table@[owner])
}

spec fn distinct_ids(tokens: Seq<NFTToken>) -> bool {
    forall|i: int, j: int|
        0 <= i < j < tokens.len() ==> (#[trigger] tokens[i]).token_id != (#[trigger] tokens[
            j
        ]).token_id
}

spec fn holds_id(tokens: Seq<NFTToken>, id: u64) -> bool {
    exists|i: int| 0 <= i < tokens.len() && (#[trigger] tokens[i]).token_id == id
}

spec fn slot_of(tokens: Seq<NFTToken>, id: u64) -> int {
    choose|i: int| 0 <= i < tokens.len() && (#[trigger] tokens[i]).token_id == id
}

spec fn find_token(tokens: Seq<NFTToken>, id: u64) -> Option<NFTToken> {
    if holds_id(tokens, id) {
        Some(tokens[slot_of(tokens, id)])
    } else {
        None
    }
}

proof fn lemma_find_token(tokens: Seq<NFTToken>, i: int)
    requires
        distinct_ids(tokens),
        0 <= i < tokens.len(),
    ensures
        find_token(tokens, tokens[i].token_id) == Some(tokens[i]),
        slot_of(tokens, tokens[i].token_id) == i,
{
    let j = slot_of(tokens, tokens[i].token_id);
    assert(tokens[j].token_id == tokens[i].token_id);
    if j < i {
        assert(tokens[j].token_id != tokens[i].token_id);
    }
    if i < j {
        assert(tokens[i].token_id != tokens[j].token_id);
    }
}

proof fn lemma_found_token(tokens: Seq<NFTToken>, id: u64)
    requires
        find_token(tokens, id) is Some,
    ensures
        0 <= slot_of(tokens, id) < tokens.len(),
        tokens[slot_of(tokens, id)].token_id == id,
        find_token(tokens, id) == Some(tokens[slot_of(tokens, id)]),
{
}

proof fn lemma_find_absent(tokens: Seq<NFTToken>, id: u64)
    requires
        forall|i: int| 0 <= i < tokens.len() ==> (#[trigger] tokens[i]).token_id != id,
    ensures
        find_token(tokens, id) is None,
{
}

proof fn lemma_find_after_push(tokens: Seq<NFTToken>, token: NFTToken, id: u64)
    requires
        distinct_ids(tokens.push(token)),
    ensures
        find_token(tokens.push(token), id) == (if id == token.token_id {
            Some(token)
        } else {
            find_token(tokens, id)
        }),
{
    let grown = tokens.push(token);
    let n = tokens.len() as int;
    assert(grown[n] == token);
    assert forall|i: int, j: int| 0 <= i < j < tokens.len() implies (#[trigger] tokens[i]).token_id
        != (#[trigger] tokens[j]).token_id by {
        assert(grown[i] == tokens[i] && grown[j] == tokens[j]);
    }
    if id == token.token_id {
        lemma_find_token(grown, n);
    } else if holds_id(tokens, id) {
        let j = slot_of(tokens, id);
        assert(grown[j] == tokens[j]);
        lemma_find_token(tokens, j);
        lemma_find_token(grown, j);
    } else {
        assert forall|i: int| 0 <= i < grown.len() implies (#[trigger] grown[i]).token_id != id by {
            if i < n {
                assert(grown[i] == tokens[i]);
            }
        }
        lemma_find_absent(grown, id);
    }
}

proof fn lemma_find_after_update(tokens: Seq<NFTToken>, at: int, token: NFTToken, id: u64)
    requires
        distinct_ids(tokens),
        0 <= at < tokens.len(),
        token.token_id == tokens[at].token_id,
    ensures
        distinct_ids(tokens.update(at, token)),
        find_token(tokens.update(at, token), id) == (if id == token.token_id {
            Some(token)
        } else {
            find_token(tokens, id)
        }),
{
    let changed = tokens.update(at, token);
    assert forall|i: int| 0 <= i < changed.len() implies (#[trigger] changed[i]).token_id
        == tokens[i].token_id by {}
    assert forall|i: int, j: int| 0 <= i < j < changed.len() implies (#[trigger] changed[i]).token_id
        != (#[trigger] changed[j]).token_id by {
        assert(tokens[i].token_id != tokens[j].token_id);
    }
    if id == token.token_id {
        lemma_find_token(changed, at);
    } else if holds_id(tokens, id) {
        let j = slot_of(tokens, id);
        assert(changed[j] == tokens[j]);
        lemma_find_token(tokens, j);
        lemma_find_token(changed, j);
    } else {
        assert forall|i: int| 0 <= i < changed.len() implies (#[trigger] changed[i]).token_id
            != id by {
            assert(tokens[i].token_id == changed[i].token_id);
        }
        lemma_find_absent(changed, id);
    }
}

proof fn lemma_push_keeps(ids: Seq<u64>, id: u64, other: u64)
    requires
        ids.contains(other),
    ensures
        ids.push(id).contains(other),
{
    let at = choose|at: int| 0 <= at < ids.len() && ids[at] == other;
    assert(ids.push(id)[at] == other);
}

proof fn lemma_push_distinct(ids: Seq<u64>, id: u64)
    requires
        ids.no_duplicates(),
        !ids.contains(id),
    ensures
        ids.push(id).no_duplicates(),
{
    let grown = ids.push(id);
    assert forall|a: int, b: int| 0 <= a < grown.len() && 0 <= b < grown.len() && a != b implies grown[a]
        != grown[b] by {
        if a < ids.len() {
            assert(grown[a] == ids[a]);
            assert(ids.contains(ids[a]));
        }
        if b < ids.len() {
            assert(grown[b] == ids[b]);
            assert(ids.contains(ids[b]));
        }
    }
}

impl ArticleNFTContract {
    /// The governance state.
    pub closed spec fn governance(&self) -> Governance {
        self.governance
    }

    /// The number of token ids given out so far, which is the latest id.
    pub closed spec fn token_count(&self) -> u64 {
        self.token_counter
    }

    /// The collectible with the given id, if there is one.
    pub closed spec fn token(&self, token_id: u64) -> Option<NFTToken> {
        find_token(self.tokens@, token_id)
    }

    /// The id of the collectible minted for an item, if there is one.
    pub closed spec fn token_of_article(&self, item: Seq<char>) -> Option<u64> {
        if self.article_token@.contains_key(item) {
            Some(self.article_token@[item])
        } else {
            None
        }
    }

    /// The ids in the list of an owner; none for an account that never owned
    /// a collectible.
    pub closed spec fn owned_tokens(&self, owner: Seq<char>) -> Seq<u64> {
        ids_in(self.owner_tokens, owner)
    }

    /// The number of collectibles.
    pub closed spec fn minted(&self) -> nat {
        self.tokens@.len()
    }

    /// The sum of the lengths of all owners' lists.
    pub closed spec fn registry_size(&self) -> nat {
        self.owner_tokens.total(id_count())
    }

    spec fn token_in_range(&self, i: int) -> bool {
        1 <= self.tokens@[i].token_id <= self.token_counter
    }

    spec fn token_indexed(&self, i: int) -> bool {
        self.token_of_article(self.tokens@[i].article_id@) == Some(self.tokens@[i].token_id)
    }

    spec fn token_listed(&self, i: int) -> bool {
        self.owned_tokens(self.tokens@[i].owner@).contains(self.tokens@[i].token_id)
    }

    spec fn index_names_token(&self, item: Seq<char>) -> bool {
        self.token_of_article(item) matches Some(id) ==> (self.token(id) matches Some(token)
            && token.article_id@ == item)
    }

    spec fn list_entry_owned(&self, owner: Seq<char>, k: int) -> bool {
        self.token(self.owned_tokens(owner)[k]) matches Some(token) && token.owner@ == owner
    }

    /// The state is one that the operations can reach: no two collectibles
    /// share an id or an item, the item index names each collectible's item,
    /// every owner's list is readable, without repetition and holds exactly the
    /// collectibles whose record names that owner, and the lists together are
    /// as long as there are collectibles.
    pub closed spec fn wf(&self) -> bool {
        &&& self.governance.wf()
        &&& self.article_token.wf()
        &&& self.owner_tokens.wf()
        &&& distinct_ids(self.tokens@)
        &&& forall|i: int| 0 <= i < self.tokens@.len() ==> #[trigger] self.token_in_range(i)
        &&& forall|i: int| 0 <= i < self.tokens@.len() ==> #[trigger] self.token_indexed(i)
        &&& forall|i: int| 0 <= i < self.tokens@.len() ==> #[trigger] self.token_listed(i)
        &&& forall|item: Seq<char>| #[trigger] self.index_names_token(item)
        &&& forall|owner: Seq<char>| #[trigger] readable_in(self.owner_tokens, owner)
        &&& forall|owner: Seq<char>| (#[trigger] self.owned_tokens(owner)).no_duplicates()
        &&& forall|owner: Seq<char>, k: int|
            0 <= k < self.owned_tokens(owner).len() ==> #[trigger] self.list_entry_owned(owner, k)
        &&& self.registry_size() == self.tokens@.len()
    }

    /// What a minting call answers: the new token id when the collectible is
    /// minted, else the error. Only the pause-aware entry point looks at the
    /// pause flag.
    pub open spec fn mint_outcome(
        &self,
        pause_aware: bool,
        approvers: Set<Seq<char>>,
        author: Seq<char>,
        item: Seq<char>,
        tip_amount: i128,
    ) -> Result<u64, Error> {
        if pause_aware && self.governance().paused() {
            Err(Error::ContractPaused)
        } else if !approvers.contains(author) {
            Err(Error::Unauthorized)
        } else if self.token_of_article(item) is Some {
            Err(Error::AlreadyMinted)
        } else if tip_amount < self.governance().tip_threshold() {
            Err(Error::BelowThreshold)
        } else {
            Ok((self.token_count() + 1) as u64)
        }
    }

    /// `post` is this state with the collectible `token` added: the
    /// collectible exists, its item names it, and it stands at the end of its
    /// owner's list. Nothing else has changed but, possibly, the counter.
    pub open spec fn token_added(&self, post: &ArticleNFTContract, token: NFTToken) -> bool {
        &&& post.governance() == self.governance()
        &&& post.minted() == self.minted() + 1
        &&& post.registry_size() == self.registry_size() + 1
        &&& post.token(token.token_id) == Some(token)
        &&& forall|other: u64|
            other != token.token_id ==> #[trigger] post.token(other) == self.token(other)
        &&& post.token_of_article(token.article_id@) == Some(token.token_id)
        &&& forall|item: Seq<char>|
            item != token.article_id@ ==> #[trigger] post.token_of_article(item)
                == self.token_of_article(item)
        &&& post.owned_tokens(token.owner@) == self.owned_tokens(token.owner@).push(token.token_id)
        &&& forall|owner: Seq<char>|
            owner != token.owner@ ==> #[trigger] post.owned_tokens(owner) == self.owned_tokens(
                owner,
            )
    }

    /// `post` is this state after `token` was minted: the collectible was
    /// added, and its id is the latest.
    pub open spec fn minted_as(&self, post: &ArticleNFTContract, token: NFTToken) -> bool {
        &&& self.token_added(post, token)
        &&& post.token_count() == token.token_id
    }

    /// What a transfer answers.
    pub open spec fn transfer_outcome(
        &self,
        approvers: Set<Seq<char>>,
        from: Seq<char>,
        token_id: u64,
    ) -> Result<(), Error> {
        if !approvers.contains(from) {
            Err(Error::Unauthorized)
        } else {
            match self.token(token_id) {
                None => Err(Error::TokenNotFound),
                Some(token) => if token.owner@ != from {
                    Err(Error::NotOwner)
                } else {
                    Ok(())
                },
            }
        }
    }

    /// `post` is this state after the collectible `token_id` went from `from`
    /// to `to`: its record names `to`, it has left the list of `from` and
    /// stands at the end of the list of `to`.
    pub open spec fn transferred(
        &self,
        post: &ArticleNFTContract,
        token_id: u64,
        from: Seq<char>,
        to: Address,
    ) -> bool {
        &&& post.governance() == self.governance()
        &&& post.token_count() == self.token_count()
        &&& post.minted() == self.minted()
        &&& post.registry_size() == self.registry_size()
        &&& post.token(token_id) == Some(NFTToken { owner: to, ..self.token(token_id)->Some_0 })
        &&& forall|other: u64| other != token_id ==> #[trigger] post.token(other) == self.token(other)
        &&& forall|item: Seq<char>| #[trigger]
            post.token_of_article(item) == self.token_of_article(item)
        &&& post.owned_tokens(to@) == (if to@ == from {
            without_first(self.owned_tokens(from), token_id)
        } else {
            self.owned_tokens(to@)
        }).push(token_id)
        &&& to@ != from ==> post.owned_tokens(from) == without_first(
            self.owned_tokens(from),
            token_id,
        )
        &&& forall|owner: Seq<char>|
            owner != from && owner != to@ ==> #[trigger] post.owned_tokens(owner)
                == self.owned_tokens(owner)
    }

    /// Both states hold the same collectibles, index, lists and counter: they
    /// differ in governance at most.
    pub open spec fn same_tokens(&self, other: &ArticleNFTContract) -> bool {
        &&& self.token_count() == other.token_count()
        &&& self.minted() == other.minted()
        &&& self.registry_size() == other.registry_size()
        &&& forall|token_id: u64| #[trigger] self.token(token_id) == other.token(token_id)
        &&& forall|item: Seq<char>| #[trigger]
            self.token_of_article(item) == other.token_of_article(item)
        &&& forall|owner: Seq<char>| #[trigger]
            self.owned_tokens(owner) == other.owned_tokens(owner)
    }

    proof fn lemma_tokens_carry_wf(&self, post: &ArticleNFTContract)
        requires
            self.wf(),
            post.governance.wf(),
            post.token_counter == self.token_counter,
            post.tokens == self.tokens,
            post.article_token == self.article_token,
            post.owner_tokens == self.owner_tokens,
        ensures
            post.wf(),
            post.same_tokens(self),
    {
        assert forall|i: int| 0 <= i < post.tokens@.len() implies #[trigger] post.token_in_range(
            i,
        ) by {
            assert(self.token_in_range(i));
        }
        assert forall|i: int| 0 <= i < post.tokens@.len() implies #[trigger] post.token_indexed(
            i,
        ) by {
            assert(self.token_indexed(i));
        }
        assert forall|i: int| 0 <= i < post.tokens@.len() implies #[trigger] post.token_listed(
            i,
        ) by {
            assert(self.token_listed(i));
        }
        assert forall|item: Seq<char>| #[trigger] post.index_names_token(item) by {
            assert(self.index_names_token(item));
        }
        assert forall|owner: Seq<char>| (#[trigger] post.owned_tokens(owner)).no_duplicates() by {
            assert(self.owned_tokens(owner).no_duplicates());
        }
        assert forall|owner: Seq<char>, k: int|
            0 <= k < post.owned_tokens(owner).len() implies #[trigger] post.list_entry_owned(
            owner,
            k,
        ) by {
            assert(self.list_entry_owned(owner, k));
        }
    }

    proof fn lemma_token_known(&self, id: u64)
        requires
            self.wf(),
            self.token(id) is Some,
        ensures
            1 <= id <= self.token_counter,
            0 <= slot_of(self.tokens@, id) < self.tokens@.len(),
            self.tokens@[slot_of(self.tokens@, id)].token_id == id,
            self.token(id) == Some(self.tokens@[slot_of(self.tokens@, id)]),
    {
        lemma_found_token(self.tokens@, id);
        assert(self.token_in_range(slot_of(self.tokens@, id)));
    }

    /// A contract before its first call, which makes its lists in the given
    /// environment.
    pub fn new(env: soroban_sdk::Env) -> (contract: ArticleNFTContract)
        ensures
            contract.wf(),
            contract.governance().config() is None,
            contract.token_count() == 0,
            contract.minted() == 0,
            contract.registry_size() == 0,
            forall|token_id: u64| #[trigger] contract.token(token_id) is None,
            forall|item: Seq<char>| #[trigger] contract.token_of_article(item) is None,
            forall|owner: Seq<char>| #[trigger] contract.owned_tokens(owner) == Seq::<u64>::empty(),
    {
        ArticleNFTContract {
            env,
            governance: Governance::new(),
            token_counter: 0,
            tokens: Vec::new(),
            article_token: Table::new(),
            owner_tokens: Table::new(),
        }
    }

    /// Creates the configuration: the administrator and the minting
    /// threshold, which is 100000000 where none is given. The contract moves
    /// no value; the administrator stands as its platform account.
    ///
    /// Fails with `AlreadyInitialized` when there is a configuration already,
    /// with `Unauthorized` when `admin` did not authorize the call, and with
    /// `BelowMinimum` when the threshold is negative.
    pub fn initialize(
        &mut self,
        auth: &Authorization,
        admin: &Address,
        tip_threshold: Option<i128>,
    ) -> (outcome: Result<(), Error>)
        requires
            old(self).wf(),
        ensures
            final(self).wf(),
            outcome == old(self).governance().initialize_outcome(auth@, admin@, None, tip_threshold),
            outcome is Ok ==> final(self).governance().config() == Some(
                (GovernanceConfig {
                    admin: *admin,
                    platform_address: *admin,
                    platform_fee_bps: DEFAULT_PLATFORM_FEE_BPS,
                    paused: false,
                    tip_threshold: threshold_or_default(tip_threshold),
                }),
            ),
            outcome is Ok ==> final(self).same_tokens(old(self)),
            outcome is Err ==> *final(self) == *old(self),
    {
        let outcome = self.governance.initialize(
            auth,
            admin.clone(),
            admin.clone(),
            None,
            tip_threshold,
        );
        proof {
            old(self).lemma_tokens_carry_wf(final(self));
        }
        outcome
    }

    fn find_index(&self, token_id: u64) -> (found: Option<usize>)
        requires
            self.wf(),
        ensures
            match found {
                Some(i) => i < self.tokens@.len() && self.tokens@[i as int].token_id == token_id
                    && self.token(token_id) == Some(self.tokens@[i as int]),
                None => self.token(token_id) is None,
            },
    {
        let mut i: usize = 0;
        while i < self.tokens.len()
            invariant
                self.wf(),
                i <= self.tokens@.len(),
                forall|j: int| 0 <= j < i ==> (#[trigger] self.tokens@[j]).token_id != token_id,
            decreases self.tokens@.len() - i,
        {
            if self.tokens[i].token_id == token_id {
                proof {
                    lemma_find_token(self.tokens@, i as int);
                }
                return Some(i);
            }
            i += 1;
        }
        proof {
            lemma_find_absent(self.tokens@, token_id);
        }
        None
    }

    /// Adds a collectible whose id and item are not taken, and sets the
    /// counter, which is not below any id.
    fn add_token(&mut self, nft: NFTToken, counter: u64)
        requires
            old(self).wf(),
            1 <= nft.token_id <= counter,
            old(self).token_count() <= counter,
            old(self).token(nft.token_id) is None,
            old(self).token_of_article(nft.article_id@) is None,
            old(self).owned_tokens(nft.owner@).len() < u32::MAX,
        ensures
            final(self).wf(),
            old(self).token_added(final(self), nft),
            final(self).token_count() == counter,
    {
        let ghost before = *self;
        let token_id = nft.token_id;
        let item_key = nft.article_id.key().clone();
        let owner_key = nft.owner.key().clone();
        proof {
            assert(readable_in(before.owner_tokens, nft.owner@));
        }
        self.tokens.push(nft);
        self.article_token.set(item_key, token_id);
        let mut owned = match self.owner_tokens.take(&owner_key) {
            Some(owned) => owned,
            None => new_list(&self.env),
        };
        push_token_id(&mut owned, token_id);
        self.owner_tokens.set(owner_key, owned);
        self.token_counter = counter;
        proof {
            let after = *self;
            let n = before.tokens@.len() as int;
            let token_id = nft.token_id;
            let item = nft.article_id@;
            let holder = nft.owner@;
            assert(after.tokens@ == before.tokens@.push(nft));
            assert(after.tokens@[n] == nft);
            assert forall|i: int| 0 <= i < n implies (#[trigger] after.tokens@[i]) == before.tokens@[i]
                && before.tokens@[i].token_id != token_id by {
                if before.tokens@[i].token_id == token_id {
                    lemma_find_token(before.tokens@, i);
                }
            }
            assert(distinct_ids(after.tokens@)) by {
                assert forall|i: int, j: int|
                    0 <= i < j < after.tokens@.len() implies (#[trigger] after.tokens@[i]).token_id
                    != (#[trigger] after.tokens@[j]).token_id by {
                    if j < n {
                        assert(before.tokens@[i].token_id != before.tokens@[j].token_id);
                    }
                }
            }
            assert forall|id: u64| #[trigger] after.token(id) == (if id == token_id {
                Some(nft)
            } else {
                before.token(id)
            }) by {
                lemma_find_after_push(before.tokens@, nft, id);
            }
            assert forall|other: Seq<char>| #[trigger]
                after.token_of_article(other) == (if other == item {
                    Some(token_id)
                } else {
                    before.token_of_article(other)
                }) by {}
            assert(before.owned_tokens(holder).no_duplicates());
            assert(!before.owned_tokens(holder).contains(token_id)) by {
                if before.owned_tokens(holder).contains(token_id) {
                    let k = choose|k: int|
                        0 <= k < before.owned_tokens(holder).len() && before.owned_tokens(
                            holder,
                        )[k] == token_id;
                    assert(before.list_entry_owned(holder, k));
                }
            }
            assert forall|owner: Seq<char>| #[trigger]
                after.owned_tokens(owner) == (if owner == holder {
                    before.owned_tokens(holder).push(token_id)
                } else {
                    before.owned_tokens(owner)
                }) by {}
            assert forall|i: int| 0 <= i < after.tokens@.len() implies #[trigger] after.token_in_range(
                i,
            ) by {
                if i < n {
                    assert(before.token_in_range(i));
                }
            }
            assert forall|i: int| 0 <= i < after.tokens@.len() implies #[trigger] after.token_indexed(
                i,
            ) by {
                if i < n {
                    assert(before.token_indexed(i));
                }
            }
            assert forall|i: int| 0 <= i < after.tokens@.len() implies #[trigger] after.token_listed(
                i,
            ) by {
                if i < n {
                    assert(before.token_listed(i));
                    let ids = before.owned_tokens(before.tokens@[i].owner@);
                    let at = choose|at: int|
                        0 <= at < ids.len() && ids[at] == before.tokens@[i].token_id;
                    assert(ids.push(token_id)[at] == before.tokens@[i].token_id);
                } else {
                    let ids = before.owned_tokens(holder).push(token_id);
                    assert(ids[ids.len() - 1] == token_id);
                }
            }
            assert forall|other: Seq<char>| #[trigger] after.index_names_token(other) by {
                if other != item {
                    assert(before.index_names_token(other));
                    if before.token_of_article(other) is Some {
                        before.lemma_token_known(before.token_of_article(other)->Some_0);
                    }
                }
            }
            assert forall|owner: Seq<char>| (#[trigger] after.owned_tokens(
                owner,
            )).no_duplicates() by {
                assert(before.owned_tokens(owner).no_duplicates());
                if owner == holder {
                    lemma_push_distinct(before.owned_tokens(holder), token_id);
                }
            }
            assert forall|owner: Seq<char>, k: int|
                0 <= k < after.owned_tokens(owner).len() implies #[trigger] after.list_entry_owned(
                owner,
                k,
            ) by {
                if k < before.owned_tokens(owner).len() {
                    assert(before.list_entry_owned(owner, k));
                    before.lemma_token_known(before.owned_tokens(owner)[k]);
                }
            }
            assert forall|owner: Seq<char>| #[trigger] readable_in(after.owner_tokens, owner) by {
                assert(readable_in(before.owner_tokens, owner));
            }
            assert(id_count()(owned) == list_ids(owned).len());
            if before.owner_tokens@.contains_key(holder) {
                assert(id_count()(before.owner_tokens@[holder]) == list_ids(
                    before.owner_tokens@[holder],
                ).len());
            }
            assert(after.registry_size() == before.registry_size() + 1);
        }
    }

    /// Mints a collectible, with or without a permanent reference.
    fn mint(
        &mut self,
        pause_aware: bool,
        auth: &Authorization,
        author: &Address,
        article_id: &Symbol,
        tip_amount: i128,
        metadata_url: String,
        arweave_tx_id: Option<String>,
        now: u64,
    ) -> (outcome: Result<u64, Error>)
        requires
            old(self).wf(),
            old(self).token_count() < u64::MAX,
            old(self).owned_tokens(author@).len() < u32::MAX,
        ensures
            final(self).wf(),
            outcome == old(self).mint_outcome(
                pause_aware,
                auth@,
                author@,
                article_id@,
                tip_amount,
            ),
            outcome matches Ok(token_id) ==> old(self).minted_as(
                final(self),
                NFTToken {
                    token_id,
                    article_id: *article_id,
                    owner: *author,
                    minter: *author,
                    metadata_url,
                    arweave_tx_id,
                    minted_at: now,
                    tip_amount,
                },
            ),
            outcome is Err ==> *final(self) == *old(self),
    {
        if pause_aware && self.governance.is_paused() {
            return Err(Error::ContractPaused);
        }
        if !auth.has_authorized(author) {
            return Err(Error::Unauthorized);
        }
        if self.article_token.has(article_id.key()) {
            return Err(Error::AlreadyMinted);
        }
        if tip_amount < self.governance.threshold() {
            return Err(Error::BelowThreshold);
        }
        let token_id = self.token_counter + 1;
        let nft = NFTToken {
            token_id,
            article_id: article_id.clone(),
            owner: author.clone(),
            minter: author.clone(),
            metadata_url,
            arweave_tx_id,
            minted_at: now,
            tip_amount,
        };
        proof {
            if self.token(token_id) is Some {
                self.lemma_token_known(token_id);
            }
        }
        self.add_token(nft, token_id);
        Ok(token_id)
    }

    /// Mints the collectible of the item `article_id` for `author`, who
    /// reports the item's tips as `tip_amount`, at time `now`, and returns its
    /// token id. This entry point does not look at the pause flag.
    ///
    /// Fails with `Unauthorized` when `author` did not authorize the call,
    /// with `AlreadyMinted` when the item has a collectible, whatever amount
    /// is reported, and with `BelowThreshold` when the amount is under the
    /// threshold.
    pub fn mint_article_nft(
        &mut self,
        auth: &Authorization,
        author: &Address,
        article_id: &Symbol,
        tip_amount: i128,
        metadata_url: String,
        now: u64,
    ) -> (outcome: Result<u64, Error>)
        requires
            old(self).wf(),
            old(self).token_count() < u64::MAX,
            old(self).owned_tokens(author@).len() < u32::MAX,
        ensures
            final(self).wf(),
            outcome == old(self).mint_outcome(false, auth@, author@, article_id@, tip_amount),
            outcome matches Ok(token_id) ==> old(self).minted_as(
                final(self),
                NFTToken {
                    token_id,
                    article_id: *article_id,
                    owner: *author,
                    minter: *author,
                    metadata_url,
                    arweave_tx_id: None,
                    minted_at: now,
                    tip_amount,
                },
            ),
            outcome is Err ==> *final(self) == *old(self),
    {
        self.mint(false, auth, author, article_id, tip_amount, metadata_url, None, now)
    }

    /// Mints as `mint_article_nft` does, unless the contract is paused, and
    /// stores the permanent reference `arweave_tx_id` with the collectible.
    ///
    /// Fails with `ContractPaused` when the contract is paused, and else as
    /// `mint_article_nft` does.
    pub fn mint_article_nft_with_arweave(
        &mut self,
        auth: &Authorization,
        author: &Address,
        article_id: &Symbol,
        tip_amount: i128,
        metadata_url: String,
        arweave_tx_id: String,
        now: u64,
    ) -> (outcome: Result<u64, Error>)
        requires
            old(self).wf(),
            old(self).token_count() < u64::MAX,
            old(self).owned_tokens(author@).len() < u32::MAX,
        ensures
            final(self).wf(),
            outcome == old(self).mint_outcome(true, auth@, author@, article_id@, tip_amount),
            outcome matches Ok(token_id) ==> old(self).minted_as(
                final(self),
                NFTToken {
                    token_id,
                    article_id: *article_id,
                    owner: *author,
                    minter: *author,
                    metadata_url,
                    arweave_tx_id: Some(arweave_tx_id),
                    minted_at: now,
                    tip_amount,
                },
            ),
            outcome is Err ==> *final(self) == *old(self),
    {
        self.mint(
            true,
            auth,
            author,
            article_id,
            tip_amount,
            metadata_url,
            Some(arweave_tx_id),
            now,
        )
    }

    /// Hands the collectible `token_id` from `from` to `to`.
    ///
    /// Fails with `Unauthorized` when `from` did not authorize the call, with
    /// `TokenNotFound` when there is no such collectible, and with `NotOwner`
    /// when it does not belong to `from`. The id is taken out of the list of
    /// `from` by value; in a state that the operations reached it is always
    /// found there.
    pub fn transfer(
        &mut self,
        auth: &Authorization,
        from: &Address,
        to: &Address,
        token_id: u64,
    ) -> (outcome: Result<(), Error>)
        requires
            old(self).wf(),
            old(self).owned_tokens(to@).len() < u32::MAX,
        ensures
            final(self).wf(),
            outcome == old(self).transfer_outcome(auth@, from@, token_id),
            outcome is Ok ==> old(self).transferred(final(self), token_id, from@, *to),
            outcome is Err ==> *final(self) == *old(self),
    {
        if !auth.has_authorized(from) {
            return Err(Error::Unauthorized);
        }
        let i = match self.find_index(token_id) {
            Some(i) => i,
            None => {
                return Err(Error::TokenNotFound);
            },
        };
        if self.tokens[i].owner != *from {
            return Err(Error::NotOwner);
        }
        let ghost before = *self;
        let ghost giver = from@;
        let ghost taker = to@;
        let ghost given = before.owned_tokens(giver);
        proof {
            assert(before.token_listed(i as int));
            assert(given.no_duplicates());
            lemma_without_present(given, token_id);
            lemma_without_distinct(given, token_id);
            assert(readable_in(before.owner_tokens, giver));
            assert(readable_in(before.owner_tokens, taker));
        }
        let mut nft = self.tokens[i].clone();
        nft.owner = to.clone();
        self.tokens.set(i, nft);
        let mut from_tokens = match self.owner_tokens.take(from.key()) {
            Some(ids) => ids,
            None => new_list(&self.env),
        };
        let ghost table_taken = self.owner_tokens;
        let removed = remove_token_id(&mut from_tokens, token_id);
        assert(removed);
        let ghost left = from_tokens;
        self.owner_tokens.set(from.key().clone(), from_tokens);
        let ghost table_left = self.owner_tokens;
        let mut to_tokens = match self.owner_tokens.take(to.key()) {
            Some(ids) => ids,
            None => new_list(&self.env),
        };
        let ghost base = list_ids(to_tokens);
        push_token_id(&mut to_tokens, token_id);
        let ghost joined = to_tokens;
        self.owner_tokens.set(to.key().clone(), to_tokens);
        proof {
            let after = *self;
            let rest = without_first(given, token_id);
            assert(base == ids_in(table_left, taker));
            assert(base == (if taker == giver {
                rest
            } else {
                before.owned_tokens(taker)
            }));
            assert forall|owner: Seq<char>| #[trigger]
                after.owned_tokens(owner) == (if owner == taker {
                    base.push(token_id)
                } else if owner == giver {
                    rest
                } else {
                    before.owned_tokens(owner)
                }) by {}
            assert forall|id: u64| #[trigger] after.token(id) == (if id == token_id {
                Some(nft)
            } else {
                before.token(id)
            }) by {
                lemma_find_after_update(before.tokens@, i as int, nft, id);
            }
            lemma_find_after_update(before.tokens@, i as int, nft, token_id);
            assert forall|item: Seq<char>| #[trigger]
                after.token_of_article(item) == before.token_of_article(item) by {}
            // The id is not in the list that it joins.
            assert(!base.contains(token_id)) by {
                if taker != giver && base.contains(token_id) {
                    let k = choose|k: int| 0 <= k < base.len() && base[k] == token_id;
                    assert(before.list_entry_owned(taker, k));
                }
            }
            assert(base.no_duplicates()) by {
                assert(before.owned_tokens(taker).no_duplicates());
            }
            lemma_push_distinct(base, token_id);
            assert forall|j: int| 0 <= j < after.tokens@.len() implies #[trigger] after.token_in_range(
                j,
            ) by {
                assert(before.token_in_range(j));
            }
            assert forall|j: int| 0 <= j < after.tokens@.len() implies #[trigger] after.token_indexed(
                j,
            ) by {
                assert(before.token_indexed(j));
            }
            assert forall|j: int| 0 <= j < after.tokens@.len() implies #[trigger] after.token_listed(
                j,
            ) by {
                if j == i {
                    assert(base.push(token_id)[base.len() as int] == token_id);
                } else {
                    assert(before.token_listed(j));
                    let id = before.tokens@[j].token_id;
                    let owner = before.tokens@[j].owner@;
                    if j < i {
                        assert(before.tokens@[j].token_id != before.tokens@[i as int].token_id);
                    } else {
                        assert(before.tokens@[i as int].token_id != before.tokens@[j].token_id);
                    }
                    assert(after.tokens@[j] == before.tokens@[j]);
                    if owner == taker {
                        lemma_push_keeps(base, token_id, id);
                    }
                }
            }
            assert forall|item: Seq<char>| #[trigger] after.index_names_token(item) by {
                assert(before.index_names_token(item));
            }
            assert forall|owner: Seq<char>| (#[trigger] after.owned_tokens(
                owner,
            )).no_duplicates() by {
                assert(before.owned_tokens(owner).no_duplicates());
            }
            assert forall|owner: Seq<char>, k: int|
                0 <= k < after.owned_tokens(owner).len() implies #[trigger] after.list_entry_owned(
                owner,
                k,
            ) by {
                let id = after.owned_tokens(owner)[k];
                if owner == taker && k == base.len() {
                } else {
                    // The id stood in a list of `owner` before.
                    let list = before.owned_tokens(owner);
                    if (owner == taker && taker == giver) || (owner == giver && owner != taker) {
                        assert(rest[k] == id);
                        assert(rest.contains(id));
                        assert(id != token_id);
                        assert(given.contains(id));
                    } else {
                        assert(list[k] == id);
                        assert(list.contains(id));
                    }
                    let at = choose|at: int| 0 <= at < list.len() && list[at] == id;
                    assert(before.list_entry_owned(owner, at));
                }
            }
            assert forall|owner: Seq<char>| #[trigger] readable_in(after.owner_tokens, owner) by {
                assert(readable_in(before.owner_tokens, owner));
            }
            assert(id_count()(left) == list_ids(left).len());
            assert(id_count()(joined) == list_ids(joined).len());
            assert(before.owner_tokens@.contains_key(giver));
            assert(id_count()(before.owner_tokens@[giver]) == given.len());
            if table_left@.contains_key(taker) {
                assert(id_count()(table_left@[taker]) == base.len());
            }
            assert(after.registry_size() == before.registry_size());
        }
        Ok(())
    }

    /// Sets the minting threshold.
    ///
    /// Fails with `Unauthorized` unless the administrator makes the call, and
    /// with `BelowMinimum` when the threshold is negative.
    pub fn set_tip_threshold(
        &mut self,
        auth: &Authorization,
        admin: &Address,
        new_threshold: i128,
    ) -> (outcome: Result<(), Error>)
        requires
            old(self).wf(),
        ensures
            final(self).wf(),
            final(self).governance().tip_threshold() >= MINIMUM_TIP_THRESHOLD,
            outcome == old(self).governance().set_threshold_outcome(auth@, admin@, new_threshold),
            outcome is Ok ==> final(self).governance().config() == Some(
                (GovernanceConfig {
                    tip_threshold: new_threshold,
                    ..old(self).governance().config()->Some_0
                }),
            ),
            outcome is Ok ==> final(self).same_tokens(old(self)),
            outcome is Err ==> *final(self) == *old(self),
    {
        let outcome = self.governance.set_threshold(auth, admin, new_threshold);
        proof {
            old(self).lemma_tokens_carry_wf(final(self));
        }
        outcome
    }

    /// Pauses the contract: the pause-aware entry point refuses to mint until
    /// the pause ends.
    ///
    /// Fails with `Unauthorized` unless the administrator makes the call.
    pub fn pause(&mut self, auth: &Authorization, admin: &Address) -> (outcome: Result<(), Error>)
        requires
            old(self).wf(),
        ensures
            final(self).wf(),
            outcome == old(self).governance().admin_outcome(auth@, admin@),
            outcome is Ok ==> final(self).governance().config() == Some(
                (GovernanceConfig { paused: true, ..old(self).governance().config()->Some_0 }),
            ),
            outcome is Ok ==> final(self).same_tokens(old(self)),
            outcome is Err ==> *final(self) == *old(self),
    {
        let outcome = self.governance.pause(auth, admin);
        proof {
            old(self).lemma_tokens_carry_wf(final(self));
        }
        outcome
    }

    /// Ends the pause.
    ///
    /// Fails with `Unauthorized` unless the administrator makes the call.
    pub fn unpause(&mut self, auth: &Authorization, admin: &Address) -> (outcome: Result<(), Error>)
        requires
            old(self).wf(),
        ensures
            final(self).wf(),
            outcome == old(self).governance().admin_outcome(auth@, admin@),
            outcome is Ok ==> final(self).governance().config() == Some(
                (GovernanceConfig { paused: false, ..old(self).governance().config()->Some_0 }),
            ),
            outcome is Ok ==> final(self).same_tokens(old(self)),
            outcome is Err ==> *final(self) == *old(self),
    {
        let outcome = self.governance.unpause(auth, admin);
        proof {
            old(self).lemma_tokens_carry_wf(final(self));
        }
        outcome
    }

    /// Whether the contract is paused.
    pub fn is_paused(&self) -> (paused: bool)
        ensures
            paused == self.governance().paused(),
    {
        self.governance.is_paused()
    }

    /// Whether the configuration was created.
    pub fn is_initialized(&self) -> (initialized: bool)
        ensures
            initialized == self.governance().initialized(),
    {
        self.governance.is_initialized()
    }

    /// The tips that an item needs for its collectible to be minted; never a
    /// negative amount.
    pub fn get_tip_threshold(&self) -> (threshold: i128)
        requires
            self.wf(),
        ensures
            threshold == self.governance().tip_threshold(),
            threshold >= MINIMUM_TIP_THRESHOLD,
    {
        self.governance.threshold()
    }

    /// Whether `stored` is the list of `owner` as it is held here: a readable
    /// list of the same ids in the same order. A stored list that differs from
    /// what the collectibles' own records give is out of step with them.
    pub fn owner_list_is(&self, owner: &Address, stored: &soroban_sdk::Vec<u64>) -> (same: bool)
        requires
            self.wf(),
        ensures
            same == (list_readable(*stored) && list_ids(*stored) == self.owned_tokens(owner@)),
    {
        assert(readable_in(self.owner_tokens, owner@));
        match self.owner_tokens.get(owner.key()) {
            Some(held) => {
                proof {
                    assert(list_readable(*held));
                    assert(list_ids(*held) == self.owned_tokens(owner@));
                    lemma_same_ids_same_cells(*held, *stored);
                }
                same_list(held, stored)
            },
            None => {
                let empty = list_len(stored) == 0;
                proof {
                    assert(list_ids(*stored).len() == cells_of(*stored).len());
                    if empty {
                        assert(list_ids(*stored) =~= Seq::<u64>::empty());
                    }
                }
                empty
            },
        }
    }

    /// The number of token ids given out so far, which is the latest id.
    pub fn get_token_count(&self) -> (count: u64)
        ensures
            count == self.token_count(),
    {
        self.token_counter
    }

    /// The owner of the collectible `token_id`.
    ///
    /// Fails with `TokenNotFound` when there is no such collectible.
    pub fn get_owner(&self, token_id: u64) -> (outcome: Result<Address, Error>)
        requires
            self.wf(),
        ensures
            match self.token(token_id) {
                Some(token) => outcome == Ok::<Address, Error>(token.owner),
                None => outcome == Err::<Address, Error>(Error::TokenNotFound),
            },
    {
        match self.find_index(token_id) {
            Some(i) => Ok(self.tokens[i].owner.clone()),
            None => Err(Error::TokenNotFound),
        }
    }

    /// The collectible `token_id`, if there is one.
    pub fn get_token(&self, token_id: u64) -> (token: Option<NFTToken>)
        requires
            self.wf(),
        ensures
            token == self.token(token_id),
    {
        match self.find_index(token_id) {
            Some(i) => Some(self.tokens[i].clone()),
            None => None,
        }
    }

    /// Whether the item has a collectible.
    pub fn is_article_minted(&self, article_id: &Symbol) -> (minted: bool)
        requires
            self.wf(),
        ensures
            minted == (self.token_of_article(article_id@) is Some),
    {
        self.article_token.has(article_id.key())
    }

    /// The collectible of the item, if it has one.
    pub fn get_token_by_article(&self, article_id: &Symbol) -> (token: Option<NFTToken>)
        requires
            self.wf(),
        ensures
            match self.token_of_article(article_id@) {
                Some(token_id) => token is Some && token == self.token(token_id)
                    && token->Some_0.article_id@ == article_id@,
                None => token is None,
            },
    {
        assert(self.index_names_token(article_id@));
        match self.article_token.get(article_id.key()) {
            Some(token_id) => self.get_token(*token_id),
            None => None,
        }
    }

    /// The list of `owner`: its token ids in the order in which they joined;
    /// an empty list for an account that never owned a collectible.
    pub fn get_owned_tokens(&self, owner: &Address) -> (ids: soroban_sdk::Vec<u64>)
        requires
            self.wf(),
        ensures
            list_readable(ids),
            list_ids(ids) == self.owned_tokens(owner@),
    {
        assert(readable_in(self.owner_tokens, owner@));
        match self.owner_tokens.get(owner.key()) {
            Some(held) => copy_list(&self.env, held),
            None => new_list(&self.env),
        }
    }

    /// The contract as it is kept in storage, before any collectible is
    /// brought in. It makes its lists in the given environment.
    pub fn restore(env: soroban_sdk::Env, governance: Governance, token_counter: u64) -> (contract:
        ArticleNFTContract)
        requires
            governance.wf(),
        ensures
            contract.wf(),
            contract.governance() == governance,
            contract.token_count() == token_counter,
            contract.minted() == 0,
            contract.registry_size() == 0,
            forall|token_id: u64| #[trigger] contract.token(token_id) is None,
            forall|item: Seq<char>| #[trigger] contract.token_of_article(item) is None,
            forall|owner: Seq<char>| #[trigger] contract.owned_tokens(owner) == Seq::<u64>::empty(),
    {
        ArticleNFTContract {
            env,
            governance,
            token_counter,
            tokens: Vec::new(),
            article_token: Table::new(),
            owner_tokens: Table::new(),
        }
    }

    /// Brings in a stored collectible and says whether it was accepted. It is
    /// when its id is one that was given out, neither the id nor the item is
    /// held yet, and its owner's list has room for one more id. It then
    /// stands at the end of its owner's list, so an
    /// owner's collectibles are brought in in the order of the stored list. A
    /// refused collectible changes nothing.
    pub fn restore_token(&mut self, token: NFTToken) -> (accepted: bool)
        requires
            old(self).wf(),
        ensures
            final(self).wf(),
            accepted == (1 <= token.token_id <= old(self).token_count() && old(self).token(
                token.token_id,
            ) is None && old(self).token_of_article(token.article_id@) is None && old(
                self,
            ).owned_tokens(token.owner@).len() < u32::MAX),
            accepted ==> old(self).token_added(final(self), token) && final(self).token_count()
                == old(self).token_count(),
            !accepted ==> *final(self) == *old(self),
    {
        if token.token_id < 1 || token.token_id > self.token_counter {
            return false;
        }
        if self.find_index(token.token_id).is_some() {
            return false;
        }
        if self.article_token.has(token.article_id.key()) {
            return false;
        }
        let full = match self.owner_tokens.get(token.owner.key()) {
            Some(held) => list_len(held) == u32::MAX,
            None => false,
        };
        if full {
            return false;
        }
        let counter = self.token_counter;
        self.add_token(token, counter);
        true
    }

    /// The minting threshold is never negative.
    pub proof fn lemma_threshold_not_negative(&self)
        requires
            self.wf(),
        ensures
            self.governance().tip_threshold() >= MINIMUM_TIP_THRESHOLD,
            self.governance().wf(),
    {
    }

    /// A collectible stands in the list of an owner exactly when its record
    /// names that owner, so it stands in one list only.
    pub proof fn lemma_listed_iff_owned(&self, owner: Seq<char>, token_id: u64)
        requires
            self.wf(),
        ensures
            self.owned_tokens(owner).contains(token_id) <==> (self.token(token_id) matches Some(
                token,
            ) && token.owner@ == owner),
    {
        if self.owned_tokens(owner).contains(token_id) {
            let k = choose|k: int|
                0 <= k < self.owned_tokens(owner).len() && self.owned_tokens(owner)[k] == token_id;
            assert(self.list_entry_owned(owner, k));
        }
        if self.token(token_id) is Some {
            self.lemma_token_known(token_id);
            assert(self.token_listed(slot_of(self.tokens@, token_id)));
        }
    }

    /// No owner's list holds an id twice, and the lists together are as long
    /// as there are collectibles.
    pub proof fn lemma_registry_counts_tokens(&self, owner: Seq<char>)
        requires
            self.wf(),
        ensures
            self.owned_tokens(owner).no_duplicates(),
            self.registry_size() == self.minted(),
    {
    }

    /// An item and its collectible name each other, so no two collectibles
    /// are of one item.
    pub proof fn lemma_one_token_per_item(&self, token_id: u64, item: Seq<char>)
        requires
            self.wf(),
        ensures
            self.token_of_article(item) == Some(token_id) <==> (self.token(token_id) matches Some(
                token,
            ) && token.article_id@ == item),
            self.token(token_id) matches Some(token) ==> token.token_id == token_id && 1
                <= token_id <= self.token_count(),
    {
        assert(self.index_names_token(item));
        if self.token(token_id) is Some {
            self.lemma_token_known(token_id);
            assert(self.token_indexed(slot_of(self.tokens@, token_id)));
        }
    }

    /// Once an item is minted, minting it again is refused with
    /// `AlreadyMinted`, whoever asks with authorization and whatever amount is
    /// reported.
    pub proof fn lemma_second_mint_refused(
        &self,
        post: &ArticleNFTContract,
        token: NFTToken,
        approvers: Set<Seq<char>>,
        author: Seq<char>,
        tip_amount: i128,
    )
        requires
            self.minted_as(post, token),
            approvers.contains(author),
        ensures
            post.mint_outcome(false, approvers, author, token.article_id@, tip_amount) == Err::<
                u64,
                Error,
            >(Error::AlreadyMinted),
            !post.governance().paused() ==> post.mint_outcome(
                true,
                approvers,
                author,
                token.article_id@,
                tip_amount,
            ) == Err::<u64, Error>(Error::AlreadyMinted),
    {
    }

    /// For an item without collectible and an author who authorized the call,
    /// an amount under the threshold is refused with `BelowThreshold`, and the
    /// threshold itself and every amount above it are accepted.
    pub proof fn lemma_threshold_decides(
        &self,
        approvers: Set<Seq<char>>,
        author: Seq<char>,
        item: Seq<char>,
        tip_amount: i128,
    )
        requires
            approvers.contains(author),
            self.token_of_article(item) is None,
            self.token_count() < u64::MAX,
        ensures
            tip_amount < self.governance().tip_threshold() ==> self.mint_outcome(
                false,
                approvers,
                author,
                item,
                tip_amount,
            ) == Err::<u64, Error>(Error::BelowThreshold),
            tip_amount >= self.governance().tip_threshold() ==> self.mint_outcome(
                false,
                approvers,
                author,
                item,
                tip_amount,
            ) == Ok::<u64, Error>((self.token_count() + 1) as u64),
    {
    }

    /// After a transfer between two different accounts the collectible is out
    /// of the giver's list and in the taker's, its record names the taker, and
    /// the lists together are as long as before.
    pub proof fn lemma_transfer_moves_token(
        &self,
        post: &ArticleNFTContract,
        approvers: Set<Seq<char>>,
        token_id: u64,
        from: Seq<char>,
        to: Address,
    )
        requires
            self.wf(),
            self.transfer_outcome(approvers, from, token_id) is Ok,
            self.transferred(post, token_id, from, to),
            from != to@,
        ensures
            !post.owned_tokens(from).contains(token_id),
            post.owned_tokens(to@).contains(token_id),
            post.token(token_id) matches Some(token) && token.owner == to,
            post.registry_size() == self.registry_size(),
    {
        assert(self.owned_tokens(from).no_duplicates());
        lemma_without_distinct(self.owned_tokens(from), token_id);
        let joined = self.owned_tokens(to@).push(token_id);
        assert(joined[joined.len() - 1] == token_id);
    }
}

} // verus!
