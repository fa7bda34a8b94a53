//! The token registry: minting by one admin, ownership, and transfer by the
//! owner.

use crate::address::Address;
use std::collections::HashMap;
use vstd::prelude::*;
use vstd::std_specs::cmp::PartialEqSpecImpl;

verus! {

broadcast use vstd::std_specs::hash::group_hash_axioms;

/// Why an operation of the registry was refused.
#[derive(Clone, Copy, Debug, PartialEq, Eq, Structural)]
pub enum Error {
    /// The caller is not the admin, or not the owner of the token.
    Unauthorized,
    /// No token has the given id.
    NotFound,
}

/// A token: its id, its current owner, and the metadata it was minted with.
#[derive(Debug)]
pub struct NFT {
    pub id: u64,
    pub owner: Address,
    /// A locator of the token's description, or the description itself.
    pub metadata: String,
}

/// A token as mathematics.
pub struct NFTView {
    pub id: nat,
    pub owner: Seq<char>,
    pub metadata: Seq<char>,
}

impl View for NFT {
    type V = NFTView;

    open spec fn view(&self) -> NFTView {
        NFTView { id: self.id as nat, owner: self.owner@, metadata: self.metadata@ }
    }
}

impl Clone for NFT {
    fn clone(&self) -> (copy: NFT)
        ensures
            copy == *self,
    {
        NFT { id: self.id, owner: self.owner.clone(), metadata: self.metadata.clone() }
    }
}

impl PartialEq for NFT {
    fn eq(&self, other: &NFT) -> (same: bool) {
        self.id == other.id && self.owner == other.owner && self.metadata == other.metadata
    }
}

impl PartialEqSpecImpl for NFT {
    open spec fn obeys_eq_spec() -> bool {
        true
    }

    open spec fn eq_spec(&self, other: &NFT) -> bool {
        self@ == other@
    }
}

impl Eq for NFT {

}

/// What the registry tells observers about a change it made.
#[derive(Debug)]
pub enum Notification {
    /// A token was minted; carries the new id and the token.
    Mint { id: u64, nft: NFT },
    /// A token changed hands; carries the id, the previous owner and the new one.
    Transfer { id: u64, from: Address, to: Address },
}

/// A notification as mathematics.
pub enum NotificationView {
    Mint { id: nat, nft: NFTView },
    Transfer { id: nat, from: Seq<char>, to: Seq<char> },
}

impl View for Notification {
    type V = NotificationView;

    open spec fn view(&self) -> NotificationView {
        match *self {
            Notification::Mint { id, nft } => NotificationView::Mint { id: id as nat, nft: nft@ },
            Notification::Transfer { id, from, to } => NotificationView::Transfer {
                id: id as nat,
                from: from@,
                to: to@,
            },
        }
    }
}

impl NotificationView {
    /// The topic under which observers find the notification.
    pub open spec fn topic(self) -> Seq<char> {
        match self {
            NotificationView::Mint { .. } => "mint"@,
            NotificationView::Transfer { .. } => "transfer"@,
        }
    }
}

impl Notification {
    /// The topic under which observers find the notification: `mint` or
    /// `transfer`.
    pub fn topic(&self) -> (topic: &'static str)
        ensures
            topic@ == self@.topic(),
    {
        match self {
            Notification::Mint { .. } => "mint",
            Notification::Transfer { .. } => "transfer",
        }
    }
}

/// What the registry holds, as mathematics.
pub struct RegistryView {
    /// The admin, once the registry was initialized.
    pub admin: Option<Seq<char>>,
    /// The id given to the token minted last; zero while none was.
    pub next_nft_id: nat,
    /// The tokens by id.
    pub nfts: Map<nat, NFTView>,
    /// The notifications, oldest first.
    pub notifications: Seq<NotificationView>,
}

impl RegistryView {
    /// The registry in which nothing was ever written.
    pub open spec fn empty() -> RegistryView {
        RegistryView {
            admin: None,
            next_nft_id: 0,
            nfts: Map::empty(),
            notifications: Seq::empty(),
        }
    }

    /// `admin` becomes the admin and the counter goes back to zero. Tokens
    /// and notifications stay.
    pub open spec fn initialize(self, admin: Seq<char>) -> RegistryView {
        RegistryView { admin: Some(admin), next_nft_id: 0, ..self }
    }

    /// Whether `caller` is the admin.
    pub open spec fn may_mint(self, caller: Seq<char>) -> bool {
        self.admin == Some(caller)
    }

    /// Whether the id after the counter still fits in a `u64`.
    pub open spec fn has_free_id(self) -> bool {
        self.next_nft_id < u64::MAX
    }

    /// The token that the next mint creates for `caller`.
    pub open spec fn next_nft(self, caller: Seq<char>, metadata: Seq<char>) -> NFTView {
        NFTView { id: self.next_nft_id + 1, owner: caller, metadata }
    }

    /// What a mint by `caller` returns: the next id for the admin, a refusal
    /// for anyone else.
    pub open spec fn mint_result(self, caller: Seq<char>) -> Result<nat, Error> {
        if self.may_mint(caller) {
            Ok(self.next_nft_id + 1)
        } else {
            Err(Error::Unauthorized)
        }
    }

    /// The registry after a mint by `caller`: for the admin the counter grows
    /// by one, the new token is stored under the new id and a notification is
    /// added; for anyone else nothing changes.
    pub open spec fn mint(self, caller: Seq<char>, metadata: Seq<char>) -> RegistryView {
        if self.may_mint(caller) {
            let nft = self.next_nft(caller, metadata);
            RegistryView {
                next_nft_id: nft.id,
                nfts: self.nfts.insert(nft.id, nft),
                notifications: self.notifications.push(
                    NotificationView::Mint { id: nft.id, nft },
                ),
                ..self
            }
        } else {
            self
        }
    }

    /// What a transfer of token `id` by `caller` returns.
    pub open spec fn transfer_result(self, caller: Seq<char>, id: nat) -> Result<(), Error> {
        if !self.nfts.contains_key(id) {
            Err(Error::NotFound)
        } else if self.nfts[id].owner != caller {
            Err(Error::Unauthorized)
        } else {
            Ok(())
        }
    }

    /// The registry after a transfer of token `id` by `caller` to `to`: if
    /// `caller` owns the token, `to` owns it afterwards and a notification is
    /// added; otherwise nothing changes.
    pub open spec fn transfer(self, caller: Seq<char>, to: Seq<char>, id: nat) -> RegistryView {
        if self.transfer_result(caller, id) is Ok {
            RegistryView {
                nfts: self.nfts.insert(id, NFTView { owner: to, ..self.nfts[id] }),
                notifications: self.notifications.push(
                    NotificationView::Transfer { id, from: caller, to },
                ),
                ..self
            }
        } else {
            self
        }
    }

    /// The token with the given id.
    pub open spec fn get_nft(self, id: nat) -> Result<NFTView, Error> {
        if self.nfts.contains_key(id) {
            Ok(self.nfts[id])
        } else {
            Err(Error::NotFound)
        }
    }

    /// The owner of the token with the given id.
    pub open spec fn get_owner(self, id: nat) -> Result<Seq<char>, Error> {
        if self.nfts.contains_key(id) {
            Ok(self.nfts[id].owner)
        } else {
            Err(Error::NotFound)
        }
    }
}

/// The stored tokens, by id as a natural number.
pub open spec fn tokens_view(nfts: Map<u64, NFT>) -> Map<nat, NFTView> {
    Map::new(
        |id: nat| id <= u64::MAX && nfts.contains_key(id as u64),
        |id: nat| nfts[id as u64]@,
    )
}

/// Storing a token under an id stores its view under that id.
proof fn lemma_tokens_view_insert(nfts: Map<u64, NFT>, id: u64, nft: NFT)
    ensures
        tokens_view(nfts.insert(id, nft)) == tokens_view(nfts).insert(id as nat, nft@),
{
    assert(tokens_view(nfts.insert(id, nft)) =~= tokens_view(nfts).insert(id as nat, nft@));
}

/// The tokens of a list by id, a later token replacing an earlier one with
/// the same id.
pub open spec fn tokens_by_id(tokens: Seq<NFT>) -> Map<nat, NFTView>
    decreases tokens.len(),
{
    if tokens.len() == 0 {
        Map::empty()
    } else {
        tokens_by_id(tokens.drop_last()).insert(tokens.last().id as nat, tokens.last()@)
    }
}

/// The state of one token registry.
///
/// Every operation reads the state it is given and writes the next one in
/// place; an operation that is refused leaves the state as it was.
#[derive(Debug)]
pub struct NFTContract {
    /// The admin, once the registry was initialized.
    pub admin: Option<Address>,
    /// The id given to the token minted last; zero while none was.
    pub next_nft_id: u64,
    /// The tokens by id.
    pub nfts: HashMap<u64, NFT>,
    /// The notifications not yet handed to observers, oldest first.
    pub notifications: Vec<Notification>,
}

impl View for NFTContract {
    type V = RegistryView;

    open spec fn view(&self) -> RegistryView {
        RegistryView {
            admin: match self.admin {
                Some(admin) => Some(admin@),
                None => None,
            },
            next_nft_id: self.next_nft_id as nat,
            nfts: tokens_view(self.nfts@),
            notifications: self.notifications@.map_values(|n: Notification| n@),
        }
    }
}

impl NFTContract {
    /// A registry in which nothing was ever written.
    pub fn new() -> (registry: NFTContract)
        ensures
            registry@ == RegistryView::empty(),
    {
        let registry = NFTContract {
            admin: None,
            next_nft_id: 0,
            nfts: HashMap::new(),
            notifications: Vec::new(),
        };
        proof {
            assert(registry@.nfts =~= Map::<nat, NFTView>::empty());
            assert(registry@.notifications =~= Seq::<NotificationView>::empty());
        }
        registry
    }

    /// The registry that a store holds: its admin if one was written, its
    /// counter, zero if none was written, and the given tokens, each under
    /// its id. It has no notifications.
    pub fn from_stored(admin: Option<Address>, next_nft_id: Option<u64>, tokens: Vec<NFT>) -> (registry:
        NFTContract)
        ensures
            registry@ == (RegistryView {
                admin: match admin {
                    Some(admin) => Some(admin@),
                    None => None,
                },
                next_nft_id: match next_nft_id {
                    Some(count) => count as nat,
                    None => 0,
                },
                nfts: tokens_by_id(tokens@),
                notifications: Seq::empty(),
            }),
    {
        let mut nfts: HashMap<u64, NFT> = HashMap::new();
        let mut i: usize = 0;
        proof {
            assert(tokens_view(nfts@) =~= tokens_by_id(tokens@.subrange(0, 0)));
        }
        while i < tokens.len()
            invariant
                i <= tokens.len(),
                tokens_view(nfts@) == tokens_by_id(tokens@.subrange(0, i as int)),
            decreases tokens.len() - i,
        {
            let nft = tokens[i].clone();
            proof {
                lemma_tokens_view_insert(nfts@, nft.id, nft);
                assert(tokens@.subrange(0, i + 1).drop_last() =~= tokens@.subrange(0, i as int));
            }
            nfts.insert(nft.id, nft);
            i += 1;
        }
        let registry = NFTContract {
            admin,
            next_nft_id: match next_nft_id {
                Some(count) => count,
                None => 0,
            },
            nfts,
            notifications: Vec::new(),
        };
        proof {
            assert(tokens@.subrange(0, tokens.len() as int) =~= tokens@);
            assert(registry@.notifications =~= Seq::<NotificationView>::empty());
        }
        registry
    }

    /// Makes `admin` the admin and sets the counter to zero, also when the
    /// registry was initialized before. Tokens already stored stay.
    pub fn initialize(&mut self, admin: Address)
        ensures
            final(self)@ == old(self)@.initialize(admin@),
    {
        self.admin = Some(admin);
        self.next_nft_id = 0;
    }

    /// Whether the id after the counter still fits in a `u64`, so that the
    /// admin can mint once more.
    pub fn has_free_id(&self) -> (free: bool)
        ensures
            free == self@.has_free_id(),
    {
        self.next_nft_id < u64::MAX
    }

    /// Whether `caller` is the admin.
    pub fn may_mint(&self, caller: &Address) -> (allowed: bool)
        ensures
            allowed == self@.may_mint(caller@),
    {
        match &self.admin {
            Some(admin) => *admin == *caller,
            None => false,
        }
    }

    /// Mints a token for the admin: the counter grows by one, the token gets
    /// the new count as its id and `caller` as its owner, and a notification
    /// is added. Anyone but the admin is refused, and then nothing changes.
    pub fn mint(&mut self, caller: Address, metadata: String) -> (minted: Result<u64, Error>)
        requires
            old(self)@.may_mint(caller@) ==> old(self)@.has_free_id(),
        ensures
            final(self)@ == old(self)@.mint(caller@, metadata@),
            match minted {
                Ok(id) => old(self)@.mint_result(caller@) == Ok::<nat, Error>(id as nat),
                Err(error) => old(self)@.mint_result(caller@) == Err::<nat, Error>(error),
            },
    {
        if !self.may_mint(&caller) {
            return Err(Error::Unauthorized);
        }
        let next_id: u64 = self.next_nft_id + 1;
        let nft = NFT { id: next_id, owner: caller, metadata };
        let notification = Notification::Mint { id: next_id, nft: nft.clone() };
        proof {
            lemma_tokens_view_insert(self.nfts@, next_id, nft);
            assert(self.notifications@.push(notification).map_values(|n: Notification| n@)
                =~= self.notifications@.map_values(|n: Notification| n@).push(notification@));
        }
        self.nfts.insert(next_id, nft);
        self.next_nft_id = next_id;
        self.notifications.push(notification);
        Ok(next_id)
    }

    /// Hands token `nft_id` from `caller` to `to` and adds a notification.
    /// Refused with `NotFound` if there is no such token and with
    /// `Unauthorized` if `caller` does not own it; then nothing changes.
    pub fn transfer(&mut self, caller: Address, to: Address, nft_id: u64) -> (done: Result<
        (),
        Error,
    >)
        ensures
            final(self)@ == old(self)@.transfer(caller@, to@, nft_id as nat),
            done == old(self)@.transfer_result(caller@, nft_id as nat),
    {
        let moved = match self.nfts.get(&nft_id) {
            None => {
                return Err(Error::NotFound);
            },
            Some(nft) => {
                if nft.owner != caller {
                    return Err(Error::Unauthorized);
                }
                NFT { id: nft.id, owner: to.clone(), metadata: nft.metadata.clone() }
            },
        };
        let notification = Notification::Transfer { id: nft_id, from: caller, to };
        proof {
            lemma_tokens_view_insert(self.nfts@, nft_id, moved);
            assert(self.notifications@.push(notification).map_values(|n: Notification| n@)
                =~= self.notifications@.map_values(|n: Notification| n@).push(notification@));
        }
        self.nfts.insert(nft_id, moved);
        self.notifications.push(notification);
        Ok(())
    }

    /// The token with the given id, or `NotFound`.
    pub fn get_nft(&self, nft_id: u64) -> (found: Result<NFT, Error>)
        ensures
            match found {
                Ok(nft) => self@.get_nft(nft_id as nat) == Ok::<NFTView, Error>(nft@),
                Err(error) => self@.get_nft(nft_id as nat) == Err::<NFTView, Error>(error),
            },
    {
        match self.nfts.get(&nft_id) {
            Some(nft) => Ok(nft.clone()),
            None => Err(Error::NotFound),
        }
    }

    /// The owner of the token with the given id, or `NotFound`.
    pub fn get_owner(&self, nft_id: u64) -> (found: Result<Address, Error>)
        ensures
            match found {
                Ok(owner) => self@.get_owner(nft_id as nat) == Ok::<Seq<char>, Error>(owner@),
                Err(error) => self@.get_owner(nft_id as nat) == Err::<Seq<char>, Error>(error),
            },
    {
        match self.nfts.get(&nft_id) {
            Some(nft) => Ok(nft.owner.clone()),
            None => Err(Error::NotFound),
        }
    }

    /// Hands over the notifications added since the last call, oldest first,
    /// and keeps none.
    pub fn take_notifications(&mut self) -> (taken: Vec<Notification>)
        ensures
            taken@.map_values(|n: Notification| n@) == old(self)@.notifications,
            final(self)@ == (RegistryView { notifications: Seq::empty(), ..old(self)@ }),
    {
        let mut taken: Vec<Notification> = Vec::new();
        core::mem::swap(&mut self.notifications, &mut taken);
        proof {
            assert(self@.notifications =~= Seq::<NotificationView>::empty());
        }
        taken
    }
}

} // verus!
