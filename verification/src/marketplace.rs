//! Marketplace records and their integer-and-string operations: sale
//! listings, collections, auctions with monotone bids, and the ownership
//! registry they act on. The pricing rules (fees and royalties, priced
//! in fractions) live outside the library.

use vstd::prelude::*;
use vstd::string::StringExecFns;
use crate::text::spec_udec;

verus! {

pub struct Listing {
    pub nft_id: String,
    pub seller: String,
    pub price: u64,
    pub currency: String,
    pub listed_at: u64,
    pub active: bool,
}

pub struct Auction {
    pub nft_id: String,
    pub seller: String,
    pub starting_bid: u64,
    pub current_bid: u64,
    pub highest_bidder: String,
    pub end_time: u64,
    pub active: bool,
}

pub struct Collection {
    pub id: String,
    pub name: String,
    pub creator: String,
    pub total_items: u64,
    pub floor_price: u64,
    pub total_volume: u64,
    pub verified: bool,
}

/// Whether an ownership record exists for the token id.
pub open spec fn owner_rec_has(v: Seq<(String, String)>, id: Seq<char>) -> bool {
    exists|i: int| 0 <= i < v.len() && v[i].0@ == id
}

/// The index of the first ownership record for the token id.
pub open spec fn owner_rec_idx(v: Seq<(String, String)>, id: Seq<char>) -> int
    decreases v.len(),
{
    if v.len() == 0 {
        0
    } else if v[0].0@ == id {
        0
    } else {
        1 + owner_rec_idx(v.drop_first(), id)
    }
}

proof fn lemma_owner_rec_idx(v: Seq<(String, String)>, id: Seq<char>, i: int)
    requires
        0 <= i < v.len(),
        v[i].0@ == id,
        forall|j: int| 0 <= j < i ==> v[j].0@ != id,
    ensures
        owner_rec_idx(v, id) == i,
    decreases i,
{
    if i > 0 {
        lemma_owner_rec_idx(v.drop_first(), id, i - 1);
    }
}

/// Whether an auction exists for the token id.
pub open spec fn auction_has(v: Seq<Auction>, id: Seq<char>) -> bool {
    exists|i: int| 0 <= i < v.len() && v[i].nft_id@ == id
}

/// The index of the first auction for the token id.
pub open spec fn auction_idx(v: Seq<Auction>, id: Seq<char>) -> int
    decreases v.len(),
{
    if v.len() == 0 {
        0
    } else if v[0].nft_id@ == id {
        0
    } else {
        1 + auction_idx(v.drop_first(), id)
    }
}

proof fn lemma_auction_idx(v: Seq<Auction>, id: Seq<char>, i: int)
    requires
        0 <= i < v.len(),
        v[i].nft_id@ == id,
        forall|j: int| 0 <= j < i ==> v[j].nft_id@ != id,
    ensures
        auction_idx(v, id) == i,
    decreases i,
{
    if i > 0 {
        lemma_auction_idx(v.drop_first(), id, i - 1);
    }
}

/// Whether a collection exists under the id.
pub open spec fn collection_has(v: Seq<Collection>, id: Seq<char>) -> bool {
    exists|i: int| 0 <= i < v.len() && v[i].id@ == id
}

/// The index of the first collection under the id.
pub open spec fn collection_idx(v: Seq<Collection>, id: Seq<char>) -> int
    decreases v.len(),
{
    if v.len() == 0 {
        0
    } else if v[0].id@ == id {
        0
    } else {
        1 + collection_idx(v.drop_first(), id)
    }
}

proof fn lemma_collection_idx(v: Seq<Collection>, id: Seq<char>, i: int)
    requires
        0 <= i < v.len(),
        v[i].id@ == id,
        forall|j: int| 0 <= j < i ==> v[j].id@ != id,
    ensures
        collection_idx(v, id) == i,
    decreases i,
{
    if i > 0 {
        lemma_collection_idx(v.drop_first(), id, i - 1);
    }
}

pub struct NFTMarketplace {
    pub owners: Vec<(String, String)>,
    pub auctions: Vec<Auction>,
    pub collections: Vec<Collection>,
}

impl NFTMarketplace {
    /// An empty marketplace.
    pub fn new() -> (m: Self)
        ensures
            m.owners@ == Seq::<(String, String)>::empty(),
            m.auctions@ == Seq::<Auction>::empty(),
            m.collections@ == Seq::<Collection>::empty(),
    {
        NFTMarketplace { owners: Vec::new(), auctions: Vec::new(), collections: Vec::new() }
    }

    /// Registers a collection under the next sequential id and returns
    /// that id.
    pub fn create_collection(&mut self, name: String, creator: String) -> (r: String)
        ensures
            r@ == "col_"@ + spec_udec(
                vstd::math::min(old(self).collections@.len() as int + 1, usize::MAX as int) as nat,
            ),
            final(self).owners@ == old(self).owners@,
            final(self).auctions@ == old(self).auctions@,
            final(self).collections@.len() == old(self).collections@.len() + 1,
            final(self).collections@.drop_last() == old(self).collections@,
            final(self).collections@.last().id@ == r@,
            final(self).collections@.last().name == name,
            final(self).collections@.last().creator == creator,
            final(self).collections@.last().total_items == 0,
            final(self).collections@.last().floor_price == 0,
            final(self).collections@.last().total_volume == 0,
            !final(self).collections@.last().verified,
    {
        let count = self.collections.len();
        let next = if count < usize::MAX {
            count + 1
        } else {
            count
        };
        let mut id = "col_".to_owned();
        let n = crate::text::usize_to_string(next);
        id.append(n.as_str());
        let id2 = id.clone();
        let collection = Collection {
            id: id2,
            name,
            creator,
            total_items: 0,
            floor_price: 0,
            total_volume: 0,
            verified: false,
        };
        let ghost c0 = self.collections@;
        self.collections.push(collection);
        proof {
            assert(self.collections@.drop_last() =~= c0);
        }
        id
    }

    /// Mints a token into a collection: an ownership record under the
    /// next sequential token id, and the collection's item count bumped
    /// when the collection exists.
    pub fn mint_nft(&mut self, collection: String, name: String, owner: String) -> (r: String)
        ensures
            r@ == "nft_"@ + collection@ + "_"@ + spec_udec(
                vstd::math::min(old(self).owners@.len() as int + 1, usize::MAX as int) as nat,
            ),
            final(self).auctions@ == old(self).auctions@,
            final(self).owners@.len() == old(self).owners@.len() + 1,
            final(self).owners@.drop_last() == old(self).owners@,
            final(self).owners@.last().0@ == r@,
            final(self).owners@.last().1 == owner,
            !collection_has(old(self).collections@, collection@) ==> final(self).collections@
                == old(self).collections@,
            collection_has(old(self).collections@, collection@) ==> {
                let i = collection_idx(old(self).collections@, collection@);
                let col = old(self).collections@[i];
                &&& final(self).collections@.len() == old(self).collections@.len()
                &&& forall|j: int|
                    0 <= j < old(self).collections@.len() && j != i
                        ==> final(self).collections@[j] == old(self).collections@[j]
                &&& final(self).collections@[i].id == col.id
                &&& final(self).collections@[i].name == col.name
                &&& final(self).collections@[i].total_items == crate::governance::sat_add(
                    col.total_items,
                    1,
                )
                &&& final(self).collections@[i].floor_price == col.floor_price
                &&& final(self).collections@[i].total_volume == col.total_volume
            },
    {
        let count = self.owners.len();
        let next = if count < usize::MAX {
            count + 1
        } else {
            count
        };
        let mut token_id = "nft_".to_owned();
        token_id.append(collection.as_str());
        token_id.append("_");
        let n = crate::text::usize_to_string(next);
        token_id.append(n.as_str());
        let id2 = token_id.clone();
        let ghost o0 = self.owners@;
        self.owners.push((id2, owner));
        proof {
            assert(self.owners@.drop_last() =~= o0);
        }
        let ghost c0 = self.collections@;
        let mut i: usize = 0;
        while i < self.collections.len()
            invariant
                i <= c0.len(),
                c0 == old(self).collections@,
                self.collections@ == c0,
                self.auctions@ == old(self).auctions@,
                self.owners@.len() == old(self).owners@.len() + 1,
                self.owners@.drop_last() == old(self).owners@,
                self.owners@.last().0@ == token_id@,
                self.owners@.last().1 == owner,
                token_id@ == "nft_"@ + collection@ + "_"@ + spec_udec(
                    vstd::math::min(old(self).owners@.len() as int + 1, usize::MAX as int) as nat,
                ),
                forall|j: int| 0 <= j < i ==> c0[j].id@ != collection@,
            decreases c0.len() - i,
        {
            if self.collections[i].id == collection {
                let mut col = self.collections.remove(i);
                col.total_items = if col.total_items < u64::MAX {
                    col.total_items + 1
                } else {
                    col.total_items
                };
                self.collections.insert(i, col);
                proof {
                    assert(self.collections@ =~= c0.update(
                        i as int,
                        self.collections@[i as int],
                    ));
                    lemma_collection_idx(c0, collection@, i as int);
                }
                return token_id;
            }
            i = i + 1;
        }
        token_id
    }

    /// Opens an auction for a token: accepted exactly when the seller is
    /// the recorded owner, replacing any earlier auction for the token.
    pub fn create_auction(&mut self, nft_id: String, seller: String, starting_bid: u64, duration: u64)
        -> (r: bool)
        ensures
            final(self).owners@ == old(self).owners@,
            final(self).collections@ == old(self).collections@,
            r == (owner_rec_has(old(self).owners@, nft_id@) && old(self).owners@[owner_rec_idx(
                old(self).owners@,
                nft_id@,
            )].1@ == seller@),
            !r ==> final(self).auctions@ == old(self).auctions@,
            (r && auction_has(old(self).auctions@, nft_id@)) ==> {
                let i = auction_idx(old(self).auctions@, nft_id@);
                &&& final(self).auctions@.len() == old(self).auctions@.len()
                &&& forall|j: int|
                    0 <= j < old(self).auctions@.len() && j != i ==> final(self).auctions@[j]
                        == old(self).auctions@[j]
                &&& final(self).auctions@[i].nft_id@ == nft_id@
                &&& final(self).auctions@[i].seller == seller
                &&& final(self).auctions@[i].starting_bid == starting_bid
                &&& final(self).auctions@[i].current_bid == starting_bid
                &&& final(self).auctions@[i].highest_bidder@ == Seq::<char>::empty()
                &&& final(self).auctions@[i].end_time == duration
                &&& final(self).auctions@[i].active
            },
            (r && !auction_has(old(self).auctions@, nft_id@)) ==> {
                &&& final(self).auctions@.len() == old(self).auctions@.len() + 1
                &&& final(self).auctions@.drop_last() == old(self).auctions@
                &&& final(self).auctions@.last().nft_id@ == nft_id@
                &&& final(self).auctions@.last().seller == seller
                &&& final(self).auctions@.last().starting_bid == starting_bid
                &&& final(self).auctions@.last().current_bid == starting_bid
                &&& final(self).auctions@.last().highest_bidder@ == Seq::<char>::empty()
                &&& final(self).auctions@.last().end_time == duration
                &&& final(self).auctions@.last().active
            },
    {
        let owned = match self.find_owner(nft_id.as_str()) {
            Some(i) => self.owners[i].1 == seller,
            None => false,
        };
        if !owned {
            return false;
        }
        let auction = Auction {
            nft_id,
            seller,
            starting_bid,
            current_bid: starting_bid,
            highest_bidder: String::new(),
            end_time: duration,
            active: true,
        };
        let ghost a0 = self.auctions@;
        match Self::find_auction(&self.auctions, auction.nft_id.as_str()) {
            Some(i) => {
                let _old_auction = self.auctions.remove(i);
                self.auctions.insert(i, auction);
                proof {
                    assert(self.auctions@ =~= a0.update(i as int, self.auctions@[i as int]));
                }
            },
            None => {
                self.auctions.push(auction);
                proof {
                    assert(self.auctions@.drop_last() =~= a0);
                }
            },
        }
        true
    }

    /// Raises the bid on a token's auction: accepted exactly when the
    /// auction exists, is active, and the bid beats the standing one.
    pub fn place_bid(&mut self, nft_id: String, bidder: String, bid_amount: u64) -> (r: bool)
        ensures
            final(self).owners@ == old(self).owners@,
            final(self).collections@ == old(self).collections@,
            r == (auction_has(old(self).auctions@, nft_id@) && old(self).auctions@[auction_idx(
                old(self).auctions@,
                nft_id@,
            )].active && bid_amount > old(self).auctions@[auction_idx(
                old(self).auctions@,
                nft_id@,
            )].current_bid),
            !r ==> final(self).auctions@ == old(self).auctions@,
            r ==> {
                let i = auction_idx(old(self).auctions@, nft_id@);
                let a = old(self).auctions@[i];
                &&& final(self).auctions@.len() == old(self).auctions@.len()
                &&& forall|j: int|
                    0 <= j < old(self).auctions@.len() && j != i ==> final(self).auctions@[j]
                        == old(self).auctions@[j]
                &&& final(self).auctions@[i].nft_id == a.nft_id
                &&& final(self).auctions@[i].seller == a.seller
                &&& final(self).auctions@[i].starting_bid == a.starting_bid
                &&& final(self).auctions@[i].current_bid == bid_amount
                &&& final(self).auctions@[i].highest_bidder == bidder
                &&& final(self).auctions@[i].end_time == a.end_time
                &&& final(self).auctions@[i].active == a.active
            },
    {
        let ghost a0 = self.auctions@;
        match Self::find_auction(&self.auctions, nft_id.as_str()) {
            None => false,
            Some(i) => {
                if !self.auctions[i].active {
                    return false;
                }
                if bid_amount <= self.auctions[i].current_bid {
                    return false;
                }
                let mut auction = self.auctions.remove(i);
                auction.current_bid = bid_amount;
                auction.highest_bidder = bidder;
                self.auctions.insert(i, auction);
                proof {
                    assert(self.auctions@ =~= a0.update(i as int, self.auctions@[i as int]));
                }
                true
            },
        }
    }

    /// Closes a token's auction: the auction is deactivated whenever it
    /// exists, and the token passes to the highest bidder exactly when
    /// one bid, and an ownership record, exist.
    pub fn end_auction(&mut self, nft_id: String) -> (r: bool)
        ensures
            final(self).collections@ == old(self).collections@,
            !auction_has(old(self).auctions@, nft_id@) ==> (!r && final(self).auctions@ == old(
                self,
            ).auctions@ && final(self).owners@ == old(self).owners@),
            auction_has(old(self).auctions@, nft_id@) ==> {
                let i = auction_idx(old(self).auctions@, nft_id@);
                let a = old(self).auctions@[i];
                &&& final(self).auctions@.len() == old(self).auctions@.len()
                &&& forall|j: int|
                    0 <= j < old(self).auctions@.len() && j != i ==> final(self).auctions@[j]
                        == old(self).auctions@[j]
                &&& !final(self).auctions@[i].active
                &&& final(self).auctions@[i].nft_id == a.nft_id
                &&& final(self).auctions@[i].current_bid == a.current_bid
                &&& final(self).auctions@[i].highest_bidder == a.highest_bidder
                &&& r == (a.highest_bidder@.len() > 0 && owner_rec_has(
                    old(self).owners@,
                    nft_id@,
                ))
                &&& (!r ==> final(self).owners@ == old(self).owners@)
                &&& (r ==> {
                    let w = owner_rec_idx(old(self).owners@, nft_id@);
                    &&& final(self).owners@.len() == old(self).owners@.len()
                    &&& forall|v: int|
                        0 <= v < old(self).owners@.len() && v != w ==> final(self).owners@[v]
                            == old(self).owners@[v]
                    &&& final(self).owners@[w].0 == old(self).owners@[w].0
                    &&& final(self).owners@[w].1 == a.highest_bidder
                })
            },
    {
        let ghost a0 = self.auctions@;
        let ghost o0 = self.owners@;
        let i = match Self::find_auction(&self.auctions, nft_id.as_str()) {
            None => {
                return false;
            },
            Some(i) => i,
        };
        let mut auction = self.auctions.remove(i);
        auction.active = false;
        let winner = auction.highest_bidder.clone();
        self.auctions.insert(i, auction);
        proof {
            assert(self.auctions@ =~= a0.update(i as int, self.auctions@[i as int]));
        }
        if winner.as_str().is_empty() {
            return false;
        }
        match self.find_owner(nft_id.as_str()) {
            None => false,
            Some(w) => {
                let (token, _old_owner) = self.owners.remove(w);
                self.owners.insert(w, (token, winner));
                proof {
                    assert(self.owners@ =~= o0.update(w as int, self.owners@[w as int]));
                }
                true
            },
        }
    }

    /// The first ten token ids on record (all of them when fewer).
    pub fn get_trending(&self) -> (r: Vec<String>)
        ensures
            r@.len() == vstd::math::min(10int, self.owners@.len() as int),
            forall|j: int| 0 <= j < r@.len() ==> (#[trigger] r@[j])@ == self.owners@[j].0@,
    {
        let n = if self.owners.len() < 10 {
            self.owners.len()
        } else {
            10
        };
        let mut r: Vec<String> = Vec::new();
        let mut i: usize = 0;
        while i < n
            invariant
                i <= n,
                n == vstd::math::min(10int, self.owners@.len() as int),
                r@.len() == i,
                forall|j: int| 0 <= j < i ==> (#[trigger] r@[j])@ == self.owners@[j].0@,
            decreases n - i,
        {
            r.push(self.owners[i].0.clone());
            i = i + 1;
        }
        r
    }

    fn find_owner(&self, nft_id: &str) -> (r: Option<usize>)
        ensures
            match r {
                Some(i) => i < self.owners@.len() && self.owners@[i as int].0@ == nft_id@
                    && owner_rec_idx(self.owners@, nft_id@) == i,
                None => !owner_rec_has(self.owners@, nft_id@),
            },
    {
        let needle = nft_id.to_owned();
        let mut i: usize = 0;
        while i < self.owners.len()
            invariant
                i <= self.owners@.len(),
                needle@ == nft_id@,
                forall|j: int| 0 <= j < i ==> self.owners@[j].0@ != nft_id@,
            decreases self.owners@.len() - i,
        {
            if self.owners[i].0 == needle {
                proof {
                    lemma_owner_rec_idx(self.owners@, nft_id@, i as int);
                }
                return Some(i);
            }
            i = i + 1;
        }
        None
    }

    fn find_auction(auctions: &Vec<Auction>, nft_id: &str) -> (r: Option<usize>)
        ensures
            match r {
                Some(i) => i < auctions@.len() && auctions@[i as int].nft_id@ == nft_id@
                    && auction_idx(auctions@, nft_id@) == i,
                None => !auction_has(auctions@, nft_id@),
            },
    {
        let needle = nft_id.to_owned();
        let mut i: usize = 0;
        while i < auctions.len()
            invariant
                i <= auctions@.len(),
                needle@ == nft_id@,
                forall|j: int| 0 <= j < i ==> auctions@[j].nft_id@ != nft_id@,
            decreases auctions@.len() - i,
        {
            if auctions[i].nft_id == needle {
                proof {
                    lemma_auction_idx(auctions@, nft_id@, i as int);
                }
                return Some(i);
            }
            i = i + 1;
        }
        None
    }
}

} // verus!
