//! The local ledger: free balances of the native currency and holdings of
//! fungible assets, with the rules under which they move.
//!
//! A native-currency transfer keeps its source at or above the existential
//! deposit; a fungible-asset transfer has no such minimum.

use vstd::prelude::*;

use crate::{AccountId, AssetId, Balance, TransferError};

verus! {

/// What one account holds of one asset (`None`: the native currency).
#[derive(Clone, Copy, Debug, PartialEq, Eq)]
pub struct Holding {
    pub asset: Option<AssetId>,
    pub who: AccountId,
    pub amount: Balance,
}

pub open spec fn holds(h: Holding, asset: Option<AssetId>, who: Seq<u8>) -> bool {
    h.asset == asset && h.who@ == who
}

/// What `who` holds of `asset` in the table `s` (nothing when absent).
pub open spec fn holding_of(s: Seq<Holding>, asset: Option<AssetId>, who: Seq<u8>) -> nat
    decreases s.len(),
{
    if s.len() == 0 {
        0
    } else if holds(s.last(), asset, who) {
        s.last().amount as nat
    } else {
        holding_of(s.drop_last(), asset, who)
    }
}

/// All that the table `s` holds of `asset`.
pub open spec fn supply_of(s: Seq<Holding>, asset: Option<AssetId>) -> nat
    decreases s.len(),
{
    if s.len() == 0 {
        0
    } else {
        (if s.last().asset == asset {
            s.last().amount as nat
        } else {
            0
        }) + supply_of(s.drop_last(), asset)
    }
}

/// No two rows of `s` belong to one account and one asset.
pub open spec fn keys_unique(s: Seq<Holding>) -> bool {
    forall|i: int, j: int|
        0 <= i < s.len() && 0 <= j < s.len() && i != j ==> !holds(
            #[trigger] s[i],
            s[j].asset,
            #[trigger] s[j].who@,
        )
}

proof fn lemma_holding_absent(s: Seq<Holding>, asset: Option<AssetId>, who: Seq<u8>)
    requires
        forall|i: int| 0 <= i < s.len() ==> !holds(#[trigger] s[i], asset, who),
    ensures
        holding_of(s, asset, who) == 0,
    decreases s.len(),
{
    if s.len() > 0 {
        assert(!holds(s[s.len() - 1], asset, who));
        let t = s.drop_last();
        assert forall|i: int| 0 <= i < t.len() implies !holds(#[trigger] t[i], asset, who) by {
            assert(t[i] == s[i]);
        }
        lemma_holding_absent(t, asset, who);
    }
}

proof fn lemma_holding_at(s: Seq<Holding>, i: int)
    requires
        keys_unique(s),
        0 <= i < s.len(),
    ensures
        holding_of(s, s[i].asset, s[i].who@) == s[i].amount,
    decreases s.len(),
{
    if i < s.len() - 1 {
        let t = s.drop_last();
        assert(!holds(s[s.len() - 1], s[i].asset, s[i].who@));
        assert(t[i] == s[i]);
        assert(keys_unique(t)) by {
            assert forall|a: int, b: int|
                0 <= a < t.len() && 0 <= b < t.len() && a != b implies !holds(
                #[trigger] t[a],
                t[b].asset,
                #[trigger] t[b].who@,
            ) by {
                assert(t[a] == s[a] && t[b] == s[b]);
            }
        }
        lemma_holding_at(t, i);
    }
}

proof fn lemma_keys_unique_drop_last(s: Seq<Holding>)
    requires
        keys_unique(s),
        s.len() > 0,
    ensures
        keys_unique(s.drop_last()),
{
    let t = s.drop_last();
    assert forall|a: int, b: int|
        0 <= a < t.len() && 0 <= b < t.len() && a != b implies !holds(
        #[trigger] t[a],
        t[b].asset,
        #[trigger] t[b].who@,
    ) by {
        assert(t[a] == s[a] && t[b] == s[b]);
    }
}

proof fn lemma_update(s: Seq<Holding>, i: int, h: Holding, asset: Option<AssetId>, who: Seq<u8>)
    requires
        keys_unique(s),
        0 <= i < s.len(),
        h.asset == s[i].asset,
        h.who@ == s[i].who@,
    ensures
        holding_of(s.update(i, h), asset, who) == if holds(h, asset, who) {
            h.amount as nat
        } else {
            holding_of(s, asset, who)
        },
        supply_of(s.update(i, h), asset) + (if s[i].asset == asset {
            s[i].amount as nat
        } else {
            0
        }) == supply_of(s, asset) + (if h.asset == asset {
            h.amount as nat
        } else {
            0
        }),
    decreases s.len(),
{
    let u = s.update(i, h);
    let n = s.len() - 1;
    if i == n {
        assert(u.drop_last() =~= s.drop_last());
    } else {
        assert(u.drop_last() =~= s.drop_last().update(i, h));
        assert(u.last() == s.last());
        assert(!holds(s[n], s[i].asset, s[i].who@));
        lemma_keys_unique_drop_last(s);
        lemma_update(s.drop_last(), i, h, asset, who);
    }
}

proof fn lemma_push(s: Seq<Holding>, h: Holding, asset: Option<AssetId>, who: Seq<u8>)
    ensures
        holding_of(s.push(h), asset, who) == if holds(h, asset, who) {
            h.amount as nat
        } else {
            holding_of(s, asset, who)
        },
        supply_of(s.push(h), asset) == supply_of(s, asset) + (if h.asset == asset {
            h.amount as nat
        } else {
            0
        }),
{
    assert(s.push(h).drop_last() =~= s);
}

proof fn lemma_holding_le_supply(s: Seq<Holding>, asset: Option<AssetId>, who: Seq<u8>)
    ensures
        holding_of(s, asset, who) <= supply_of(s, asset),
    decreases s.len(),
{
    if s.len() > 0 {
        lemma_holding_le_supply(s.drop_last(), asset, who);
    }
}

proof fn lemma_two_holdings_le_supply(
    s: Seq<Holding>,
    asset: Option<AssetId>,
    w1: Seq<u8>,
    w2: Seq<u8>,
)
    requires
        w1 != w2,
    ensures
        holding_of(s, asset, w1) + holding_of(s, asset, w2) <= supply_of(s, asset),
    decreases s.len(),
{
    if s.len() > 0 {
        let t = s.drop_last();
        lemma_holding_le_supply(t, asset, w1);
        lemma_holding_le_supply(t, asset, w2);
        lemma_two_holdings_le_supply(t, asset, w1, w2);
    }
}

proof fn lemma_supply_unissued(s: Seq<Holding>, id: AssetId)
    requires
        forall|i: int| 0 <= i < s.len() ==> (#[trigger] s[i]).asset != Some(id),
    ensures
        supply_of(s, Some(id)) == 0,
    decreases s.len(),
{
    if s.len() > 0 {
        let t = s.drop_last();
        assert(s[s.len() - 1].asset != Some(id));
        assert forall|i: int| 0 <= i < t.len() implies (#[trigger] t[i]).asset != Some(id) by {
            assert(t[i] == s[i]);
        }
        lemma_supply_unissued(t, id);
    }
}

fn same_account(a: &AccountId, b: &AccountId) -> (r: bool)
    ensures
        r == (a@ == b@),
{
    let mut i: usize = 0;
    while i < 32
        invariant
            0 <= i <= 32,
            forall|j: int| 0 <= j < i ==> a@[j] == b@[j],
        decreases 32 - i,
    {
        if a[i] != b[i] {
            return false;
        }
        i = i + 1;
    }
    assert(a@ =~= b@);
    true
}

fn same_asset(a: Option<AssetId>, b: Option<AssetId>) -> (r: bool)
    ensures
        r == (a == b),
{
    match (a, b) {
        (None, None) => true,
        (Some(x), Some(y)) => x == y,
        _ => false,
    }
}

/// Balances of the native currency and of every issued fungible asset.
pub struct Ledger {
    existential_deposit: Balance,
    holdings: Vec<Holding>,
    next_asset_id: AssetId,
}

impl Ledger {
    /// Every row is of a distinct account and asset, and of an issued asset;
    /// the supply of every asset fits in a `Balance`.
    pub closed spec fn wf(&self) -> bool {
        &&& keys_unique(self.holdings@)
        &&& forall|i: int|
            0 <= i < self.holdings@.len() ==> match (#[trigger] self.holdings@[i]).asset {
                Some(id) => id < self.next_asset_id,
                None => true,
            }
        &&& forall|id: AssetId| #[trigger] supply_of(self.holdings@, Some(id)) <= u128::MAX
    }

    /// What `who` holds of `asset`.
    pub closed spec fn balance(&self, asset: Option<AssetId>, who: Seq<u8>) -> nat {
        holding_of(self.holdings@, asset, who)
    }

    /// All that the ledger holds of `asset`.
    pub closed spec fn supply(&self, asset: Option<AssetId>) -> nat {
        supply_of(self.holdings@, asset)
    }

    /// The least free balance of the native currency that an account may keep.
    pub closed spec fn ed(&self) -> nat {
        self.existential_deposit as nat
    }

    /// The identifier that the next issued asset gets; those below were issued.
    pub closed spec fn next_id(&self) -> nat {
        self.next_asset_id as nat
    }

    /// Whether `asset` can be held: the native currency, or an issued asset.
    pub open spec fn known(&self, asset: Option<AssetId>) -> bool {
        match asset {
            None => true,
            Some(id) => id < self.next_id(),
        }
    }

    /// What a transfer of `amount` of `asset` from `from` to `to` returns.
    pub open spec fn transfer_outcome(
        &self,
        asset: Option<AssetId>,
        from: Seq<u8>,
        to: Seq<u8>,
        amount: nat,
    ) -> Result<(), TransferError> {
        match asset {
            None => {
                if self.balance(None, from) < amount {
                    Err(TransferError::InsufficientBalance)
                } else if self.balance(None, from) - amount < self.ed() {
                    Err(TransferError::WouldKillAccount)
                } else if amount == 0 || from == to {
                    Ok(())
                } else if self.balance(None, to) + amount > u128::MAX {
                    Err(TransferError::Overflow)
                } else {
                    Ok(())
                }
            },
            Some(id) => {
                if !self.known(asset) {
                    Err(TransferError::UnknownAsset)
                } else if self.balance(asset, from) < amount {
                    Err(TransferError::InsufficientBalance)
                } else {
                    Ok(())
                }
            },
        }
    }

    /// `new` is `self` after `amount` of `asset` moved from `from` to `to`:
    /// the two balances change by `amount` (nothing changes when they are
    /// one account), all others stay, and so does every asset's supply.
    pub open spec fn transferred(
        &self,
        new: Ledger,
        asset: Option<AssetId>,
        from: Seq<u8>,
        to: Seq<u8>,
        amount: nat,
    ) -> bool {
        &&& new.wf()
        &&& new.ed() == self.ed()
        &&& new.next_id() == self.next_id()
        &&& forall|a: Option<AssetId>, w: Seq<u8>|
            #[trigger] new.balance(a, w) == if a == asset && w == from && from != to {
                self.balance(a, w) - amount
            } else if a == asset && w == to && from != to {
                self.balance(a, w) + amount as int
            } else {
                self.balance(a, w) as int
            }
        &&& forall|a: Option<AssetId>| #[trigger] new.supply(a) == self.supply(a)
    }

    /// A ledger with no balances and no assets.
    pub fn new(existential_deposit: Balance) -> (r: Ledger)
        ensures
            r.wf(),
            r.ed() == existential_deposit,
            r.next_id() == 0,
            forall|a: Option<AssetId>, w: Seq<u8>| #[trigger] r.balance(a, w) == 0,
            forall|a: Option<AssetId>| #[trigger] r.supply(a) == 0,
    {
        Ledger { existential_deposit, holdings: Vec::new(), next_asset_id: 0 }
    }

    pub fn existential_deposit(&self) -> (r: Balance)
        ensures
            r == self.ed(),
    {
        self.existential_deposit
    }

    fn find(&self, asset: Option<AssetId>, who: &AccountId) -> (r: Option<usize>)
        ensures
            match r {
                Some(i) => i < self.holdings@.len() && holds(self.holdings@[i as int], asset, who@),
                None => forall|i: int|
                    0 <= i < self.holdings@.len() ==> !holds(
                        #[trigger] self.holdings@[i],
                        asset,
                        who@,
                    ),
            },
    {
        let mut i: usize = 0;
        while i < self.holdings.len()
            invariant
                0 <= i <= self.holdings@.len(),
                forall|j: int| 0 <= j < i ==> !holds(#[trigger] self.holdings@[j], asset, who@),
            decreases self.holdings@.len() - i,
        {
            let h = &self.holdings[i];
            if same_asset(h.asset, asset) && same_account(&h.who, who) {
                return Some(i);
            }
            i = i + 1;
        }
        None
    }

    /// What `who` holds of `asset`.
    pub fn balance_of(&self, asset: Option<AssetId>, who: &AccountId) -> (r: Balance)
        requires
            self.wf(),
        ensures
            r == self.balance(asset, who@),
    {
        match self.find(asset, who) {
            Some(i) => {
                proof {
                    lemma_holding_at(self.holdings@, i as int);
                }
                self.holdings[i].amount
            },
            None => {
                proof {
                    lemma_holding_absent(self.holdings@, asset, who@);
                }
                0
            },
        }
    }

    /// The free native-currency balance of `who`.
    pub fn free_balance(&self, who: &AccountId) -> (r: Balance)
        requires
            self.wf(),
        ensures
            r == self.balance(None, who@),
    {
        self.balance_of(None, who)
    }

    /// What `who` holds of the asset `id`.
    pub fn asset_balance(&self, id: AssetId, who: &AccountId) -> (r: Balance)
        requires
            self.wf(),
        ensures
            r == self.balance(Some(id), who@),
    {
        self.balance_of(Some(id), who)
    }

    /// Sets what `who` holds of `asset` to `amount`.
    fn set(&mut self, asset: Option<AssetId>, who: &AccountId, amount: Balance)
        requires
            old(self).wf(),
            old(self).known(asset),
            asset is Some ==> old(self).supply(asset) + amount <= u128::MAX + old(self).balance(
                asset,
                who@,
            ),
        ensures
            final(self).wf(),
            final(self).ed() == old(self).ed(),
            final(self).next_id() == old(self).next_id(),
            forall|a: Option<AssetId>, w: Seq<u8>| #[trigger]
                final(self).balance(a, w) == if a == asset && w == who@ {
                    amount as nat
                } else {
                    old(self).balance(a, w)
                },
            forall|a: Option<AssetId>| #[trigger]
                final(self).supply(a) + (if a == asset {
                    old(self).balance(asset, who@)
                } else {
                    0
                }) == old(self).supply(a) + (if a == asset {
                    amount as nat
                } else {
                    0
                }),
    {
        let h = Holding { asset, who: *who, amount };
        let ghost s = self.holdings@;
        match self.find(asset, who) {
            Some(i) => {
                proof {
                    lemma_holding_at(s, i as int);
                }
                self.holdings.set(i, h);
                proof {
                    assert(self.holdings@ == s.update(i as int, h));
                    assert forall|a: Option<AssetId>, w: Seq<u8>|
                        #[trigger] self.balance(a, w) == if a == asset && w == who@ {
                            amount as nat
                        } else {
                            old(self).balance(a, w)
                        } by {
                        lemma_update(s, i as int, h, a, w);
                    }
                    assert forall|a: Option<AssetId>| #[trigger]
                        self.supply(a) + (if a == asset {
                            old(self).balance(asset, who@)
                        } else {
                            0
                        }) == old(self).supply(a) + (if a == asset {
                            amount as nat
                        } else {
                            0
                        }) by {
                        lemma_update(s, i as int, h, a, who@);
                    }
                    assert(keys_unique(self.holdings@)) by {
                        assert forall|x: int, y: int|
                            0 <= x < self.holdings@.len() && 0 <= y < self.holdings@.len() && x
                                != y implies !holds(
                            #[trigger] self.holdings@[x],
                            self.holdings@[y].asset,
                            #[trigger] self.holdings@[y].who@,
                        ) by {
                            assert(s[x].asset == self.holdings@[x].asset && s[x].who@
                                == self.holdings@[x].who@);
                            assert(s[y].asset == self.holdings@[y].asset && s[y].who@
                                == self.holdings@[y].who@);
                        }
                    }
                    assert forall|j: int| 0 <= j < self.holdings@.len() implies match (
                    #[trigger] self.holdings@[j]).asset {
                        Some(id) => id < self.next_asset_id,
                        None => true,
                    } by {
                        assert(s[j].asset == self.holdings@[j].asset);
                    }
                }
            },
            None => {
                proof {
                    lemma_holding_absent(s, asset, who@);
                }
                self.holdings.push(h);
                proof {
                    assert(self.holdings@ == s.push(h));
                    assert forall|a: Option<AssetId>, w: Seq<u8>|
                        #[trigger] self.balance(a, w) == if a == asset && w == who@ {
                            amount as nat
                        } else {
                            old(self).balance(a, w)
                        } by {
                        lemma_push(s, h, a, w);
                    }
                    assert forall|a: Option<AssetId>| #[trigger]
                        self.supply(a) + (if a == asset {
                            old(self).balance(asset, who@)
                        } else {
                            0
                        }) == old(self).supply(a) + (if a == asset {
                            amount as nat
                        } else {
                            0
                        }) by {
                        lemma_push(s, h, a, who@);
                    }
                    assert(keys_unique(self.holdings@)) by {
                        assert forall|x: int, y: int|
                            0 <= x < self.holdings@.len() && 0 <= y < self.holdings@.len() && x
                                != y implies !holds(
                            #[trigger] self.holdings@[x],
                            self.holdings@[y].asset,
                            #[trigger] self.holdings@[y].who@,
                        ) by {
                            if x < s.len() && y < s.len() {
                                assert(s[x] == self.holdings@[x] && s[y] == self.holdings@[y]);
                            } else if x < s.len() {
                                assert(s[x] == self.holdings@[x]);
                            } else {
                                assert(s[y] == self.holdings@[y]);
                            }
                        }
                    }
                    assert forall|j: int| 0 <= j < self.holdings@.len() implies match (
                    #[trigger] self.holdings@[j]).asset {
                        Some(id) => id < self.next_asset_id,
                        None => true,
                    } by {
                        if j < s.len() {
                            assert(s[j] == self.holdings@[j]);
                        }
                    }
                }
            },
        }
        proof {
            assert forall|id: AssetId| #[trigger] supply_of(self.holdings@, Some(id)) <= u128::MAX by {
                assert(self.supply(Some(id)) + (if Some(id) == asset {
                    old(self).balance(asset, who@)
                } else {
                    0
                }) == old(self).supply(Some(id)) + (if Some(id) == asset {
                    amount as nat
                } else {
                    0
                }));
                assert(supply_of(old(self).holdings@, Some(id)) <= u128::MAX);
            }
        }
    }

    /// Sets the free native-currency balance of `who`, as a genesis
    /// configuration does.
    pub fn set_free_balance(&mut self, who: &AccountId, amount: Balance)
        requires
            old(self).wf(),
        ensures
            final(self).wf(),
            final(self).ed() == old(self).ed(),
            final(self).next_id() == old(self).next_id(),
            forall|a: Option<AssetId>, w: Seq<u8>| #[trigger]
                final(self).balance(a, w) == if a == None::<AssetId> && w == who@ {
                    amount as nat
                } else {
                    old(self).balance(a, w)
                },
            final(self).supply(None) + old(self).balance(None, who@) == old(self).supply(None)
                + amount,
    {
        self.set(None, who, amount);
    }

    /// Issues a new asset, of which `who` holds all `total`; it gets the
    /// next identifier. `Overflow` when every identifier is taken.
    pub fn issue(&mut self, who: &AccountId, total: Balance) -> (r: Result<AssetId, TransferError>)
        requires
            old(self).wf(),
        ensures
            match r {
                Ok(id) => {
                    &&& id == old(self).next_id()
                    &&& final(self).wf()
                    &&& final(self).next_id() == old(self).next_id() + 1
                    &&& final(self).ed() == old(self).ed()
                    &&& forall|a: Option<AssetId>, w: Seq<u8>| #[trigger]
                        final(self).balance(a, w) == if a == Some(id) && w == who@ {
                            total as nat
                        } else {
                            old(self).balance(a, w)
                        }
                    &&& forall|a: Option<AssetId>| #[trigger]
                        final(self).supply(a) == if a == Some(id) {
                            total as nat
                        } else {
                            old(self).supply(a)
                        }
                },
                Err(e) => {
                    &&& e == TransferError::Overflow
                    &&& old(self).next_id() == u32::MAX
                    &&& *final(self) == *old(self)
                },
            },
    {
        if self.next_asset_id == u32::MAX {
            return Err(TransferError::Overflow);
        }
        let id = self.next_asset_id;
        proof {
            let s = self.holdings@;
            assert forall|i: int| 0 <= i < s.len() implies !holds(#[trigger] s[i], Some(id), who@) by {
                assert(match s[i].asset { Some(x) => x < id, None => true });
            }
            lemma_holding_absent(s, Some(id), who@);
            lemma_supply_unissued(s, id);
        }
        self.next_asset_id = id + 1;
        self.set(Some(id), who, total);
        Ok(id)
    }

    /// Moves `amount` of `asset` from `from` to `to` under the rules of
    /// `transfer_outcome`; on an error nothing changes.
    pub fn transfer(
        &mut self,
        asset: Option<AssetId>,
        from: &AccountId,
        to: &AccountId,
        amount: Balance,
    ) -> (r: Result<(), TransferError>)
        requires
            old(self).wf(),
        ensures
            r == old(self).transfer_outcome(asset, from@, to@, amount as nat),
            r is Ok ==> old(self).transferred(*final(self), asset, from@, to@, amount as nat),
            r is Err ==> *final(self) == *old(self),
    {
        let same = same_account(from, to);
        if let Some(id) = asset {
            if id >= self.next_asset_id {
                return Err(TransferError::UnknownAsset);
            }
        }
        let fb = self.balance_of(asset, from);
        if fb < amount {
            return Err(TransferError::InsufficientBalance);
        }
        if asset.is_none() && fb - amount < self.existential_deposit {
            return Err(TransferError::WouldKillAccount);
        }
        if amount == 0 || same {
            return Ok(());
        }
        let tb = self.balance_of(asset, to);
        if asset.is_some() {
            proof {
                lemma_two_holdings_le_supply(self.holdings@, asset, from@, to@);
            }
        } else if tb > u128::MAX - amount {
            return Err(TransferError::Overflow);
        }
        let ghost l0 = *self;
        self.set(asset, from, fb - amount);
        let ghost l1 = *self;
        self.set(asset, to, tb + amount);
        proof {
            assert forall|a: Option<AssetId>| #[trigger] self.supply(a) == l0.supply(a) by {
                assert(l1.supply(a) + (if a == asset { l0.balance(asset, from@) } else { 0 })
                    == l0.supply(a) + (if a == asset { (fb - amount) as nat } else { 0 }));
                assert(self.supply(a) + (if a == asset { l1.balance(asset, to@) } else { 0 })
                    == l1.supply(a) + (if a == asset { (tb + amount) as nat } else { 0 }));
            }
        }
        Ok(())
    }
}

/// Transfers that touch disjoint accounts, or different assets, commute:
/// each meets the same outcome whether or not the other ran first, and both
/// orders end with the same balances.
pub proof fn lemma_disjoint_transfers_commute(
    l: Ledger,
    a1: Option<AssetId>,
    f1: Seq<u8>,
    t1: Seq<u8>,
    x1: nat,
    a2: Option<AssetId>,
    f2: Seq<u8>,
    t2: Seq<u8>,
    x2: nat,
    l1: Ledger,
    l12: Ledger,
    l2: Ledger,
    l21: Ledger,
)
    requires
        a1 != a2 || (f1 != f2 && f1 != t2 && t1 != f2 && t1 != t2),
        l.transferred(l1, a1, f1, t1, x1),
        l1.transferred(l12, a2, f2, t2, x2),
        l.transferred(l2, a2, f2, t2, x2),
        l2.transferred(l21, a1, f1, t1, x1),
    ensures
        l1.transfer_outcome(a2, f2, t2, x2) == l.transfer_outcome(a2, f2, t2, x2),
        l2.transfer_outcome(a1, f1, t1, x1) == l.transfer_outcome(a1, f1, t1, x1),
        forall|a: Option<AssetId>, w: Seq<u8>| #[trigger] l12.balance(a, w) == l21.balance(a, w),
{
    assert(l1.balance(a2, f2) == l.balance(a2, f2));
    assert(l1.balance(a2, t2) == l.balance(a2, t2));
    assert(l2.balance(a1, f1) == l.balance(a1, f1));
    assert(l2.balance(a1, t1) == l.balance(a1, t1));
    assert forall|a: Option<AssetId>, w: Seq<u8>| #[trigger]
        l12.balance(a, w) == l21.balance(a, w) by {
        assert(l1.balance(a, w) == l.balance(a, w) || (a == a1 && (w == f1 || w == t1)));
        assert(l2.balance(a, w) == l.balance(a, w) || (a == a2 && (w == f2 || w == t2)));
    }
}

/// Moving a whole balance away: in the native currency it would leave the
/// source below a positive existential deposit and is refused; in a
/// fungible asset, which has no such minimum, it goes through.
pub proof fn lemma_whole_balance_boundary(l: Ledger, id: AssetId, from: Seq<u8>, to: Seq<u8>)
    requires
        l.ed() > 0,
        l.known(Some(id)),
    ensures
        l.transfer_outcome(None, from, to, l.balance(None, from)) == Err::<(), TransferError>(
            TransferError::WouldKillAccount,
        ),
        l.transfer_outcome(Some(id), from, to, l.balance(Some(id), from)) == Ok::<
            (),
            TransferError,
        >(()),
{
}

} // verus!
