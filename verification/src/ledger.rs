//! The state that the instructions read and change: the mint, its
//! metadata record and the holders' accounts.

use vstd::prelude::*;
use crate::address::Address;

verus! {

/// The record of the asset: its precision, its supply and who may issue it.
#[derive(Clone, Copy, Debug, PartialEq, Eq)]
pub struct Mint {
    pub address: Address,
    pub decimals: u8,
    pub supply: u64,
    pub authority: Address,
}

/// One owner's balance of the asset, with the allowance that the owner has
/// granted, if any.
#[derive(Clone, Copy, Debug, PartialEq, Eq)]
pub struct HoldingAccount {
    pub address: Address,
    pub owner: Address,
    pub mint: Address,
    pub balance: u64,
    pub delegate: Option<Address>,
    pub allowance: u64,
}

/// What describes the asset to people.
#[derive(Clone, Debug, PartialEq, Eq)]
pub struct MetadataRecord {
    pub address: Address,
    pub mint: Address,
    pub update_authority: Address,
    pub name: String,
    pub symbol: String,
    pub uri: String,
    pub seller_fee_basis_points: u16,
    pub is_mutable: bool,
    pub creators: Option<Vec<Address>>,
    pub collection: Option<Address>,
    pub uses: Option<u64>,
}

/// A metadata record as a mathematical value.
pub struct MetadataView {
    pub address: Address,
    pub mint: Address,
    pub update_authority: Address,
    pub name: Seq<char>,
    pub symbol: Seq<char>,
    pub uri: Seq<char>,
    pub seller_fee_basis_points: u16,
    pub is_mutable: bool,
    pub creators: Option<Seq<Address>>,
    pub collection: Option<Address>,
    pub uses: Option<u64>,
}

impl View for MetadataRecord {
    type V = MetadataView;

    open spec fn view(&self) -> MetadataView {
        MetadataView {
            address: self.address,
            mint: self.mint,
            update_authority: self.update_authority,
            name: self.name@,
            symbol: self.symbol@,
            uri: self.uri@,
            seller_fee_basis_points: self.seller_fee_basis_points,
            is_mutable: self.is_mutable,
            creators: match self.creators {
                Some(list) => Some(list@),
                None => None,
            },
            collection: self.collection,
            uses: self.uses,
        }
    }
}

/// The accounts of one asset. The mint and its metadata record are absent
/// until the asset is issued; the holders' accounts stand in the order in
/// which they were created.
#[derive(Clone, Debug, PartialEq, Eq)]
pub struct Ledger {
    pub mint: Option<Mint>,
    pub metadata: Option<MetadataRecord>,
    pub holdings: Vec<HoldingAccount>,
}

/// A ledger as a mathematical value.
pub struct LedgerView {
    pub mint: Option<Mint>,
    pub metadata: Option<MetadataView>,
    pub holdings: Seq<HoldingAccount>,
}

impl View for Ledger {
    type V = LedgerView;

    open spec fn view(&self) -> LedgerView {
        LedgerView {
            mint: self.mint,
            metadata: match self.metadata {
                Some(record) => Some(record@),
                None => None,
            },
            holdings: self.holdings@,
        }
    }
}

/// The sum of the balances of a list of accounts.
pub open spec fn total_balance(holdings: Seq<HoldingAccount>) -> int
    decreases holdings.len(),
{
    if holdings.len() == 0 {
        0
    } else {
        total_balance(holdings.drop_last()) + holdings.last().balance
    }
}

/// Whether no two accounts of a list share an address.
pub open spec fn distinct_addresses(holdings: Seq<HoldingAccount>) -> bool {
    forall|i: int, j: int|
        0 <= i < j < holdings.len() ==> holdings[i].address != holdings[j].address
}

/// The account that is created for `owner` at `address`: it holds nothing
/// of the asset of `mint` and grants no allowance.
pub open spec fn opened_account(address: Address, owner: Address, mint: Address) -> HoldingAccount {
    HoldingAccount { address, owner, mint, balance: 0, delegate: None, allowance: 0 }
}

impl LedgerView {
    /// Whether an account stands at `address`.
    pub open spec fn has(self, address: Address) -> bool {
        exists|i: int| 0 <= i < self.holdings.len() && self.holdings[i].address == address
    }

    /// Where the account at `address` stands among the holders' accounts.
    pub open spec fn position(self, address: Address) -> int {
        choose|i: int| 0 <= i < self.holdings.len() && self.holdings[i].address == address
    }

    /// The account at `address`.
    pub open spec fn holding(self, address: Address) -> HoldingAccount
        recommends
            self.has(address),
    {
        self.holdings[self.position(address)]
    }

    /// The ledger in which `account` has taken the place of the account at
    /// its address.
    pub open spec fn with_holding(self, account: HoldingAccount) -> LedgerView
        recommends
            self.has(account.address),
    {
        LedgerView {
            holdings: self.holdings.update(self.position(account.address), account),
            ..self
        }
    }

    /// The ledger in which the balance of the account at `address` has
    /// changed by `delta`.
    pub open spec fn credited(self, address: Address, delta: int) -> LedgerView
        recommends
            self.has(address),
            0 <= self.holding(address).balance + delta <= u64::MAX,
    {
        self.with_holding(
            HoldingAccount {
                balance: (self.holding(address).balance + delta) as u64,
                ..self.holding(address)
            },
        )
    }

    /// The ledger in which an account stands at `address`: this one, or
    /// this one with an empty account of `owner` added at the end.
    pub open spec fn opened(self, address: Address, owner: Address) -> LedgerView
        recommends
            self.mint is Some,
    {
        if self.has(address) {
            self
        } else {
            LedgerView {
                holdings: self.holdings.push(
                    opened_account(address, owner, self.mint.unwrap().address),
                ),
                ..self
            }
        }
    }

    /// In a list without repeated addresses, an account is found where it
    /// stands.
    pub proof fn lemma_position(self, i: int)
        requires
            distinct_addresses(self.holdings),
            0 <= i < self.holdings.len(),
        ensures
            self.has(self.holdings[i].address),
            self.position(self.holdings[i].address) == i,
            self.holding(self.holdings[i].address) == self.holdings[i],
    {
        let address = self.holdings[i].address;
        let k = self.position(address);
        assert(0 <= k < self.holdings.len() && self.holdings[k].address == address);
        if k < i {
            assert(self.holdings[k].address != self.holdings[i].address);
        } else if i < k {
            assert(self.holdings[i].address != self.holdings[k].address);
        }
    }

    /// Replacing an account leaves every address where it was, puts the new
    /// account at its address and keeps all the others.
    pub proof fn lemma_with_holding(self, account: HoldingAccount)
        requires
            distinct_addresses(self.holdings),
            self.has(account.address),
        ensures
            distinct_addresses(self.with_holding(account).holdings),
            forall|a: Address| self.with_holding(account).has(a) == self.has(a),
            self.with_holding(account).holding(account.address) == account,
            forall|a: Address|
                a != account.address && self.has(a) ==> self.with_holding(account).holding(a)
                    == self.holding(a),
    {
        let post = self.with_holding(account);
        let at = self.position(account.address);
        assert forall|a: Address| post.has(a) == self.has(a) by {
            if self.has(a) {
                let k = self.position(a);
                assert(post.holdings[k].address == a);
            }
            if post.has(a) {
                let k = post.position(a);
                assert(self.holdings[k].address == a);
            }
        }
        post.lemma_position(at);
        assert forall|a: Address| a != account.address && self.has(a) implies post.holding(a)
            == self.holding(a) by {
            let k = self.position(a);
            self.lemma_position(k);
            assert(post.holdings[k] == self.holdings[k]);
            post.lemma_position(k);
        }
    }

    /// Opening an account keeps every account that was there, and puts an
    /// empty one at the address where none was.
    pub proof fn lemma_opened(self, address: Address, owner: Address)
        requires
            distinct_addresses(self.holdings),
            self.mint is Some,
        ensures
            distinct_addresses(self.opened(address, owner).holdings),
            forall|a: Address|
                self.opened(address, owner).has(a) == (self.has(a) || a == address),
            forall|a: Address|
                self.has(a) ==> self.opened(address, owner).holding(a) == self.holding(a),
            !self.has(address) ==> self.opened(address, owner).holding(address)
                == opened_account(address, owner, self.mint.unwrap().address),
            total_balance(self.opened(address, owner).holdings) == total_balance(
                self.holdings,
            ),
    {
        let post = self.opened(address, owner);
        if !self.has(address) {
            let account = opened_account(address, owner, self.mint.unwrap().address);
            let last = self.holdings.len() as int;
            lemma_total_push(self.holdings, account);
            assert(post.holdings[last] == account);
            assert forall|a: Address| post.has(a) == (self.has(a) || a == address) by {
                if self.has(a) {
                    let k = self.position(a);
                    assert(post.holdings[k].address == a);
                }
                if post.has(a) && a != address {
                    let k = post.position(a);
                    assert(self.holdings[k].address == a);
                }
            }
            post.lemma_position(last);
            assert forall|a: Address| self.has(a) implies post.holding(a) == self.holding(
                a,
            ) by {
                let k = self.position(a);
                self.lemma_position(k);
                assert(post.holdings[k] == self.holdings[k]);
                post.lemma_position(k);
            }
        }
    }

    /// What always holds of a ledger: no two accounts share an address; an
    /// account without a delegate grants no allowance; before the asset is
    /// issued there is neither a metadata record nor an account; from then
    /// on the record describes the mint, every account holds the mint's
    /// asset, and the balances add up to the supply.
    pub open spec fn wf(self) -> bool {
        &&& distinct_addresses(self.holdings)
        &&& forall|i: int|
            0 <= i < self.holdings.len() && self.holdings[i].delegate is None
                ==> self.holdings[i].allowance == 0
        &&& match self.mint {
            None => self.metadata is None && self.holdings.len() == 0,
            Some(mint) => {
                &&& self.metadata matches Some(record) && record.mint == mint.address
                &&& forall|i: int|
                    0 <= i < self.holdings.len() ==> self.holdings[i].mint == mint.address
                &&& total_balance(self.holdings) == mint.supply
            },
        }
    }
}

/// Appending an account adds its balance to the sum.
pub proof fn lemma_total_push(holdings: Seq<HoldingAccount>, account: HoldingAccount)
    ensures
        total_balance(holdings.push(account)) == total_balance(holdings) + account.balance,
{
    assert(holdings.push(account).drop_last() =~= holdings);
}

/// Replacing an account changes the sum by the difference of the balances.
pub proof fn lemma_total_update(holdings: Seq<HoldingAccount>, i: int, account: HoldingAccount)
    requires
        0 <= i < holdings.len(),
    ensures
        total_balance(holdings.update(i, account)) == total_balance(holdings)
            - holdings[i].balance + account.balance,
    decreases holdings.len(),
{
    if i == holdings.len() - 1 {
        assert(holdings.update(i, account).drop_last() =~= holdings.drop_last());
    } else {
        lemma_total_update(holdings.drop_last(), i, account);
        assert(holdings.update(i, account).drop_last() =~= holdings.drop_last().update(
            i,
            account,
        ));
    }
}

/// A sum of balances is not negative.
pub proof fn lemma_total_nonnegative(holdings: Seq<HoldingAccount>)
    ensures
        total_balance(holdings) >= 0,
    decreases holdings.len(),
{
    if holdings.len() > 0 {
        lemma_total_nonnegative(holdings.drop_last());
    }
}

/// Two different accounts together hold no more than the sum.
pub proof fn lemma_total_covers_two(holdings: Seq<HoldingAccount>, i: int, j: int)
    requires
        0 <= i < holdings.len(),
        0 <= j < holdings.len(),
        i != j,
    ensures
        holdings[i].balance + holdings[j].balance <= total_balance(holdings),
{
    let emptied = HoldingAccount { balance: 0, ..holdings[i] };
    let without = holdings.update(i, emptied);
    lemma_total_update(holdings, i, emptied);
    let emptied_too = HoldingAccount { balance: 0, ..holdings[j] };
    lemma_total_update(without, j, emptied_too);
    lemma_total_nonnegative(without.update(j, emptied_too));
}

/// One account holds no more than the sum.
pub proof fn lemma_total_covers(holdings: Seq<HoldingAccount>, i: int)
    requires
        0 <= i < holdings.len(),
    ensures
        holdings[i].balance <= total_balance(holdings),
{
    let emptied = HoldingAccount { balance: 0, ..holdings[i] };
    lemma_total_update(holdings, i, emptied);
    lemma_total_nonnegative(holdings.update(i, emptied));
}

/// The first accounts of a list hold no more than the whole list.
pub proof fn lemma_total_prefix(holdings: Seq<HoldingAccount>, n: int)
    requires
        0 <= n <= holdings.len(),
    ensures
        total_balance(holdings.take(n)) <= total_balance(holdings),
    decreases holdings.len(),
{
    if n == holdings.len() {
        assert(holdings.take(n) =~= holdings);
    } else {
        lemma_total_prefix(holdings.drop_last(), n);
        assert(holdings.drop_last().take(n) =~= holdings.take(n));
    }
}

impl Ledger {
    /// Whether no two accounts share an address.
    fn has_distinct_addresses(&self) -> (r: bool)
        ensures
            r == distinct_addresses(self@.holdings),
    {
        let mut j: usize = 0;
        while j < self.holdings.len()
            invariant
                j <= self.holdings.len(),
                forall|a: int, b: int|
                    0 <= a < b < j ==> self.holdings@[a].address != self.holdings@[b].address,
            decreases self.holdings.len() - j,
        {
            let mut i: usize = 0;
            while i < j
                invariant
                    i <= j < self.holdings.len(),
                    forall|a: int|
                        0 <= a < i ==> self.holdings@[a].address != self.holdings@[j as int].address,
                decreases j - i,
            {
                if self.holdings[i].address == self.holdings[j].address {
                    return false;
                }
                i = i + 1;
            }
            j = j + 1;
        }
        true
    }

    /// Whether every account without a delegate grants nothing, and every
    /// account holds the asset of `mint`.
    fn accounts_fit(&self, mint: &Address) -> (r: bool)
        ensures
            r == (forall|i: int|
                0 <= i < self@.holdings.len() ==> self@.holdings[i].mint == *mint && (
                self@.holdings[i].delegate is None ==> self@.holdings[i].allowance == 0)),
    {
        let mut i: usize = 0;
        while i < self.holdings.len()
            invariant
                i <= self.holdings.len(),
                forall|k: int|
                    0 <= k < i ==> self.holdings@[k].mint == *mint && (
                    self.holdings@[k].delegate is None ==> self.holdings@[k].allowance == 0),
            decreases self.holdings.len() - i,
        {
            let account = self.holdings[i];
            if !(account.mint == *mint) {
                return false;
            }
            if account.delegate.is_none() && account.allowance != 0 {
                return false;
            }
            i = i + 1;
        }
        true
    }

    /// Whether the balances add up to `supply`.
    fn balances_total(&self, supply: u64) -> (r: bool)
        ensures
            r == (total_balance(self@.holdings) == supply),
    {
        let mut sum: u64 = 0;
        let mut i: usize = 0;
        while i < self.holdings.len()
            invariant
                i <= self.holdings.len(),
                sum == total_balance(self.holdings@.take(i as int)),
                sum <= supply,
            decreases self.holdings.len() - i,
        {
            let balance = self.holdings[i].balance;
            proof {
                assert(self.holdings@.take(i + 1).drop_last() =~= self.holdings@.take(i as int));
                lemma_total_prefix(self.holdings@, i + 1);
            }
            if balance > supply - sum {
                return false;
            }
            sum = sum + balance;
            i = i + 1;
        }
        proof {
            assert(self.holdings@.take(i as int) =~= self.holdings@);
        }
        sum == supply
    }

    /// Whether the ledger is one that the instructions accept: what
    /// `LedgerView::wf` asks of it.
    pub fn is_valid(&self) -> (r: bool)
        ensures
            r == self@.wf(),
    {
        if !self.has_distinct_addresses() {
            return false;
        }
        match self.mint {
            None => self.metadata.is_none() && self.holdings.len() == 0,
            Some(mint) => {
                let described = match &self.metadata {
                    Some(record) => record.mint == mint.address,
                    None => false,
                };
                described && self.accounts_fit(&mint.address) && self.balances_total(mint.supply)
            },
        }
    }

    /// The ledger of an asset that is not yet issued.
    pub fn new() -> (ledger: Ledger)
        ensures
            ledger@.wf(),
            ledger@.mint is None,
            ledger@.metadata is None,
            ledger@.holdings.len() == 0,
    {
        Ledger { mint: None, metadata: None, holdings: Vec::new() }
    }

    /// Where the account at `address` stands, if there is one.
    pub fn find(&self, address: &Address) -> (r: Option<usize>)
        ensures
            match r {
                Some(i) => i < self@.holdings.len() && self@.holdings[i as int].address
                    == *address,
                None => !self@.has(*address),
            },
            distinct_addresses(self@.holdings) && r is Some ==> r.unwrap() == self@.position(
                *address,
            ),
            r is Some <==> self@.has(*address),
    {
        let mut i: usize = 0;
        while i < self.holdings.len()
            invariant
                i <= self.holdings.len(),
                forall|k: int| 0 <= k < i ==> self.holdings@[k].address != *address,
            decreases self.holdings.len() - i,
        {
            if self.holdings[i].address == *address {
                proof {
                    if distinct_addresses(self@.holdings) {
                        self@.lemma_position(i as int);
                    }
                }
                return Some(i);
            }
            i = i + 1;
        }
        None
    }

    /// The account at `address`, if there is one.
    pub fn holding(&self, address: &Address) -> (r: Option<HoldingAccount>)
        requires
            self@.wf(),
        ensures
            match r {
                Some(account) => self@.has(*address) && account == self@.holding(*address),
                None => !self@.has(*address),
            },
    {
        match self.find(address) {
            Some(i) => Some(self.holdings[i]),
            None => None,
        }
    }

    /// The balance of the account at `address`, if there is one.
    pub fn balance_of(&self, address: &Address) -> (r: Option<u64>)
        requires
            self@.wf(),
        ensures
            match r {
                Some(balance) => self@.has(*address) && balance == self@.holding(
                    *address,
                ).balance,
                None => !self@.has(*address),
            },
    {
        match self.find(address) {
            Some(i) => Some(self.holdings[i].balance),
            None => None,
        }
    }

    /// The supply of the asset, once it is issued.
    pub fn supply(&self) -> (r: Option<u64>)
        ensures
            match r {
                Some(supply) => self@.mint matches Some(mint) && supply == mint.supply,
                None => self@.mint is None,
            },
    {
        match self.mint {
            Some(mint) => Some(mint.supply),
            None => None,
        }
    }
}

} // verus!
