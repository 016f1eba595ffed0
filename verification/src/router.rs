//! The register of pools: which pool serves which asset, which addresses are
//! pools, and the loan-to-value ratio of each asset.
//!
//! The register only decides. Deploying, upgrading and calling a pool is the
//! caller's work: the caller asks the register first and reports back afterwards.
use vstd::prelude::*;
use crate::model::copy_bytes;
use crate::model::same_bytes;
use crate::tokens::BORROW_TOKEN_PREFIX;
use crate::tokens::LEND_TOKEN_PREFIX;

verus! {

/// Why the register refuses a call.
#[derive(Clone, Copy, Debug, PartialEq, Eq, Structural)]
pub enum RouterError {
    /// A pool serves the asset already.
    AssetAlreadySupported,
    /// The asset is the native coin, for which no pool is made.
    NonEsdtAsset,
    /// No pool serves the asset.
    NoPoolForAsset,
    /// The upgrade of a pool did not succeed.
    UpgradeFailed,
    /// The caller is not a pool of this register.
    UnknownCaller,
    /// The identifier is not that of a token.
    InvalidTicker,
    /// No loan-to-value ratio is set for the asset.
    NoLoanToValue,
    /// The loan-to-value ratio of the asset is zero.
    ZeroLoanToValue,
}

/// The kind of token that a pool issues.
#[derive(Clone, Copy, Debug, PartialEq, Eq, Structural)]
pub enum TokenKind {
    /// The receipt for a deposit.
    Lend,
    /// The receipt for a debt.
    Borrow,
}

/// The map that a list of writes amounts to: a later write to a key replaces an earlier one.
pub open spec fn written<V>(writes: Seq<(Seq<u8>, V)>) -> Map<Seq<u8>, V>
    decreases writes.len(),
{
    if writes.len() == 0 {
        Map::empty()
    } else {
        written(writes.drop_last()).insert(writes.last().0, writes.last().1)
    }
}

/// Whether an address is the zero address: it has no byte other than zero.
pub open spec fn is_zero(address: Seq<u8>) -> bool {
    forall|i: int| 0 <= i < address.len() ==> address[i] == 0
}

/// The zero address: thirty-two zero bytes.
pub open spec fn zero_address() -> Seq<u8> {
    Seq::new(32, |i: int| 0u8)
}

/// The prefix of the tickers of a kind of token.
pub open spec fn prefix_of(kind: TokenKind) -> u8 {
    match kind {
        TokenKind::Lend => LEND_TOKEN_PREFIX,
        TokenKind::Borrow => BORROW_TOKEN_PREFIX,
    }
}

struct PoolRecord {
    asset: Vec<u8>,
    address: Vec<u8>,
}

struct RatioRecord {
    asset: Vec<u8>,
    ratio: u128,
}

/// The register of pools.
pub struct Router {
    pools: Vec<PoolRecord>,
    allowed: Vec<Vec<u8>>,
    ratios: Vec<RatioRecord>,
}

/// `Router` over mathematical values.
pub struct RouterView {
    /// The address of the pool of each asset that has one.
    pub pools_map: Map<Seq<u8>, Seq<u8>>,
    /// The addresses that are pools of this register.
    pub pools_allowed: Set<Seq<u8>>,
    /// The loan-to-value ratio of each asset that has one.
    pub asset_loan_to_value: Map<Seq<u8>, u128>,
}

impl View for Router {
    type V = RouterView;

    closed spec fn view(&self) -> RouterView {
        RouterView {
            pools_map: written(self.pool_writes()),
            pools_allowed: Set::new(
                |a: Seq<u8>| exists|i: int| 0 <= i < self.allowed@.len() && (#[trigger] self.allowed@[i])@ == a,
            ),
            asset_loan_to_value: written(self.ratio_writes()),
        }
    }
}

impl Router {
    spec fn pool_writes(&self) -> Seq<(Seq<u8>, Seq<u8>)> {
        Seq::new(self.pools@.len(), |i: int| (self.pools@[i].asset@, self.pools@[i].address@))
    }

    spec fn ratio_writes(&self) -> Seq<(Seq<u8>, u128)> {
        Seq::new(self.ratios@.len(), |i: int| (self.ratios@[i].asset@, self.ratios@[i].ratio))
    }

    /// A register without pools.
    pub fn new() -> (router: Router)
        ensures
            router@.pools_map == Map::<Seq<u8>, Seq<u8>>::empty(),
            router@.pools_allowed == Set::<Seq<u8>>::empty(),
            router@.asset_loan_to_value == Map::<Seq<u8>, u128>::empty(),
    {
        let router = Router { pools: Vec::new(), allowed: Vec::new(), ratios: Vec::new() };
        proof {
            assert(router@.pools_allowed =~= Set::<Seq<u8>>::empty());
        }
        router
    }

    /// The place of the last write to the pool of `asset`.
    fn find_pool(&self, asset: &Vec<u8>) -> (res: Option<usize>)
        ensures
            res is Some <==> self@.pools_map.contains_key(asset@),
            res matches Some(i) ==> i < self.pools@.len() && self.pools@[i as int].address@
                == self@.pools_map[asset@],
    {
        let ghost writes = self.pool_writes();
        let mut i: usize = self.pools.len();
        proof {
            assert(writes.take(i as int) =~= writes);
        }
        while i > 0
            invariant
                i <= self.pools@.len(),
                writes == self.pool_writes(),
                written(writes).contains_key(asset@) <==> written(writes.take(i as int)).contains_key(
                    asset@,
                ),
                written(writes).contains_key(asset@) ==> written(writes)[asset@] == written(
                    writes.take(i as int),
                )[asset@],
            decreases i,
        {
            i -= 1;
            proof {
                assert(writes.take(i + 1).drop_last() =~= writes.take(i as int));
                assert(writes.take(i + 1).last() == writes[i as int]);
            }
            if same_bytes(&self.pools[i].asset, asset) {
                return Some(i);
            }
        }
        None
    }

    /// The place of the last write to the ratio of `asset`.
    fn find_ratio(&self, asset: &Vec<u8>) -> (res: Option<usize>)
        ensures
            res is Some <==> self@.asset_loan_to_value.contains_key(asset@),
            res matches Some(i) ==> i < self.ratios@.len() && self.ratios@[i as int].ratio
                == self@.asset_loan_to_value[asset@],
    {
        let ghost writes = self.ratio_writes();
        let mut i: usize = self.ratios.len();
        proof {
            assert(writes.take(i as int) =~= writes);
        }
        while i > 0
            invariant
                i <= self.ratios@.len(),
                writes == self.ratio_writes(),
                written(writes).contains_key(asset@) <==> written(writes.take(i as int)).contains_key(
                    asset@,
                ),
                written(writes).contains_key(asset@) ==> written(writes)[asset@] == written(
                    writes.take(i as int),
                )[asset@],
            decreases i,
        {
            i -= 1;
            proof {
                assert(writes.take(i + 1).drop_last() =~= writes.take(i as int));
                assert(writes.take(i + 1).last() == writes[i as int]);
            }
            if same_bytes(&self.ratios[i].asset, asset) {
                return Some(i);
            }
        }
        None
    }

    /// Whether `address` is a pool of this register.
    pub fn is_pool_allowed(&self, address: &Vec<u8>) -> (res: bool)
        ensures
            res == self@.pools_allowed.contains(address@),
    {
        let mut i: usize = 0;
        while i < self.allowed.len()
            invariant
                i <= self.allowed@.len(),
                forall|j: int| 0 <= j < i ==> (#[trigger] self.allowed@[j])@ != address@,
            decreases self.allowed.len() - i,
        {
            if same_bytes(&self.allowed[i], address) {
                return true;
            }
            i += 1;
        }
        false
    }

    /// Makes the pool at `address` the pool of `asset`.
    pub fn assign_pool(&mut self, asset: Vec<u8>, address: Vec<u8>)
        ensures
            final(self)@ == (RouterView {
                pools_map: old(self)@.pools_map.insert(asset@, address@),
                ..old(self)@
            }),
    {
        let ghost before = self.pool_writes();
        let ghost allowed_before = self@.pools_allowed;
        self.pools.push(PoolRecord { asset, address });
        proof {
            assert(self.pool_writes().drop_last() =~= before);
            assert(self@.pools_allowed =~= allowed_before);
        }
    }

    /// Makes `address` a pool of this register.
    pub fn allow_pool(&mut self, address: Vec<u8>)
        ensures
            final(self)@ == (RouterView {
                pools_allowed: old(self)@.pools_allowed.insert(address@),
                ..old(self)@
            }),
    {
        let ghost before = self@;
        let ghost allowed_before = self.allowed@;
        self.allowed.push(address);
        proof {
            assert(self@.pools_allowed =~= before.pools_allowed.insert(address@)) by {
                assert forall|a: Seq<u8>| self@.pools_allowed.contains(a)
                    == before.pools_allowed.insert(address@).contains(a) by {
                    if before.pools_allowed.contains(a) {
                        let i = choose|i: int|
                            0 <= i < allowed_before.len() && (#[trigger] allowed_before[i])@ == a;
                        assert(self.allowed@[i]@ == a);
                    }
                    if a == address@ {
                        assert(self.allowed@[allowed_before.len() as int]@ == a);
                    }
                    if self@.pools_allowed.contains(a) {
                        let i = choose|i: int|
                            0 <= i < self.allowed@.len() && (#[trigger] self.allowed@[i])@ == a;
                        if i < allowed_before.len() {
                            assert(allowed_before[i]@ == a);
                        }
                    }
                }
            }
            assert(self.pool_writes() =~= old(self).pool_writes());
            assert(self.ratio_writes() =~= old(self).ratio_writes());
        }
    }

    /// Whether a pool for `base_asset` may be made.
    ///
    /// Fails with `AssetAlreadySupported` where a pool serves the asset, and else
    /// with `NonEsdtAsset` where the asset is the native coin, whose identifier is empty.
    pub fn check_new_pool(&self, base_asset: &Vec<u8>) -> (res: Result<(), RouterError>)
        ensures
            res == (if self@.pools_map.contains_key(base_asset@) {
                Err::<(), RouterError>(RouterError::AssetAlreadySupported)
            } else if base_asset@.len() == 0 {
                Err::<(), RouterError>(RouterError::NonEsdtAsset)
            } else {
                Ok::<(), RouterError>(())
            }),
    {
        if self.find_pool(base_asset).is_some() {
            return Err(RouterError::AssetAlreadySupported);
        }
        if base_asset.len() == 0 {
            return Err(RouterError::NonEsdtAsset);
        }
        Ok(())
    }

    /// Records the pool that was deployed for `base_asset` at `address`, unless the
    /// address is the zero address, which stands for a deployment that failed.
    /// Returns whether the pool was recorded.
    pub fn record_new_pool(&mut self, base_asset: Vec<u8>, address: Vec<u8>) -> (recorded: bool)
        ensures
            recorded == !is_zero(address@),
            !recorded ==> final(self)@ == old(self)@,
            recorded ==> final(self)@ == (RouterView {
                pools_map: old(self)@.pools_map.insert(base_asset@, address@),
                pools_allowed: old(self)@.pools_allowed.insert(address@),
                ..old(self)@
            }),
    {
        if all_zero(&address) {
            return false;
        }
        self.allow_pool(copy_bytes(&address));
        self.assign_pool(base_asset, address);
        true
    }

    /// The address of the pool that is to be upgraded for `base_asset`.
    ///
    /// Fails with `NoPoolForAsset` where no pool serves the asset.
    pub fn pool_to_upgrade(&self, base_asset: &Vec<u8>) -> (res: Result<Vec<u8>, RouterError>)
        ensures
            !self@.pools_map.contains_key(base_asset@) ==> res matches Err(
                RouterError::NoPoolForAsset,
            ),
            self@.pools_map.contains_key(base_asset@) ==> res is Ok && res->Ok_0@
                == self@.pools_map[base_asset@],
    {
        self.get_pool_address_non_zero(base_asset)
    }

    /// What the outcome of an upgrade amounts to: `UpgradeFailed` unless it succeeded.
    pub fn check_upgrade(success: bool) -> (res: Result<(), RouterError>)
        ensures
            res == (if success {
                Ok::<(), RouterError>(())
            } else {
                Err::<(), RouterError>(RouterError::UpgradeFailed)
            }),
    {
        if success {
            Ok(())
        } else {
            Err(RouterError::UpgradeFailed)
        }
    }

    /// Where and under which prefix a token of `kind` is issued for `token_ticker`:
    /// the address of the asset's pool and the first byte of the new ticker.
    ///
    /// Fails with `NoPoolForAsset` where no pool serves the asset.
    pub fn issue_request(&self, token_ticker: &Vec<u8>, kind: TokenKind) -> (res: Result<
        (Vec<u8>, u8),
        RouterError,
    >)
        ensures
            !self@.pools_map.contains_key(token_ticker@) ==> res matches Err(
                RouterError::NoPoolForAsset,
            ),
            self@.pools_map.contains_key(token_ticker@) ==> res is Ok && res->Ok_0.0@
                == self@.pools_map[token_ticker@] && res->Ok_0.1 == prefix_of(kind),
    {
        let address: Vec<u8> = self.get_pool_address_non_zero(token_ticker)?;
        let prefix: u8 = match kind {
            TokenKind::Lend => LEND_TOKEN_PREFIX,
            TokenKind::Borrow => BORROW_TOKEN_PREFIX,
        };
        Ok((address, prefix))
    }

    /// Sets the loan-to-value ratio of `asset`.
    pub fn set_asset_loan_to_value(&mut self, asset: Vec<u8>, loan_to_value: u128)
        ensures
            final(self)@ == (RouterView {
                asset_loan_to_value: old(self)@.asset_loan_to_value.insert(asset@, loan_to_value),
                ..old(self)@
            }),
    {
        let ghost before = self.ratio_writes();
        let ghost allowed_before = self@.pools_allowed;
        self.ratios.push(RatioRecord { asset, ratio: loan_to_value });
        proof {
            assert(self.ratio_writes().drop_last() =~= before);
            assert(self.pool_writes() =~= old(self).pool_writes());
            assert(self@.pools_allowed =~= allowed_before);
        }
    }

    /// Records that the pool at `caller` now serves `token_ticker`, a token it issued.
    /// `ticker_is_valid` says whether the identifier is that of a token.
    ///
    /// Fails with `UnknownCaller` where the caller is not a pool of this register,
    /// and else with `InvalidTicker` where the identifier is not valid. A failed
    /// call changes nothing.
    pub fn set_ticker_after_issue(
        &mut self,
        caller: Vec<u8>,
        token_ticker: Vec<u8>,
        ticker_is_valid: bool,
    ) -> (res: Result<(), RouterError>)
        ensures
            res == (if !old(self)@.pools_allowed.contains(caller@) {
                Err::<(), RouterError>(RouterError::UnknownCaller)
            } else if !ticker_is_valid {
                Err::<(), RouterError>(RouterError::InvalidTicker)
            } else {
                Ok::<(), RouterError>(())
            }),
            res is Err ==> final(self)@ == old(self)@,
            res is Ok ==> final(self)@ == (RouterView {
                pools_map: old(self)@.pools_map.insert(token_ticker@, caller@),
                ..old(self)@
            }),
    {
        if !self.is_pool_allowed(&caller) {
            return Err(RouterError::UnknownCaller);
        }
        if !ticker_is_valid {
            return Err(RouterError::InvalidTicker);
        }
        self.assign_pool(token_ticker, caller);
        Ok(())
    }

    /// The address of the pool of `asset`; the zero address where no pool serves it.
    pub fn get_pool_address(&self, asset: &Vec<u8>) -> (res: Vec<u8>)
        ensures
            res@ == (if self@.pools_map.contains_key(asset@) {
                self@.pools_map[asset@]
            } else {
                zero_address()
            }),
    {
        match self.find_pool(asset) {
            Some(i) => copy_bytes(&self.pools[i].address),
            None => {
                let mut zero: Vec<u8> = Vec::new();
                let mut n: usize = 0;
                while n < 32
                    invariant
                        n <= 32,
                        zero@.len() == n,
                        forall|j: int| 0 <= j < n ==> zero@[j] == 0,
                    decreases 32 - n,
                {
                    zero.push(0u8);
                    n += 1;
                }
                proof {
                    assert(zero@ =~= zero_address());
                }
                zero
            },
        }
    }

    /// The address of the pool of `asset`.
    ///
    /// Fails with `NoPoolForAsset` where no pool serves it.
    pub fn get_pool_address_non_zero(&self, asset: &Vec<u8>) -> (res: Result<Vec<u8>, RouterError>)
        ensures
            !self@.pools_map.contains_key(asset@) ==> res matches Err(RouterError::NoPoolForAsset),
            self@.pools_map.contains_key(asset@) ==> res is Ok && res->Ok_0@
                == self@.pools_map[asset@],
    {
        match self.find_pool(asset) {
            Some(i) => Ok(copy_bytes(&self.pools[i].address)),
            None => Err(RouterError::NoPoolForAsset),
        }
    }

    /// The loan-to-value ratio of `token_id`.
    ///
    /// Fails with `NoLoanToValue` where none is set, and with `ZeroLoanToValue`
    /// where it is zero.
    pub fn get_loan_to_value_exists_and_non_zero(&self, token_id: &Vec<u8>) -> (res: Result<
        u128,
        RouterError,
    >)
        ensures
            res == (if !self@.asset_loan_to_value.contains_key(token_id@) {
                Err::<u128, RouterError>(RouterError::NoLoanToValue)
            } else if self@.asset_loan_to_value[token_id@] == 0 {
                Err::<u128, RouterError>(RouterError::ZeroLoanToValue)
            } else {
                Ok::<u128, RouterError>(self@.asset_loan_to_value[token_id@])
            }),
    {
        match self.find_ratio(token_id) {
            None => Err(RouterError::NoLoanToValue),
            Some(i) => {
                let ratio: u128 = self.ratios[i].ratio;
                if ratio == 0 {
                    Err(RouterError::ZeroLoanToValue)
                } else {
                    Ok(ratio)
                }
            },
        }
    }
}

/// Whether an address has no byte other than zero.
pub fn all_zero(address: &Vec<u8>) -> (res: bool)
    ensures
        res == is_zero(address@),
{
    let mut i: usize = 0;
    while i < address.len()
        invariant
            i <= address.len(),
            forall|j: int| 0 <= j < i ==> address@[j] == 0,
        decreases address.len() - i,
    {
        if address[i] != 0 {
            return false;
        }
        i += 1;
    }
    true
}

} // verus!
