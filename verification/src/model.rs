//! The records the pool keeps and hands out.
//!
//! Amounts are 128-bit unsigned integers and token identifiers are byte strings.
//! A record that holds an identifier has a view in which the identifier is a
//! sequence of bytes; contracts speak of the view.
use vstd::prelude::*;
use vstd::std_specs::cmp::PartialEqSpecImpl;
use crate::error::PoolError;
use crate::fixed_point::BP;

verus! {

/// What a receipt for a deposit records: the round in which it was issued.
#[derive(Clone, Copy, Debug, PartialEq, Eq, Structural)]
pub struct DepositMetadata {
    pub timestamp: u64,
}

/// What an interest-bearing receipt records: the round in which it was issued.
#[derive(Clone, Copy, Debug, PartialEq, Eq, Structural)]
pub struct InterestMetadata {
    pub timestamp: u64,
}

/// The coefficients of the rate curve, each a fraction scaled by `BP`.
#[derive(Clone, Copy, Debug, PartialEq, Eq, Structural)]
pub struct PoolParams {
    /// The borrow rate of an unused pool.
    pub r_base: u128,
    /// Rise of the rate from no utilisation to the optimal one.
    pub r_slope1: u128,
    /// Rise of the rate from the optimal utilisation to the full one.
    pub r_slope2: u128,
    /// The utilisation at which the curve steepens.
    pub u_optimal: u128,
    /// The share of the interest that the pool keeps.
    pub reserve_factor: u128,
}

impl PoolParams {
    /// The optimal utilisation is a fraction of at most one.
    pub open spec fn wf(&self) -> bool {
        self.u_optimal <= BP
    }

    /// The parameters of a pool. Any reserve factor is taken; the deposit rate
    /// is refused later where the factor exceeds `BP`.
    ///
    /// Fails with `InvalidParameter` where the optimal utilisation exceeds `BP`.
    pub fn new(
        r_base: u128,
        r_slope1: u128,
        r_slope2: u128,
        u_optimal: u128,
        reserve_factor: u128,
    ) -> (res: Result<PoolParams, PoolError>)
        ensures
            u_optimal > BP ==> res == Err::<PoolParams, PoolError>(PoolError::InvalidParameter),
            u_optimal <= BP ==> res == Ok::<PoolParams, PoolError>(
                PoolParams { r_base, r_slope1, r_slope2, u_optimal, reserve_factor },
            ),
            res matches Ok(p) ==> p.wf(),
    {
        if u_optimal > BP as u128 {
            Err(PoolError::InvalidParameter)
        } else {
            Ok(PoolParams { r_base, r_slope1, r_slope2, u_optimal, reserve_factor })
        }
    }
}

/// The name and ticker under which a receipt token is issued.
#[derive(Debug)]
pub struct IssueData {
    pub name: Vec<u8>,
    pub ticker: Vec<u8>,
    /// Whether the pool has not recorded a token of this kind yet.
    pub is_empty_ticker: bool,
}

/// `IssueData` with its byte strings as sequences.
pub struct IssueDataView {
    pub name: Seq<u8>,
    pub ticker: Seq<u8>,
    pub is_empty_ticker: bool,
}

impl View for IssueData {
    type V = IssueDataView;

    open spec fn view(&self) -> IssueDataView {
        IssueDataView { name: self.name@, ticker: self.ticker@, is_empty_ticker: self.is_empty_ticker }
    }
}

/// One borrower's debt and the collateral that backs it.
///
/// The debt is `size` as of the borrow index `borrow_index`; what is owed later is
/// `size` scaled by the growth of the index since.
#[derive(Debug)]
pub struct DebtPosition {
    /// The debt as of `borrow_index`.
    pub size: u128,
    /// The health factor when it was last evaluated, scaled by `BP` and capped at the largest `u32`.
    pub health_factor: u32,
    /// Whether liquidators have repaid the whole debt.
    pub is_liquidated: bool,
    /// The round in which the position was opened.
    pub timestamp: u64,
    /// The borrow index at which `size` is stated.
    pub borrow_index: u128,
    /// Collateral held by the pool for this position.
    pub collateral_amount: u128,
    /// The asset of the collateral.
    pub collateral_identifier: Vec<u8>,
}

/// `DebtPosition` with its numbers as naturals and its identifier as a sequence.
pub struct DebtPositionView {
    pub size: nat,
    pub health_factor: nat,
    pub is_liquidated: bool,
    pub timestamp: nat,
    pub borrow_index: nat,
    pub collateral_amount: nat,
    pub collateral_identifier: Seq<u8>,
}

impl View for DebtPosition {
    type V = DebtPositionView;

    open spec fn view(&self) -> DebtPositionView {
        DebtPositionView {
            size: self.size as nat,
            health_factor: self.health_factor as nat,
            is_liquidated: self.is_liquidated,
            timestamp: self.timestamp as nat,
            borrow_index: self.borrow_index as nat,
            collateral_amount: self.collateral_amount as nat,
            collateral_identifier: self.collateral_identifier@,
        }
    }
}

/// The view of the position that stands for "none": no debt, no collateral, the
/// native coin (the empty identifier) as collateral asset, and an index of one.
pub open spec fn empty_position() -> DebtPositionView {
    DebtPositionView {
        size: 0,
        health_factor: 0,
        is_liquidated: false,
        timestamp: 0,
        borrow_index: BP as nat,
        collateral_amount: 0,
        collateral_identifier: Seq::<u8>::empty(),
    }
}

impl Default for DebtPosition {
    fn default() -> (p: DebtPosition)
        ensures
            p@ == empty_position(),
    {
        DebtPosition {
            size: 0,
            health_factor: 0u32,
            is_liquidated: false,
            timestamp: 0u64,
            borrow_index: BP as u128,
            collateral_amount: 0,
            collateral_identifier: Vec::new(),
        }
    }
}

impl Clone for DebtPosition {
    fn clone(&self) -> (p: DebtPosition)
        ensures
            p@ == self@,
    {
        DebtPosition {
            size: self.size,
            health_factor: self.health_factor,
            is_liquidated: self.is_liquidated,
            timestamp: self.timestamp,
            borrow_index: self.borrow_index,
            collateral_amount: self.collateral_amount,
            collateral_identifier: copy_bytes(&self.collateral_identifier),
        }
    }
}

/// What a liquidator receives: an amount of the collateral asset.
#[derive(Debug)]
pub struct LiquidateData {
    pub collateral_token: Vec<u8>,
    pub amount: u128,
}

/// `LiquidateData` over mathematical values.
pub struct LiquidateDataView {
    pub collateral_token: Seq<u8>,
    pub amount: nat,
}

impl View for LiquidateData {
    type V = LiquidateDataView;

    open spec fn view(&self) -> LiquidateDataView {
        LiquidateDataView { collateral_token: self.collateral_token@, amount: self.amount as nat }
    }
}

/// What a debt token records about the position it stands for.
#[derive(Debug)]
pub struct DebtMetadata {
    pub timestamp: u64,
    pub collateral_amount: u128,
    pub collateral_identifier: Vec<u8>,
    pub collateral_timestamp: u64,
}

/// `DebtMetadata` over mathematical values.
pub struct DebtMetadataView {
    pub timestamp: nat,
    pub collateral_amount: nat,
    pub collateral_identifier: Seq<u8>,
    pub collateral_timestamp: nat,
}

impl View for DebtMetadata {
    type V = DebtMetadataView;

    open spec fn view(&self) -> DebtMetadataView {
        DebtMetadataView {
            timestamp: self.timestamp as nat,
            collateral_amount: self.collateral_amount as nat,
            collateral_identifier: self.collateral_identifier@,
            collateral_timestamp: self.collateral_timestamp as nat,
        }
    }
}

impl Clone for DebtMetadata {
    fn clone(&self) -> (m: DebtMetadata)
        ensures
            m@ == self@,
    {
        DebtMetadata {
            timestamp: self.timestamp,
            collateral_amount: self.collateral_amount,
            collateral_identifier: copy_bytes(&self.collateral_identifier),
            collateral_timestamp: self.collateral_timestamp,
        }
    }
}

/// The record of one repayment: what was paid into the debt and the collateral it released.
#[derive(Debug)]
pub struct RepayPostion {
    /// The asset that was paid.
    pub identifier: Vec<u8>,
    /// The amount taken into the debt.
    pub amount: u128,
    /// The number of the position.
    pub nonce: u64,
    /// The round in which the debt was opened.
    pub borrow_timestamp: u64,
    /// The asset of the collateral.
    pub collateral_identifier: Vec<u8>,
    /// The collateral that the repayment releases.
    pub collateral_amount: u128,
    /// The round in which the collateral was taken.
    pub collateral_timestamp: u64,
}

/// `RepayPostion` over mathematical values.
pub struct RepayPostionView {
    pub identifier: Seq<u8>,
    pub amount: nat,
    pub nonce: nat,
    pub borrow_timestamp: nat,
    pub collateral_identifier: Seq<u8>,
    pub collateral_amount: nat,
    pub collateral_timestamp: nat,
}

impl View for RepayPostion {
    type V = RepayPostionView;

    open spec fn view(&self) -> RepayPostionView {
        RepayPostionView {
            identifier: self.identifier@,
            amount: self.amount as nat,
            nonce: self.nonce as nat,
            borrow_timestamp: self.borrow_timestamp as nat,
            collateral_identifier: self.collateral_identifier@,
            collateral_amount: self.collateral_amount as nat,
            collateral_timestamp: self.collateral_timestamp as nat,
        }
    }
}

/// The view of the repayment record that stands for "none".
pub open spec fn empty_repayment() -> RepayPostionView {
    RepayPostionView {
        identifier: Seq::<u8>::empty(),
        amount: 0,
        nonce: 0,
        borrow_timestamp: 0,
        collateral_identifier: Seq::<u8>::empty(),
        collateral_amount: 0,
        collateral_timestamp: 0,
    }
}

impl Default for RepayPostion {
    fn default() -> (r: RepayPostion)
        ensures
            r@ == empty_repayment(),
    {
        RepayPostion {
            identifier: Vec::new(),
            amount: 0,
            nonce: 0u64,
            borrow_timestamp: 0u64,
            collateral_identifier: Vec::new(),
            collateral_amount: 0,
            collateral_timestamp: 0u64,
        }
    }
}

impl Clone for RepayPostion {
    fn clone(&self) -> (r: RepayPostion)
        ensures
            r@ == self@,
    {
        RepayPostion {
            identifier: copy_bytes(&self.identifier),
            amount: self.amount,
            nonce: self.nonce,
            borrow_timestamp: self.borrow_timestamp,
            collateral_identifier: copy_bytes(&self.collateral_identifier),
            collateral_amount: self.collateral_amount,
            collateral_timestamp: self.collateral_timestamp,
        }
    }
}

impl PartialEq for IssueData {
    fn eq(&self, other: &IssueData) -> (res: bool) {
        self.is_empty_ticker == other.is_empty_ticker
            && same_bytes(&self.name, &other.name)
            && same_bytes(&self.ticker, &other.ticker)
    }
}

impl PartialEqSpecImpl for IssueData {
    open spec fn obeys_eq_spec() -> bool {
        true
    }

    open spec fn eq_spec(&self, other: &IssueData) -> bool {
        self@ == other@
    }
}

impl PartialEq for DebtPosition {
    fn eq(&self, other: &DebtPosition) -> (res: bool) {
        self.size == other.size
            && self.health_factor == other.health_factor
            && self.is_liquidated == other.is_liquidated
            && self.timestamp == other.timestamp
            && self.borrow_index == other.borrow_index
            && self.collateral_amount == other.collateral_amount
            && same_bytes(&self.collateral_identifier, &other.collateral_identifier)
    }
}

impl PartialEqSpecImpl for DebtPosition {
    open spec fn obeys_eq_spec() -> bool {
        true
    }

    open spec fn eq_spec(&self, other: &DebtPosition) -> bool {
        self@ == other@
    }
}

impl PartialEq for LiquidateData {
    fn eq(&self, other: &LiquidateData) -> (res: bool) {
        self.amount == other.amount
            && same_bytes(&self.collateral_token, &other.collateral_token)
    }
}

impl PartialEqSpecImpl for LiquidateData {
    open spec fn obeys_eq_spec() -> bool {
        true
    }

    open spec fn eq_spec(&self, other: &LiquidateData) -> bool {
        self@ == other@
    }
}

impl PartialEq for DebtMetadata {
    fn eq(&self, other: &DebtMetadata) -> (res: bool) {
        self.timestamp == other.timestamp
            && self.collateral_amount == other.collateral_amount
            && self.collateral_timestamp == other.collateral_timestamp
            && same_bytes(&self.collateral_identifier, &other.collateral_identifier)
    }
}

impl PartialEqSpecImpl for DebtMetadata {
    open spec fn obeys_eq_spec() -> bool {
        true
    }

    open spec fn eq_spec(&self, other: &DebtMetadata) -> bool {
        self@ == other@
    }
}

impl PartialEq for RepayPostion {
    fn eq(&self, other: &RepayPostion) -> (res: bool) {
        self.amount == other.amount
            && self.nonce == other.nonce
            && self.borrow_timestamp == other.borrow_timestamp
            && self.collateral_amount == other.collateral_amount
            && self.collateral_timestamp == other.collateral_timestamp
            && same_bytes(&self.identifier, &other.identifier)
            && same_bytes(&self.collateral_identifier, &other.collateral_identifier)
    }
}

impl PartialEqSpecImpl for RepayPostion {
    open spec fn obeys_eq_spec() -> bool {
        true
    }

    open spec fn eq_spec(&self, other: &RepayPostion) -> bool {
        self@ == other@
    }
}

/// A copy of a byte string.
pub fn copy_bytes(bytes: &Vec<u8>) -> (copy: Vec<u8>)
    ensures
        copy@ == bytes@,
{
    let mut copy: Vec<u8> = Vec::new();
    let mut i: usize = 0;
    while i < bytes.len()
        invariant
            i <= bytes.len(),
            copy@ == bytes@.take(i as int),
        decreases bytes.len() - i,
    {
        copy.push(bytes[i]);
        i += 1;
    }
    copy
}

/// Whether two byte strings hold the same bytes.
pub fn same_bytes(left: &Vec<u8>, right: &Vec<u8>) -> (same: bool)
    ensures
        same == (left@ == right@),
{
    if left.len() != right.len() {
        return false;
    }
    let mut i: usize = 0;
    while i < left.len()
        invariant
            i <= left.len(),
            left.len() == right.len(),
            left@.take(i as int) == right@.take(i as int),
        decreases left.len() - i,
    {
        if left[i] != right[i] {
            return false;
        }
        proof {
            assert(left@.take(i + 1) =~= left@.take(i as int).push(left@[i as int]));
            assert(right@.take(i + 1) =~= right@.take(i as int).push(right@[i as int]));
        }
        i += 1;
    }
    proof {
        assert(left@ =~= left@.take(left.len() as int));
        assert(right@ =~= right@.take(right.len() as int));
    }
    true
}

} // verus!
