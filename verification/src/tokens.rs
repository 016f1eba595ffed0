//! Names of the tokens that a pool issues, and the ticker inside a token identifier.
//!
//! A token identifier is a ticker, a dash and six random characters. The tokens
//! that a pool issues for deposits and for debts carry the ticker of the pool's
//! asset behind a prefix of one byte.
use vstd::prelude::*;
use crate::error::PoolError;
use crate::model::IssueData;
use crate::model::IssueDataView;

verus! {

/// What the issue of a token costs, in the smallest unit of the native coin.
pub const ESDT_ISSUE_COST: u64 = 5_000_000_000_000_000_000;

/// First byte of the ticker of a deposit token: the letter L.
pub const LEND_TOKEN_PREFIX: u8 = 76;

/// First byte of the ticker of a debt token: the letter B.
pub const BORROW_TOKEN_PREFIX: u8 = 66;

/// Length of what follows the ticker in a token identifier: the dash and six random characters.
pub const TOKEN_ID_SUFFIX_LEN: usize = 7;

/// The bytes of `IntBearing`, with which the name of a deposit token begins.
pub open spec fn lend_token_name() -> Seq<u8> {
    seq![73u8, 110u8, 116u8, 66u8, 101u8, 97u8, 114u8, 105u8, 110u8, 103u8]
}

/// The bytes of `DebtBearing`, with which the name of a debt token begins.
pub open spec fn debt_token_name() -> Seq<u8> {
    seq![68u8, 101u8, 98u8, 116u8, 66u8, 101u8, 97u8, 114u8, 105u8, 110u8, 103u8]
}

/// The ticker of the dollar, against which prices are quoted: the bytes of `USD`.
pub open spec fn dollar_ticker() -> Seq<u8> {
    seq![85u8, 83u8, 68u8]
}

/// What is issued for `ticker` under `prefix`: the ticker behind the prefix, and a
/// name and the flag of the kind of token that the prefix stands for.
pub open spec fn issue_data(
    prefix: u8,
    ticker: Seq<u8>,
    lend_token_is_empty: bool,
    borrow_token_is_empty: bool,
) -> IssueDataView {
    IssueDataView {
        name: if prefix == LEND_TOKEN_PREFIX {
            lend_token_name() + ticker
        } else if prefix == BORROW_TOKEN_PREFIX {
            debt_token_name() + ticker
        } else {
            Seq::<u8>::empty()
        },
        ticker: seq![prefix] + ticker,
        is_empty_ticker: if prefix == LEND_TOKEN_PREFIX {
            lend_token_is_empty
        } else if prefix == BORROW_TOKEN_PREFIX {
            borrow_token_is_empty
        } else {
            true
        },
    }
}

/// The ticker inside a token identifier: all but its last seven bytes.
pub open spec fn ticker_of(token_id: Seq<u8>) -> Seq<u8> {
    token_id.subrange(0, token_id.len() - TOKEN_ID_SUFFIX_LEN)
}

/// The ticker of the pool's asset inside the identifier of a token that the pool
/// issued: all but the first byte and the last seven.
pub open spec fn ticker_of_issued(token_id: Seq<u8>) -> Seq<u8> {
    token_id.subrange(1, token_id.len() - TOKEN_ID_SUFFIX_LEN)
}

/// Appends `tail` to `head`.
fn append_bytes(head: &mut Vec<u8>, tail: &Vec<u8>)
    ensures
        final(head)@ == old(head)@ + tail@,
{
    let mut i: usize = 0;
    while i < tail.len()
        invariant
            i <= tail.len(),
            head@ == old(head)@ + tail@.take(i as int),
        decreases tail.len() - i,
    {
        head.push(tail[i]);
        proof {
            assert(tail@.take(i + 1) =~= tail@.take(i as int).push(tail@[i as int]));
        }
        i += 1;
    }
    proof {
        assert(tail@.take(tail.len() as int) =~= tail@);
    }
}

/// The bytes of `token_id` from `from` up to `to`.
fn slice_bytes(token_id: &Vec<u8>, from: usize, to: usize) -> (res: Vec<u8>)
    requires
        from <= to <= token_id.len(),
    ensures
        res@ == token_id@.subrange(from as int, to as int),
{
    let mut res: Vec<u8> = Vec::new();
    let mut i: usize = from;
    while i < to
        invariant
            from <= i <= to <= token_id.len(),
            res@ == token_id@.subrange(from as int, i as int),
        decreases to - i,
    {
        res.push(token_id[i]);
        proof {
            assert(token_id@.subrange(from as int, i + 1) =~= token_id@.subrange(
                from as int,
                i as int,
            ).push(token_id@[i as int]));
        }
        i += 1;
    }
    res
}

/// The ticker and name under which a pool issues a token for `ticker`.
///
/// `lend_token_is_empty` and `borrow_token_is_empty` say whether the pool has not
/// recorded a deposit token and a debt token yet.
pub fn prepare_issue_data(
    prefix: u8,
    ticker: &Vec<u8>,
    lend_token_is_empty: bool,
    borrow_token_is_empty: bool,
) -> (res: IssueData)
    ensures
        res@ == issue_data(prefix, ticker@, lend_token_is_empty, borrow_token_is_empty),
{
    let mut prefixed_ticker: Vec<u8> = vec![prefix];
    append_bytes(&mut prefixed_ticker, ticker);
    let mut name: Vec<u8> = Vec::new();
    let mut is_empty_ticker: bool = true;
    if prefix == LEND_TOKEN_PREFIX {
        name = vec![73u8, 110u8, 116u8, 66u8, 101u8, 97u8, 114u8, 105u8, 110u8, 103u8];
        append_bytes(&mut name, ticker);
        is_empty_ticker = lend_token_is_empty;
    } else if prefix == BORROW_TOKEN_PREFIX {
        name = vec![68u8, 101u8, 98u8, 116u8, 66u8, 101u8, 97u8, 114u8, 105u8, 110u8, 103u8];
        append_bytes(&mut name, ticker);
        is_empty_ticker = borrow_token_is_empty;
    }
    proof {
        assert(prefixed_ticker@ =~= seq![prefix] + ticker@);
        assert(name@ =~= issue_data(
            prefix,
            ticker@,
            lend_token_is_empty,
            borrow_token_is_empty,
        ).name);
    }
    IssueData { name, ticker: prefixed_ticker, is_empty_ticker }
}

/// The ticker inside a token identifier.
///
/// Fails with `InvalidParameter` where the identifier is shorter than the seven
/// bytes that follow a ticker.
pub fn get_token_ticker(token_id: &Vec<u8>) -> (res: Result<Vec<u8>, PoolError>)
    ensures
        token_id@.len() < TOKEN_ID_SUFFIX_LEN ==> res matches Err(PoolError::InvalidParameter),
        token_id@.len() >= TOKEN_ID_SUFFIX_LEN ==> res is Ok && res->Ok_0@ == ticker_of(token_id@),
{
    if token_id.len() < TOKEN_ID_SUFFIX_LEN {
        return Err(PoolError::InvalidParameter);
    }
    Ok(slice_bytes(token_id, 0, token_id.len() - TOKEN_ID_SUFFIX_LEN))
}

/// The ticker of the pool's asset inside the identifier of a token that the pool issued.
///
/// Fails with `InvalidParameter` where the identifier is shorter than the prefix
/// and the seven bytes that follow a ticker.
pub fn get_token_ticker_from_lending(token_id: &Vec<u8>) -> (res: Result<Vec<u8>, PoolError>)
    ensures
        token_id@.len() <= TOKEN_ID_SUFFIX_LEN ==> res matches Err(PoolError::InvalidParameter),
        token_id@.len() > TOKEN_ID_SUFFIX_LEN ==> res is Ok && res->Ok_0@ == ticker_of_issued(
            token_id@,
        ),
{
    if token_id.len() <= TOKEN_ID_SUFFIX_LEN {
        return Err(PoolError::InvalidParameter);
    }
    Ok(slice_bytes(token_id, 1, token_id.len() - TOKEN_ID_SUFFIX_LEN))
}

/// The ticker of the dollar.
pub fn dollar() -> (res: Vec<u8>)
    ensures
        res@ == dollar_ticker(),
{
    let res: Vec<u8> = vec![85u8, 83u8, 68u8];
    proof {
        assert(res@ =~= dollar_ticker());
    }
    res
}

} // verus!
