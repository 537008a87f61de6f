use vstd::prelude::*;
use vstd::string::StringSliceAdditionalSpecFns;
use vstd::utf8::encode_utf8;
use crate::indexer::error::Error;
use crate::indexer::pda::{
    derive_program_address, pubkey_from_str, spec_derived_address, spec_pubkey_from_str,
};
use crate::indexer::types::{TokenBalance, WebhookTransactionPayload};

verus! {

/// Whether two byte strings are equal over their full length.
pub fn bytes_eq(a: &[u8], b: &[u8]) -> (r: bool)
    ensures
        r == (a@ == b@),
{
    if a.len() != b.len() {
        proof {
            assert(a@ != b@);
        }
        return false;
    }
    let n = a.len();
    let mut i: usize = 0;
    while i < n
        invariant
            n == a@.len() == b@.len(),
            i <= n,
            forall|j: int| 0 <= j < i ==> a@[j] == b@[j],
        decreases n - i,
    {
        if a[i] != b[i] {
            return false;
        }
        i += 1;
    }
    proof {
        assert(a@ =~= b@);
    }
    true
}

/// An owned copy of a byte string.
pub fn clone_bytes(v: &Vec<u8>) -> (r: Vec<u8>)
    ensures
        r@ == v@,
{
    let mut r: Vec<u8> = Vec::new();
    r.extend_from_slice(v.as_slice());
    proof {
        assert(r@ =~= v@);
    }
    r
}

/// Whether two addresses agree on their first 32 bytes, the full width of
/// a program identity.
pub fn cmp_pubkey(a: &[u8], b: &[u8]) -> (r: bool)
    requires
        a@.len() >= 32,
        b@.len() >= 32,
    ensures
        r == (a@.subrange(0, 32) == b@.subrange(0, 32)),
{
    let mut i: usize = 0;
    while i < 32
        invariant
            a@.len() >= 32,
            b@.len() >= 32,
            i <= 32,
            forall|j: int| 0 <= j < i ==> a@[j] == b@[j],
        decreases 32 - i,
    {
        if a[i] != b[i] {
            proof {
                assert(a@.subrange(0, 32)[i as int] != b@.subrange(0, 32)[i as int]);
            }
            return false;
        }
        i += 1;
    }
    proof {
        assert(a@.subrange(0, 32) =~= b@.subrange(0, 32));
    }
    true
}

/// A decimal digit byte.
pub open spec fn is_digit(b: u8) -> bool {
    48 <= b <= 57
}

/// Every byte is a decimal digit.
pub open spec fn all_digits(s: Seq<u8>) -> bool {
    forall|i: int| 0 <= i < s.len() ==> is_digit(#[trigger] s[i])
}

/// Value of a digit string, most significant digit first.
pub open spec fn digits_val(s: Seq<u8>) -> int
    decreases s.len(),
{
    if s.len() == 0 {
        0
    } else {
        digits_val(s.drop_last()) * 10 + (s.last() - 48)
    }
}

/// Value of the digit part of a textual integer with the sign applied:
/// defined when there is at least one digit, nothing else, and the signed
/// value fits 64 signed bits.
pub open spec fn spec_parse_digits(ds: Seq<u8>, neg: bool) -> Option<i64> {
    if ds.len() == 0 || !all_digits(ds) {
        None
    } else {
        let v: int = if neg {
            -digits_val(ds)
        } else {
            digits_val(ds)
        };
        if v < i64::MIN as int || v > i64::MAX as int {
            None
        } else {
            Some(v as i64)
        }
    }
}

/// Value of parsing a textual integer: an optional sign (`-` or `+`)
/// followed by one or more decimal digits, rejected when the value does
/// not fit 64 signed bits.
pub open spec fn spec_parse_i64(s: Seq<u8>) -> Option<i64> {
    if s.len() == 0 {
        None
    } else if s[0] == 45 {
        spec_parse_digits(s.drop_first(), true)
    } else if s[0] == 43 {
        spec_parse_digits(s.drop_first(), false)
    } else {
        spec_parse_digits(s, false)
    }
}

proof fn lemma_digits_val_nonneg(s: Seq<u8>)
    requires
        all_digits(s),
    ensures
        digits_val(s) >= 0,
    decreases s.len(),
{
    if s.len() > 0 {
        assert(all_digits(s.drop_last()));
        lemma_digits_val_nonneg(s.drop_last());
        assert(is_digit(s[s.len() - 1]));
    }
}

proof fn lemma_digits_val_prefix(s: Seq<u8>, j: int)
    requires
        all_digits(s),
        0 <= j <= s.len(),
    ensures
        digits_val(s) >= digits_val(s.take(j)),
    decreases s.len() - j,
{
    if j == s.len() {
        assert(s.take(j) =~= s);
    } else {
        lemma_digits_val_prefix(s, j + 1);
        assert(s.take(j + 1).drop_last() =~= s.take(j));
        assert(s.take(j + 1).last() == s[j]);
        assert(all_digits(s.take(j)));
        lemma_digits_val_nonneg(s.take(j));
        assert(is_digit(s[j]));
    }
}

/// Parses a textual integer, exactly as [`spec_parse_i64`] states: an
/// optional sign, then decimal digits, within the 64-bit signed range.
pub fn parse_i64(s: &[u8]) -> (r: Option<i64>)
    ensures
        r == spec_parse_i64(s@),
{
    if s.len() == 0 {
        return None;
    }
    let first = s[0];
    let neg: bool = first == 45;
    let start: usize = if first == 45 || first == 43 {
        1
    } else {
        0
    };
    let ghost ds = s@.skip(start as int);
    proof {
        if start == 1 {
            assert(ds =~= s@.drop_first());
        } else {
            assert(ds =~= s@);
        }
    }
    let n = s.len();
    if n == start {
        return None;
    }
    let mut acc: u64 = 0;
    let mut i: usize = start;
    while i < n
        invariant
            start <= i <= n,
            n == s@.len(),
            n > start,
            start <= 1,
            ds == s@.skip(start as int),
            neg == (s@[0] == 45),
            (start == 1) == (s@[0] == 45 || s@[0] == 43),
            all_digits(s@.subrange(start as int, i as int)),
            acc == digits_val(s@.subrange(start as int, i as int)),
            acc <= 9223372036854775808u64,
        decreases n - i,
    {
        let b = s[i];
        if b < 48 || b > 57 {
            proof {
                if start == 1 {
                    assert(ds =~= s@.drop_first());
                } else {
                    assert(ds =~= s@);
                }
                assert(ds[i - start] == s@[i as int]);
                assert(!all_digits(ds));
            }
            return None;
        }
        let d: u64 = (b - 48) as u64;
        let ghost prefix = s@.subrange(start as int, i as int);
        let ghost prefix_next = s@.subrange(start as int, i as int + 1);
        proof {
            assert(prefix_next.drop_last() =~= prefix);
            assert(prefix_next.last() == s@[i as int]);
            assert(digits_val(prefix_next) == acc * 10 + d);
            assert(all_digits(prefix_next));
        }
        if acc > 922337203685477580u64 || (acc == 922337203685477580u64 && d > 8) {
            proof {
                if start == 1 {
                    assert(ds =~= s@.drop_first());
                } else {
                    assert(ds =~= s@);
                }
                assert(digits_val(prefix_next) > 9223372036854775808int);
                assert(prefix_next =~= ds.take(i as int + 1 - start));
                if all_digits(ds) {
                    lemma_digits_val_prefix(ds, i as int + 1 - start);
                    assert(digits_val(ds) > 9223372036854775808int);
                }
            }
            return None;
        }
        acc = acc * 10 + d;
        i += 1;
    }
    proof {
        if start == 1 {
            assert(ds =~= s@.drop_first());
        } else {
            assert(ds =~= s@);
        }
        assert(s@.subrange(start as int, n as int) =~= ds);
        assert(acc == digits_val(ds));
        assert(all_digits(ds));
        assert(ds.len() > 0);
    }
    if neg {
        if acc == 9223372036854775808u64 {
            Some(i64::MIN)
        } else {
            Some(-(acc as i64))
        }
    } else {
        if acc >= 9223372036854775808u64 {
            None
        } else {
            Some(acc as i64)
        }
    }
}

/// One token-balance record matches the target account when its token
/// program parses as an address, the token account derived from (mint,
/// owner, token program) exists, and those 32 bytes equal the target's
/// first 32 bytes, byte for byte.
pub open spec fn spec_record_matches(target: Seq<u8>, b: TokenBalance) -> bool {
    match spec_pubkey_from_str(b.program_id@) {
        None => false,
        Some(prog) => match spec_derived_address(encode_utf8(b.mint@), encode_utf8(b.owner@), prog) {
            None => false,
            Some(token_account) => target.len() >= 32 && token_account == target.subrange(0, 32),
        },
    }
}

/// Index of the first balance record matching the target, if any.
pub open spec fn spec_first_matching_balance(bs: Seq<TokenBalance>, target: Seq<u8>) -> Option<int>
    decreases bs.len(),
{
    if bs.len() == 0 {
        None
    } else if spec_record_matches(target, bs[0]) {
        Some(0int)
    } else {
        match spec_first_matching_balance(bs.drop_first(), target) {
            None => None,
            Some(i) => Some(i + 1),
        }
    }
}

/// Index of the first balance record at the given account position.
pub open spec fn spec_first_balance_with_index(bs: Seq<TokenBalance>, idx: usize) -> Option<int>
    decreases bs.len(),
{
    if bs.len() == 0 {
        None
    } else if bs[0].account_index == idx {
        Some(0int)
    } else {
        match spec_first_balance_with_index(bs.drop_first(), idx) {
            None => None,
            Some(i) => Some(i + 1),
        }
    }
}

proof fn lemma_first_matching_balance_from(bs: Seq<TokenBalance>, target: Seq<u8>, i: int)
    requires
        0 <= i <= bs.len(),
        forall|j: int| 0 <= j < i ==> !spec_record_matches(target, #[trigger] bs[j]),
    ensures
        i < bs.len() && spec_record_matches(target, bs[i]) ==> spec_first_matching_balance(
            bs,
            target,
        ) == Some(i),
        i == bs.len() ==> spec_first_matching_balance(bs, target) is None,
    decreases i,
{
    if i > 0 {
        assert(!spec_record_matches(target, bs[0]));
        lemma_first_matching_balance_from(bs.drop_first(), target, i - 1);
    }
}

proof fn lemma_first_balance_with_index_from(bs: Seq<TokenBalance>, idx: usize, i: int)
    requires
        0 <= i <= bs.len(),
        forall|j: int| 0 <= j < i ==> (#[trigger] bs[j]).account_index != idx,
    ensures
        i < bs.len() && bs[i].account_index == idx ==> spec_first_balance_with_index(bs, idx)
            == Some(i),
        i == bs.len() ==> spec_first_balance_with_index(bs, idx) is None,
    decreases i,
{
    if i > 0 {
        assert(bs[0].account_index != idx);
        lemma_first_balance_with_index_from(bs.drop_first(), idx, i - 1);
    }
}

/// The token account expected for a balance record: the program-derived
/// address of (mint, owner) under the record's token program, `None` when
/// the token program does not parse as an address or no address can be
/// derived.
pub fn expected_token_account(b: &TokenBalance) -> (r: Option<Vec<u8>>)
    ensures
        ({
            match spec_pubkey_from_str(b.program_id@) {
                None => r is None,
                Some(prog) => match spec_derived_address(
                    encode_utf8(b.mint@),
                    encode_utf8(b.owner@),
                    prog,
                ) {
                    None => r is None,
                    Some(ta) => r matches Some(v) && v@ == ta && v@.len() == 32,
                },
            }
        }),
{
    match pubkey_from_str(b.program_id.as_str()) {
        None => None,
        Some(prog_bytes) => derive_program_address(
            b.mint.as_str().as_bytes(),
            b.owner.as_str().as_bytes(),
            &prog_bytes,
        ),
    }
}

/// Value of correlating one transaction against a target token account:
/// the first pre-balance record whose derived token account matches gives
/// the mint; the post record is found by the same stable account index,
/// never by value; both textual amounts must parse. Any failure is the
/// single failed-to-parse condition.
pub open spec fn spec_filter_target_token_data(target: Seq<u8>, tx: WebhookTransactionPayload) -> Result<
    (Seq<char>, i64, i64),
    Error,
> {
    match spec_first_matching_balance(tx.meta.pre_token_balances@, target) {
        None => Err(Error::FailedToParseInput),
        Some(i) => {
            let pre = tx.meta.pre_token_balances@[i];
            match spec_first_balance_with_index(tx.meta.post_token_balances@, pre.account_index) {
                None => Err(Error::FailedToParseInput),
                Some(j) => {
                    let post = tx.meta.post_token_balances@[j];
                    match spec_parse_i64(encode_utf8(pre.ui_token_amount.amount@)) {
                        None => Err(Error::FailedToParseInput),
                        Some(pre_amt) => match spec_parse_i64(
                            encode_utf8(post.ui_token_amount.amount@),
                        ) {
                            None => Err(Error::FailedToParseInput),
                            Some(post_amt) => Ok((pre.mint@, pre_amt, post_amt)),
                        },
                    }
                },
            }
        },
    }
}

/// Correlates a transaction with a target token account from its pre/post
/// balance snapshots alone: re-derives the expected token account from
/// (mint, owner, token program) and, on a byte-for-byte match, hands back
/// the mint and the parsed pre/post amounts.
pub fn filter_target_token_data_from_tx(
    target_token_account: &str,
    tx: &WebhookTransactionPayload,
) -> (r: Result<(String, i64, i64), Error>)
    ensures
        ({
            let s = spec_filter_target_token_data(target_token_account.spec_bytes(), *tx);
            match s {
                Err(e) => r matches Err(e2) && e2 == e,
                Ok(t) => r matches Ok(o) && o.0@ == t.0 && o.1 == t.1 && o.2 == t.2,
            }
        }),
{
    let ghost target_bytes = target_token_account.spec_bytes();
    let target_slice = target_token_account.as_bytes();
    let n = tx.meta.pre_token_balances.len();
    let mut i: usize = 0;
    let mut found = false;
    while i < n && !found
        invariant
            i <= n,
            n == tx.meta.pre_token_balances@.len(),
            target_bytes == target_token_account.spec_bytes(),
            target_slice@ == target_bytes,
            found ==> i < n && spec_record_matches(
                target_bytes,
                tx.meta.pre_token_balances@[i as int],
            ),
            forall|j: int| 0 <= j < i ==> !spec_record_matches(
                target_bytes,
                #[trigger] tx.meta.pre_token_balances@[j],
            ),
        decreases n - i + (if found { 0int } else { 1int }),
    {
        let b = &tx.meta.pre_token_balances[i];
        let ghost bg = tx.meta.pre_token_balances@[i as int];
        let mut matched = false;
        match expected_token_account(b) {
            None => {
                proof {
                    assert(!spec_record_matches(target_bytes, bg));
                }
            },
            Some(token_account) => {
                if target_slice.len() >= 32 {
                    if cmp_pubkey(token_account.as_slice(), target_slice) {
                        matched = true;
                        proof {
                            assert(token_account@.subrange(0, 32) =~= token_account@);
                            assert(spec_record_matches(target_bytes, bg));
                        }
                    } else {
                        proof {
                            assert(token_account@.subrange(0, 32) =~= token_account@);
                            assert(!spec_record_matches(target_bytes, bg));
                        }
                    }
                } else {
                    proof {
                        assert(target_bytes.len() < 32);
                        assert(!spec_record_matches(target_bytes, bg));
                    }
                }
            },
        }
        if matched {
            found = true;
        } else {
            i += 1;
        }
    }
    if !found {
        proof {
            lemma_first_matching_balance_from(tx.meta.pre_token_balances@, target_bytes, n as int);
        }
        return Err(Error::FailedToParseInput);
    }
    proof {
        lemma_first_matching_balance_from(tx.meta.pre_token_balances@, target_bytes, i as int);
    }
    let pre_token_balance = &tx.meta.pre_token_balances[i];
    let m = tx.meta.post_token_balances.len();
    let mut j: usize = 0;
    let mut found_post = false;
    while j < m && !found_post
        invariant
            j <= m,
            m == tx.meta.post_token_balances@.len(),
            found_post ==> j < m && tx.meta.post_token_balances@[j as int].account_index
                == pre_token_balance.account_index,
            forall|q: int| 0 <= q < j
                ==> (#[trigger] tx.meta.post_token_balances@[q]).account_index
                != pre_token_balance.account_index,
        decreases m - j + (if found_post { 0int } else { 1int }),
    {
        if tx.meta.post_token_balances[j].account_index == pre_token_balance.account_index {
            found_post = true;
        } else {
            j += 1;
        }
    }
    if !found_post {
        proof {
            lemma_first_balance_with_index_from(
                tx.meta.post_token_balances@,
                pre_token_balance.account_index,
                m as int,
            );
        }
        return Err(Error::FailedToParseInput);
    }
    proof {
        lemma_first_balance_with_index_from(
            tx.meta.post_token_balances@,
            pre_token_balance.account_index,
            j as int,
        );
    }
    let post_token_balance = &tx.meta.post_token_balances[j];
    let pre_token_amount = match parse_i64(pre_token_balance.ui_token_amount.amount.as_str().as_bytes()) {
        Some(v) => v,
        None => {
            return Err(Error::FailedToParseInput);
        },
    };
    let post_token_amount = match parse_i64(
        post_token_balance.ui_token_amount.amount.as_str().as_bytes(),
    ) {
        Some(v) => v,
        None => {
            return Err(Error::FailedToParseInput);
        },
    };
    Ok((pre_token_balance.mint.clone(), pre_token_amount, post_token_amount))
}

} // verus!
