//! Stream cursors: `"<epochMillis>-<sequence>"`, read back by the segment
//! after the last `-`.
use vstd::prelude::*;

use crate::errors::{ApiError, RpcErrorCode};
use crate::text::{all_digits, decimal, is_ascii_digit, lemma_decimal_digits, lemma_parse_decimal, parse_u64, parse_u64_str, push_decimal};

verus! {

/// The position of the last `-` in `s`, or -1 when there is none.
pub open spec fn last_dash(s: Seq<char>) -> int
    decreases s.len(),
{
    if s.len() == 0 {
        -1
    } else if s.last() == '-' {
        s.len() - 1
    } else {
        last_dash(s.drop_last())
    }
}

/// The sequence number that a cursor names, if it is well formed.
pub open spec fn cursor_seq(s: Seq<char>) -> Option<u64> {
    let k = last_dash(s);
    if k < 0 {
        None
    } else {
        parse_u64(s.subrange(k + 1, s.len() as int))
    }
}

/// The cursor for sequence `seq` minted at time `millis`.
pub open spec fn cursor_text(millis: u64, seq: u64) -> Seq<char> {
    decimal(millis as nat) + "-"@ + decimal(seq as nat)
}

proof fn lemma_last_dash_bounds(s: Seq<char>)
    ensures
        -1 <= last_dash(s) < s.len(),
        last_dash(s) >= 0 ==> s[last_dash(s)] == '-',
        forall|i: int| last_dash(s) < i < s.len() ==> s[i] != '-',
    decreases s.len(),
{
    if s.len() > 0 && s.last() != '-' {
        lemma_last_dash_bounds(s.drop_last());
        assert forall|i: int| last_dash(s) < i < s.len() implies s[i] != '-' by {
            if i < s.len() - 1 {
                assert(s[i] == s.drop_last()[i]);
            }
        }
    }
}

proof fn lemma_last_dash_append_digits(a: Seq<char>, d: Seq<char>)
    requires
        all_digits(d),
    ensures
        last_dash(a.push('-') + d) == a.len(),
    decreases d.len(),
{
    if d.len() == 0 {
        assert(a.push('-') + d =~= a.push('-'));
    } else {
        let s = a.push('-') + d;
        assert(s.drop_last() =~= a.push('-') + d.drop_last());
        assert(is_ascii_digit(d.last()));
        assert(s.last() == d.last());
        lemma_last_dash_append_digits(a, d.drop_last());
    }
}

/// A minted cursor reads back as the sequence it was minted for.
pub proof fn lemma_cursor_round_trip(millis: u64, seq: u64)
    ensures
        cursor_seq(cursor_text(millis, seq)) == Some(seq),
{
    let a = decimal(millis as nat);
    let d = decimal(seq as nat);
    lemma_decimal_digits(seq as nat);
    lemma_last_dash_append_digits(a, d);
    let s = cursor_text(millis, seq);
    reveal_strlit("-");
    assert(s =~= a.push('-') + d);
    assert(s.subrange(a.len() as int + 1, s.len() as int) =~= d);
    lemma_parse_decimal(seq);
}

/// The cursor text for `seq` at time `millis`.
pub fn format_cursor(millis: u64, seq: u64) -> (r: String)
    ensures
        r@ == cursor_text(millis, seq),
{
    let mut r = String::new();
    push_decimal(&mut r, millis);
    r.append("-");
    push_decimal(&mut r, seq);
    assert(r@ =~= cursor_text(millis, seq));
    r
}

fn invalid_cursor(cursor: &str) -> (r: ApiError)
    ensures
        r.has_code(RpcErrorCode::InvalidParams),
        r.detail_text("cursor"@) == Some(cursor@),
{
    ApiError::invalid_params("cursor must match '<epochMillis>-<sequence>' format".to_owned()).with_text(
        "cursor",
        cursor,
    )
}

/// The sequence number of a cursor; a malformed cursor is invalid-params.
pub fn cursor_sequence(cursor: &str) -> (r: Result<u64, ApiError>)
    ensures
        r matches Ok(n) ==> cursor_seq(cursor@) == Some(n),
        r matches Err(e) ==> cursor_seq(cursor@) is None && e.has_code(RpcErrorCode::InvalidParams),
{
    proof {
        lemma_last_dash_bounds(cursor@);
    }
    let n = cursor.unicode_len();
    let mut i: usize = n;
    assert(cursor@.subrange(0, n as int) =~= cursor@);
    while i > 0 && cursor.get_char(i - 1) != '-'
        invariant
            n == cursor@.len(),
            0 <= i <= n,
            last_dash(cursor@) == last_dash(cursor@.subrange(0, i as int)),
        decreases i,
    {
        proof {
            let t = cursor@.subrange(0, i as int);
            assert(t.drop_last() =~= cursor@.subrange(0, i - 1));
        }
        i = i - 1;
    }
    if i == 0 {
        proof {
            assert(cursor@.subrange(0, 0) =~= Seq::<char>::empty());
        }
        return Err(invalid_cursor(cursor));
    }
    proof {
        let t = cursor@.subrange(0, i as int);
        assert(t.last() == '-');
        assert(last_dash(cursor@) == i - 1);
    }
    let tail = cursor.substring_char(i, n);
    match parse_u64_str(tail) {
        Some(v) => Ok(v),
        None => Err(invalid_cursor(cursor)),
    }
}

/// Checks that a cursor is well formed.
pub fn validate_cursor(cursor: &str) -> (r: Result<(), ApiError>)
    ensures
        r is Ok <==> cursor_seq(cursor@) is Some,
        r matches Err(e) ==> e.has_code(RpcErrorCode::InvalidParams),
{
    let _ = cursor_sequence(cursor)?;
    Ok(())
}

/// Whether `candidate` names an earlier sequence than `current`.
pub fn cursor_is_older(candidate: &str, current: &str) -> (r: Result<bool, ApiError>)
    ensures
        r matches Ok(b) ==> cursor_seq(candidate@) is Some && cursor_seq(current@) is Some && b == (
        cursor_seq(candidate@).unwrap() < cursor_seq(current@).unwrap()),
        r is Err ==> cursor_seq(candidate@) is None || cursor_seq(current@) is None,
        r matches Err(e) ==> e.has_code(RpcErrorCode::InvalidParams),
{
    let a = cursor_sequence(candidate)?;
    let b = cursor_sequence(current)?;
    Ok(a < b)
}

} // verus!
