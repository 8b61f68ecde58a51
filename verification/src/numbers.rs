//! Decimal text for unsigned 64-bit integers: rendering an id for JSON and
//! log output, and reading an id back from a path segment.

use vstd::prelude::*;
use vstd::string::StrSliceExecFns;
use vstd::string::StringExecFns;

verus! {

/// The character for a single decimal digit value.
pub open spec fn digit_char(d: int) -> char {
    if d == 0 {
        '0'
    } else if d == 1 {
        '1'
    } else if d == 2 {
        '2'
    } else if d == 3 {
        '3'
    } else if d == 4 {
        '4'
    } else if d == 5 {
        '5'
    } else if d == 6 {
        '6'
    } else if d == 7 {
        '7'
    } else if d == 8 {
        '8'
    } else {
        '9'
    }
}

/// The decimal representation of a natural number, most significant digit
/// first, without leading zeros (a lone zero for 0).
pub open spec fn dec_str(n: nat) -> Seq<char>
    decreases n,
{
    if n < 10 {
        seq![digit_char(n as int)]
    } else {
        dec_str(n / 10) + seq![digit_char((n % 10) as int)]
    }
}

/// Whether a character is a decimal digit.
pub open spec fn is_digit_char(c: char) -> bool {
    48 <= c as int && c as int <= 57
}

/// The digit's numeric value.
pub open spec fn digit_val(c: char) -> int {
    c as int - 48
}

/// The numeric value of digit text, most significant digit first.
pub open spec fn dec_val(s: Seq<char>) -> int
    decreases s.len(),
{
    if s.len() == 0 {
        0
    } else {
        dec_val(s.drop_last()) * 10 + digit_val(s.last())
    }
}

/// The digits of an unsigned-integer literal, read as `str::parse::<u64>`
/// reads it: an optional leading '+' sign, then the digits.
pub open spec fn digits_part(s: Seq<char>) -> Seq<char> {
    if s.len() > 0 && s[0] == '+' {
        s.drop_first()
    } else {
        s
    }
}

/// Whether text denotes a u64: after an optional '+', at least one
/// character, all of them digits, and a value that fits in 64 bits.
pub open spec fn is_u64_text(s: Seq<char>) -> bool {
    &&& digits_part(s).len() > 0
    &&& forall|i: int| 0 <= i < digits_part(s).len() ==> is_digit_char(#[trigger] digits_part(s)[i])
    &&& dec_val(digits_part(s)) <= u64::MAX
}

/// The value of digit text is never negative.
pub proof fn lemma_dec_val_nonneg(s: Seq<char>)
    requires
        forall|i: int| 0 <= i < s.len() ==> is_digit_char(#[trigger] s[i]),
    ensures
        dec_val(s) >= 0,
    decreases s.len(),
{
    if s.len() > 0 {
        lemma_dec_val_nonneg(s.drop_last());
    }
}

/// Every prefix of digit text is worth no more than the whole.
proof fn lemma_dec_val_prefix(s: Seq<char>, k: int)
    requires
        0 <= k <= s.len(),
        forall|i: int| 0 <= i < s.len() ==> is_digit_char(#[trigger] s[i]),
    ensures
        dec_val(s.subrange(0, k)) <= dec_val(s),
    decreases s.len() - k,
{
    if k == s.len() {
        assert(s.subrange(0, k) =~= s);
    } else {
        let p = s.subrange(0, k);
        let q = s.subrange(0, k + 1);
        assert(q.drop_last() =~= p);
        lemma_dec_val_nonneg(p);
        assert(dec_val(q) == dec_val(p) * 10 + digit_val(q.last()));
        assert(dec_val(p) * 10 >= dec_val(p)) by (nonlinear_arith)
            requires
                dec_val(p) >= 0,
        ;
        lemma_dec_val_prefix(s, k + 1);
    }
}

/// The single decimal digit as text.
pub fn digit_str(d: u64) -> (r: &'static str)
    requires
        d < 10,
    ensures
        r@ == seq![digit_char(d as int)],
{
    let r = match d {
        0 => "0",
        1 => "1",
        2 => "2",
        3 => "3",
        4 => "4",
        5 => "5",
        6 => "6",
        7 => "7",
        8 => "8",
        _ => "9",
    };
    proof {
        reveal_strlit("0");
        reveal_strlit("1");
        reveal_strlit("2");
        reveal_strlit("3");
        reveal_strlit("4");
        reveal_strlit("5");
        reveal_strlit("6");
        reveal_strlit("7");
        reveal_strlit("8");
        reveal_strlit("9");
        assert(r@ =~= seq![digit_char(d as int)]);
    }
    r
}

/// Renders a u64 in decimal, without leading zeros.
pub fn u64_to_dec(n: u64) -> (r: String)
    ensures
        r@ == dec_str(n as nat),
    decreases n,
{
    if n < 10 {
        String::from_str(digit_str(n))
    } else {
        let mut s = u64_to_dec(n / 10);
        s.append(digit_str(n % 10));
        proof {
            assert(s@ =~= dec_str(n as nat));
        }
        s
    }
}

/// Reads a u64 from text, as `str::parse::<u64>` would: `Some` exactly on
/// text that denotes a value fitting in 64 bits, and then that value.
pub fn parse_u64(s: &str) -> (r: Option<u64>)
    ensures
        is_u64_text(s@) ==> (r matches Some(n) && n as int == dec_val(digits_part(s@))),
        !is_u64_text(s@) ==> r is None,
{
    let len = s.unicode_len();
    let mut i: usize = 0;
    if len > 0 && s.get_char(0) == '+' {
        i = 1;
    }
    let ghost start = i as int;
    let ghost digits = digits_part(s@);
    proof {
        assert(digits =~= s@.subrange(start, len as int));
    }
    if i == len {
        return None;
    }
    let mut acc: u64 = 0;
    while i < len
        invariant
            0 <= start <= i <= len,
            len == s@.len(),
            digits == digits_part(s@),
            digits =~= s@.subrange(start, len as int),
            forall|k: int| start <= k < i ==> is_digit_char(#[trigger] s@[k]),
            acc as int == dec_val(s@.subrange(start, i as int)),
        decreases len - i,
    {
        let c = s.get_char(i);
        let v: u32 = c as u32;
        proof {
            assert(digits.len() == len - start);
            assert(digits[i - start] == s@.subrange(start, len as int)[i - start]);
            assert(digits[i - start] == s@[i as int]);
        }
        if v < 48 || v > 57 {
            proof {
                assert(!is_digit_char(digits[i - start]));
            }
            return None;
        }
        let d: u64 = (v - 48) as u64;
        let ghost pre = s@.subrange(start, i as int);
        let ghost cur = s@.subrange(start, i + 1);
        proof {
            assert(cur.drop_last() =~= pre);
            assert(dec_val(cur) == dec_val(pre) * 10 + d);
        }
        if acc > (u64::MAX - d) / 10 {
            proof {
                let m = (u64::MAX - d) as int;
                assert(m == 10 * (m / 10) + m % 10 && 0 <= m % 10 < 10);
                assert(acc as int * 10 > m) by (nonlinear_arith)
                    requires
                        acc as int > m / 10,
                        m == 10 * (m / 10) + m % 10,
                        0 <= m % 10 < 10,
                ;
                assert(dec_val(cur) > u64::MAX);
                if forall|k: int| 0 <= k < digits.len() ==> is_digit_char(#[trigger] digits[k]) {
                    assert(cur =~= digits.subrange(0, i + 1 - start));
                    lemma_dec_val_prefix(digits, i + 1 - start);
                    assert(dec_val(digits) > u64::MAX);
                }
            }
            return None;
        }
        acc = acc * 10 + d;
        i = i + 1;
    }
    proof {
        assert(s@.subrange(start, len as int) =~= digits);
        assert(dec_val(digits) == acc as int);
        lemma_dec_val_nonneg(digits);
    }
    Some(acc)
}

} // verus!
