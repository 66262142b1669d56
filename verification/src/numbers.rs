//! Decimal parsing and formatting of attribute values.
//!
//! Attribute files publish integers as decimal text; writes send the
//! canonical decimal form back.  Parsing accepts an optional sign followed
//! by one or more digits, exactly the texts the kernel emits.

use vstd::prelude::*;

verus! {

/// `c` is a decimal digit.
pub open spec fn is_digit_char(c: char) -> bool {
    '0' <= c && c <= '9'
}

/// Numeric value of a digit character.
pub open spec fn digit_val(c: char) -> int {
    c as int - '0' as int
}

/// Every character of `s` is a decimal digit.
pub open spec fn all_digits(s: Seq<char>) -> bool {
    forall|k: int| 0 <= k < s.len() ==> is_digit_char(s[k])
}

/// Value of a digit string, most significant digit first.
pub open spec fn digits_val(s: Seq<char>) -> int
    decreases s.len(),
{
    if s.len() == 0 {
        0
    } else {
        digits_val(s.drop_last()) * 10 + digit_val(s.last())
    }
}

/// The digit part of a signed decimal text.
pub open spec fn int_body(s: Seq<char>) -> Seq<char> {
    if s.len() > 0 && (s[0] == '+' || s[0] == '-') {
        s.skip(1)
    } else {
        s
    }
}

/// The text carries a minus sign.
pub open spec fn int_negative(s: Seq<char>) -> bool {
    s.len() > 0 && s[0] == '-'
}

/// `s` is a decimal text whose value fits in an `i32`.
pub open spec fn valid_i32_text(s: Seq<char>) -> bool {
    let b = int_body(s);
    b.len() > 0 && all_digits(b) && (if int_negative(s) {
        digits_val(b) <= 0x8000_0000
    } else {
        digits_val(b) <= 0x7fff_ffff
    })
}

/// The value denoted by a valid decimal text.
pub open spec fn i32_of_text(s: Seq<char>) -> int {
    if int_negative(s) {
        -digits_val(int_body(s))
    } else {
        digits_val(int_body(s))
    }
}

proof fn lemma_digits_val_nonneg(s: Seq<char>)
    requires
        all_digits(s),
    ensures
        digits_val(s) >= 0,
    decreases s.len(),
{
    if s.len() > 0 {
        lemma_digits_val_nonneg(s.drop_last());
    }
}

proof fn lemma_digits_val_mono(s: Seq<char>, m: int)
    requires
        all_digits(s),
        0 <= m <= s.len(),
    ensures
        digits_val(s) >= digits_val(s.take(m)),
    decreases s.len() - m,
{
    if m < s.len() {
        let t = s.take(m + 1);
        assert(t.drop_last() =~= s.take(m));
        assert(all_digits(t.drop_last()));
        lemma_digits_val_nonneg(t.drop_last());
        assert(digits_val(t) == digits_val(s.take(m)) * 10 + digit_val(s[m]));
        assert(digits_val(t) >= digits_val(s.take(m)));
        lemma_digits_val_mono(s, m + 1);
        assert(s.take(s.len() as int) =~= s);
    } else {
        assert(s.take(m) =~= s);
    }
}

/// Parses a decimal text into an `i32`.  Succeeds exactly on the texts
/// that [`valid_i32_text`] admits and returns their value; anything else
/// is a parse error.
pub fn parse_i32(s: &str) -> (r: Result<i32, String>)
    ensures
        valid_i32_text(s@) ==> (r matches Ok(v) && v == i32_of_text(s@)),
        !valid_i32_text(s@) ==> (r matches Err(m) && m@ == "invalid decimal text"@),
{
    let len = s.unicode_len();
    let mut start: usize = 0;
    let mut neg: bool = false;
    if len > 0 {
        let c0 = s.get_char(0);
        if c0 == '+' {
            start = 1;
        } else if c0 == '-' {
            start = 1;
            neg = true;
        }
    }
    if start >= len {
        assert(int_body(s@).len() == 0);
        return Err(String::from_str("invalid decimal text"));
    }
    let ghost body = int_body(s@);
    proof {
        assert(body =~= s@.skip(start as int));
    }
    let mut acc: u64 = 0;
    let mut j: usize = start;
    while j < len
        invariant
            len == s@.len(),
            start <= j <= len,
            body == s@.skip(start as int),
            body == int_body(s@),
            neg == int_negative(s@),
            body.len() == len - start,
            body.len() >= 1,
            forall|k: int| start <= k < j ==> is_digit_char(s@[k]),
            acc == digits_val(body.take(j - start)),
            acc <= 0x8000_0000,
        decreases len - j,
    {
        let c = s.get_char(j);
        if c < '0' || c > '9' {
            assert(body[j - start] == s@[j as int]);
            assert(!is_digit_char(body[j - start]));
            assert(!valid_i32_text(s@));
            return Err(String::from_str("invalid decimal text"));
        }
        let d: u32 = (c as u32) - 48;
        let next: u64 = acc * 10 + (d as u64);
        proof {
            let p = body.take(j + 1 - start);
            assert(p.drop_last() =~= body.take(j - start));
            assert(p.last() == s@[j as int]);
            assert(digits_val(p) == acc * 10 + digit_val(s@[j as int]));
        }
        if next > 0x8000_0000 {
            proof {
                if valid_i32_text(s@) {
                    lemma_digits_val_mono(body, j + 1 - start);
                    assert(digits_val(body) >= digits_val(body.take(j + 1 - start)));
                }
            }
            return Err(String::from_str("invalid decimal text"));
        }
        acc = next;
        j = j + 1;
    }
    proof {
        assert(body.take(len - start) =~= body);
        assert(all_digits(body));
    }
    if neg {
        let v: i64 = -(acc as i64);
        assert(-0x8000_0000 <= v <= 0);
        assert(valid_i32_text(s@));
        assert(v as i32 == i32_of_text(s@));
        Ok(v as i32)
    } else {
        if acc > 0x7fff_ffff {
            assert(!valid_i32_text(s@));
            return Err(String::from_str("invalid decimal text"));
        }
        Ok(acc as i32)
    }
}

/// The character for a digit value.
pub open spec fn digit_char(d: int) -> char {
    if d == 0 {
        '0'
    } else if d == 1 {
        '1'
    } else if d == 2 {
        '2'
    } else if d == 3 {
        '3'
    } else if d == 4 {
        '4'
    } else if d == 5 {
        '5'
    } else if d == 6 {
        '6'
    } else if d == 7 {
        '7'
    } else if d == 8 {
        '8'
    } else {
        '9'
    }
}

/// Canonical decimal digits of a non-negative value, no leading zeros.
pub open spec fn dec_digits(n: int) -> Seq<char>
    decreases n,
{
    if n < 10 {
        seq![digit_char(n)]
    } else {
        dec_digits(n / 10).push(digit_char(n % 10))
    }
}

/// Canonical decimal text of a signed value.
pub open spec fn i32_text(v: int) -> Seq<char> {
    if v < 0 {
        seq!['-'] + dec_digits(-v)
    } else {
        dec_digits(v)
    }
}

fn digit_str(d: u32) -> (r: &'static str)
    requires
        d <= 9,
    ensures
        r@ == seq![digit_char(d as int)],
{
    proof {
        reveal_strlit("0");
        reveal_strlit("1");
        reveal_strlit("2");
        reveal_strlit("3");
        reveal_strlit("4");
        reveal_strlit("5");
        reveal_strlit("6");
        reveal_strlit("7");
        reveal_strlit("8");
        reveal_strlit("9");
    }
    let r = if d == 0 {
        "0"
    } else if d == 1 {
        "1"
    } else if d == 2 {
        "2"
    } else if d == 3 {
        "3"
    } else if d == 4 {
        "4"
    } else if d == 5 {
        "5"
    } else if d == 6 {
        "6"
    } else if d == 7 {
        "7"
    } else if d == 8 {
        "8"
    } else {
        "9"
    };
    assert(r@ =~= seq![digit_char(d as int)]);
    r
}

/// The digit characters of `ds` in reverse order.
spec fn rev_digit_chars(ds: Seq<u32>) -> Seq<char> {
    Seq::new(ds.len(), |i: int| digit_char(ds[ds.len() - 1 - i] as int))
}

/// Formats a non-negative value as canonical decimal text.
pub fn format_u32_dec(n: u32) -> (r: String)
    ensures
        r@ == dec_digits(n as int),
{
    let mut ds: Vec<u32> = Vec::new();
    let mut m: u32 = n;
    if m == 0 {
        let r = String::from_str(digit_str(0));
        assert(r@ =~= dec_digits(0));
        return r;
    }
    while m > 0
        invariant
            m >= 0,
            m > 0 ==> dec_digits(n as int) == dec_digits(m as int) + rev_digit_chars(ds@),
            m == 0 ==> dec_digits(n as int) == rev_digit_chars(ds@),
            forall|k: int| 0 <= k < ds@.len() ==> ds@[k] <= 9,
        decreases m,
    {
        let d: u32 = m % 10;
        let next: u32 = m / 10;
        proof {
            if next > 0 {
                assert(dec_digits(m as int) == dec_digits(next as int).push(digit_char(d as int)));
                assert(dec_digits(next as int) + rev_digit_chars(ds@.push(d)) =~= dec_digits(
                    m as int,
                ) + rev_digit_chars(ds@));
            } else {
                assert(m < 10);
                assert(dec_digits(m as int) == seq![digit_char(d as int)]);
                assert(rev_digit_chars(ds@.push(d)) =~= dec_digits(m as int) + rev_digit_chars(
                    ds@,
                ));
            }
        }
        ds.push(d);
        m = next;
    }
    let mut out = String::new();
    let mut idx: usize = ds.len();
    while idx > 0
        invariant
            0 <= idx <= ds@.len(),
            forall|k: int| 0 <= k < ds@.len() ==> ds@[k] <= 9,
            dec_digits(n as int) == rev_digit_chars(ds@),
            out@ == rev_digit_chars(ds@).take(ds@.len() - idx),
        decreases idx,
    {
        let d = ds[idx - 1];
        out.append(digit_str(d));
        proof {
            assert(rev_digit_chars(ds@).take(ds@.len() - (idx - 1)) =~= rev_digit_chars(
                ds@,
            ).take(ds@.len() - idx).push(digit_char(ds@[idx - 1] as int)));
        }
        idx = idx - 1;
    }
    proof {
        assert(rev_digit_chars(ds@).take(ds@.len() as int) =~= rev_digit_chars(ds@));
    }
    out
}

/// Formats a signed value as canonical decimal text, the form a typed
/// write sends to an attribute file.
pub fn format_i32(v: i32) -> (r: String)
    ensures
        r@ == i32_text(v as int),
{
    if v >= 0 {
        format_u32_dec(v as u32)
    } else {
        let mag: u32 = (-(v as i64)) as u32;
        let digits = format_u32_dec(mag);
        let mut out = String::from_str("-");
        proof {
            reveal_strlit("-");
        }
        out.append(digits.as_str());
        assert(out@ =~= i32_text(v as int));
        out
    }
}

proof fn lemma_dec_digits_all_digits(n: int)
    requires
        n >= 0,
    ensures
        all_digits(dec_digits(n)),
        dec_digits(n).len() > 0,
        digits_val(dec_digits(n)) == n,
    decreases n,
{
    if n < 10 {
        assert(digits_val(dec_digits(n)) == digits_val(seq![digit_char(n)].drop_last()) * 10
            + digit_val(digit_char(n)));
        assert(seq![digit_char(n)].drop_last() =~= Seq::<char>::empty());
    } else {
        lemma_dec_digits_all_digits(n / 10);
        let s = dec_digits(n);
        assert(s.drop_last() =~= dec_digits(n / 10));
        assert(digits_val(s) == (n / 10) * 10 + digit_val(digit_char(n % 10)));
    }
}

/// The set/get round trip: writing a value's canonical text and parsing
/// what a subsequent read returns yields the value itself, for every
/// `i32`.  Trailing-whitespace trimming leaves the canonical text intact.
pub proof fn lemma_format_parse_roundtrip(v: int)
    requires
        -0x8000_0000 <= v <= 0x7fff_ffff,
    ensures
        valid_i32_text(i32_text(v)),
        i32_of_text(i32_text(v)) == v,
        crate::text::trim_end_seq(i32_text(v)) == i32_text(v),
{
    let t = i32_text(v);
    if v < 0 {
        lemma_dec_digits_all_digits(-v);
        assert(t[0] == '-');
        assert(int_body(t) =~= dec_digits(-v));
        assert(int_negative(t));
    } else {
        lemma_dec_digits_all_digits(v);
        assert(int_body(t) == t);
        assert(is_digit_char(t[0]));
        assert(!int_negative(t));
    }
    assert(!crate::text::is_space_char(t.last()));
    assert(crate::text::trim_end_seq(t) =~= t);
}

} // verus!
