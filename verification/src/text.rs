//! Character-level text utilities: digit handling, decimal rendering and
//! parsing of signed integers, ASCII case folding, and the conversions
//! between `&str` and the `Vec<char>` form that the engine works on.

use vstd::prelude::*;

use vstd::std_specs::iter::IteratorSpec;

verus! {

// ---------- character classes ----------

pub open spec fn is_digit(c: char) -> bool {
    '0' <= c && c <= '9'
}

pub open spec fn digit_val(c: char) -> int {
    c as int - '0' as int
}

/// ASCII lower-casing of a single character: `A`..`Z` map to `a`..`z`,
/// every other character is unchanged.
pub open spec fn ascii_lower_char(c: char) -> char {
    if 'A' <= c && c <= 'Z' {
        ((c as u8) + 32) as char
    } else {
        c
    }
}

/// Lower-case one character, for the ASCII range only.
pub fn lower_char(c: char) -> (r: char)
    ensures
        r == ascii_lower_char(c),
{
    if 'A' <= c && c <= 'Z' {
        ((c as u8) + 32) as char
    } else {
        c
    }
}

/// ASCII case-insensitive equality of two character sequences, as
/// `str::eq_ignore_ascii_case` defines it.
pub open spec fn eq_ignore_ascii(a: Seq<char>, b: Seq<char>) -> bool {
    a.len() == b.len() && (forall|i: int|
        0 <= i < a.len() ==> ascii_lower_char(a[i]) == ascii_lower_char(b[i]))
}

pub fn chars_eq_ignore_ascii(a: &Vec<char>, b: &Vec<char>) -> (r: bool)
    ensures
        r == eq_ignore_ascii(a@, b@),
{
    if a.len() != b.len() {
        return false;
    }
    let mut i: usize = 0;
    while i < a.len()
        invariant
            0 <= i <= a.len(),
            a.len() == b.len(),
            forall|j: int| 0 <= j < i ==> ascii_lower_char(a@[j]) == ascii_lower_char(b@[j]),
        decreases a.len() - i,
    {
        if lower_char(a[i]) != lower_char(b[i]) {
            return false;
        }
        i += 1;
    }
    true
}

/// Plain equality of two character sequences.
pub fn chars_eq(a: &Vec<char>, b: &Vec<char>) -> (r: bool)
    ensures
        r == (a@ == b@),
{
    if a.len() != b.len() {
        proof {
            assert(a@.len() != b@.len());
        }
        return false;
    }
    let mut i: usize = 0;
    while i < a.len()
        invariant
            0 <= i <= a.len(),
            a.len() == b.len(),
            forall|j: int| 0 <= j < i ==> a@[j] == b@[j],
        decreases a.len() - i,
    {
        if a[i] != b[i] {
            return false;
        }
        i += 1;
    }
    proof {
        assert(a@ =~= b@);
    }
    true
}

// ---------- unsigned decimal numerals ----------

/// The numeric value of a sequence of decimal digits (most significant first).
pub open spec fn digits_val(s: Seq<char>) -> int
    decreases s.len(),
{
    if s.len() == 0 {
        0
    } else {
        digits_val(s.drop_last()) * 10 + digit_val(s.last())
    }
}

pub open spec fn all_digits(s: Seq<char>) -> bool {
    forall|i: int| 0 <= i < s.len() ==> is_digit(s[i])
}

pub proof fn lemma_digits_val_push(s: Seq<char>, c: char)
    ensures
        digits_val(s.push(c)) == digits_val(s) * 10 + digit_val(c),
{
    assert(s.push(c).drop_last() =~= s);
    assert(s.push(c).last() == c);
}

pub proof fn lemma_digits_val_nonneg(s: Seq<char>)
    requires
        all_digits(s),
    ensures
        digits_val(s) >= 0,
    decreases s.len(),
{
    if s.len() > 0 {
        assert(all_digits(s.drop_last()));
        lemma_digits_val_nonneg(s.drop_last());
        assert(digit_val(s.last()) >= 0);
    }
}

/// Appending digits never shrinks the value of a digit string.
pub proof fn lemma_digits_val_grows(s: Seq<char>, n: int)
    requires
        all_digits(s),
        0 <= n <= s.len(),
    ensures
        digits_val(s.take(n)) <= digits_val(s),
    decreases s.len() - n,
{
    if n < s.len() {
        lemma_digits_val_grows(s, n + 1);
        assert(s.take(n + 1).drop_last() =~= s.take(n));
        assert(all_digits(s.take(n)));
        lemma_digits_val_nonneg(s.take(n));
        assert(digits_val(s.take(n + 1)) == digits_val(s.take(n)) * 10 + digit_val(s.take(
            n + 1,
        ).last()));
    } else {
        assert(s.take(n) =~= s);
    }
}

/// The decimal digit character for a value 0..9.
pub open spec fn digit_char(d: int) -> char {
    ((48 + d) as u8) as char
}

/// The decimal numeral of a non-negative number, most significant digit first.
pub open spec fn dec_digits(n: int) -> Seq<char>
    decreases n,
{
    if n < 10 {
        seq![digit_char(if n < 0 { 0 } else { n })]
    } else {
        dec_digits(n / 10).push(digit_char(n % 10))
    }
}

/// The decimal rendering of a signed number: a `-` sign for negatives,
/// then the digits of the magnitude.
pub open spec fn int_str(v: int) -> Seq<char> {
    if v < 0 {
        seq!['-'] + dec_digits(-v)
    } else {
        dec_digits(v)
    }
}

/// Render a non-negative number as decimal digits, appended to `out`.
pub fn push_dec_digits(n: u128, out: &mut Vec<char>)
    ensures
        final(out)@ == old(out)@ + dec_digits(n as int),
    decreases n,
{
    if n < 10 {
        let c: char = ((48 + n as u8)) as char;
        out.push(c);
        proof {
            assert(out@ =~= old(out)@ + dec_digits(n as int));
        }
    } else {
        push_dec_digits(n / 10, out);
        let d: u8 = (n % 10) as u8;
        let c: char = (48 + d) as char;
        out.push(c);
        proof {
            assert(out@ =~= old(out)@ + dec_digits(n as int));
        }
    }
}

/// Render a signed 64-bit integer in decimal.
pub fn i64_to_chars(v: i64) -> (r: Vec<char>)
    ensures
        r@ == int_str(v as int),
{
    let mut out: Vec<char> = Vec::new();
    if v < 0 {
        out.push('-');
        let mag: u128 = (-(v as i128)) as u128;
        push_dec_digits(mag, &mut out);
        proof {
            assert(out@ =~= seq!['-'] + dec_digits(-(v as int)));
        }
    } else {
        push_dec_digits(v as u128, &mut out);
        proof {
            assert(out@ =~= dec_digits(v as int));
        }
    }
    out
}

// ---------- signed 64-bit integer parsing ----------

/// What `str::parse::<i64>` accepts and returns: an optional `+` or `-`
/// sign followed by one or more decimal digits, with the value in range.
pub open spec fn parse_i64_spec(s: Seq<char>) -> Option<int> {
    let neg = s.len() > 0 && s[0] == '-';
    let ds = if s.len() > 0 && (s[0] == '-' || s[0] == '+') {
        s.skip(1)
    } else {
        s
    };
    if ds.len() == 0 || !all_digits(ds) {
        None
    } else {
        let v = if neg {
            -digits_val(ds)
        } else {
            digits_val(ds)
        };
        if v < i64::MIN as int || v > i64::MAX as int {
            None
        } else {
            Some(v)
        }
    }
}

/// Parse a signed base-10 integer exactly as `str::parse::<i64>` does.
pub fn parse_i64(s: &Vec<char>) -> (r: Option<i64>)
    ensures
        match r {
            Some(v) => parse_i64_spec(s@) == Some(v as int),
            None => parse_i64_spec(s@) is None,
        },
{
    let ghost whole = s@;
    let mut start: usize = 0;
    let mut neg: bool = false;
    if s.len() > 0 && (s[0] == '-' || s[0] == '+') {
        neg = s[0] == '-';
        start = 1;
    }
    let ghost ds = if start == 1 { whole.skip(1) } else { whole };
    if start >= s.len() {
        assert(ds.len() == 0);
        return None;
    }
    // Magnitude bound: one past i64::MAX, the magnitude of i64::MIN.
    let bound: u64 = 9223372036854775808;
    let mut acc: u64 = 0;
    let mut over: bool = false;
    let mut i: usize = start;
    while i < s.len()
        invariant
            start <= i <= s.len(),
            start == 0 || start == 1,
            (start == 1) == (whole.len() > 0 && (whole[0] == '-' || whole[0] == '+')),
            neg == (whole.len() > 0 && whole[0] == '-'),
            s@ == whole,
            ds == (if start == 1 { whole.skip(1) } else { whole }),
            ds.len() == s.len() - start,
            forall|j: int| 0 <= j < ds.len() ==> ds[j] == whole[j + start],
            bound == 9223372036854775808,
            all_digits(ds.take(i - start)),
            !over ==> acc as int == digits_val(ds.take(i - start)) && acc <= bound,
            over ==> digits_val(ds.take(i - start)) > bound,
        decreases s.len() - i,
    {
        let c = s[i];
        if !('0' <= c && c <= '9') {
            proof {
                assert(ds[i - start] == whole[i as int]);
                assert(!is_digit(ds[i - start]));
                assert(!all_digits(ds));
            }
            return None;
        }
        assert(c as u32 >= 48 && c as u32 <= 57);
        let d: u64 = (c as u32 - 48) as u64;
        assert(d <= 9);
        proof {
            assert(ds.take(i + 1 - start).drop_last() =~= ds.take(i - start));
            lemma_digits_val_push(ds.take(i - start), c);
            assert(d as int == digit_val(c));
        }
        let ghost a: int = acc as int;
        let ghost dd: int = d as int;
        let ghost before: int = digits_val(ds.take(i - start));
        let ghost after: int = digits_val(ds.take(i + 1 - start));
        if over || acc > (bound - d) / 10 {
            proof {
                if !over {
                    // a * 10 + dd > bound, hence the true value overflows
                    assert(a >= (9223372036854775808 - dd) / 10 + 1);
                    assert(a * 10 + dd > 9223372036854775808) by (nonlinear_arith)
                        requires
                            a >= (9223372036854775808 - dd) / 10 + 1,
                            0 <= dd <= 9,
                    ;
                    assert(after == a * 10 + dd);
                } else {
                    assert(before > 9223372036854775808);
                    assert(after > 9223372036854775808) by (nonlinear_arith)
                        requires
                            after == before * 10 + dd,
                            before > 9223372036854775808,
                            dd >= 0,
                    ;
                }
            }
            over = true;
        } else {
            proof {
                assert(a <= (9223372036854775808 - dd) / 10);
                assert(a * 10 + dd <= 9223372036854775808) by (nonlinear_arith)
                    requires
                        a <= (9223372036854775808 - dd) / 10,
                        0 <= dd <= 9,
                ;
            }
            acc = acc * 10 + d;
        }
        i += 1;
    }
    proof {
        assert(ds.take(s.len() - start) =~= ds);
    }
    if over {
        proof {
            lemma_digits_val_nonneg(ds);
        }
        return None;
    }
    if neg {
        if acc == bound {
            Some(i64::MIN)
        } else {
            Some(-(acc as i64))
        }
    } else {
        if acc >= bound {
            None
        } else {
            Some(acc as i64)
        }
    }
}

/// A number below 10^k has at most k digits.
pub proof fn lemma_dec_digits_len(n: int, k: int)
    requires
        0 <= n,
        1 <= k,
        n < crate::decimal::pow10(k as nat),
    ensures
        1 <= dec_digits(n).len() <= k,
    decreases n,
{
    if n < 10 {
    } else {
        assert(crate::decimal::pow10(k as nat) == 10 * crate::decimal::pow10((k - 1) as nat));
        crate::decimal::lemma_pow10_pos((k - 1) as nat);
        assert(k >= 2) by {
            if k == 1 {
                assert(crate::decimal::pow10(1nat) == 10 * crate::decimal::pow10(0nat));
            }
        }
        assert(n / 10 < crate::decimal::pow10((k - 1) as nat)) by (nonlinear_arith)
            requires
                n < 10 * crate::decimal::pow10((k - 1) as nat),
                n >= 0,
        ;
        lemma_dec_digits_len(n / 10, k - 1);
    }
}

/// Append a slice of `v` onto `out`.
pub fn push_range(out: &mut Vec<char>, v: &Vec<char>, a: usize, b: usize)
    requires
        a <= b <= v@.len(),
    ensures
        final(out)@ == old(out)@ + v@.subrange(a as int, b as int),
{
    let mut i: usize = a;
    proof {
        assert(out@ =~= out@ + v@.subrange(a as int, a as int));
    }
    while i < b
        invariant
            a <= i <= b <= v@.len(),
            out@ == old(out)@ + v@.subrange(a as int, i as int),
        decreases b - i,
    {
        out.push(v[i]);
        proof {
            assert(old(out)@ + v@.subrange(a as int, i + 1) =~= (old(out)@ + v@.subrange(
                a as int,
                i as int,
            )).push(v@[i as int]));
        }
        i += 1;
    }
}

// ---------- digit prefixes ----------

/// How many decimal digits stand at the front of the sequence.
pub open spec fn digit_prefix_len(s: Seq<char>) -> int
    decreases s.len(),
{
    if s.len() == 0 || !is_digit(s[0]) {
        0
    } else {
        1 + digit_prefix_len(s.skip(1))
    }
}

/// The digit prefix is within bounds and holds digits only.
pub proof fn lemma_digit_prefix_props(s: Seq<char>)
    ensures
        0 <= digit_prefix_len(s) <= s.len(),
        all_digits(s.take(digit_prefix_len(s))),
    decreases s.len(),
{
    if s.len() == 0 || !is_digit(s[0]) {
        assert(s.take(0int) =~= Seq::<char>::empty());
    } else {
        lemma_digit_prefix_props(s.skip(1));
        let d = digit_prefix_len(s);
        assert(d == 1 + digit_prefix_len(s.skip(1)));
        assert(all_digits(s.take(d))) by {
            assert(s.take(d)[0] == s[0]);
            assert(forall|j: int|
                1 <= j < d ==> #[trigger] s.take(d)[j] == s.skip(1).take(d - 1)[j - 1]);
        }
    }
}

/// The digit prefix ends exactly at the first non-digit.
pub proof fn lemma_digit_prefix_len_char(s: Seq<char>, i: int)
    requires
        0 <= i <= s.len(),
        all_digits(s.take(i)),
        i == s.len() || !is_digit(s[i]),
    ensures
        digit_prefix_len(s) == i,
    decreases i,
{
    if i == 0 {
        if s.len() > 0 {
            assert(!is_digit(s[0]));
        }
    } else {
        assert(is_digit(s[0])) by {
            assert(s.take(i)[0] == s[0]);
        }
        assert(all_digits(s.skip(1).take(i - 1))) by {
            assert(forall|j: int|
                0 <= j < i - 1 ==> #[trigger] s.skip(1).take(i - 1)[j] == s.take(i)[j + 1]);
        }
        if i < s.len() {
            assert(s.skip(1)[i - 1] == s[i]);
        }
        lemma_digit_prefix_len_char(s.skip(1), i - 1);
    }
}

/// Scan forward from `from` over decimal digits; the result is the first
/// position that does not hold a digit.
pub fn scan_digits(s: &Vec<char>, from: usize) -> (r: usize)
    requires
        from <= s.len(),
    ensures
        from <= r <= s.len(),
        r - from == digit_prefix_len(s@.skip(from as int)),
        all_digits(s@.subrange(from as int, r as int)),
        r < s.len() ==> !is_digit(s@[r as int]),
{
    let mut i: usize = from;
    while i < s.len() && '0' <= s[i] && s[i] <= '9'
        invariant
            from <= i <= s.len(),
            forall|j: int| from <= j < i ==> is_digit(s@[j]),
        decreases s.len() - i,
    {
        i += 1;
    }
    proof {
        let t = s@.skip(from as int);
        assert(all_digits(t.take(i - from))) by {
            assert(forall|j: int|
                0 <= j < i - from ==> #[trigger] t.take((i - from) as int)[j] == s@[j + from]);
        }
        if i < s.len() {
            assert(t[i - from] == s@[i as int]);
        }
        lemma_digit_prefix_len_char(t, i - from);
        assert(all_digits(s@.subrange(from as int, i as int))) by {
            assert(forall|j: int|
                0 <= j < i - from ==> #[trigger] s@.subrange(from as int, i as int)[j] == s@[j
                    + from]);
        }
    }
    i
}

// ---------- conversions between &str and Vec<char> ----------

/// The characters of the string, in order.
pub fn str_to_chars(s: &str) -> (r: Vec<char>)
    ensures
        r@ == s@,
{
    broadcast use vstd::string::axiom_spec_iter;
    broadcast use vstd::string::next_postcondition;

    let mut out: Vec<char> = Vec::new();
    let mut it = s.chars();
    proof {
        assert(it.remaining() == s@);
        assert(out@ + it.remaining() =~= s@);
    }
    loop
        invariant
            it.obeys_prophetic_iter_laws(),
            it.decrease() is Some,
            out@ + it.remaining() == s@,
        decreases it.decrease()->0,
    {
        match it.next() {
            Some(c) => {
                out.push(c);
                proof {
                    assert(out@ + it.remaining() =~= s@);
                }
            },
            None => {
                proof {
                    assert(it.remaining().len() == 0);
                    assert(out@ =~= s@);
                }
                return out;
            },
        }
    }
}

/// Relies on `String`'s `FromIterator<char>`: the string made of exactly
/// these characters, in order.
#[verifier::external_body]
pub fn chars_to_string(v: &Vec<char>) -> (r: String)
    ensures
        r@ == v@,
{
    v.iter().collect()
}

} // verus!
