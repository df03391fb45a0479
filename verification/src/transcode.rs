//! Case folding and percent-decoding: ASCII case folding is carried out
//! and verified here; full Unicode folding and percent-decoding rely on
//! std and the percent-encoding crate behind trusted declarations.

use vstd::prelude::*;

use crate::text::{ascii_lower_char, lower_char};

verus! {

/// ASCII upper-casing of a single character: `a`..`z` map to `A`..`Z`,
/// every other character is unchanged.
pub open spec fn ascii_upper_char(c: char) -> char {
    if 'a' <= c && c <= 'z' {
        ((c as u8) - 32) as char
    } else {
        c
    }
}

pub open spec fn is_ascii_seq(s: Seq<char>) -> bool {
    forall|i: int| 0 <= i < s.len() ==> (s[i] as u32) < 128
}

pub open spec fn ascii_lower_seq(s: Seq<char>) -> Seq<char> {
    s.map_values(|c: char| ascii_lower_char(c))
}

pub open spec fn ascii_upper_seq(s: Seq<char>) -> Seq<char> {
    s.map_values(|c: char| ascii_upper_char(c))
}

/// What `str::to_lowercase` returns on text that is not all ASCII; a
/// function of the characters alone.
pub uninterp spec fn unicode_lower(s: Seq<char>) -> Seq<char>;

/// What `str::to_uppercase` returns on text that is not all ASCII; a
/// function of the characters alone.
pub uninterp spec fn unicode_upper(s: Seq<char>) -> Seq<char>;

/// The lower-cased form of a byte string: the ASCII mapping where the
/// text is all ASCII (there `str::to_lowercase` agrees with it), and
/// `str::to_lowercase`'s answer otherwise.
pub open spec fn lower_spec(s: Seq<char>) -> Seq<char> {
    if is_ascii_seq(s) {
        ascii_lower_seq(s)
    } else {
        unicode_lower(s)
    }
}

pub open spec fn upper_spec(s: Seq<char>) -> Seq<char> {
    if is_ascii_seq(s) {
        ascii_upper_seq(s)
    } else {
        unicode_upper(s)
    }
}

/// Relies on `str::to_lowercase`: Unicode lower-casing, a function of the
/// characters alone.
#[verifier::external_body]
fn std_lowercase(s: &Vec<char>) -> (r: Vec<char>)
    ensures
        r@ == unicode_lower(s@),
{
    let t: String = s.iter().collect();
    t.to_lowercase().chars().collect()
}

/// Relies on `str::to_uppercase`: Unicode upper-casing, a function of the
/// characters alone.
#[verifier::external_body]
fn std_uppercase(s: &Vec<char>) -> (r: Vec<char>)
    ensures
        r@ == unicode_upper(s@),
{
    let t: String = s.iter().collect();
    t.to_uppercase().chars().collect()
}

fn all_ascii(s: &Vec<char>) -> (r: bool)
    ensures
        r == is_ascii_seq(s@),
{
    let mut i: usize = 0;
    while i < s.len()
        invariant
            0 <= i <= s@.len(),
            forall|j: int| 0 <= j < i ==> (s@[j] as u32) < 128,
        decreases s@.len() - i,
    {
        if s[i] as u32 >= 128 {
            return false;
        }
        i += 1;
    }
    true
}

/// Lower-case a byte string, as `lower_spec` defines it.
pub fn lowercase_chars(s: &Vec<char>) -> (r: Vec<char>)
    ensures
        r@ == lower_spec(s@),
{
    if all_ascii(s) {
        let mut out: Vec<char> = Vec::new();
        let mut i: usize = 0;
        while i < s.len()
            invariant
                0 <= i <= s@.len(),
                out@.len() == i,
                forall|j: int| 0 <= j < i ==> out@[j] == ascii_lower_char(s@[j]),
            decreases s@.len() - i,
        {
            out.push(lower_char(s[i]));
            i += 1;
        }
        proof {
            assert(out@ =~= ascii_lower_seq(s@));
        }
        out
    } else {
        std_lowercase(s)
    }
}

/// Upper-case one character, for the ASCII range only.
fn upper_char(c: char) -> (r: char)
    ensures
        r == ascii_upper_char(c),
{
    if 'a' <= c && c <= 'z' {
        ((c as u8) - 32) as char
    } else {
        c
    }
}

/// Upper-case a byte string, as `upper_spec` defines it.
pub fn uppercase_chars(s: &Vec<char>) -> (r: Vec<char>)
    ensures
        r@ == upper_spec(s@),
{
    if all_ascii(s) {
        let mut out: Vec<char> = Vec::new();
        let mut i: usize = 0;
        while i < s.len()
            invariant
                0 <= i <= s@.len(),
                out@.len() == i,
                forall|j: int| 0 <= j < i ==> out@[j] == ascii_upper_char(s@[j]),
            decreases s@.len() - i,
        {
            out.push(upper_char(s[i]));
            i += 1;
        }
        proof {
            assert(out@ =~= ascii_upper_seq(s@));
        }
        out
    } else {
        std_uppercase(s)
    }
}

/// What percent-decoding yields on this text: each valid `%XX` escape
/// becomes the byte it names and everything else passes through, with
/// invalid UTF-8 replaced lossily; a function of the characters alone.
pub uninterp spec fn percent_decoded(s: Seq<char>) -> Seq<char>;

/// Relies on `percent_encoding::percent_decode` and
/// `decode_utf8_lossy`: permissive percent-decoding that never fails.
#[verifier::external_body]
pub fn percent_decode_chars(s: &Vec<char>) -> (r: Vec<char>)
    ensures
        r@ == percent_decoded(s@),
{
    let t: String = s.iter().collect();
    percent_encoding::percent_decode(t.as_bytes()).decode_utf8_lossy().chars().collect()
}

} // verus!
