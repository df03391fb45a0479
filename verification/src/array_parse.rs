//! The array-literal tokenizer: strips the configured (or default)
//! bracket pair and splits the body on the delimiter, yielding the raw
//! byte-string tokens in order.

use vstd::prelude::*;

verus! {

/// The first position at which `d` occurs inside `s`, or -1.
pub open spec fn first_match(s: Seq<char>, d: Seq<char>) -> int
    decreases s.len(),
{
    if d.len() > s.len() {
        -1
    } else if s.take(d.len() as int) == d {
        0
    } else if s.len() == 0 {
        -1
    } else {
        let r = first_match(s.skip(1), d);
        if r < 0 {
            -1
        } else {
            1 + r
        }
    }
}

pub proof fn lemma_first_match_found(s: Seq<char>, d: Seq<char>, i: int)
    requires
        0 <= i,
        i + d.len() <= s.len(),
        s.subrange(i, i + d.len()) == d,
        forall|j: int| 0 <= j < i ==> #[trigger] s.subrange(j, j + d.len()) != d,
    ensures
        first_match(s, d) == i,
    decreases i,
{
    if i == 0 {
        assert(s.take(d.len() as int) =~= s.subrange(i, i + d.len()));
    } else {
        assert(s.subrange(0int, 0int + d.len()) != d);
        assert(s.take(d.len() as int) =~= s.subrange(0int, 0int + d.len()));
        assert(s.len() > 0);
        let t = s.skip(1);
        assert(t.subrange(i - 1, (i - 1) + d.len()) =~= s.subrange(i, i + d.len()));
        assert forall|j: int| 0 <= j < i - 1 implies #[trigger] t.subrange(j, j + d.len())
            != d by {
            assert(t.subrange(j, j + d.len()) =~= s.subrange(j + 1, (j + 1) + d.len()));
            assert(s.subrange(j + 1, (j + 1) + d.len()) != d);
        }
        lemma_first_match_found(t, d, i - 1);
    }
}

pub proof fn lemma_first_match_none(s: Seq<char>, d: Seq<char>)
    requires
        d.len() >= 1,
        forall|j: int|
            0 <= j && j + d.len() <= s.len() ==> #[trigger] s.subrange(j, j + d.len()) != d,
    ensures
        first_match(s, d) == -1,
    decreases s.len(),
{
    if d.len() <= s.len() {
        assert(s.subrange(0int, 0int + d.len()) != d);
        assert(s.take(d.len() as int) =~= s.subrange(0int, 0int + d.len()));
        if s.len() > 0 {
            let t = s.skip(1);
            assert forall|j: int| 0 <= j && j + d.len() <= t.len() implies #[trigger] t.subrange(
                j,
                j + d.len(),
            ) != d by {
                assert(t.subrange(j, j + d.len()) =~= s.subrange(j + 1, (j + 1) + d.len()));
                assert(s.subrange(j + 1, (j + 1) + d.len()) != d);
            }
            lemma_first_match_none(t, d);
        }
    }
}

/// Where the delimiter occurs, how the position relates to the string.
pub proof fn lemma_first_match_bounds(s: Seq<char>, d: Seq<char>)
    ensures
        first_match(s, d) >= 0 ==> first_match(s, d) + d.len() <= s.len(),
        first_match(s, d) >= -1,
    decreases s.len(),
{
    if d.len() <= s.len() && !(s.take(d.len() as int) == d) && s.len() > 0 {
        lemma_first_match_bounds(s.skip(1), d);
    }
}

/// The pieces of `s` between occurrences of the non-empty delimiter `d`,
/// in order: one piece more than there are occurrences.
pub open spec fn split_by(s: Seq<char>, d: Seq<char>) -> Seq<Seq<char>>
    decreases s.len(),
{
    if d.len() == 0 {
        seq![s]
    } else {
        let i = first_match(s, d);
        if i < 0 || i + d.len() > s.len() {
            seq![s]
        } else {
            seq![s.take(i)] + split_by(s.skip(i + d.len()), d)
        }
    }
}

/// Find the first occurrence of `d` in `s` at or after `from`.
pub fn find_from(s: &Vec<char>, from: usize, d: &Vec<char>) -> (r: Option<usize>)
    requires
        d@.len() >= 1,
        from <= s@.len(),
    ensures
        match r {
            Some(i) => from <= i && i + d@.len() <= s@.len() && first_match(
                s@.skip(from as int),
                d@,
            ) == i - from,
            None => first_match(s@.skip(from as int), d@) == -1,
        },
{
    let ghost t = s@.skip(from as int);
    if s.len() < d.len() || from > s.len() - d.len() {
        proof {
            assert(forall|j: int|
                0 <= j && j + d@.len() <= t.len() ==> #[trigger] t.subrange(j, j + d@.len())
                    != d@) by {
                assert(t.len() < d@.len());
            }
            lemma_first_match_none(t, d@);
        }
        return None;
    }
    let mut i: usize = from;
    while i <= s.len() - d.len()
        invariant
            from <= i,
            d@.len() >= 1,
            d@.len() <= s@.len(),
            i <= s@.len() + 1 - d@.len(),
            t == s@.skip(from as int),
            from <= s@.len(),
            forall|j: int| 0 <= j < i - from ==> #[trigger] t.subrange(j, j + d@.len()) != d@,
        decreases s@.len() - i,
    {
        let mut k: usize = 0;
        let mut hit: bool = true;
        while k < d.len()
            invariant
                0 <= k <= d@.len(),
                i + d@.len() <= s@.len(),
                s@.len() <= usize::MAX,
                hit == (forall|j: int| 0 <= j < k ==> s@[i + j] == d@[j]),
                !hit ==> k == d@.len(),
            decreases d@.len() - k,
        {
            if s[i + k] != d[k] {
                proof {
                    assert(!(forall|j: int| 0 <= j < k + 1 ==> s@[i + j] == d@[j])) by {
                        assert(s@[i + k] != d@[k as int]);
                    }
                }
                hit = false;
                k = d.len();
            } else {
                proof {
                    assert(forall|j: int| 0 <= j < k ==> s@[i + j] == d@[j]);
                    assert(s@[i + k] == d@[k as int]);
                }
                k = k + 1;
            }
        }
        if hit {
            proof {
                assert(t.subrange(i - from, i - from + d@.len()) =~= d@) by {
                    assert(forall|j: int|
                        0 <= j < d@.len() ==> #[trigger] t.subrange(
                            i - from,
                            i - from + d@.len(),
                        )[j] == s@[i + j]);
                }
                assert(forall|j: int|
                    0 <= j < i - from ==> #[trigger] t.subrange(j, j + d@.len()) != d@);
                lemma_first_match_found(t, d@, i - from);
            }
            return Some(i);
        }
        proof {
            assert(t.subrange(i - from, i - from + d@.len()) != d@) by {
                let ghost bad = choose|j: int| 0 <= j < d@.len() && s@[i + j] != d@[j];
                assert(t.subrange(i - from, i - from + d@.len())[bad] == s@[i + bad]);
            }
            assert(forall|j: int|
                0 <= j < i + 1 - from ==> #[trigger] t.subrange(j, j + d@.len()) != d@);
        }
        i = i + 1;
    }
    proof {
        assert(forall|j: int|
            0 <= j && j + d@.len() <= t.len() ==> #[trigger] t.subrange(j, j + d@.len()) != d@);
        lemma_first_match_none(t, d@);
    }
    None
}

/// The views of a list of character vectors.
pub open spec fn chars_views(vs: Seq<Vec<char>>) -> Seq<Seq<char>> {
    vs.map_values(|v: Vec<char>| v@)
}

/// Split `s` on the non-empty delimiter `d`, exactly as `split_by`
/// describes.
pub fn split_chars(s: &Vec<char>, d: &Vec<char>) -> (r: Vec<Vec<char>>)
    requires
        d@.len() >= 1,
    ensures
        chars_views(r@) == split_by(s@, d@),
{
    let mut out: Vec<Vec<char>> = Vec::new();
    let mut pos: usize = 0;
    proof {
        assert(s@.skip(0int) =~= s@);
        assert(chars_views(out@) =~= Seq::<Seq<char>>::empty());
        assert(chars_views(out@) + split_by(s@, d@) =~= split_by(s@, d@));
    }
    while pos <= s.len()
        invariant
            0 <= pos <= s@.len() + 1,
            d@.len() >= 1,
            pos <= s@.len() ==> split_by(s@, d@) == chars_views(out@) + split_by(
                s@.skip(pos as int),
                d@,
            ),
            pos > s@.len() ==> split_by(s@, d@) == chars_views(out@),
        decreases s@.len() + 1 - pos,
    {
        let ghost t = s@.skip(pos as int);
        match find_from(s, pos, d) {
            Some(i) => {
                proof {
                    lemma_first_match_bounds(t, d@);
                }
                let mut tok: Vec<char> = Vec::new();
                crate::text::push_range(&mut tok, s, pos, i);
                out.push(tok);
                proof {
                    assert(t.take(i - pos) =~= s@.subrange(pos as int, i as int));
                    assert(t.skip(i - pos + d@.len()) =~= s@.skip(i + d@.len()));
                    assert(s@.subrange(pos as int, i as int) =~= Seq::empty().add(
                        s@.subrange(pos as int, i as int),
                    ));
                    assert(split_by(t, d@) == seq![t.take(i - pos)] + split_by(
                        t.skip(i - pos + d@.len()),
                        d@,
                    ));
                    assert(chars_views(out@) =~= chars_views(out@.drop_last()) + seq![
                        out@.last()@,
                    ]);
                    assert(chars_views(out@) + split_by(s@.skip(i + d@.len()), d@)
                        =~= (chars_views(out@.drop_last()) + split_by(t, d@)));
                }
                pos = i + d.len();
            },
            None => {
                proof {
                    assert(first_match(t, d@) == -1);
                    assert(split_by(t, d@) == seq![t]);
                }
                let mut tok: Vec<char> = Vec::new();
                let n = s.len();
                crate::text::push_range(&mut tok, s, pos, n);
                out.push(tok);
                proof {
                    assert(s@.subrange(pos as int, s@.len() as int) =~= t);
                    assert(chars_views(out@) =~= chars_views(out@.drop_last()) + seq![t]);
                }
                return out;
            },
        }
    }
    proof {
        assert(pos == s@.len() + 1);
    }
    out
}

/// Strip the bracket pair: a configured pair must be present; with none
/// configured, a `[`..`]` pair is stripped if present and otherwise the
/// whole text is the body.
pub open spec fn strip_brackets_spec(s: Seq<char>, brackets: Option<(char, char)>) -> Option<
    Seq<char>,
> {
    match brackets {
        Some(p) => if s.len() >= 2 && s[0] == p.0 && s[s.len() - 1] == p.1 {
            Some(s.subrange(1, s.len() - 1))
        } else {
            None
        },
        None => if s.len() >= 2 && s[0] == '[' && s[s.len() - 1] == ']' {
            Some(s.subrange(1, s.len() - 1))
        } else {
            Some(s)
        },
    }
}

/// The tokens of an array literal: the body between the brackets, split
/// on the delimiter (`,` when none is configured); an empty body has no
/// tokens. Nothing where the brackets are missing or the configured
/// delimiter is empty.
pub open spec fn tokenize_spec(
    s: Seq<char>,
    brackets: Option<(char, char)>,
    delim: Option<Seq<char>>,
) -> Option<Seq<Seq<char>>> {
    let d = match delim {
        Some(d) => d,
        None => ","@,
    };
    if d.len() == 0 {
        None
    } else {
        match strip_brackets_spec(s, brackets) {
            None => None,
            Some(body) => Some(
                if body.len() == 0 {
                    Seq::empty()
                } else {
                    split_by(body, d)
                },
            ),
        }
    }
}

/// Tokenize an array literal, exactly as `tokenize_spec` describes.
pub fn tokenize(s: &Vec<char>, brackets: &Option<(char, char)>, delim: &Option<Vec<char>>) -> (r:
    Option<Vec<Vec<char>>>)
    ensures
        match r {
            Some(toks) => tokenize_spec(
                s@,
                *brackets,
                match delim {
                    Some(d) => Some(d@),
                    None => None,
                },
            ) == Some(chars_views(toks@)),
            None => tokenize_spec(
                s@,
                *brackets,
                match delim {
                    Some(d) => Some(d@),
                    None => None,
                },
            ) is None,
        },
{
    let comma = crate::text::str_to_chars(",");
    let d: &Vec<char> = match delim {
        Some(dd) => dd,
        None => &comma,
    };
    proof {
        reveal_strlit(",");
    }
    if d.len() == 0 {
        return None;
    }
    let (open_c, close_c, required): (char, char, bool) = match brackets {
        Some(p) => (p.0, p.1, true),
        None => ('[', ']', false),
    };
    let mut body: Vec<char> = Vec::new();
    if s.len() >= 2 && s[0] == open_c && s[s.len() - 1] == close_c {
        let hi = s.len() - 1;
        crate::text::push_range(&mut body, s, 1, hi);
    } else {
        if required {
            return None;
        }
        let n = s.len();
        crate::text::push_range(&mut body, s, 0, n);
        proof {
            assert(s@.subrange(0, s@.len() as int) =~= s@);
        }
    }
    if body.len() == 0 {
        let empty: Vec<Vec<char>> = Vec::new();
        proof {
            assert(chars_views(empty@) =~= Seq::<Seq<char>>::empty());
        }
        return Some(empty);
    }
    Some(split_chars(&body, d))
}

} // verus!
