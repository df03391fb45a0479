//! Log events: an ordered map of fields, kept sorted by key, and a JSON
//! rendering of values for the sinks that emit JSON text.

use vstd::prelude::*;

use crate::value::{val_wf, TypedValue, Val};

verus! {

broadcast use vstd::std_specs::vec::axiom_vec_index_decreases;

/// Strict lexicographic order on character sequences, by code point.
pub open spec fn lex_lt(a: Seq<char>, b: Seq<char>) -> bool
    decreases a.len(),
{
    if b.len() == 0 {
        false
    } else if a.len() == 0 {
        true
    } else if a[0] != b[0] {
        a[0] < b[0]
    } else {
        lex_lt(a.skip(1), b.skip(1))
    }
}

/// Compare two keys for strict lexicographic order.
pub fn lex_lt_exec(a: &Vec<char>, b: &Vec<char>) -> (r: bool)
    ensures
        r == lex_lt(a@, b@),
{
    let mut i: usize = 0;
    proof {
        assert(a@.skip(0int) =~= a@);
        assert(b@.skip(0int) =~= b@);
    }
    while i < a.len() && i < b.len()
        invariant
            0 <= i <= a@.len(),
            i <= b@.len(),
            forall|j: int| 0 <= j < i ==> a@[j] == b@[j],
            lex_lt(a@, b@) == lex_lt(a@.skip(i as int), b@.skip(i as int)),
        decreases a@.len() - i,
    {
        let ghost ta = a@.skip(i as int);
        let ghost tb = b@.skip(i as int);
        proof {
            assert(ta[0] == a@[i as int]);
            assert(tb[0] == b@[i as int]);
            assert(ta.skip(1) =~= a@.skip(i + 1));
            assert(tb.skip(1) =~= b@.skip(i + 1));
        }
        if a[i] != b[i] {
            return a[i] < b[i];
        }
        i += 1;
    }
    proof {
        assert(a@.skip(i as int).len() == a@.len() - i);
        assert(b@.skip(i as int).len() == b@.len() - i);
    }
    i >= a.len() && i < b.len()
}

/// Of two distinct keys, exactly one is the smaller.
pub proof fn lemma_lex_order(a: Seq<char>, b: Seq<char>)
    requires
        a != b,
    ensures
        lex_lt(a, b) <==> !lex_lt(b, a),
    decreases a.len() + b.len(),
{
    if b.len() == 0 {
        assert(a.len() > 0) by {
            if a.len() == 0 {
                assert(a =~= b);
            }
        }
    } else if a.len() == 0 {
    } else if a[0] != b[0] {
    } else {
        assert(a.skip(1) != b.skip(1)) by {
            if a.skip(1) == b.skip(1) {
                assert(a.skip(1).len() == a.len() - 1);
                assert(b.skip(1).len() == b.len() - 1);
                assert(a.len() == b.len());
                assert forall|j: int| 0 <= j < a.len() implies a[j] == b[j] by {
                    if j > 0 {
                        assert(a.skip(1)[j - 1] == a[j]);
                        assert(b.skip(1)[j - 1] == b[j]);
                    }
                }
                assert(a =~= b);
            }
        }
        lemma_lex_order(a.skip(1), b.skip(1));
    }
}

/// Insert a field into a key-sorted field list: an equal key is replaced
/// in place, otherwise the pair lands before the first larger key.
pub open spec fn insert_spec(fields: Seq<(Seq<char>, Val)>, k: Seq<char>, v: Val) -> Seq<
    (Seq<char>, Val),
>
    decreases fields.len(),
{
    if fields.len() == 0 {
        seq![(k, v)]
    } else if k == fields[0].0 {
        seq![(k, v)] + fields.skip(1)
    } else if lex_lt(k, fields[0].0) {
        seq![(k, v)] + fields
    } else {
        seq![fields[0]] + insert_spec(fields.skip(1), k, v)
    }
}

/// The value of the first field with this key, if any.
pub open spec fn lookup_spec(fields: Seq<(Seq<char>, Val)>, k: Seq<char>) -> Option<Val>
    decreases fields.len(),
{
    if fields.len() == 0 {
        None
    } else if fields[0].0 == k {
        Some(fields[0].1)
    } else {
        lookup_spec(fields.skip(1), k)
    }
}

/// A value found by key in well-formed fields is well formed.
pub proof fn lemma_lookup_wf(fields: Seq<(Seq<char>, Val)>, k: Seq<char>)
    requires
        forall|i: int| 0 <= i < fields.len() ==> val_wf(#[trigger] fields[i].1),
    ensures
        match lookup_spec(fields, k) {
            Some(v) => val_wf(v),
            None => true,
        },
    decreases fields.len(),
{
    if fields.len() > 0 && fields[0].0 != k {
        assert(forall|i: int|
            0 <= i < fields.skip(1).len() ==> #[trigger] fields.skip(1)[i] == fields[i + 1]);
        lemma_lookup_wf(fields.skip(1), k);
    }
}

/// One structured log event: fields in key order.
pub struct LogEvent {
    pub fields: Vec<(Vec<char>, TypedValue)>,
}

impl LogEvent {
    pub open spec fn view_fields(&self) -> Seq<(Seq<char>, Val)> {
        Seq::new(
            self.fields@.len(),
            |i: int|
                if 0 <= i < self.fields@.len() {
                    (self.fields@[i].0@, self.fields@[i].1.deep_val())
                } else {
                    (Seq::empty(), Val::Null)
                },
        )
    }

    pub open spec fn wf(&self) -> bool {
        forall|i: int|
            0 <= i < self.view_fields().len() ==> val_wf(#[trigger] self.view_fields()[i].1)
    }

    pub fn new_empty_log() -> (r: LogEvent)
        ensures
            r.view_fields() == Seq::<(Seq<char>, Val)>::empty(),
            r.wf(),
    {
        let r = LogEvent { fields: Vec::new() };
        proof {
            assert(r.view_fields() =~= Seq::<(Seq<char>, Val)>::empty());
        }
        r
    }

    /// Insert one field, keeping the keys sorted; an existing key's value
    /// is replaced.
    pub fn insert(&mut self, key: &str, value: TypedValue)
        requires
            old(self).wf(),
            val_wf(value@),
        ensures
            final(self).view_fields() == insert_spec(old(self).view_fields(), key@, value@),
            final(self).wf(),
    {
        let kc = crate::text::str_to_chars(key);
        let ghost olds = self.view_fields();
        let mut out: Vec<(Vec<char>, TypedValue)> = Vec::new();
        let mut i: usize = 0;
        let n = self.fields.len();
        proof {
            assert(olds.skip(0int) =~= olds);
        }
        while i < n && !crate::text::chars_eq(&self.fields[i].0, &kc) && lex_lt_exec(
            &self.fields[i].0,
            &kc,
        )
            invariant
                0 <= i <= n,
                n == self.fields@.len(),
                old(self) == self,
                olds == self.view_fields(),
                kc@ == key@,
                out@.len() == i,
                forall|j: int|
                    0 <= j < i ==> #[trigger] out@[j].0@ == olds[j].0 && out@[j].1.deep_val()
                        == olds[j].1,
                forall|j: int| 0 <= j < i ==> olds[j].0 != key@ && lex_lt(olds[j].0, key@),
                insert_spec(olds, key@, value@) == olds.take(i as int) + insert_spec(
                    olds.skip(i as int),
                    key@,
                    value@,
                ),
            decreases n - i,
        {
            let ghost tail = olds.skip(i as int);
            proof {
                assert(tail[0] == olds[i as int]);
                assert(tail.skip(1) =~= olds.skip(i + 1));
                lemma_lex_order(olds[i as int].0, key@);
                assert(insert_spec(tail, key@, value@) == seq![tail[0]] + insert_spec(
                    tail.skip(1),
                    key@,
                    value@,
                ));
                assert(olds.take(i + 1) =~= olds.take(i as int) + seq![olds[i as int]]);
                assert(olds.take(i as int) + (seq![tail[0]] + insert_spec(
                    olds.skip(i + 1),
                    key@,
                    value@,
                )) =~= olds.take(i + 1) + insert_spec(olds.skip(i + 1), key@, value@));
            }
            let mut kcopy: Vec<char> = Vec::new();
            let kn = self.fields[i].0.len();
            crate::text::push_range(&mut kcopy, &self.fields[i].0, 0, kn);
            proof {
                assert(kcopy@ =~= self.fields@[i as int].0@);
            }
            let vcopy = self.fields[i].1.deep_clone();
            out.push((kcopy, vcopy));
            i += 1;
        }
        let ghost tail = olds.skip(i as int);
        let replacing = i < n && {
            let e = crate::text::chars_eq(&self.fields[i].0, &kc);
            e
        };
        let ghost pre_out = out@;
        let ghost kcv = kc@;
        out.push((kc, value));
        proof {
            assert(forall|k2: int| 0 <= k2 < i ==> #[trigger] out@[k2] == pre_out[k2]);
            assert(out@[i as int].0@ == key@ && out@[i as int].1.deep_val() == value@);
        }
        if replacing {
            proof {
                assert(tail[0] == olds[i as int]);
                assert(tail.skip(1) =~= olds.skip(i + 1));
                assert(insert_spec(tail, key@, value@) == seq![(key@, value@)] + olds.skip(
                    i + 1,
                ));
            }
            let mut j: usize = i + 1;
            while j < n
                invariant
                    i + 1 <= j <= n,
                    n == self.fields@.len(),
                    old(self) == self,
                    olds == self.view_fields(),
                    out@.len() == j,
                    forall|k2: int|
                        0 <= k2 < i ==> #[trigger] out@[k2].0@ == olds[k2].0 && out@[
                        k2].1.deep_val() == olds[k2].1,
                    out@[i as int].0@ == key@ && out@[i as int].1.deep_val() == value@,
                    forall|k2: int|
                        i + 1 <= k2 < j ==> #[trigger] out@[k2].0@ == olds[k2].0 && out@[
                        k2].1.deep_val() == olds[k2].1,
                decreases n - j,
            {
                let mut kcopy: Vec<char> = Vec::new();
                let kn = self.fields[j].0.len();
                crate::text::push_range(&mut kcopy, &self.fields[j].0, 0, kn);
                proof {
                    assert(kcopy@ =~= self.fields@[j as int].0@);
                }
                let vcopy = self.fields[j].1.deep_clone();
                let ghost pre2 = out@;
                out.push((kcopy, vcopy));
                proof {
                    assert(forall|k2: int|
                        0 <= k2 < pre2.len() ==> #[trigger] out@[k2] == pre2[k2]);
                    assert(olds[j as int] == (
                        self.fields@[j as int].0@,
                        self.fields@[j as int].1.deep_val(),
                    ));
                }
                j += 1;
            }
            let ghost outs = Seq::new(
                out@.len(),
                |q: int|
                    if 0 <= q < out@.len() {
                        (out@[q].0@, out@[q].1.deep_val())
                    } else {
                        (Seq::empty(), Val::Null)
                    },
            );
            proof {
                assert(outs =~= olds.take(i as int) + (seq![(key@, value@)] + olds.skip(i + 1)));
            }
            self.fields = out;
            proof {
                assert(self.view_fields() =~= outs);
            }
        } else {
            proof {
                if i < n {
                    assert(tail[0] == olds[i as int]);
                    lemma_lex_order(olds[i as int].0, key@);
                    assert(insert_spec(tail, key@, value@) == seq![(key@, value@)] + tail);
                } else {
                    assert(tail =~= Seq::<(Seq<char>, Val)>::empty());
                    assert(insert_spec(tail, key@, value@) == seq![(key@, value@)]);
                    assert(seq![(key@, value@)] =~= seq![(key@, value@)] + tail);
                }
            }
            let mut j: usize = i;
            while j < n
                invariant
                    i <= j <= n,
                    n == self.fields@.len(),
                    old(self) == self,
                    olds == self.view_fields(),
                    out@.len() == j + 1,
                    forall|k2: int|
                        0 <= k2 < i ==> #[trigger] out@[k2].0@ == olds[k2].0 && out@[
                        k2].1.deep_val() == olds[k2].1,
                    out@[i as int].0@ == key@ && out@[i as int].1.deep_val() == value@,
                    forall|k2: int|
                        i < k2 < j + 1 ==> #[trigger] out@[k2].0@ == olds[k2 - 1].0 && out@[
                        k2].1.deep_val() == olds[k2 - 1].1,
                decreases n - j,
            {
                let mut kcopy: Vec<char> = Vec::new();
                let kn = self.fields[j].0.len();
                crate::text::push_range(&mut kcopy, &self.fields[j].0, 0, kn);
                proof {
                    assert(kcopy@ =~= self.fields@[j as int].0@);
                }
                let vcopy = self.fields[j].1.deep_clone();
                let ghost pre2 = out@;
                out.push((kcopy, vcopy));
                proof {
                    assert(forall|k2: int|
                        0 <= k2 < pre2.len() ==> #[trigger] out@[k2] == pre2[k2]);
                    assert(olds[j as int] == (
                        self.fields@[j as int].0@,
                        self.fields@[j as int].1.deep_val(),
                    ));
                }
                j += 1;
            }
            let ghost outs = Seq::new(
                out@.len(),
                |q: int|
                    if 0 <= q < out@.len() {
                        (out@[q].0@, out@[q].1.deep_val())
                    } else {
                        (Seq::empty(), Val::Null)
                    },
            );
            proof {
                assert(outs =~= olds.take(i as int) + (seq![(key@, value@)] + olds.skip(
                    i as int,
                )));
            }
            self.fields = out;
            proof {
                assert(self.view_fields() =~= outs);
            }
        }
    }

    /// Look a field up by key.
    pub fn get(&self, key: &str) -> (r: Option<&TypedValue>)
        ensures
            match r {
                Some(v) => lookup_spec(self.view_fields(), key@) == Some(v.deep_val()),
                None => lookup_spec(self.view_fields(), key@) is None,
            },
    {
        let kc = crate::text::str_to_chars(key);
        let ghost fviews = self.view_fields();
        let mut i: usize = 0;
        proof {
            assert(fviews.skip(0int) =~= fviews);
        }
        while i < self.fields.len()
            invariant
                0 <= i <= self.fields@.len(),
                fviews == self.view_fields(),
                fviews.len() == self.fields@.len(),
                kc@ == key@,
                lookup_spec(fviews, key@) == lookup_spec(fviews.skip(i as int), key@),
            decreases self.fields@.len() - i,
        {
            let ghost tail = fviews.skip(i as int);
            proof {
                assert(tail[0] == fviews[i as int]);
                assert(tail.skip(1) =~= fviews.skip(i + 1));
                assert(fviews[i as int].0 == self.fields@[i as int].0@);
            }
            if crate::text::chars_eq(&self.fields[i].0, &kc) {
                return Some(&self.fields[i].1);
            }
            i += 1;
        }
        proof {
            assert(fviews.skip(self.fields@.len() as int) =~= Seq::<(Seq<char>, Val)>::empty());
        }
        None
    }

    /// A log event holding only the message field, as a plain line of
    /// text becomes one.
    pub fn from_text(msg: &str) -> (r: LogEvent)
        ensures
            r.view_fields() == insert_spec(
                Seq::<(Seq<char>, Val)>::empty(),
                "message"@,
                Val::Bytes(msg@),
            ),
            r.wf(),
    {
        let mut ev = LogEvent::new_empty_log();
        ev.insert("message", TypedValue::Bytes(crate::text::str_to_chars(msg)));
        ev
    }
}

} // verus!
