//! The order of strings (lexicographic by character), and sorted key lists.
use vstd::prelude::*;
use crate::text::views;

verus! {

/// `a` comes before `b`: lexicographic order by character code, a proper
/// prefix first. This is the order of `str`, whose byte order UTF-8 keeps.
pub open spec fn seq_lt(a: Seq<char>, b: Seq<char>) -> bool
    decreases a.len(),
{
    if a.len() == 0 {
        b.len() > 0
    } else if b.len() == 0 {
        false
    } else if a[0] != b[0] {
        a[0] < b[0]
    } else {
        seq_lt(a.drop_first(), b.drop_first())
    }
}

pub proof fn lemma_lt_irreflexive(a: Seq<char>)
    ensures
        !seq_lt(a, a),
    decreases a.len(),
{
    if a.len() > 0 {
        lemma_lt_irreflexive(a.drop_first());
    }
}

pub proof fn lemma_lt_asymmetric(a: Seq<char>, b: Seq<char>)
    ensures
        !(seq_lt(a, b) && seq_lt(b, a)),
    decreases a.len(),
{
    if a.len() > 0 && b.len() > 0 && a[0] == b[0] {
        lemma_lt_asymmetric(a.drop_first(), b.drop_first());
    }
}

pub proof fn lemma_lt_transitive(a: Seq<char>, b: Seq<char>, c: Seq<char>)
    requires
        seq_lt(a, b),
        seq_lt(b, c),
    ensures
        seq_lt(a, c),
    decreases a.len(),
{
    if a.len() > 0 && b.len() > 0 && c.len() > 0 && a[0] == b[0] && b[0] == c[0] {
        lemma_lt_transitive(a.drop_first(), b.drop_first(), c.drop_first());
    }
}

pub proof fn lemma_lt_total(a: Seq<char>, b: Seq<char>)
    ensures
        a == b || seq_lt(a, b) || seq_lt(b, a),
    decreases a.len(),
{
    if a.len() > 0 && b.len() > 0 {
        if a[0] == b[0] {
            lemma_lt_total(a.drop_first(), b.drop_first());
            if a.drop_first() == b.drop_first() {
                assert(a.drop_first().len() == a.len() - 1);
                assert(b.drop_first().len() == b.len() - 1);
                assert(a.len() == b.len());
                assert forall|i: int| 0 <= i < a.len() implies a[i] == b[i] by {
                    if i > 0 {
                        assert(a[i] == a.drop_first()[i - 1]);
                        assert(b[i] == b.drop_first()[i - 1]);
                    }
                }
                assert(a =~= b);
            }
        }
    } else if a.len() == 0 && b.len() == 0 {
        assert(a =~= b);
    }
}

/// Whether `a` comes before `b`.
pub fn chars_lt(a: &[char], b: &[char]) -> (r: bool)
    ensures
        r == seq_lt(a@, b@),
{
    let mut i: usize = 0;
    assert(a@.skip(0) == a@ && b@.skip(0) == b@);
    while i < a.len() && i < b.len() && a[i] == b[i]
        invariant
            i <= a@.len(),
            i <= b@.len(),
            seq_lt(a@, b@) == seq_lt(a@.skip(i as int), b@.skip(i as int)),
        decreases a@.len() - i,
    {
        assert(a@.skip(i as int).drop_first() == a@.skip(i + 1));
        assert(b@.skip(i as int).drop_first() == b@.skip(i + 1));
        i += 1;
    }
    if i == a.len() {
        i < b.len()
    } else if i == b.len() {
        false
    } else {
        assert(a@.skip(i as int)[0] == a@[i as int]);
        assert(b@.skip(i as int)[0] == b@[i as int]);
        a[i] < b[i]
    }
}

/// The keys are in strictly increasing order.
pub open spec fn strictly_sorted(keys: Seq<Seq<char>>) -> bool {
    forall|i: int, j: int| 0 <= i < j < keys.len() ==> seq_lt(#[trigger] keys[i], #[trigger] keys[j])
}

/// Where `k` stands in sorted keys: its index if present, else the index
/// at which inserting it keeps the keys sorted.
pub fn locate(keys: &Vec<Vec<char>>, k: &[char]) -> (r: (bool, usize))
    requires
        strictly_sorted(views(keys@)),
    ensures
        r.1 <= keys@.len(),
        r.0 ==> r.1 < keys@.len() && keys@[r.1 as int]@ == k@,
        !r.0 ==> !views(keys@).contains(k@),
        forall|i: int| 0 <= i < r.1 ==> seq_lt(#[trigger] views(keys@)[i], k@),
        forall|i: int| r.1 < i < keys@.len() ==> seq_lt(k@, #[trigger] views(keys@)[i]),
        !r.0 ==> forall|i: int| r.1 <= i < keys@.len() ==> seq_lt(k@, #[trigger] views(keys@)[i]),
{
    let ghost ks = views(keys@);
    let mut j: usize = 0;
    while j < keys.len() && chars_lt(keys[j].as_slice(), k)
        invariant
            ks == views(keys@),
            strictly_sorted(ks),
            j <= keys@.len(),
            forall|i: int| 0 <= i < j ==> seq_lt(#[trigger] ks[i], k@),
        decreases keys@.len() - j,
    {
        assert(ks[j as int] == keys@[j as int]@);
        j += 1;
    }
    if j < keys.len() {
        assert(ks[j as int] == keys@[j as int]@);
        proof {
            lemma_lt_total(ks[j as int], k@);
        }
        assert forall|i: int| j < i < keys@.len() implies seq_lt(k@, #[trigger] ks[i]) by {
            assert(seq_lt(ks[j as int], ks[i]));
            if ks[j as int] != k@ {
                lemma_lt_transitive(k@, ks[j as int], ks[i]);
            }
        }
        let found = crate::text::same_chars(keys[j].as_slice(), k);
        if !found {
            assert forall|i: int| j <= i < keys@.len() implies seq_lt(k@, #[trigger] ks[i]) by {
                if i > j {
                } else {
                }
            }
            assert forall|i: int| 0 <= i < ks.len() implies ks[i] != k@ by {
                if i < j {
                    lemma_lt_irreflexive(k@);
                } else {
                    lemma_lt_irreflexive(k@);
                }
            }
        }
        (found, j)
    } else {
        assert forall|i: int| 0 <= i < ks.len() implies ks[i] != k@ by {
            lemma_lt_irreflexive(k@);
        }
        (false, j)
    }
}

} // verus!
