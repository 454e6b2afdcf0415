use vstd::prelude::*;

verus! {

/// Lexicographic order on character sequences by code point: the order of
/// `String`'s `Ord`, since UTF-8 encoding keeps code point order.
pub open spec fn text_lt(a: Seq<char>, b: Seq<char>) -> bool {
    exists|k: int| #[trigger] differs_at(a, b, k)
}

/// `a` and `b` agree before `k`, and at `k` either `a` has ended while `b`
/// goes on, or `a`'s character is the smaller.
pub open spec fn differs_at(a: Seq<char>, b: Seq<char>, k: int) -> bool {
    &&& 0 <= k <= a.len()
    &&& k <= b.len()
    &&& a.take(k) == b.take(k)
    &&& (k == a.len() && k < b.len()) || (k < a.len() && k < b.len() && a[k] < b[k])
}

/// A sequence of texts in strictly increasing order (so without repeats).
pub open spec fn strictly_sorted(s: Seq<Seq<char>>) -> bool {
    forall|i: int, j: int| 0 <= i < j < s.len() ==> text_lt(#[trigger] s[i], #[trigger] s[j])
}

pub proof fn lemma_text_lt_irreflexive(a: Seq<char>)
    ensures
        !text_lt(a, a),
{
}

pub proof fn lemma_text_lt_transitive(a: Seq<char>, b: Seq<char>, c: Seq<char>)
    requires
        text_lt(a, b),
        text_lt(b, c),
    ensures
        text_lt(a, c),
{
    let k1 = choose|k: int| #[trigger] differs_at(a, b, k);
    let k2 = choose|k: int| #[trigger] differs_at(b, c, k);
    if k1 < k2 {
        assert(a.take(k1) =~= c.take(k1)) by {
            assert forall|i: int| 0 <= i < k1 implies a.take(k1)[i] == c.take(k1)[i] by {
                assert(a.take(k1)[i] == b.take(k1)[i]);
                assert(b.take(k2)[i] == c.take(k2)[i]);
            }
        }
        assert(b[k1] == c[k1]) by {
            assert(b.take(k2)[k1] == c.take(k2)[k1]);
        }
        assert(differs_at(a, c, k1));
    } else if k2 < k1 {
        assert(a.take(k2) =~= c.take(k2)) by {
            assert forall|i: int| 0 <= i < k2 implies a.take(k2)[i] == c.take(k2)[i] by {
                assert(a.take(k1)[i] == b.take(k1)[i]);
                assert(b.take(k2)[i] == c.take(k2)[i]);
            }
        }
        assert(a[k2] == b[k2]) by {
            assert(a.take(k1)[k2] == b.take(k1)[k2]);
        }
        assert(differs_at(a, c, k2));
    } else {
        assert(a.take(k1) =~= c.take(k1)) by {
            assert forall|i: int| 0 <= i < k1 implies a.take(k1)[i] == c.take(k1)[i] by {
                assert(a.take(k1)[i] == b.take(k1)[i]);
                assert(b.take(k2)[i] == c.take(k2)[i]);
            }
        }
        assert(differs_at(a, c, k1));
    }
}

pub proof fn lemma_text_lt_asymmetric(a: Seq<char>, b: Seq<char>)
    requires
        text_lt(a, b),
    ensures
        !text_lt(b, a),
{
    if text_lt(b, a) {
        lemma_text_lt_transitive(a, b, a);
        lemma_text_lt_irreflexive(a);
    }
}

proof fn lemma_common_prefix(a: Seq<char>, b: Seq<char>, k: int)
    requires
        0 <= k <= a.len(),
        k <= b.len(),
        a.take(k) == b.take(k),
    ensures
        a == b || text_lt(a, b) || text_lt(b, a),
    decreases a.len() - k,
{
    if k == a.len() && k == b.len() {
        assert(a =~= a.take(k));
        assert(b =~= b.take(k));
    } else if k == a.len() {
        assert(differs_at(a, b, k));
    } else if k == b.len() {
        assert(differs_at(b, a, k));
    } else if a[k] == b[k] {
        assert(a.take(k + 1) =~= a.take(k).push(a[k]));
        assert(b.take(k + 1) =~= b.take(k).push(b[k]));
        lemma_common_prefix(a, b, k + 1);
    } else if a[k] < b[k] {
        assert(differs_at(a, b, k));
    } else {
        assert(differs_at(b, a, k));
    }
}

/// Any two texts are equal or one comes before the other.
pub proof fn lemma_text_lt_total(a: Seq<char>, b: Seq<char>)
    ensures
        a == b || text_lt(a, b) || text_lt(b, a),
{
    assert(a.take(0) =~= b.take(0));
    lemma_common_prefix(a, b, 0);
}

/// Where `a` stands relative to `b`.
#[derive(PartialEq, Eq, Structural, Clone, Copy, Debug)]
pub enum Placement {
    Before,
    Same,
    After,
}

/// Compares two texts in `text_lt` order.
pub fn place_text(a: &Vec<char>, b: &Vec<char>) -> (r: Placement)
    ensures
        r == Placement::Before <==> text_lt(a@, b@),
        r == Placement::Same <==> a@ == b@,
        r == Placement::After <==> text_lt(b@, a@),
{
    let mut i: usize = 0;
    while i < a.len() && i < b.len() && a[i] == b[i]
        invariant
            i <= a.len(),
            i <= b.len(),
            a@.take(i as int) == b@.take(i as int),
        decreases a.len() - i,
    {
        assert(a@.take(i + 1) =~= a@.take(i as int).push(a@[i as int]));
        assert(b@.take(i + 1) =~= b@.take(i as int).push(b@[i as int]));
        i = i + 1;
    }
    if i == a.len() && i == b.len() {
        assert(a@ =~= a@.take(i as int));
        assert(b@ =~= b@.take(i as int));
        proof {
            lemma_text_lt_irreflexive(a@);
        }
        Placement::Same
    } else if i == a.len() || (i < b.len() && a[i] < b[i]) {
        assert(differs_at(a@, b@, i as int));
        proof {
            lemma_text_lt_asymmetric(a@, b@);
        }
        assert(a@ != b@) by {
            if a@ == b@ {
                lemma_text_lt_irreflexive(a@);
            }
        }
        Placement::Before
    } else {
        if i < b.len() {
            assert(a@[i as int] != b@[i as int]);
        }
        assert(differs_at(b@, a@, i as int));
        proof {
            lemma_text_lt_asymmetric(b@, a@);
        }
        assert(a@ != b@) by {
            if a@ == b@ {
                lemma_text_lt_irreflexive(a@);
            }
        }
        Placement::After
    }
}

/// Two strictly sorted sequences with the same elements are the same sequence.
pub proof fn lemma_sorted_unique(a: Seq<Seq<char>>, b: Seq<Seq<char>>)
    requires
        strictly_sorted(a),
        strictly_sorted(b),
        a.to_set() == b.to_set(),
    ensures
        a == b,
    decreases a.len() + b.len(),
{
    if a.len() == 0 {
        if b.len() > 0 {
            assert(b.to_set().contains(b[0]));
        }
        assert(b =~= a);
    } else if b.len() == 0 {
        assert(a.to_set().contains(a[0]));
    } else {
        assert(a.to_set().contains(a[0]));
        assert(b.to_set().contains(b[0]));
        let j = choose|j: int| 0 <= j < b.len() && b[j] == a[0];
        let i = choose|i: int| 0 <= i < a.len() && a[i] == b[0];
        if i > 0 && j > 0 {
            assert(text_lt(a[0], a[i]));
            assert(text_lt(b[0], b[j]));
            lemma_text_lt_asymmetric(a[0], b[0]);
        } else if i > 0 {
            assert(text_lt(a[0], a[i]));
            lemma_text_lt_irreflexive(a[0]);
        } else if j > 0 {
            assert(text_lt(b[0], b[j]));
            lemma_text_lt_irreflexive(b[0]);
        }
        assert(a[0] == b[0]);
        let a1 = a.drop_first();
        let b1 = b.drop_first();
        assert(strictly_sorted(a1)) by {
            assert forall|x: int, y: int| 0 <= x < y < a1.len() implies text_lt(
                #[trigger] a1[x],
                #[trigger] a1[y],
            ) by {
                assert(a1[x] == a[x + 1] && a1[y] == a[y + 1]);
            }
        }
        assert(strictly_sorted(b1)) by {
            assert forall|x: int, y: int| 0 <= x < y < b1.len() implies text_lt(
                #[trigger] b1[x],
                #[trigger] b1[y],
            ) by {
                assert(b1[x] == b[x + 1] && b1[y] == b[y + 1]);
            }
        }
        assert(a1.to_set() =~= b1.to_set()) by {
            assert forall|x: Seq<char>| a1.to_set().contains(x) implies b1.to_set().contains(x) by {
                let k = choose|k: int| 0 <= k < a1.len() && a1[k] == x;
                assert(a.to_set().contains(x)) by {
                    assert(a[k + 1] == x);
                }
                let m = choose|m: int| 0 <= m < b.len() && b[m] == x;
                if m == 0 {
                    assert(text_lt(a[0], a[k + 1]));
                    lemma_text_lt_irreflexive(a[0]);
                }
                assert(b1[m - 1] == x);
            }
            assert forall|x: Seq<char>| b1.to_set().contains(x) implies a1.to_set().contains(x) by {
                let k = choose|k: int| 0 <= k < b1.len() && b1[k] == x;
                assert(b.to_set().contains(x)) by {
                    assert(b[k + 1] == x);
                }
                let m = choose|m: int| 0 <= m < a.len() && a[m] == x;
                if m == 0 {
                    assert(text_lt(b[0], b[k + 1]));
                    lemma_text_lt_irreflexive(b[0]);
                }
                assert(a1[m - 1] == x);
            }
        }
        lemma_sorted_unique(a1, b1);
        assert(a =~= seq![a[0]] + a1);
        assert(b =~= seq![b[0]] + b1);
    }
}

} // verus!
