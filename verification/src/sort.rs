//! Ordering of manifests, workflow files and packages, and the stable
//! insertion sort that applies it.

use vstd::multiset::Multiset;
use vstd::prelude::*;

verus! {

broadcast use {vstd::seq_lib::group_to_multiset_ensures, vstd::multiset::group_multiset_axioms};

/// Items that can be sorted: `key_le` is a total preorder and `le` decides
/// it.
pub trait SortKey: Sized {
    spec fn key_le(&self, other: &Self) -> bool;

    proof fn lemma_key_total(a: &Self, b: &Self)
        ensures
            a.key_le(b) || b.key_le(a),
    ;

    proof fn lemma_key_transitive(a: &Self, b: &Self, c: &Self)
        requires
            a.key_le(b),
            b.key_le(c),
        ensures
            a.key_le(c),
    ;

    fn le(&self, other: &Self) -> (r: bool)
        ensures
            r == self.key_le(other),
    ;
}

/// Whether `s` is in ascending order.
pub open spec fn is_sorted<T: SortKey>(s: Seq<T>) -> bool {
    forall|i: int, j: int| #![trigger s[i], s[j]] 0 <= i < j < s.len() ==> s[i].key_le(&s[j])
}

/// Whether `s` is in ascending order by `le`.
pub open spec fn sorted_by<T>(s: Seq<T>, le: spec_fn(T, T) -> bool) -> bool {
    forall|i: int, j: int| #![trigger s[i], s[j]] 0 <= i < j < s.len() ==> le(s[i], s[j])
}

/// Two orderings by `le` of the same items are one sequence when no two
/// different items tie.
pub proof fn lemma_sorted_by_is_unique<T>(a: Seq<T>, b: Seq<T>, le: spec_fn(T, T) -> bool)
    requires
        a.to_multiset() == b.to_multiset(),
        sorted_by(a, le),
        sorted_by(b, le),
        forall|x: T, y: T| a.contains(x) && a.contains(y) && le(x, y) && le(y, x) ==> x == y,
    ensures
        a == b,
    decreases a.len(),
{
    assert(a.len() == a.to_multiset().len());
    assert(b.len() == b.to_multiset().len());
    if a.len() == 0 {
        assert(b =~= a);
    } else {
        assert(a.contains(a[0]));
        assert(a.to_multiset().count(a[0]) > 0);
        assert(b.contains(a[0]));
        let j = choose|j: int| 0 <= j < b.len() && b[j] == a[0];
        assert(b.contains(b[0]));
        assert(b.to_multiset().count(b[0]) > 0);
        assert(a.contains(b[0]));
        let i = choose|i: int| 0 <= i < a.len() && a[i] == b[0];
        if i > 0 && j > 0 {
            assert(le(a[0], a[i]));
            assert(le(b[0], b[j]));
        }
        assert(a[0] == b[0]);
        let a1 = a.drop_first();
        let b1 = b.drop_first();
        assert(a.remove(0) =~= a1);
        assert(b.remove(0) =~= b1);
        assert(a1.to_multiset() == a.to_multiset().remove(a[0]));
        assert(b1.to_multiset() == b.to_multiset().remove(b[0]));
        assert forall|x: T, y: T|
            a1.contains(x) && a1.contains(y) && le(x, y) && le(y, x) implies x == y by {
            let p = choose|p: int| 0 <= p < a1.len() && a1[p] == x;
            let q = choose|q: int| 0 <= q < a1.len() && a1[q] == y;
            assert(a[p + 1] == x && a[q + 1] == y);
            assert(a.contains(x) && a.contains(y));
        }
        assert forall|p: int, q: int| 0 <= p < q < a1.len() implies le(#[trigger] a1[p], #[trigger] a1[q]) by {
            assert(a1[p] == a[p + 1] && a1[q] == a[q + 1]);
        }
        assert forall|p: int, q: int| 0 <= p < q < b1.len() implies le(#[trigger] b1[p], #[trigger] b1[q]) by {
            assert(b1[p] == b[p + 1] && b1[q] == b[q + 1]);
        }
        lemma_sorted_by_is_unique(a1, b1, le);
        assert(a =~= b) by {
            assert forall|k: int| 0 <= k < a.len() implies a[k] == b[k] by {
                if k > 0 {
                    assert(a[k] == a1[k - 1] && b[k] == b1[k - 1]);
                }
            }
        }
    }
}

/// Items of equal multisets, each mapped by `f`, have equal multisets.
pub proof fn lemma_map_values_multiset<A, B>(a: Seq<A>, b: Seq<A>, f: spec_fn(A) -> B)
    requires
        a.to_multiset() == b.to_multiset(),
    ensures
        a.map_values(f).to_multiset() == b.map_values(f).to_multiset(),
    decreases a.len(),
{
    assert(a.len() == a.to_multiset().len());
    assert(b.len() == b.to_multiset().len());
    if a.len() == 0 {
        assert(b.map_values(f) =~= a.map_values(f));
    } else {
        let x = a.last();
        assert(a.contains(x)) by {
            assert(a[a.len() - 1] == x);
        }
        assert(a.to_multiset().count(x) > 0);
        assert(b.contains(x));
        let j = choose|j: int| 0 <= j < b.len() && b[j] == x;
        let a0 = a.drop_last();
        let b0 = b.remove(j);
        assert(a.remove(a.len() - 1) =~= a0);
        assert(a0.to_multiset() == a.to_multiset().remove(x));
        assert(b0.to_multiset() == b.to_multiset().remove(x));
        lemma_map_values_multiset(a0, b0, f);
        assert(a.map_values(f) =~= a0.map_values(f).push(f(x)));
        assert(b.map_values(f).remove(j) =~= b0.map_values(f));
        assert(b.map_values(f)[j] == f(x));
        assert(b.map_values(f).remove(j).to_multiset() == b.map_values(f).to_multiset().remove(f(x)));
        assert(b.map_values(f).contains(f(x))) by {
            assert(b.map_values(f)[j] == f(x));
        }
        assert(b.map_values(f).to_multiset().count(f(x)) > 0);
        assert(b.map_values(f).to_multiset() =~= b0.map_values(f).to_multiset().insert(f(x)));
    }
}

proof fn lemma_insert_multiset<T>(s: Seq<T>, pos: int, x: T)
    requires
        0 <= pos <= s.len(),
    ensures
        s.insert(pos, x).to_multiset() =~= s.to_multiset().insert(x),
{
    let t = s.insert(pos, x);
    assert(t.remove(pos) =~= s);
    assert(t[pos] == x);
    assert(t.contains(x));
    assert(t.to_multiset().count(x) > 0);
}

/// Sorts `items` stably: equal keys keep their order.
pub fn insertion_sort<T: SortKey>(items: Vec<T>) -> (r: Vec<T>)
    ensures
        r@.to_multiset() == items@.to_multiset(),
        is_sorted(r@),
{
    let ghost input = items@;
    let mut rest = items;
    let mut sorted: Vec<T> = Vec::new();
    assert(sorted@.to_multiset() =~= Multiset::empty());
    while rest.len() > 0
        invariant
            sorted@.to_multiset().add(rest@.to_multiset()) == input.to_multiset(),
            is_sorted(sorted@),
        decreases rest@.len(),
    {
        let ghost before_rest = rest@;
        let x = rest.remove(0);
        assert(before_rest.remove(0).to_multiset() == before_rest.to_multiset().remove(x));
        assert(before_rest.to_multiset().count(x) > 0) by {
            assert(before_rest.contains(x));
        }
        let mut pos = sorted.len();
        while pos > 0 && !sorted[pos - 1].le(&x)
            invariant
                pos <= sorted@.len(),
                forall|k: int| pos <= k < sorted@.len() ==> !(#[trigger] sorted@[k]).key_le(&x),
            decreases pos,
        {
            pos = pos - 1;
        }
        let ghost before = sorted@;
        proof {
            lemma_insert_multiset(before, pos as int, x);
        }
        sorted.insert(pos, x);
        assert(sorted@ == before.insert(pos as int, x));
        assert forall|i: int, j: int|
            #![trigger sorted@[i], sorted@[j]]
            0 <= i < j < sorted@.len() implies sorted@[i].key_le(&sorted@[j]) by {
            if j < pos {
                assert(sorted@[i] == before[i] && sorted@[j] == before[j]);
            } else if j == pos {
                assert(sorted@[i] == before[i]);
                if i < pos - 1 {
                    T::lemma_key_transitive(&before[i], &before[pos - 1], &x);
                }
            } else if i == pos {
                assert(sorted@[j] == before[j - 1]);
                T::lemma_key_total(&before[j - 1], &x);
            } else if i < pos {
                assert(sorted@[i] == before[i] && sorted@[j] == before[j - 1]);
                T::lemma_key_total(&before[j - 1], &x);
                if i < pos - 1 {
                    T::lemma_key_transitive(&before[i], &before[pos - 1], &x);
                }
                T::lemma_key_transitive(&before[i], &x, &before[j - 1]);
            } else {
                assert(sorted@[i] == before[i - 1] && sorted@[j] == before[j - 1]);
            }
        }
        assert(sorted@.to_multiset().add(rest@.to_multiset()) =~= input.to_multiset());
    }
    assert(rest@.to_multiset() =~= Multiset::empty());
    assert(sorted@.to_multiset().add(rest@.to_multiset()) =~= sorted@.to_multiset());
    sorted
}

/// Whether `x` comes before `y`; with `slash_first`, `/` comes before every
/// other character, as path components compare.
pub open spec fn char_lt(x: char, y: char, slash_first: bool) -> bool {
    if slash_first && y == '/' {
        false
    } else if slash_first && x == '/' {
        true
    } else {
        x < y
    }
}

/// Lexicographic order of text by character weight. Without `slash_first`
/// this is the order of `str` (UTF-8 bytes compare as code points do); with
/// it, the order of paths compared component by component.
pub open spec fn text_le(a: Seq<char>, b: Seq<char>, slash_first: bool) -> bool
    decreases a.len(),
{
    if a.len() == 0 {
        true
    } else if b.len() == 0 {
        false
    } else if char_lt(a[0], b[0], slash_first) {
        true
    } else if char_lt(b[0], a[0], slash_first) {
        false
    } else {
        text_le(a.drop_first(), b.drop_first(), slash_first)
    }
}

pub proof fn lemma_text_le_total(a: Seq<char>, b: Seq<char>, slash_first: bool)
    ensures
        text_le(a, b, slash_first) || text_le(b, a, slash_first),
    decreases a.len(),
{
    if a.len() > 0 && b.len() > 0 {
        lemma_text_le_total(a.drop_first(), b.drop_first(), slash_first);
    }
}

pub proof fn lemma_text_le_transitive(a: Seq<char>, b: Seq<char>, c: Seq<char>, slash_first: bool)
    requires
        text_le(a, b, slash_first),
        text_le(b, c, slash_first),
    ensures
        text_le(a, c, slash_first),
    decreases a.len(),
{
    if a.len() > 0 && b.len() > 0 && c.len() > 0 {
        if a[0] == b[0] && b[0] == c[0] {
            lemma_text_le_transitive(a.drop_first(), b.drop_first(), c.drop_first(), slash_first);
        }
    }
}

pub proof fn lemma_text_le_antisymmetric(a: Seq<char>, b: Seq<char>, slash_first: bool)
    requires
        text_le(a, b, slash_first),
        text_le(b, a, slash_first),
    ensures
        a == b,
    decreases a.len(),
{
    if a.len() > 0 && b.len() > 0 {
        lemma_text_le_antisymmetric(a.drop_first(), b.drop_first(), slash_first);
        assert(a[0] == b[0]);
        assert(a =~= seq![a[0]] + a.drop_first());
        assert(b =~= seq![b[0]] + b.drop_first());
    }
}

fn char_rank_lt(x: char, y: char, slash_first: bool) -> (r: bool)
    ensures
        r == char_lt(x, y, slash_first),
{
    if slash_first && y == '/' {
        false
    } else if slash_first && x == '/' {
        true
    } else {
        x < y
    }
}

/// Decides `text_le(a, b, slash_first)`.
pub fn chars_le(a: &Vec<char>, b: &Vec<char>, slash_first: bool) -> (r: bool)
    ensures
        r == text_le(a@, b@, slash_first),
{
    let mut i: usize = 0;
    assert(a@.skip(0) =~= a@);
    assert(b@.skip(0) =~= b@);
    while i < a.len() && i < b.len()
        invariant
            i <= a@.len(),
            i <= b@.len(),
            text_le(a@, b@, slash_first) == text_le(a@.skip(i as int), b@.skip(i as int), slash_first),
        decreases a@.len() - i,
    {
        let x = a[i];
        let y = b[i];
        if char_rank_lt(x, y, slash_first) {
            return true;
        }
        if char_rank_lt(y, x, slash_first) {
            return false;
        }
        assert(a@.skip(i as int).drop_first() =~= a@.skip(i + 1));
        assert(b@.skip(i as int).drop_first() =~= b@.skip(i + 1));
        i = i + 1;
    }
    i >= a.len()
}

} // verus!
