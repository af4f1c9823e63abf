//! Orders on values, stable sorting, and searching in sorted lists of texts.

use crate::text::{chars_of, same_text};
use vstd::prelude::*;
use vstd::string::*;

verus! {

/// An order of the items of a list, in which items may be of equal rank.
pub trait Order<T> {
    /// `a` ranks before `b`.
    spec fn before(a: T, b: T) -> bool;

    /// Of two items at most one ranks before the other.
    proof fn one_way(a: T, b: T)
        ensures
            Self::before(a, b) ==> !Self::before(b, a),
    ;

    /// Not to rank before is transitive.
    proof fn chain(a: T, b: T, c: T)
        ensures
            !Self::before(a, b) && !Self::before(b, c) ==> !Self::before(a, c),
    ;

    /// Whether `a` ranks before `b`.
    fn ranks_before(a: &T, b: &T) -> (r: bool)
        ensures
            r == Self::before(*a, *b),
    ;
}

/// `r` holds the items of `s`, each from the position that `p` gives, in rank order, and items of
/// equal rank in the order that they have in `s`.
pub open spec fn arranged<T, O: Order<T>>(s: Seq<T>, r: Seq<T>, p: Seq<int>) -> bool {
    &&& p.len() == s.len()
    &&& r.len() == s.len()
    &&& p.no_duplicates()
    &&& forall|i: int| 0 <= i < p.len() ==> 0 <= #[trigger] p[i] < s.len() && r[i] == s[p[i]]
    &&& forall|i: int, j: int|
        0 <= i < j < r.len() ==> O::before(#[trigger] r[i], #[trigger] r[j]) || (!O::before(
            r[j],
            r[i],
        ) && p[i] < p[j])
}

/// `r` is `s`, sorted by rank, with items of equal rank left in order.
pub open spec fn sorted_from<T, O: Order<T>>(s: Seq<T>, r: Seq<T>) -> bool {
    exists|p: Seq<int>| arranged::<T, O>(s, r, p)
}

/// Where an item from before the sorted ones goes.
fn place<T, O: Order<T>>(r: &Vec<T>, x: &T) -> (q: usize)
    requires
        forall|i: int, j: int| 0 <= i < j < r@.len() ==> !O::before(#[trigger] r@[j], #[trigger] r@[i]),
    ensures
        q <= r@.len(),
        forall|i: int| 0 <= i < q ==> O::before(#[trigger] r@[i], *x),
        forall|j: int| q <= j < r@.len() ==> !O::before(#[trigger] r@[j], *x),
{
    let mut q: usize = 0;
    while q < r.len()
        invariant
            q <= r@.len(),
            forall|i: int| 0 <= i < q ==> O::before(#[trigger] r@[i], *x),
            forall|i: int, j: int|
                0 <= i < j < r@.len() ==> !O::before(#[trigger] r@[j], #[trigger] r@[i]),
        decreases r@.len() - q,
    {
        if !O::ranks_before(&r[q], x) {
            assert forall|j: int| q <= j < r@.len() implies !O::before(#[trigger] r@[j], *x) by {
                if j > q {
                    assert(!O::before(r@[j], r@[q as int]));
                    O::chain(r@[j], r@[q as int], *x);
                }
            }
            return q;
        }
        q = q + 1;
    }
    q
}

/// Sorts by rank and leaves items of equal rank in order.
pub fn sort_stable<T, O: Order<T>>(items: Vec<T>) -> (r: Vec<T>)
    ensures
        sorted_from::<T, O>(items@, r@),
{
    let mut v = items;
    let ghost s = v@;
    let ghost mut p: Seq<int> = Seq::empty();
    let mut r: Vec<T> = Vec::new();
    while v.len() > 0
        invariant
            v@.len() <= s.len(),
            v@ == s.take(v@.len() as int),
            r@.len() == s.len() - v@.len(),
            p.len() == r@.len(),
            p.no_duplicates(),
            forall|i: int|
                0 <= i < p.len() ==> v@.len() <= #[trigger] p[i] < s.len() && r@[i] == s[p[i]],
            forall|i: int, j: int|
                0 <= i < j < r@.len() ==> O::before(#[trigger] r@[i], #[trigger] r@[j]) || (
                !O::before(r@[j], r@[i]) && p[i] < p[j]),
        decreases v@.len(),
    {
        let ghost k = v@.len() - 1;
        let x = v.pop().unwrap();
        let ghost r0 = r@;
        let ghost p0 = p;
        assert(x == s[k]);
        assert forall|i: int, j: int| 0 <= i < j < r@.len() implies !O::before(
            #[trigger] r@[j],
            #[trigger] r@[i],
        ) by {
            O::one_way(r@[i], r@[j]);
        }
        let q = place::<T, O>(&r, &x);
        r.insert(q, x);
        proof {
            p = p.insert(q as int, k);
            assert(v@ =~= s.take(v@.len() as int));
            assert forall|i: int| 0 <= i < p.len() implies v@.len() <= #[trigger] p[i] < s.len()
                && r@[i] == s[p[i]] by {
                if i < q {
                    assert(p[i] == p0[i]);
                } else if i > q {
                    assert(p[i] == p0[i - 1]);
                }
            }
            assert(p.no_duplicates()) by {
                assert forall|i: int, j: int| 0 <= i < p.len() && 0 <= j < p.len() && i != j implies p[i]
                    != p[j] by {
                    let a = if i < q { i } else { i - 1 };
                    let b = if j < q { j } else { j - 1 };
                    if i != q {
                        assert(p[i] == p0[a]);
                    }
                    if j != q {
                        assert(p[j] == p0[b]);
                    }
                }
            }
            assert forall|i: int, j: int| 0 <= i < j < r@.len() implies O::before(
                #[trigger] r@[i],
                #[trigger] r@[j],
            ) || (!O::before(r@[j], r@[i]) && p[i] < p[j]) by {
                let a = if i < q { i } else { i - 1 };
                let b = if j < q { j } else { j - 1 };
                if i != q {
                    assert(r@[i] == r0[a] && p[i] == p0[a]);
                }
                if j != q {
                    assert(r@[j] == r0[b] && p[j] == p0[b]);
                }
            }
        }
    }
    proof {
        assert(arranged::<T, O>(s, r@, p));
    }
    r
}

/// `a` comes before `b` in the order of the characters' code points.
pub open spec fn text_less(a: Seq<char>, b: Seq<char>) -> bool
    decreases a.len(),
{
    if b.len() == 0 {
        false
    } else if a.len() == 0 {
        true
    } else {
        a[0] < b[0] || (a[0] == b[0] && text_less(a.skip(1), b.skip(1)))
    }
}

/// The order of texts is total.
pub proof fn lemma_text_less_total(a: Seq<char>, b: Seq<char>)
    ensures
        a == b ==> !text_less(a, b),
        a != b ==> (text_less(a, b) <==> !text_less(b, a)),
    decreases a.len(),
{
    if a.len() > 0 && b.len() > 0 {
        lemma_text_less_total(a.skip(1), b.skip(1));
        if a[0] == b[0] && a.skip(1) == b.skip(1) {
            assert(a =~= seq![a[0]] + a.skip(1));
            assert(b =~= seq![b[0]] + b.skip(1));
        }
    } else if a.len() == 0 && b.len() == 0 {
        assert(a =~= b);
    }
}

/// The order of texts is transitive.
pub proof fn lemma_text_less_trans(a: Seq<char>, b: Seq<char>, c: Seq<char>)
    requires
        text_less(a, b),
        text_less(b, c),
    ensures
        text_less(a, c),
    decreases a.len(),
{
    if a.len() > 0 && b.len() > 0 && c.len() > 0 && a[0] == b[0] && b[0] == c[0] {
        lemma_text_less_trans(a.skip(1), b.skip(1), c.skip(1));
    }
}

/// Whether `a` comes before `b`.
pub fn precedes(a: &str, b: &str) -> (r: bool)
    ensures
        r == text_less(a@, b@),
{
    let x = chars_of(a);
    let y = chars_of(b);
    let mut i: usize = 0;
    assert(a@.skip(0) =~= a@);
    assert(b@.skip(0) =~= b@);
    loop
        invariant
            x@ == a@,
            y@ == b@,
            i <= a@.len(),
            i <= b@.len(),
            text_less(a@, b@) == text_less(a@.skip(i as int), b@.skip(i as int)),
        decreases a@.len() - i,
    {
        if i >= y.len() {
            return false;
        }
        if i >= x.len() {
            return true;
        }
        if x[i] != y[i] {
            return x[i] < y[i];
        }
        assert(a@.skip(i as int).skip(1) =~= a@.skip(i + 1));
        assert(b@.skip(i as int).skip(1) =~= b@.skip(i + 1));
        i = i + 1;
    }
}

/// The texts stand in order, equal ones side by side.
pub open spec fn in_text_order(s: Seq<Seq<char>>) -> bool {
    forall|i: int, j: int| 0 <= i < j < s.len() ==> !text_less(#[trigger] s[j], #[trigger] s[i])
}

/// What a search in a list of texts finds: the first position of the text, or the position at which
/// it would be inserted.
pub enum Found {
    At(usize),
    Missing(usize),
}

/// Searches a sorted list of texts by halving.
pub fn search(names: &Vec<String>, name: &str) -> (r: Found)
    requires
        in_text_order(crate::text::texts(names@)),
    ensures
        match r {
            Found::At(k) => {
                &&& k < names@.len()
                &&& names@[k as int]@ == name@
                &&& forall|i: int| 0 <= i < k ==> text_less(#[trigger] names@[i]@, name@)
            },
            Found::Missing(k) => {
                &&& k <= names@.len()
                &&& forall|i: int| 0 <= i < k ==> text_less(#[trigger] names@[i]@, name@)
                &&& forall|i: int|
                    k <= i < names@.len() ==> text_less(name@, #[trigger] names@[i]@)
            },
        },
{
    let ghost s = crate::text::texts(names@);
    let mut lo: usize = 0;
    let mut hi: usize = names.len();
    while lo < hi
        invariant
            lo <= hi <= names@.len(),
            s == crate::text::texts(names@),
            in_text_order(s),
            forall|i: int| 0 <= i < lo ==> text_less(#[trigger] names@[i]@, name@),
            forall|i: int| hi <= i < names@.len() ==> !text_less(#[trigger] names@[i]@, name@),
        decreases hi - lo,
    {
        let mid = lo + (hi - lo) / 2;
        if precedes(names[mid].as_str(), name) {
            proof {
                assert forall|i: int| 0 <= i < mid + 1 implies text_less(
                    #[trigger] names@[i]@,
                    name@,
                ) by {
                    if lo <= i < mid {
                        assert(!text_less(s[mid as int], s[i]));
                        lemma_text_less_total(s[mid as int], s[i]);
                        if s[i] != s[mid as int] {
                            lemma_text_less_trans(s[i], s[mid as int], name@);
                        }
                    }
                }
            }
            lo = mid + 1;
        } else {
            proof {
                assert forall|i: int| mid <= i < names@.len() implies !text_less(
                    #[trigger] names@[i]@,
                    name@,
                ) by {
                    if mid < i < hi {
                        assert(!text_less(s[i], s[mid as int]));
                        lemma_text_less_total(s[mid as int], s[i]);
                        if s[i] != s[mid as int] && text_less(s[i], name@) {
                            lemma_text_less_trans(s[mid as int], s[i], name@);
                        }
                    }
                }
            }
            hi = mid;
        }
    }
    if lo < names.len() && same_text(names[lo].as_str(), name) {
        return Found::At(lo);
    }
    proof {
        assert forall|i: int| lo <= i < names@.len() implies text_less(
            name@,
            #[trigger] names@[i]@,
        ) by {
            lemma_text_less_total(name@, names@[i]@);
            if names@[i]@ == name@ {
                assert(!text_less(s[i], s[lo as int]));
                lemma_text_less_total(s[i], s[lo as int]);
            }
        }
    }
    Found::Missing(lo)
}

/// Texts are ordered by the first character in which they differ, and a text comes before every
/// longer one that begins with it.
pub proof fn law_texts_are_ordered_by_their_first_difference(
    common: Seq<char>,
    a: Seq<char>,
    b: Seq<char>,
)
    requires
        a.len() == 0 || b.len() == 0 || a[0] != b[0],
    ensures
        text_less(common + a, common + b) <==> b.len() > 0 && (a.len() == 0 || a[0] < b[0]),
    decreases common.len(),
{
    if common.len() == 0 {
        assert(common + a =~= a);
        assert(common + b =~= b);
    } else {
        let rest = common.skip(1);
        law_texts_are_ordered_by_their_first_difference(rest, a, b);
        assert((common + a)[0] == common[0] && (common + b)[0] == common[0]);
        assert((common + a).skip(1) =~= rest + a);
        assert((common + b).skip(1) =~= rest + b);
    }
}

} // verus!
