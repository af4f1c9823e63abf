//! Which Discord user is which Minecraft player.

use crate::order;
use crate::order::{precedes, search, sort_stable, Found, Order};
use crate::text;
use vstd::prelude::*;

verus! {

/// Linked accounts, sorted by player name: the names, and at the same positions the Discord users.
#[derive(Debug)]
pub struct Accounts {
    names: Vec<String>,
    ids: Vec<u64>,
}

/// The Discord user of the first entry with the name.
pub open spec fn dc_of(a: Seq<(Seq<char>, u64)>, mc: Seq<char>) -> Option<u64>
    decreases a.len(),
{
    if a.len() == 0 {
        None
    } else if a[0].0 == mc {
        Some(a[0].1)
    } else {
        dc_of(a.skip(1), mc)
    }
}

/// The name in the first entry with the Discord user.
pub open spec fn mc_of(a: Seq<(Seq<char>, u64)>, id: u64) -> Option<Seq<char>>
    decreases a.len(),
{
    if a.len() == 0 {
        None
    } else if a[0].1 == id {
        Some(a[0].0)
    } else {
        mc_of(a.skip(1), id)
    }
}

/// The accounts without the first entry of a Discord user.
pub open spec fn without_id(a: Seq<(Seq<char>, u64)>, id: u64) -> Seq<(Seq<char>, u64)>
    decreases a.len(),
{
    if a.len() == 0 {
        a
    } else if a[0].1 == id {
        a.skip(1)
    } else {
        seq![a[0]] + without_id(a.skip(1), id)
    }
}

/// The accounts without the first entry of a name.
pub open spec fn without_name(a: Seq<(Seq<char>, u64)>, mc: Seq<char>) -> Seq<(Seq<char>, u64)>
    decreases a.len(),
{
    if a.len() == 0 {
        a
    } else if a[0].0 == mc {
        a.skip(1)
    } else {
        seq![a[0]] + without_name(a.skip(1), mc)
    }
}

/// Sorted accounts with one more entry in its place, or as they are where the name is there
/// already.
pub open spec fn with_account(a: Seq<(Seq<char>, u64)>, mc: Seq<char>, id: u64) -> Seq<
    (Seq<char>, u64),
>
    decreases a.len(),
{
    if a.len() == 0 || order::text_less(mc, a[0].0) {
        seq![(mc, id)] + a
    } else if a[0].0 == mc {
        a
    } else {
        seq![a[0]] + with_account(a.skip(1), mc, id)
    }
}

/// The accounts once a Discord user is linked with a name.
pub open spec fn connected(a: Seq<(Seq<char>, u64)>, id: u64, mc: Seq<char>) -> Seq<
    (Seq<char>, u64),
> {
    with_account(without_id(a, id), mc, id)
}

/// The accounts once a Discord user is linked with no name.
pub open spec fn disconnected(a: Seq<(Seq<char>, u64)>, id: u64) -> Seq<(Seq<char>, u64)> {
    match mc_of(a, id) {
        Some(mc) => without_name(a, mc),
        None => a,
    }
}

/// The entries stand in the order of their names.
pub open spec fn by_name(a: Seq<(Seq<char>, u64)>) -> bool {
    forall|i: int, j: int|
        0 <= i < j < a.len() ==> !order::text_less((#[trigger] a[j]).0, (#[trigger] a[i]).0)
}

/// No name and no Discord user stands in two entries.
pub open spec fn one_to_one(a: Seq<(Seq<char>, u64)>) -> bool {
    forall|i: int, j: int|
        0 <= i < a.len() && 0 <= j < a.len() && i != j ==> (#[trigger] a[i]).0 != (
        #[trigger] a[j]).0 && a[i].1 != a[j].1
}

/// Where the first entry with a name is, there its Discord user is found.
proof fn lemma_dc_of_at(a: Seq<(Seq<char>, u64)>, k: int, mc: Seq<char>)
    requires
        0 <= k <= a.len(),
        forall|i: int| 0 <= i < k ==> (#[trigger] a[i]).0 != mc,
    ensures
        k == a.len() ==> dc_of(a, mc) is None,
        k < a.len() && a[k].0 == mc ==> dc_of(a, mc) == Some(a[k].1) && without_name(a, mc)
            == a.remove(k),
        k == a.len() ==> without_name(a, mc) == a,
    decreases a.len(),
{
    if a.len() > 0 {
        if k > 0 {
            assert forall|i: int| 0 <= i < k - 1 implies (#[trigger] a.skip(1)[i]).0 != mc by {
                assert(a.skip(1)[i] == a[i + 1]);
            }
            assert(a[0].0 != mc);
            lemma_dc_of_at(a.skip(1), k - 1, mc);
            if k < a.len() && a[k].0 == mc {
                assert(seq![a[0]] + a.skip(1).remove(k - 1) =~= a.remove(k));
            }
            assert(seq![a[0]] + a.skip(1) =~= a);
        } else {
            assert(a.skip(1) =~= a.remove(0));
        }
    }
}

/// Where the first entry with a Discord user is, there its name is found.
proof fn lemma_mc_of_at(a: Seq<(Seq<char>, u64)>, k: int, id: u64)
    requires
        0 <= k <= a.len(),
        forall|i: int| 0 <= i < k ==> (#[trigger] a[i]).1 != id,
    ensures
        k == a.len() ==> mc_of(a, id) is None,
        k < a.len() && a[k].1 == id ==> mc_of(a, id) == Some(a[k].0) && without_id(a, id)
            == a.remove(k),
        k == a.len() ==> without_id(a, id) == a,
    decreases a.len(),
{
    if a.len() > 0 {
        if k > 0 {
            assert forall|i: int| 0 <= i < k - 1 implies (#[trigger] a.skip(1)[i]).1 != id by {
                assert(a.skip(1)[i] == a[i + 1]);
            }
            assert(a[0].1 != id);
            lemma_mc_of_at(a.skip(1), k - 1, id);
            if k < a.len() && a[k].1 == id {
                assert(seq![a[0]] + a.skip(1).remove(k - 1) =~= a.remove(k));
            }
            assert(seq![a[0]] + a.skip(1) =~= a);
        } else {
            assert(a.skip(1) =~= a.remove(0));
        }
    }
}

/// Where the names before are less and the names from there on are greater, there the entry goes.
proof fn lemma_with_account_at(a: Seq<(Seq<char>, u64)>, k: int, mc: Seq<char>, id: u64)
    requires
        0 <= k <= a.len(),
        forall|i: int| 0 <= i < k ==> order::text_less((#[trigger] a[i]).0, mc),
    ensures
        k == a.len() || order::text_less(mc, a[k].0) ==> with_account(a, mc, id) == a.insert(
            k,
            (mc, id),
        ),
        k < a.len() && a[k].0 == mc ==> with_account(a, mc, id) == a,
    decreases a.len(),
{
    if k > 0 {
        order::lemma_text_less_total(a[0].0, mc);
        assert(order::text_less(a[0].0, mc));
        assert forall|i: int| 0 <= i < k - 1 implies order::text_less(
            (#[trigger] a.skip(1)[i]).0,
            mc,
        ) by {
            assert(a.skip(1)[i] == a[i + 1]);
        }
        lemma_with_account_at(a.skip(1), k - 1, mc, id);
        if k == a.len() || order::text_less(mc, a[k].0) {
            assert(seq![a[0]] + a.skip(1).insert(k - 1, (mc, id)) =~= a.insert(k, (mc, id)));
        }
        assert(seq![a[0]] + a.skip(1) =~= a);
    } else {
        if k < a.len() {
            order::lemma_text_less_total(mc, a[0].0);
        }
        assert(seq![(mc, id)] + a =~= a.insert(0, (mc, id)));
    }
}

/// What is found for a name stands in the accounts.
pub proof fn lemma_dc_of_holds(a: Seq<(Seq<char>, u64)>, mc: Seq<char>)
    ensures
        dc_of(a, mc) matches Some(id) ==> a.contains((mc, id)),
    decreases a.len(),
{
    if a.len() > 0 {
        lemma_dc_of_holds(a.skip(1), mc);
        if a[0].0 == mc {
            assert(a[0] == (mc, a[0].1));
        } else if let Some(id) = dc_of(a, mc) {
            let j = a.skip(1).index_of((mc, id));
            assert(a[j + 1] == (mc, id));
        }
    }
}

/// What is found for a Discord user stands in the accounts.
pub proof fn lemma_mc_of_holds(a: Seq<(Seq<char>, u64)>, id: u64)
    ensures
        mc_of(a, id) matches Some(mc) ==> a.contains((mc, id)),
    decreases a.len(),
{
    if a.len() > 0 {
        lemma_mc_of_holds(a.skip(1), id);
        if a[0].1 == id {
            assert(a[0] == (a[0].0, id));
        } else if let Some(mc) = mc_of(a, id) {
            let j = a.skip(1).index_of((mc, id));
            assert(a[j + 1] == (mc, id));
        }
    }
}

/// An entry of one-to-one accounts is found both ways.
pub proof fn lemma_entry_found(a: Seq<(Seq<char>, u64)>, mc: Seq<char>, id: u64)
    requires
        one_to_one(a),
        a.contains((mc, id)),
    ensures
        dc_of(a, mc) == Some(id),
        mc_of(a, id) == Some(mc),
{
    let k = a.index_of((mc, id));
    lemma_dc_of_at(a, k, mc);
    lemma_mc_of_at(a, k, id);
}

/// In one-to-one accounts, the entry of a Discord user is the entry of the user's name.
pub proof fn lemma_same_entry(a: Seq<(Seq<char>, u64)>, mc: Seq<char>, id: u64)
    requires
        one_to_one(a),
        mc_of(a, id) == Some(mc),
    ensures
        without_name(a, mc) == without_id(a, id),
{
    lemma_mc_of_holds(a, id);
    let k = a.index_of((mc, id));
    lemma_dc_of_at(a, k, mc);
    lemma_mc_of_at(a, k, id);
}

/// What is found once the entry of a Discord user is gone.
pub proof fn lemma_without_id(a: Seq<(Seq<char>, u64)>, id: u64, name: Seq<char>, other: u64)
    requires
        one_to_one(a),
        by_name(a),
    ensures
        one_to_one(without_id(a, id)),
        by_name(without_id(a, id)),
        forall|e: (Seq<char>, u64)| #[trigger] without_id(a, id).contains(e) ==> a.contains(e),
        mc_of(without_id(a, id), other) == if other == id {
            None
        } else {
            mc_of(a, other)
        },
        dc_of(without_id(a, id), name) == if mc_of(a, id) == Some(name) {
            None
        } else {
            dc_of(a, name)
        },
{
    let b = without_id(a, id);
    lemma_mc_of_holds(a, id);
    if let Some(mc) = mc_of(a, id) {
        let k = a.index_of((mc, id));
        lemma_mc_of_at(a, k, id);
        assert(b == a.remove(k));
        assert forall|i: int, j: int| 0 <= i < b.len() && 0 <= j < b.len() && i != j implies (
        #[trigger] b[i]).0 != (#[trigger] b[j]).0 && b[i].1 != b[j].1 by {
            let x = if i < k { i } else { i + 1 };
            let y = if j < k { j } else { j + 1 };
            assert(a[x] == b[i] && a[y] == b[j]);
        }
        assert forall|i: int, j: int| 0 <= i < j < b.len() implies !order::text_less(
            (#[trigger] b[j]).0,
            (#[trigger] b[i]).0,
        ) by {
            let x = if i < k { i } else { i + 1 };
            let y = if j < k { j } else { j + 1 };
            assert(!order::text_less(a[y].0, a[x].0));
        }
        assert forall|e: (Seq<char>, u64)| #[trigger] b.contains(e) implies a.contains(e) by {
            let i = b.index_of(e);
            let x = if i < k { i } else { i + 1 };
            assert(a[x] == e);
        }
        lemma_mc_of_holds(a, other);
        lemma_mc_of_holds(b, other);
        lemma_dc_of_holds(a, name);
        lemma_dc_of_holds(b, name);
        assert forall|e: (Seq<char>, u64)| #[trigger] a.contains(e) && e != a[k] implies b.contains(
            e,
        ) by {
            let x = a.index_of(e);
            let i = if x < k { x } else { x - 1 };
            assert(b[i] == e);
        }
        assert forall|e: (Seq<char>, u64)| #[trigger] b.contains(e) implies e.0 != mc && e.1 != id by {
            let i = b.index_of(e);
            let x = if i < k { i } else { i + 1 };
            assert(a[x] == e);
        }
        if let Some(found) = mc_of(a, other) {
            if other != id {
                lemma_entry_found(b, found, other);
            }
        }
        if let Some(found) = mc_of(b, other) {
            lemma_entry_found(a, found, other);
        }
        if let Some(found) = dc_of(a, name) {
            if name != mc {
                lemma_entry_found(b, name, found);
            }
        }
        if let Some(found) = dc_of(b, name) {
            lemma_entry_found(a, name, found);
        }
    } else {
        lemma_mc_of_none(a, id);
        lemma_mc_of_at(a, a.len() as int, id);
    }
}

/// A Discord user for whom nothing is found stands nowhere.
proof fn lemma_mc_of_none(a: Seq<(Seq<char>, u64)>, id: u64)
    requires
        mc_of(a, id) is None,
    ensures
        forall|i: int| 0 <= i < a.len() ==> (#[trigger] a[i]).1 != id,
    decreases a.len(),
{
    if a.len() > 0 {
        lemma_mc_of_none(a.skip(1), id);
        assert forall|i: int| 0 <= i < a.len() implies (#[trigger] a[i]).1 != id by {
            if i > 0 {
                assert(a.skip(1)[i - 1] == a[i]);
            }
        }
    }
}

/// A name for which nothing is found stands nowhere.
proof fn lemma_dc_of_none(a: Seq<(Seq<char>, u64)>, mc: Seq<char>)
    requires
        dc_of(a, mc) is None,
    ensures
        forall|i: int| 0 <= i < a.len() ==> (#[trigger] a[i]).0 != mc,
    decreases a.len(),
{
    if a.len() > 0 {
        lemma_dc_of_none(a.skip(1), mc);
        assert forall|i: int| 0 <= i < a.len() implies (#[trigger] a[i]).0 != mc by {
            if i > 0 {
                assert(a.skip(1)[i - 1] == a[i]);
            }
        }
    }
}

/// A new name has a place in sorted accounts.
proof fn lemma_place(a: Seq<(Seq<char>, u64)>, mc: Seq<char>) -> (k: int)
    requires
        by_name(a),
    ensures
        0 <= k <= a.len(),
        forall|i: int| 0 <= i < k ==> order::text_less((#[trigger] a[i]).0, mc),
        forall|i: int| k <= i < a.len() ==> !order::text_less((#[trigger] a[i]).0, mc),
    decreases a.len(),
{
    if a.len() == 0 {
        0
    } else if order::text_less(a.last().0, mc) {
        assert forall|i: int| 0 <= i < a.len() implies order::text_less((#[trigger] a[i]).0, mc) by {
            if i < a.len() - 1 {
                assert(!order::text_less(a[a.len() - 1].0, a[i].0));
                order::lemma_text_less_total(a[i].0, a.last().0);
                if a[i].0 != a.last().0 {
                    order::lemma_text_less_trans(a[i].0, a.last().0, mc);
                }
            }
        }
        a.len() as int
    } else {
        let b = a.drop_last();
        assert forall|i: int, j: int| 0 <= i < j < b.len() implies !order::text_less(
            (#[trigger] b[j]).0,
            (#[trigger] b[i]).0,
        ) by {
            assert(!order::text_less(a[j].0, a[i].0));
        }
        let k = lemma_place(b, mc);
        assert forall|i: int| 0 <= i < k implies order::text_less((#[trigger] a[i]).0, mc) by {
            assert(b[i] == a[i]);
        }
        assert forall|i: int| k <= i < a.len() implies !order::text_less((#[trigger] a[i]).0, mc) by {
            if i < b.len() {
                assert(b[i] == a[i]);
            }
        }
        k
    }
}

/// What is found once an entry of a new name and a new Discord user is there.
pub proof fn lemma_with_account(
    a: Seq<(Seq<char>, u64)>,
    mc: Seq<char>,
    id: u64,
    name: Seq<char>,
    other: u64,
)
    requires
        one_to_one(a),
        by_name(a),
        dc_of(a, mc) is None,
        mc_of(a, id) is None,
    ensures
        one_to_one(with_account(a, mc, id)),
        by_name(with_account(a, mc, id)),
        mc_of(with_account(a, mc, id), other) == if other == id {
            Some(mc)
        } else {
            mc_of(a, other)
        },
        dc_of(with_account(a, mc, id), name) == if name == mc {
            Some(id)
        } else {
            dc_of(a, name)
        },
{
    lemma_dc_of_none(a, mc);
    lemma_mc_of_none(a, id);
    let k = lemma_place(a, mc);
    assert forall|i: int| k <= i < a.len() implies order::text_less(mc, (#[trigger] a[i]).0) by {
        order::lemma_text_less_total(mc, a[i].0);
    }
    lemma_with_account_at(a, k, mc, id);
    let b = a.insert(k, (mc, id));
    assert(with_account(a, mc, id) == b);
    assert forall|i: int, j: int| 0 <= i < b.len() && 0 <= j < b.len() && i != j implies (
    #[trigger] b[i]).0 != (#[trigger] b[j]).0 && b[i].1 != b[j].1 by {
        let x = if i < k { i } else { i - 1 };
        let y = if j < k { j } else { j - 1 };
        if i != k {
            assert(b[i] == a[x]);
        }
        if j != k {
            assert(b[j] == a[y]);
        }
    }
    assert forall|i: int, j: int| 0 <= i < j < b.len() implies !order::text_less(
        (#[trigger] b[j]).0,
        (#[trigger] b[i]).0,
    ) by {
        let x = if i < k { i } else { i - 1 };
        let y = if j < k { j } else { j - 1 };
        if i == k {
            order::lemma_text_less_total(mc, a[y].0);
        } else if j == k {
            order::lemma_text_less_total(a[x].0, mc);
        } else {
            assert(!order::text_less(a[y].0, a[x].0));
        }
    }
    assert(b[k] == (mc, id));
    assert(b.contains((mc, id)));
    lemma_entry_found(b, mc, id);
    assert forall|e: (Seq<char>, u64)| #[trigger] a.contains(e) implies b.contains(e) by {
        let x = a.index_of(e);
        let i = if x < k { x } else { x + 1 };
        assert(b[i] == e);
    }
    assert forall|e: (Seq<char>, u64)| #[trigger] b.contains(e) && e != (mc, id) implies a.contains(
        e,
    ) by {
        let i = b.index_of(e);
        let x = if i < k { i } else { i - 1 };
        assert(a[x] == e);
    }
    lemma_mc_of_holds(a, other);
    lemma_mc_of_holds(b, other);
    lemma_dc_of_holds(a, name);
    lemma_dc_of_holds(b, name);
    if let Some(found) = mc_of(a, other) {
        lemma_entry_found(b, found, other);
    }
    if let Some(found) = mc_of(b, other) {
        if other != id {
            lemma_entry_found(a, found, other);
        }
    }
    if let Some(found) = dc_of(a, name) {
        lemma_entry_found(b, name, found);
    }
    if let Some(found) = dc_of(b, name) {
        if name != mc {
            lemma_entry_found(a, name, found);
        }
    }
}

/// Rearranged accounts hold the same entries.
pub proof fn lemma_rearranged_holds(
    s: Seq<(Seq<char>, u64)>,
    a: Seq<(Seq<char>, u64)>,
    p: Seq<int>,
)
    requires
        rearranged(s, a, p),
    ensures
        forall|e: (Seq<char>, u64)| #[trigger] a.contains(e) <==> s.contains(e),
{
    assert forall|e: (Seq<char>, u64)| #[trigger] a.contains(e) <==> s.contains(e) by {
        if a.contains(e) {
            let i = a.index_of(e);
            assert(s[p[i]] == e);
        }
        if s.contains(e) {
            let j = s.index_of(e);
            lemma_all_positions(p, s.len() as int, j);
            let i = p.index_of(j);
            assert(a[i] == e);
        }
    }
}

/// As many distinct positions as there are leave none out.
proof fn lemma_all_positions(p: Seq<int>, n: int, j: int)
    requires
        p.no_duplicates(),
        p.len() == n,
        forall|i: int| 0 <= i < n ==> 0 <= #[trigger] p[i] < n,
        0 <= j < n,
    ensures
        p.contains(j),
{
    if !p.contains(j) {
        let all = vstd::set_lib::set_int_range(0, n);
        vstd::set_lib::lemma_int_range(0, n);
        p.unique_seq_to_set();
        assert(p.to_set().subset_of(all.remove(j))) by {
            assert forall|x: int| #[trigger] p.to_set().contains(x) implies all.remove(j).contains(
                x,
            ) by {
                assert(p.contains(x));
                let i = p.index_of(x);
                assert(0 <= p[i] < n);
            }
        }
        vstd::set_lib::lemma_len_subset(p.to_set(), all.remove(j));
    }
}

/// The order of names.
pub struct ByName;

impl Order<(String, u64)> for ByName {
    open spec fn before(a: (String, u64), b: (String, u64)) -> bool {
        order::text_less(a.0@, b.0@)
    }

    proof fn one_way(a: (String, u64), b: (String, u64)) {
        order::lemma_text_less_total(a.0@, b.0@);
    }

    proof fn chain(a: (String, u64), b: (String, u64), c: (String, u64)) {
        order::lemma_text_less_total(a.0@, b.0@);
        order::lemma_text_less_total(b.0@, c.0@);
        order::lemma_text_less_total(a.0@, c.0@);
        if a.0@ != b.0@ && b.0@ != c.0@ && !order::text_less(a.0@, b.0@) && !order::text_less(
            b.0@,
            c.0@,
        ) {
            order::lemma_text_less_trans(c.0@, b.0@, a.0@);
        }
    }

    fn ranks_before(a: &(String, u64), b: &(String, u64)) -> (r: bool) {
        precedes(a.0.as_str(), b.0.as_str())
    }
}

/// The entries that rows of Discord users and names make.
pub open spec fn entries_of(rows: Seq<(u64, String)>) -> Seq<(Seq<char>, u64)> {
    rows.map_values(|r: (u64, String)| (r.1@, r.0))
}

/// `a` holds the entries of `s`, each from the position that `p` gives.
pub open spec fn rearranged(
    s: Seq<(Seq<char>, u64)>,
    a: Seq<(Seq<char>, u64)>,
    p: Seq<int>,
) -> bool {
    &&& a.len() == s.len()
    &&& p.len() == s.len()
    &&& p.no_duplicates()
    &&& forall|i: int| 0 <= i < p.len() ==> 0 <= #[trigger] p[i] < s.len() && a[i] == s[p[i]]
    &&& forall|i: int, j: int|
        0 <= i < j < a.len() && (#[trigger] a[i]).0 == (#[trigger] a[j]).0 ==> p[i] < p[j]
}

impl View for Accounts {
    type V = Seq<(Seq<char>, u64)>;

    closed spec fn view(&self) -> Seq<(Seq<char>, u64)> {
        Seq::new(self.names@.len(), |i: int| (self.names@[i]@, self.ids@[i]))
    }
}

impl Accounts {
    /// As many users as names, in the order of the names.
    pub closed spec fn wf(self) -> bool {
        self.names@.len() == self.ids@.len() && by_name(self@)
    }

    /// The entries of well-formed accounts stand in the order of their names.
    pub proof fn lemma_by_name(self)
        requires
            self.wf(),
        ensures
            by_name(self@),
    {
    }

    /// Sorts the rows of Discord users and names by name; rows of one name stay in order.
    pub fn load_account_mappings(rows: Vec<(u64, String)>) -> (r: Self)
        ensures
            r.wf(),
            exists|p: Seq<int>| rearranged(entries_of(rows@), r@, p),
    {
        let mut pairs: Vec<(String, u64)> = Vec::new();
        let mut i: usize = 0;
        while i < rows.len()
            invariant
                i <= rows@.len(),
                pairs@.len() == i,
                forall|j: int|
                    0 <= j < i ==> (#[trigger] pairs@[j]).0@ == rows@[j].1@ && pairs@[j].1
                        == rows@[j].0,
            decreases rows@.len() - i,
        {
            pairs.push((rows[i].1.clone(), rows[i].0));
            i = i + 1;
        }
        let ghost before = pairs@;
        let sorted = sort_stable::<(String, u64), ByName>(pairs);
        let ghost p = choose|p: Seq<int>|
            order::arranged::<(String, u64), ByName>(before, sorted@, p);
        let mut names: Vec<String> = Vec::new();
        let mut ids: Vec<u64> = Vec::new();
        let mut k: usize = 0;
        while k < sorted.len()
            invariant
                k <= sorted@.len(),
                names@.len() == k,
                ids@.len() == k,
                forall|j: int| 0 <= j < k ==> (#[trigger] names@[j])@ == sorted@[j].0@,
                forall|j: int| 0 <= j < k ==> #[trigger] ids@[j] == sorted@[j].1,
            decreases sorted@.len() - k,
        {
            names.push(sorted[k].0.clone());
            ids.push(sorted[k].1);
            k = k + 1;
        }
        let r = Accounts { names, ids };
        proof {
            let s = entries_of(rows@);
            assert forall|i: int| 0 <= i < p.len() implies 0 <= #[trigger] p[i] < s.len() && r@[i]
                == s[p[i]] by {
                assert(sorted@[i] == before[p[i]]);
                assert(before[p[i]].0@ == rows@[p[i]].1@);
            }
            assert forall|i: int, j: int| 0 <= i < j < r@.len() implies !order::text_less(
                (#[trigger] r@[j]).0,
                (#[trigger] r@[i]).0,
            ) by {
                assert(ByName::before(sorted@[i], sorted@[j]) || !ByName::before(
                    sorted@[j],
                    sorted@[i],
                ));
                ByName::one_way(sorted@[i], sorted@[j]);
            }
            assert forall|i: int, j: int|
                0 <= i < j < r@.len() && (#[trigger] r@[i]).0 == (
                #[trigger] r@[j]).0 implies p[i] < p[j] by {
                order::lemma_text_less_total(r@[i].0, r@[j].0);
                assert(!ByName::before(sorted@[i], sorted@[j]));
            }
            assert(rearranged(s, r@, p));
        }
        r
    }

    /// The position of a Discord user.
    fn position(&self, discord_id: u64) -> (r: Option<usize>)
        requires
            self.wf(),
        ensures
            match r {
                Some(k) => {
                    &&& k < self@.len()
                    &&& self@[k as int].1 == discord_id
                    &&& forall|i: int| 0 <= i < k ==> (#[trigger] self@[i]).1 != discord_id
                },
                None => forall|i: int|
                    0 <= i < self@.len() ==> (#[trigger] self@[i]).1 != discord_id,
            },
    {
        let mut k: usize = 0;
        while k < self.ids.len()
            invariant
                self.wf(),
                k <= self.ids@.len(),
                forall|i: int| 0 <= i < k ==> (#[trigger] self@[i]).1 != discord_id,
            decreases self.ids@.len() - k,
        {
            if self.ids[k] == discord_id {
                return Some(k);
            }
            k = k + 1;
        }
        None
    }

    /// The place of a name.
    fn place(&self, mc_username: &str) -> (r: Found)
        requires
            self.wf(),
        ensures
            match r {
                Found::At(k) => {
                    &&& k < self@.len()
                    &&& self@[k as int].0 == mc_username@
                    &&& forall|i: int|
                        0 <= i < k ==> order::text_less((#[trigger] self@[i]).0, mc_username@)
                    &&& dc_of(self@, mc_username@) == Some(self@[k as int].1)
                },
                Found::Missing(k) => {
                    &&& k <= self@.len()
                    &&& forall|i: int|
                        0 <= i < k ==> order::text_less((#[trigger] self@[i]).0, mc_username@)
                    &&& forall|i: int|
                        k <= i < self@.len() ==> order::text_less(
                            mc_username@,
                            (#[trigger] self@[i]).0,
                        )
                    &&& dc_of(self@, mc_username@) is None
                },
            },
    {
        proof {
            let s = text::texts(self.names@);
            assert forall|i: int, j: int| 0 <= i < j < s.len() implies !order::text_less(
                #[trigger] s[j],
                #[trigger] s[i],
            ) by {
                assert(self@[j].0 == s[j] && self@[i].0 == s[i]);
            }
        }
        let found = search(&self.names, mc_username);
        proof {
            let k = match found {
                Found::At(k) => k as int,
                Found::Missing(k) => self@.len() as int,
            };
            assert forall|i: int| 0 <= i < k implies (#[trigger] self@[i]).0 != mc_username@ by {
                order::lemma_text_less_total(self@[i].0, mc_username@);
                order::lemma_text_less_total(mc_username@, self@[i].0);
                assert(self.names@[i]@ == self@[i].0);
            }
            lemma_dc_of_at(self@, k, mc_username@);
        }
        found
    }

    /// The Discord user with whom a player name is linked.
    pub fn get_dc_from_mc(&self, mc_username: &str) -> (r: Option<u64>)
        requires
            self.wf(),
        ensures
            r == dc_of(self@, mc_username@),
    {
        match self.place(mc_username) {
            Found::At(k) => Some(self.ids[k]),
            Found::Missing(_) => None,
        }
    }

    /// The player name with which a Discord user is linked.
    pub fn get_mc_from_dc(&self, discord_id: u64) -> (r: Option<String>)
        requires
            self.wf(),
        ensures
            match r {
                Some(mc) => mc_of(self@, discord_id) == Some(mc@),
                None => mc_of(self@, discord_id) is None,
            },
    {
        match self.position(discord_id) {
            Some(k) => {
                proof {
                    lemma_mc_of_at(self@, k as int, discord_id);
                }
                Some(self.names[k].clone())
            },
            None => {
                proof {
                    lemma_mc_of_at(self@, self@.len() as int, discord_id);
                }
                None
            },
        }
    }

    /// Takes out the entry at a position.
    fn drop_at(&mut self, k: usize)
        requires
            old(self).wf(),
            k < old(self)@.len(),
        ensures
            final(self).wf(),
            final(self)@ == old(self)@.remove(k as int),
    {
        let ghost before = self@;
        let _ = self.names.remove(k);
        let _ = self.ids.remove(k);
        proof {
            assert(self@ =~= before.remove(k as int));
            assert forall|i: int, j: int| 0 <= i < j < self@.len() implies !order::text_less(
                (#[trigger] self@[j]).0,
                (#[trigger] self@[i]).0,
            ) by {
                let a = if i < k { i } else { i + 1 };
                let b = if j < k { j } else { j + 1 };
                assert(!order::text_less(before[b].0, before[a].0));
            }
        }
    }

    /// Links a Discord user with a player name, in place of any earlier one.
    pub fn connect(&mut self, discord_id: u64, mc_username: String)
        requires
            old(self).wf(),
        ensures
            final(self).wf(),
            final(self)@ == connected(old(self)@, discord_id, mc_username@),
    {
        let ghost before = self@;
        match self.position(discord_id) {
            Some(k) => {
                proof {
                    lemma_mc_of_at(before, k as int, discord_id);
                }
                self.drop_at(k);
            },
            None => {
                proof {
                    lemma_mc_of_at(before, before.len() as int, discord_id);
                }
            },
        }
        let ghost base = self@;
        assert(base == without_id(before, discord_id));
        let ghost mc = mc_username@;
        match self.place(mc_username.as_str()) {
            Found::At(k) => {
                proof {
                    lemma_with_account_at(base, k as int, mc, discord_id);
                }
            },
            Found::Missing(k) => {
                self.names.insert(k, mc_username);
                self.ids.insert(k, discord_id);
                proof {
                    lemma_with_account_at(base, k as int, mc, discord_id);
                    assert(self@ =~= base.insert(k as int, (mc, discord_id)));
                    assert forall|i: int, j: int|
                        0 <= i < j < self@.len() implies !order::text_less(
                        (#[trigger] self@[j]).0,
                        (#[trigger] self@[i]).0,
                    ) by {
                        let a = if i < k { i } else { i - 1 };
                        let b = if j < k { j } else { j - 1 };
                        if i == k {
                            order::lemma_text_less_total(mc, base[b].0);
                        } else if j == k {
                            order::lemma_text_less_total(base[a].0, mc);
                        } else {
                            assert(!order::text_less(base[b].0, base[a].0));
                        }
                    }
                }
            },
        }
    }

    /// Undoes the link of a Discord user.
    pub fn disconnect(&mut self, discord_id: u64)
        requires
            old(self).wf(),
        ensures
            final(self).wf(),
            final(self)@ == disconnected(old(self)@, discord_id),
    {
        let ghost before = self@;
        let mc = match self.get_mc_from_dc(discord_id) {
            Some(mc) => mc,
            None => return,
        };
        match self.place(mc.as_str()) {
            Found::At(k) => {
                proof {
                    assert forall|i: int| 0 <= i < k implies (#[trigger] before[i]).0 != mc@ by {
                        order::lemma_text_less_total(before[i].0, mc@);
                    }
                    lemma_dc_of_at(before, k as int, mc@);
                }
                self.drop_at(k);
            },
            Found::Missing(k) => {
                proof {
                    assert forall|i: int| 0 <= i < before.len() implies (
                    #[trigger] before[i]).0 != mc@ by {
                        order::lemma_text_less_total(before[i].0, mc@);
                        order::lemma_text_less_total(mc@, before[i].0);
                    }
                    lemma_dc_of_at(before, before.len() as int, mc@);
                }
            },
        }
    }
}

} // verus!
