//! What holds of the pages of a player's profile.

use crate::bot::commands;
use crate::bot::embed::Embed;
use crate::decimal;
use crate::order;
use crate::playerdata;
use crate::playerdata::{
    AdvancementEntry, AdvancementMap, Advancements, DisplayItem, InventoryItem, ItemComponents,
    MinecraftStats, NbtPlayerData, PlayerDataError, PlayerProfile, RawStats,
};
use crate::stats_laws;
use crate::storage::records::PlayerStats;
use crate::text;
use crate::text_laws;
use vstd::prelude::*;
use vstd::string::*;

verus! {

/// The line for an advancement that is done.
pub open spec fn done_line(id: Seq<char>) -> Seq<char> {
    "• "@ + playerdata::advancement_name(id) + "\n"@
}

/// The line for an advancement that is begun.
pub open spec fn begun_line(id: Seq<char>, met: usize, of: usize) -> Seq<char> {
    "• "@ + playerdata::advancement_name(id) + " — "@ + text::dec(met as nat) + "/"@ + text::dec(
        of as nat,
    ) + "\n"@
}

/// How many of a list are shown: five, or all where there are fewer.
pub open spec fn shown_of(len: nat) -> nat {
    if len < 5 {
        len
    } else {
        5
    }
}

/// How far the player has come: a label, how many of how many, and in hundredths.
pub open spec fn far_line(label: Seq<char>, earned: usize, total: usize) -> Seq<char> {
    label + text::dec(earned as nat) + "/"@ + text::dec(total as nat) + " ("@ + text::dec(
        decimal::percentage(earned as nat, total as nat),
    ) + "%)\n"@
}

/// The page of the advancements tells how far the player has come with all of them, with the game's
/// own, and with others where there are any. Then come the first of those that are done, and the
/// first of those that are begun, no more than five of each: the line at each place is that of the
/// advancement at that place of the list.
pub proof fn law_first_advancements_are_shown(profile: &PlayerProfile, r: Embed, a: Advancements)
    requires
        call_ensures(playerdata::build_advancements_embed, (profile,), r),
        profile.advancements == Some(a),
    ensures
        ({
            let done = Seq::new(
                shown_of(a.earned_list@.len()),
                |i: int| done_line(a.earned_list@[i].0@),
            ).flatten();
            let begun = Seq::new(
                shown_of(a.in_progress@.len()),
                |i: int|
                    begun_line(a.in_progress@[i].0@, a.in_progress@[i].1, a.in_progress@[i].2),
            ).flatten();
            let none = Seq::<char>::empty();
            &&& r@.title == "🏆 Advancements — "@ + profile.username@
            &&& r@.description == Some(
                far_line("📈 **Overall:** "@, a.earned, a.total) + far_line(
                    "🧱 **Vanilla:** "@,
                    a.vanilla_earned,
                    a.vanilla_total,
                ) + (if a.modded_total > 0 {
                    far_line("✨ **Modded:** "@, a.modded_earned, a.modded_total)
                } else {
                    none
                }) + (if a.earned_list@.len() > 0 {
                    "\n⭐ **Recently Earned:**\n"@ + done
                } else {
                    none
                }) + (if a.in_progress@.len() > 0 {
                    "\n📋 **In Progress:**\n"@ + begun
                } else {
                    none
                }),
            )
        }),
{
    let done = playerdata::first_five(a.earned_list@);
    let begun = playerdata::first_five(a.in_progress@);
    lemma_done_lines(done);
    lemma_begun_lines(begun);
    assert(Seq::new(done.len(), |i: int| done_line(done[i].0@)) =~= Seq::new(
        shown_of(a.earned_list@.len()),
        |i: int| done_line(a.earned_list@[i].0@),
    ));
    assert(Seq::new(begun.len(), |i: int| begun_line(begun[i].0@, begun[i].1, begun[i].2))
        =~= Seq::new(
        shown_of(a.in_progress@.len()),
        |i: int| begun_line(a.in_progress@[i].0@, a.in_progress@[i].1, a.in_progress@[i].2),
    ));
}

/// The lines of advancements that are done, by place.
proof fn lemma_done_lines(list: Seq<(String, String)>)
    ensures
        playerdata::earned_lines(list) == Seq::new(
            list.len(),
            |i: int| done_line(list[i].0@),
        ).flatten(),
    decreases list.len(),
{
    let lines = Seq::new(list.len(), |i: int| done_line(list[i].0@));
    if list.len() > 0 {
        let rest = list.drop_last();
        let n = rest.len() as int;
        lemma_done_lines(rest);
        let earlier = Seq::new(rest.len(), |i: int| done_line(rest[i].0@));
        assert(lines =~= earlier.push(done_line(list[n].0@)));
        earlier.lemma_flatten_push(done_line(list[n].0@));
        assert(playerdata::earned_lines(list) =~= playerdata::earned_lines(rest) + done_line(
            list[n].0@,
        ));
    }
}

/// The lines of advancements that are begun, by place.
proof fn lemma_begun_lines(list: Seq<(String, usize, usize)>)
    ensures
        playerdata::begun_lines(list) == Seq::new(
            list.len(),
            |i: int| begun_line(list[i].0@, list[i].1, list[i].2),
        ).flatten(),
    decreases list.len(),
{
    let lines = Seq::new(list.len(), |i: int| begun_line(list[i].0@, list[i].1, list[i].2));
    if list.len() > 0 {
        let rest = list.drop_last();
        let n = rest.len() as int;
        lemma_begun_lines(rest);
        let earlier = Seq::new(rest.len(), |i: int| begun_line(rest[i].0@, rest[i].1, rest[i].2));
        let last = begun_line(list[n].0@, list[n].1, list[n].2);
        assert(lines =~= earlier.push(last));
        earlier.lemma_flatten_push(last);
        assert(playerdata::begun_lines(list) =~= playerdata::begun_lines(rest) + last);
    }
}

/// The advancement unlocks a recipe.
pub open spec fn unlocks_recipe(id: Seq<char>) -> bool {
    "minecraft:recipes/"@.is_prefix_of(id)
}

/// The advancement is the game's own.
pub open spec fn is_of_the_game(id: Seq<char>) -> bool {
    "minecraft:"@.is_prefix_of(id)
}

/// A text stands at the beginning of another.
proof fn lemma_at_beginning(s: Seq<char>, p: Seq<char>)
    ensures
        text::text_at(s, 0, p) <==> p.is_prefix_of(s),
{
    if p.is_prefix_of(s) {
        assert(s.subrange(0, p.len() as int) =~= p);
    }
}

/// The time is that of the last criterion: that of one of them, and none comes later.
pub open spec fn is_last_time(criteria: Seq<(String, String)>, time: Seq<char>) -> bool {
    &&& criteria.len() == 0 ==> time.len() == 0
    &&& criteria.len() > 0 ==> exists|k: int|
        0 <= k < criteria.len() && (#[trigger] criteria[k]).1@ == time
    &&& forall|k: int|
        0 <= k < criteria.len() ==> !order::text_less(time, (#[trigger] criteria[k]).1@)
}

/// The latest time is that of the last criterion.
proof fn lemma_latest(criteria: Seq<(String, String)>)
    ensures
        is_last_time(criteria, playerdata::latest(criteria)),
    decreases criteria.len(),
{
    if criteria.len() > 0 {
        let rest = criteria.drop_last();
        let n = rest.len() as int;
        lemma_latest(rest);
        let before = playerdata::latest(rest);
        let now = playerdata::latest(criteria);
        let t = criteria[n].1@;
        order::lemma_text_less_total(before, t);
        if order::text_less(before, t) {
            assert(criteria[n].1@ == now);
        } else if rest.len() > 0 {
            let k = choose|k: int| 0 <= k < rest.len() && (#[trigger] rest[k]).1@ == before;
            assert(criteria[k].1@ == now);
        } else {
            assert(before.len() == 0);
            assert(t.len() == 0) by {
                if t.len() > 0 {
                    assert(order::text_less(before, t));
                }
            }
            assert(t =~= before);
            assert(criteria[n].1@ == now);
        }
        assert forall|k: int| 0 <= k < criteria.len() implies !order::text_less(
            now,
            (#[trigger] criteria[k]).1@,
        ) by {
            let u = criteria[k].1@;
            if k < n {
                assert(rest[k] == criteria[k]);
                assert(!order::text_less(before, u));
                if order::text_less(now, u) {
                    if now != before {
                        order::lemma_text_less_total(u, before);
                        order::lemma_text_less_total(t, u);
                        if u != before {
                            order::lemma_text_less_trans(u, before, t);
                        }
                    }
                }
            } else {
                order::lemma_text_less_total(now, u);
                order::lemma_text_less_total(before, u);
            }
        }
    }
}

/// The advancements that are done and unlock no recipe, by their places, in order.
pub open spec fn done_places(map: Seq<(String, AdvancementEntry)>) -> Seq<int>
    decreases map.len(),
{
    if map.len() == 0 {
        Seq::empty()
    } else {
        let rest = done_places(map.drop_last());
        let e = map.last();
        if e.1.done && !unlocks_recipe(e.0@) {
            rest.push(map.len() - 1)
        } else {
            rest
        }
    }
}

/// The list of those that are done goes by their places.
proof fn lemma_done_places(map: Seq<(String, AdvancementEntry)>)
    ensures
        ({
            let q = done_places(map);
            let list = playerdata::done_list(map);
            &&& q.len() == list.len()
            &&& forall|i: int|
                0 <= i < q.len() ==> 0 <= #[trigger] q[i] < map.len() && map[q[i]].1.done
                    && !unlocks_recipe(map[q[i]].0@) && list[i] == (
                    map[q[i]].0@,
                    playerdata::latest(map[q[i]].1.criteria@),
                )
            &&& forall|i: int, j: int| 0 <= i < j < q.len() ==> #[trigger] q[i] < #[trigger] q[j]
        }),
        playerdata::done_list(map).len() == map.filter(
            |e: (String, AdvancementEntry)| e.1.done && !unlocks_recipe(e.0@),
        ).len(),
        playerdata::how_many(map, |e: (String, AdvancementEntry)| e.1.done)
            == playerdata::done_list(map).len(),
    decreases map.len(),
{
    let keep = |e: (String, AdvancementEntry)| e.1.done && !unlocks_recipe(e.0@);
    if map.len() == 0 {
        reveal(Seq::filter);
        assert(map.filter(keep).len() == 0);
    } else {
        let rest = map.drop_last();
        let e = map.last();
        lemma_done_places(rest);
        lemma_at_beginning(e.0@, "minecraft:recipes/"@);
        assert(map =~= rest.push(e));
        text::lemma_filter_push(rest, e, keep);
        let q = done_places(map);
        let p = done_places(rest);
        assert forall|i: int| 0 <= i < p.len() implies map[#[trigger] p[i]] == rest[p[i]] by {}
    }
}

/// How many advancements there are of a sort, recipes left out.
proof fn lemma_how_many(
    map: Seq<(String, AdvancementEntry)>,
    p: spec_fn((String, AdvancementEntry)) -> bool,
)
    ensures
        playerdata::how_many(map, p) == map.filter(
            |e: (String, AdvancementEntry)| !unlocks_recipe(e.0@) && p(e),
        ).len(),
    decreases map.len(),
{
    let keep = |e: (String, AdvancementEntry)| !unlocks_recipe(e.0@) && p(e);
    if map.len() == 0 {
        reveal(Seq::filter);
        assert(map.filter(keep).len() == 0);
    } else {
        let rest = map.drop_last();
        lemma_how_many(rest, p);
        lemma_at_beginning(map.last().0@, "minecraft:recipes/"@);
        assert(map =~= rest.push(map.last()));
        text::lemma_filter_push(rest, map.last(), keep);
    }
}

/// The numbers of advancements leave out those that unlock recipes, and count those of the game and
/// the others, all and the ones that are done.
pub proof fn law_advancements_are_counted(map: &AdvancementMap, a: Advancements)
    requires
        call_ensures(playerdata::compute_advancements, (map,), a),
    ensures
        a.total == map@.filter(
            |e: (String, AdvancementEntry)| !unlocks_recipe(e.0@) && true,
        ).len(),
        a.earned == map@.filter(
            |e: (String, AdvancementEntry)| !unlocks_recipe(e.0@) && e.1.done,
        ).len(),
        a.vanilla_total == map@.filter(
            |e: (String, AdvancementEntry)| !unlocks_recipe(e.0@) && is_of_the_game(e.0@),
        ).len(),
        a.vanilla_earned == map@.filter(
            |e: (String, AdvancementEntry)|
                !unlocks_recipe(e.0@) && (is_of_the_game(e.0@) && e.1.done),
        ).len(),
        a.modded_total == map@.filter(
            |e: (String, AdvancementEntry)| !unlocks_recipe(e.0@) && !is_of_the_game(e.0@),
        ).len(),
        a.modded_earned == map@.filter(
            |e: (String, AdvancementEntry)|
                !unlocks_recipe(e.0@) && (!is_of_the_game(e.0@) && e.1.done),
        ).len(),
{
    assert forall|e: (String, AdvancementEntry)| #[trigger]
        playerdata::is_vanilla(e) == is_of_the_game(e.0@) by {
        lemma_at_beginning(e.0@, "minecraft:"@);
    }
    let all = |e: (String, AdvancementEntry)| true;
    let done = |e: (String, AdvancementEntry)| e.1.done;
    let own = |e: (String, AdvancementEntry)| playerdata::is_vanilla(e);
    let own_done = |e: (String, AdvancementEntry)| playerdata::is_vanilla(e) && e.1.done;
    let other = |e: (String, AdvancementEntry)| !playerdata::is_vanilla(e);
    let other_done = |e: (String, AdvancementEntry)| !playerdata::is_vanilla(e) && e.1.done;
    lemma_how_many(map@, all);
    lemma_how_many(map@, done);
    lemma_how_many(map@, own);
    lemma_how_many(map@, own_done);
    lemma_how_many(map@, other);
    lemma_how_many(map@, other_done);
    assert((|e: (String, AdvancementEntry)| !unlocks_recipe(e.0@) && all(e)) =~= (|
        e: (String, AdvancementEntry),
    | !unlocks_recipe(e.0@) && true));
    assert((|e: (String, AdvancementEntry)| !unlocks_recipe(e.0@) && done(e)) =~= (|
        e: (String, AdvancementEntry),
    | !unlocks_recipe(e.0@) && e.1.done));
    assert((|e: (String, AdvancementEntry)| !unlocks_recipe(e.0@) && own(e)) =~= (|
        e: (String, AdvancementEntry),
    | !unlocks_recipe(e.0@) && is_of_the_game(e.0@)));
    assert((|e: (String, AdvancementEntry)| !unlocks_recipe(e.0@) && own_done(e)) =~= (|
        e: (String, AdvancementEntry),
    | !unlocks_recipe(e.0@) && (is_of_the_game(e.0@) && e.1.done)));
    assert((|e: (String, AdvancementEntry)| !unlocks_recipe(e.0@) && other(e)) =~= (|
        e: (String, AdvancementEntry),
    | !unlocks_recipe(e.0@) && !is_of_the_game(e.0@)));
    assert((|e: (String, AdvancementEntry)| !unlocks_recipe(e.0@) && other_done(e)) =~= (|
        e: (String, AdvancementEntry),
    | !unlocks_recipe(e.0@) && (!is_of_the_game(e.0@) && e.1.done)));
}

/// The list of those that are done has as many entries as are done; each entry is one that is done,
/// no two are the same, each has the time of its last criterion, and nothing comes before what was
/// done later.
pub proof fn law_what_is_done_is_listed_latest_first(map: &AdvancementMap, a: Advancements)
    requires
        call_ensures(playerdata::compute_advancements, (map,), a),
    ensures
        a.earned_list@.len() == a.earned,
        exists|from: Seq<int>|
            #![trigger from.no_duplicates()]
            from.no_duplicates() && from.len() == a.earned_list@.len() && forall|i: int|
                0 <= i < from.len() ==> 0 <= #[trigger] from[i] < map@.len()
                    && map@[from[i]].1.done && !unlocks_recipe(map@[from[i]].0@)
                    && a.earned_list@[i].0@ == map@[from[i]].0@ && is_last_time(
                    map@[from[i]].1.criteria@,
                    a.earned_list@[i].1@,
                ),
        forall|i: int, j: int|
            0 <= i < j < a.earned_list@.len() ==> !order::text_less(
                (#[trigger] a.earned_list@[i]).1@,
                (#[trigger] a.earned_list@[j]).1@,
            ),
{
    lemma_done_places(map@);
    let q = done_places(map@);
    let listed = choose|listed: Seq<(String, String)>|
        #![trigger playerdata::pairs_view(listed)]
        playerdata::pairs_view(listed) == playerdata::done_list(map@) && order::sorted_from::<
            (String, String),
            playerdata::LatestFirst,
        >(listed, a.earned_list@);
    let p = choose|p: Seq<int>|
        order::arranged::<(String, String), playerdata::LatestFirst>(listed, a.earned_list@, p);
    assert(playerdata::pairs_view(listed).len() == listed.len());
    let from = Seq::new(p.len(), |i: int| q[p[i]]);
    assert forall|i: int| 0 <= i < from.len() implies 0 <= #[trigger] from[i] < map@.len()
        && map@[from[i]].1.done && !unlocks_recipe(map@[from[i]].0@) && a.earned_list@[i].0@
        == map@[from[i]].0@ && is_last_time(map@[from[i]].1.criteria@, a.earned_list@[i].1@) by {
        let k = p[i];
        assert(0 <= k < listed.len());
        assert(a.earned_list@[i] == listed[k]);
        assert(playerdata::pairs_view(listed)[k] == (listed[k].0@, listed[k].1@));
        assert(playerdata::done_list(map@)[k] == (
            map@[q[k]].0@,
            playerdata::latest(map@[q[k]].1.criteria@),
        ));
        lemma_latest(map@[q[k]].1.criteria@);
    }
    assert(from.no_duplicates()) by {
        assert forall|i: int, j: int|
            0 <= i < from.len() && 0 <= j < from.len() && i != j implies from[i] != from[j] by {
            assert(p[i] != p[j]);
            if p[i] < p[j] {
                assert(q[p[i]] < q[p[j]]);
            } else {
                assert(q[p[j]] < q[p[i]]);
            }
        }
    }
    assert forall|i: int, j: int| 0 <= i < j < a.earned_list@.len() implies !order::text_less(
        (#[trigger] a.earned_list@[i]).1@,
        (#[trigger] a.earned_list@[j]).1@,
    ) by {
        order::lemma_text_less_total(a.earned_list@[i].1@, a.earned_list@[j].1@);
    }
}

/// Of the advancements that are done, those that the page shows are the latest: one that is left out
/// was not done later than one that is shown, and none is left out while fewer than five are shown.
pub proof fn law_latest_advancements_are_shown(
    map: &AdvancementMap,
    a: Advancements,
    profile: &PlayerProfile,
    r: Embed,
    shown: int,
    left_out: int,
)
    requires
        call_ensures(playerdata::compute_advancements, (map,), a),
        call_ensures(playerdata::build_advancements_embed, (profile,), r),
        profile.advancements == Some(a),
        0 <= shown < 5 <= left_out < a.earned_list@.len(),
    ensures
        !order::text_less(a.earned_list@[shown].1@, a.earned_list@[left_out].1@),
        r@.description matches Some(page) && text::contains_text(
            page,
            "\n⭐ **Recently Earned:**\n"@ + done_line(a.earned_list@[0].0@) + done_line(
                a.earned_list@[1].0@,
            ) + done_line(a.earned_list@[2].0@) + done_line(a.earned_list@[3].0@) + done_line(
                a.earned_list@[4].0@,
            ),
        ),
{
    law_what_is_done_is_listed_latest_first(map, a);
    law_first_advancements_are_shown(profile, r, a);
    let list = a.earned_list@;
    let lines = Seq::new(shown_of(list.len()), |i: int| done_line(list[i].0@));
    let l0 = done_line(list[0].0@);
    let l1 = done_line(list[1].0@);
    let l2 = done_line(list[2].0@);
    let l3 = done_line(list[3].0@);
    let l4 = done_line(list[4].0@);
    assert(lines =~= seq![l0, l1, l2, l3, l4]);
    assert(lines.flatten() =~= l0 + l1 + l2 + l3 + l4) by {
        let none = Seq::<Seq<char>>::empty();
        none.lemma_flatten_push(l0);
        none.push(l0).lemma_flatten_push(l1);
        none.push(l0).push(l1).lemma_flatten_push(l2);
        none.push(l0).push(l1).push(l2).lemma_flatten_push(l3);
        none.push(l0).push(l1).push(l2).push(l3).lemma_flatten_push(l4);
        assert(lines =~= none.push(l0).push(l1).push(l2).push(l3).push(l4));
        assert(none.flatten() =~= Seq::<char>::empty());
    }
    let head = "\n⭐ **Recently Earned:**\n"@;
    let block = head + lines.flatten();
    assert(block =~= head + l0 + l1 + l2 + l3 + l4);
    let front = far_line("📈 **Overall:** "@, a.earned, a.total) + far_line(
        "🧱 **Vanilla:** "@,
        a.vanilla_earned,
        a.vanilla_total,
    ) + (if a.modded_total > 0 {
        far_line("✨ **Modded:** "@, a.modded_earned, a.modded_total)
    } else {
        Seq::empty()
    });
    let page = r@.description->0;
    let back = if a.in_progress@.len() > 0 {
        "\n📋 **In Progress:**\n"@ + Seq::new(
            shown_of(a.in_progress@.len()),
            |i: int| begun_line(a.in_progress@[i].0@, a.in_progress@[i].1, a.in_progress@[i].2),
        ).flatten()
    } else {
        Seq::empty()
    };
    assert(page == front + block + back);
    text_laws::lemma_middle(front, block, back);
}

/// The count is that of the first entry of the name, and 0 where there is none.
pub open spec fn counts_first(list: Seq<(String, u64)>, name: Seq<char>, n: u64) -> bool {
    &&& (forall|k: int| 0 <= k < list.len() ==> (#[trigger] list[k]).0@ != name) ==> n == 0
    &&& forall|i: int|
        0 <= i < list.len() && (#[trigger] list[i]).0@ == name && (forall|k: int|
            0 <= k < i ==> (#[trigger] list[k]).0@ != name) ==> n == list[i].1
}

/// What is looked up is the count of the first entry.
proof fn lemma_count_of(list: Seq<(String, u64)>, name: Seq<char>)
    ensures
        counts_first(list, name, playerdata::count_of(list, name)),
    decreases list.len(),
{
    if list.len() > 0 && list[0].0@ != name {
        let rest = list.skip(1);
        lemma_count_of(rest, name);
        let n = playerdata::count_of(list, name);
        assert forall|j: int| 0 <= j < rest.len() implies #[trigger] rest[j] == list[j + 1] by {}
        if forall|k: int| 0 <= k < list.len() ==> (#[trigger] list[k]).0@ != name {
            assert forall|k: int| 0 <= k < rest.len() implies (#[trigger] rest[k]).0@ != name by {
                assert(rest[k] == list[k + 1]);
            }
        }
        assert forall|i: int|
            0 <= i < list.len() && (#[trigger] list[i]).0@ == name && (forall|k: int|
                0 <= k < i ==> (#[trigger] list[k]).0@ != name) implies n == list[i].1 by {
            assert(i > 0);
            assert(rest[i - 1] == list[i]);
            assert forall|k: int| 0 <= k < i - 1 implies (#[trigger] rest[k]).0@ != name by {
                assert(rest[k] == list[k + 1]);
            }
        }
    }
}

/// The entries of a list of counts, of none where there is no list.
pub open spec fn entries(c: Option<Vec<(String, u64)>>) -> Seq<(String, u64)> {
    match c {
        Some(v) => v@,
        None => Seq::empty(),
    }
}

/// The list holds the entries of the other, each once, and none comes before a larger one.
pub open spec fn is_sorted_down(entries: Seq<(String, u64)>, list: Seq<(String, u64)>) -> bool {
    &&& list.len() == entries.len()
    &&& exists|from: Seq<int>|
        #![trigger from.no_duplicates()]
        from.no_duplicates() && from.len() == list.len() && forall|i: int|
            0 <= i < from.len() ==> 0 <= #[trigger] from[i] < entries.len() && list[i]
                == entries[from[i]]
    &&& forall|i: int, j: int|
        0 <= i < j < list.len() ==> (#[trigger] list[i]).1 >= (#[trigger] list[j]).1
}

/// Sorted counts come down.
proof fn lemma_sorted_down(c: Option<Vec<(String, u64)>>, list: Seq<(String, u64)>)
    requires
        playerdata::sorted_counts(c, list),
    ensures
        is_sorted_down(entries(c), list),
{
    let p = choose|p: Seq<int>|
        order::arranged::<(String, u64), playerdata::LargestFirst>(playerdata::counts(c), list, p);
    assert(p.no_duplicates());
}

/// The statistics that are shown are those of the file: each number is the count of the game's name
/// for it, ticks become seconds twenty to one, damage is told in whole points of ten tenths, and each
/// list of counts holds that of the file, the largest first.
pub proof fn law_statistics_are_those_of_the_file(raw: RawStats, m: MinecraftStats)
    requires
        call_ensures(playerdata::transform_stats, (raw,), m),
    ensures
        ({
            let custom = entries(raw.custom);
            &&& counts_first(custom, "minecraft:play_time"@, m.play_time_ticks)
            &&& m.play_time_secs * 20 <= m.play_time_ticks < m.play_time_secs * 20 + 20
            &&& counts_first(custom, "minecraft:deaths"@, m.deaths)
            &&& counts_first(custom, "minecraft:mob_kills"@, m.mob_kills)
            &&& exists|n: u64|
                #![trigger counts_first(custom, "minecraft:damage_dealt"@, n)]
                counts_first(custom, "minecraft:damage_dealt"@, n) && m.damage_dealt * 10 <= n
                    < m.damage_dealt * 10 + 10
            &&& exists|n: u64|
                #![trigger counts_first(custom, "minecraft:damage_taken"@, n)]
                counts_first(custom, "minecraft:damage_taken"@, n) && m.damage_taken * 10 <= n
                    < m.damage_taken * 10 + 10
            &&& counts_first(custom, "minecraft:walk_one_cm"@, m.distance_walked_cm)
            &&& counts_first(custom, "minecraft:sprint_one_cm"@, m.distance_sprinted_cm)
            &&& counts_first(custom, "minecraft:fall_one_cm"@, m.distance_fallen_cm)
            &&& counts_first(custom, "minecraft:fly_one_cm"@, m.distance_flown_cm)
            &&& counts_first(custom, "minecraft:swim_one_cm"@, m.distance_swum_cm)
            &&& counts_first(custom, "minecraft:jump"@, m.jumps)
            &&& counts_first(custom, "minecraft:animals_bred"@, m.animals_bred)
            &&& counts_first(custom, "minecraft:fish_caught"@, m.fish_caught)
            &&& counts_first(custom, "minecraft:sleep_in_bed"@, m.times_slept)
        }),
        is_sorted_down(entries(raw.mined), m.mined@),
        is_sorted_down(entries(raw.picked_up), m.picked_up@),
        is_sorted_down(entries(raw.used), m.used@),
        is_sorted_down(entries(raw.dropped), m.dropped@),
        is_sorted_down(entries(raw.crafted), m.crafted@),
        is_sorted_down(entries(raw.broken), m.broken@),
        is_sorted_down(entries(raw.killed), m.killed@),
        is_sorted_down(entries(raw.killed_by), m.killed_by@),
{
    let custom = entries(raw.custom);
    assert(custom == playerdata::counts(raw.custom));
    lemma_count_of(custom, "minecraft:play_time"@);
    lemma_count_of(custom, "minecraft:deaths"@);
    lemma_count_of(custom, "minecraft:mob_kills"@);
    lemma_count_of(custom, "minecraft:damage_dealt"@);
    lemma_count_of(custom, "minecraft:damage_taken"@);
    lemma_count_of(custom, "minecraft:walk_one_cm"@);
    lemma_count_of(custom, "minecraft:sprint_one_cm"@);
    lemma_count_of(custom, "minecraft:fall_one_cm"@);
    lemma_count_of(custom, "minecraft:fly_one_cm"@);
    lemma_count_of(custom, "minecraft:swim_one_cm"@);
    lemma_count_of(custom, "minecraft:jump"@);
    lemma_count_of(custom, "minecraft:animals_bred"@);
    lemma_count_of(custom, "minecraft:fish_caught"@);
    lemma_count_of(custom, "minecraft:sleep_in_bed"@);
    lemma_sorted_down(raw.mined, m.mined@);
    lemma_sorted_down(raw.picked_up, m.picked_up@);
    lemma_sorted_down(raw.used, m.used@);
    lemma_sorted_down(raw.dropped, m.dropped@);
    lemma_sorted_down(raw.crafted, m.crafted@);
    lemma_sorted_down(raw.broken, m.broken@);
    lemma_sorted_down(raw.killed, m.killed@);
    lemma_sorted_down(raw.killed_by, m.killed_by@);
}

/// The dimensions and the modes of the game have their names, no two the same; every other dimension
/// is called as it is, and every other mode is not known.
pub proof fn law_dimensions_and_modes_have_names(dim: &str, d: &str, mode: i32, m: &str)
    requires
        call_ensures(playerdata::format_dimension, (dim,), d),
        call_ensures(playerdata::game_type_name, (mode,), m),
    ensures
        dim@ == "minecraft:overworld"@ ==> d@ == "Overworld"@,
        dim@ == "minecraft:the_nether"@ ==> d@ == "The Nether"@,
        dim@ == "minecraft:the_end"@ ==> d@ == "The End"@,
        dim@ != "minecraft:overworld"@ && dim@ != "minecraft:the_nether"@ && dim@
            != "minecraft:the_end"@ ==> d@ == dim@,
        m@ == match mode {
            0 => "Survival"@,
            1 => "Creative"@,
            2 => "Adventure"@,
            3 => "Spectator"@,
            _ => "Unknown"@,
        },
{
    reveal_strlit("minecraft:overworld");
    reveal_strlit("minecraft:the_nether");
    reveal_strlit("minecraft:the_end");
    assert("minecraft:overworld"@.len() == 19 && "minecraft:the_nether"@.len() == 20
        && "minecraft:the_end"@.len() == 17);
}

/// A play time tells days, hours and minutes from the first of these that it has any of, and always
/// the minutes.
pub proof fn law_play_times_tell_days_hours_and_minutes(
    secs: u64,
    r: String,
    d: nat,
    h: nat,
    m: nat,
    s: nat,
)
    requires
        call_ensures(playerdata::format_play_time, (secs,), r),
        h < 24,
        m < 60,
        s < 60,
        secs == 86_400 * d + 3_600 * h + 60 * m + s,
    ensures
        d > 0 ==> r@ == text::dec(d) + "d "@ + text::dec(h) + "h "@ + text::dec(m) + "m"@,
        d == 0 && h > 0 ==> r@ == text::dec(h) + "h "@ + text::dec(m) + "m"@,
        d == 0 && h == 0 ==> r@ == text::dec(m) + "m"@,
{
    let n = secs as nat;
    stats_laws::lemma_parts_of_a_time(n, d, h, m, s);
}

/// A distance of less than a kilometre is told in whole metres, without the centimetres; a longer one
/// in kilometres.
pub proof fn law_distances_are_told_in_metres_or_kilometres(cm: u64, r: String, metres: nat, rest: nat)
    requires
        call_ensures(playerdata::format_distance, (cm,), r),
        rest < 100,
        cm == 100 * metres + rest,
    ensures
        metres < 1000 ==> r@ == text::dec(metres) + "m"@,
        metres >= 1000 ==> r@ == decimal::one_decimal(metres, 1000) + "km"@,
{
    assert(cm as nat / 100 == metres);
}

/// A number below a thousand is told as it is, one below a million in thousands, and a larger one in
/// millions.
pub proof fn law_large_numbers_are_shortened(n: u64, r: String)
    requires
        call_ensures(playerdata::fmt_num, (n,), r),
    ensures
        n < 1_000 ==> r@ == text::dec(n as nat),
        1_000 <= n < 1_000_000 ==> r@ == decimal::one_decimal(n as nat, 1_000) + "K"@,
        1_000_000 <= n ==> r@ == decimal::one_decimal(n as nat, 1_000_000) + "M"@,
{
}

/// A bar is as wide as it is meant to be, or as what fills it; its places are filled from the
/// beginning, the last of several that are filled is half filled, and the others are empty.
pub proof fn law_bars_are_filled_from_the_beginning(filled: usize, width: usize, r: String)
    requires
        call_ensures(playerdata::progress_bar, (filled, width), r),
    ensures
        r@.len() == if filled < width {
            width as int
        } else {
            filled as int
        },
        forall|i: int|
            0 <= i < r@.len() ==> #[trigger] r@[i] == if i >= filled {
                '░'
            } else if i == filled - 1 && filled > 1 {
                '▌'
            } else {
                '█'
            },
{
}

/// The bar of a day has eight places, one for each eighth of an hour that was begun, behind the time
/// and at least one space; a day that was not played has a dash.
pub proof fn law_days_have_bars(secs: u64, r: String)
    requires
        call_ensures(playerdata::daily_bar, (secs,), r),
    ensures
        secs == 0 ==> r@ == "        —"@,
        secs > 0 ==> {
            let time = playerdata::play_time_text(secs as nat);
            let n = r@.len() - 8;
            &&& time.is_prefix_of(r@)
            &&& n == (if time.len() < 8 {
                8
            } else {
                time.len() as int
            }) + 1
            &&& forall|i: int| time.len() <= i < n ==> #[trigger] r@[i] == ' '
            &&& forall|i: int|
                0 <= i < 8 ==> #[trigger] r@[n + i] == if 450 * i < secs {
                    '█'
                } else {
                    '░'
                }
        },
{
    reveal_strlit(" ");
    if secs > 0 {
        let time = playerdata::play_time_text(secs as nat);
        let n = r@.len() - 8;
        let k = playerdata::day_places(secs as nat) as int;
        assert(1 <= k <= 8);
        let pad = if time.len() < 8 {
            8 - time.len()
        } else {
            0
        };
        let bar = playerdata::repeated('█', k as nat) + playerdata::repeated('░', (8 - k) as nat);
        assert(r@ =~= time + playerdata::repeated(' ', pad as nat) + " "@ + bar);
        assert forall|i: int| 0 <= i < 8 implies #[trigger] r@[n + i] == if 450 * i < secs {
            '█'
        } else {
            '░'
        } by {
            assert(r@[n + i] == bar[i]);
            assert(450 * i < secs <==> i < k);
        }
    }
}

/// A name of the game without its prefix, with spaces for underscores: as long as it was, and the
/// same at every other place.
pub open spec fn is_words_of(words: Seq<char>, id: Seq<char>) -> bool {
    words.len() == id.len() && forall|i: int|
        0 <= i < words.len() ==> #[trigger] words[i] == if id[i] == '_' {
            ' '
        } else {
            id[i]
        }
}

/// An item without a name of its own is called by its identifier as words; what follows the game's
/// prefix, or all of it where the prefix is another.
pub proof fn law_items_are_called_by_their_identifiers(id: &str, r: String, own: Seq<char>)
    requires
        call_ensures(playerdata::item_display_name, (id, None::<&ItemComponents>), r),
    ensures
        id@ == "minecraft:"@ + own ==> is_words_of(r@, own),
        !("minecraft:"@.is_prefix_of(id@)) ==> is_words_of(r@, id@),
{
    lemma_at_beginning(id@, "minecraft:"@);
    if id@ == "minecraft:"@ + own {
        assert("minecraft:"@.is_prefix_of(id@));
        assert(id@.skip("minecraft:"@.len() as int) =~= own);
    }
}

/// An item to which a player gave a name is called by it: the text of the component.
pub proof fn law_items_are_called_by_the_names_they_were_given(
    id: &str,
    components: &ItemComponents,
    r: String,
    json: String,
    name: Seq<char>,
)
    requires
        call_ensures(playerdata::item_display_name, (id, Some(components)), r),
        components.custom_name == Some(json),
        json@ == "{\"text\":\""@ + name + "\"}"@,
        !name.contains('"'),
    ensures
        r@ == name,
{
    lemma_component_text(json@, name);
}

/// The text of a component is read.
proof fn lemma_component_text(json: Seq<char>, name: Seq<char>)
    requires
        json == "{\"text\":\""@ + name + "\"}"@,
        !name.contains('"'),
    ensures
        playerdata::component_text(json) == name,
{
    reveal_strlit("{\"text\":\"");
    reveal_strlit("\"}");
    reveal_strlit("\"text\"");
    reveal_strlit(":");
    reveal_strlit("\"");
    let none = Seq::<char>::empty();
    let n = name.len() as int;
    assert(json[0] == '{' && json.last() == '}');
    text_laws::law_trimming_leaves_the_text(none, json, none);
    assert(none + json + none =~= json);
    assert(json.subrange(1, 7) =~= "\"text\""@);
    assert(!text::text_at(json, 0, "\"text\""@)) by {
        if text::text_at(json, 0, "\"text\""@) {
            assert(json.subrange(0, 6)[0] == '"');
        }
    }
    assert(text::first_text_at(json, 1, "\"text\""@));
    assert(text::text_at(json, 1, "\"text\""@));
    text::lemma_first_text(json, 1, "\"text\""@);
    let after = json.skip(7);
    assert(after[0] == ':');
    assert(after.subrange(0, 1) =~= ":"@);
    assert(text::first_text_at(after, 0, ":"@));
    assert(text::text_at(after, 0, ":"@));
    text::lemma_first_text(after, 0, ":"@);
    let v = after.skip(1);
    assert(v =~= "\""@ + name + "\"}"@);
    assert(v[0] == '"' && v.last() == '}');
    text_laws::law_trimming_leaves_the_text(none, v, none);
    assert(none + v + none =~= v);
    let w = v.skip(1);
    assert(w =~= name + "\"}"@);
    assert(w.subrange(n, n + 1) =~= "\""@);
    assert forall|j: int| 0 <= j < n implies !#[trigger] text::text_at(w, j, "\""@) by {
        if text::text_at(w, j, "\""@) {
            assert(w.subrange(j, j + 1)[0] == '"');
            assert(w[j] == name[j]);
            assert(name.contains(name[j]));
        }
    }
    assert(text::first_text_at(w, n, "\""@));
    assert(text::text_at(w, n, "\""@));
    text::lemma_first_text(w, n, "\""@);
    assert(w.skip(n + 1).len() == 1);
    assert(w.take(n) =~= name);
}

/// The items that are shown are those that the player carries, in order, each with its own place,
/// identifier and count.
pub proof fn law_carried_items_are_shown(items: &[InventoryItem], r: Vec<DisplayItem>, i: int)
    requires
        call_ensures(playerdata::inventory_items, (items,), r),
        0 <= i < items@.len(),
    ensures
        r@.len() == items@.len(),
        r@[i].slot == items@[i].slot,
        r@[i].item_id@ == items@[i].id@,
        r@[i].count == items@[i].count,
{
    assert(playerdata::shows_item(r@[i], items@[i]));
}

/// An advancement is called by its own part of the identifier as words; those of one other pack are
/// marked as such, and all others are called by their identifiers as words.
pub proof fn law_advancements_are_called_by_their_own_part(
    id: &str,
    r: String,
    group: Seq<char>,
    own: Seq<char>,
)
    requires
        call_ensures(playerdata::format_advancement_name, (id,), r),
        !group.contains('/'),
        !own.contains('/'),
    ensures
        id@ == "minecraft:"@ + (group + "/"@ + own) ==> is_words_of(r@, own),
        id@ == "minecraft:"@ + own ==> is_words_of(r@, own),
        id@ == "blazeandcave:"@ + (group + "/"@ + own) ==> "[BACAP] "@.is_prefix_of(r@)
            && is_words_of(r@.skip("[BACAP] "@.len() as int), own),
        !("minecraft:"@.is_prefix_of(id@)) && !("blazeandcave:"@.is_prefix_of(id@)) ==> is_words_of(
            r@,
            id@,
        ),
{
    reveal_strlit("minecraft:");
    reveal_strlit("blazeandcave:");
    reveal_strlit("/");
    lemma_at_beginning(id@, "minecraft:"@);
    lemma_at_beginning(id@, "blazeandcave:"@);
    let both = group + "/"@ + own;
    text_laws::lemma_one_stretch(group, '/');
    text_laws::lemma_split_at(group, own, '/');
    text_laws::lemma_one_stretch(own, '/');
    assert(both =~= group.push('/') + own);
    assert(text::split_on(both, '/') == seq![group].push(own));
    assert(seq![group].push(own)[1] == own);
    assert(playerdata::own_part(both) == own);
    assert(playerdata::own_part(own) == own);
    if id@ == "minecraft:"@ + both {
        assert("minecraft:"@.is_prefix_of(id@));
        assert(id@.skip(10) =~= both);
    }
    if id@ == "minecraft:"@ + own {
        assert("minecraft:"@.is_prefix_of(id@));
        assert(id@.skip(10) =~= own);
    }
    if id@ == "blazeandcave:"@ + both {
        assert("blazeandcave:"@.is_prefix_of(id@));
        assert(id@[0] == 'b' && "minecraft:"@[0] == 'm');
        assert(!"minecraft:"@.is_prefix_of(id@));
        assert(id@.skip(13) =~= both);
        assert(r@.skip("[BACAP] "@.len() as int) =~= text::replace_char(own, '_', ' '));
    }
}

/// Of counts the first are told, in order and with commas between them, no more than are asked for;
/// each with its name and its own count.
pub proof fn law_first_counts_are_told(
    list: &[(String, u64)],
    count: usize,
    fallback: &str,
    r: String,
)
    requires
        call_ensures(playerdata::top_entries, (list, count, fallback), r),
    ensures
        list@.len() == 0 ==> r@ == fallback@,
        list@.len() > 0 ==> r@ == text::joined(
            Seq::new(
                if list@.len() < count {
                    list@.len()
                } else {
                    count as nat
                },
                |i: int|
                    playerdata::plain_name(list@[i].0@) + " ("@ + text::dec(list@[i].1 as nat)
                        + ")"@,
            ),
            ", "@,
        ),
{
    if list@.len() > 0 {
        let n = if list@.len() < count {
            list@.len()
        } else {
            count as nat
        };
        let shown = if list@.len() < count {
            list@
        } else {
            list@.take(count as int)
        };
        assert(shown.map_values(|e: (String, u64)| playerdata::entry_text(e)) =~= Seq::new(
            n,
            |i: int|
                playerdata::plain_name(list@[i].0@) + " ("@ + text::dec(list@[i].1 as nat) + ")"@,
        ));
    }
}

/// The files of a player lie below the directory of the world, each in its own place and with the
/// UUID for its name.
pub proof fn law_files_lie_in_the_world(
    world: &str,
    uuid: &str,
    data: String,
    stats: String,
    done: String,
)
    requires
        call_ensures(playerdata::player_data_path, (world, uuid), data),
        call_ensures(playerdata::stats_path, (world, uuid), stats),
        call_ensures(playerdata::advancements_path, (world, uuid), done),
        world@.len() > 0,
        world@.last() != '/',
    ensures
        data@ == world@ + "/playerdata/"@ + uuid@ + ".dat"@,
        stats@ == world@ + "/stats/"@ + uuid@ + ".json"@,
        done@ == world@ + "/advancements/"@ + uuid@ + ".json"@,
{
    reveal_strlit("/");
    reveal_strlit("playerdata");
    reveal_strlit("/playerdata/");
    reveal_strlit("stats");
    reveal_strlit("/stats/");
    reveal_strlit("advancements");
    reveal_strlit("/advancements/");
    assert("/playerdata/"@ =~= "/"@ + "playerdata"@ + "/"@);
    assert("/stats/"@ =~= "/"@ + "stats"@ + "/"@);
    assert("/advancements/"@ =~= "/"@ + "advancements"@ + "/"@);
    assert((world@ + "/"@ + "playerdata"@).last() == 'a');
    assert((world@ + "/"@ + "stats"@).last() == 's');
    assert((world@ + "/"@ + "advancements"@).last() == 's');
    assert(data@ =~= world@ + "/playerdata/"@ + uuid@ + ".dat"@);
    assert(stats@ =~= world@ + "/stats/"@ + uuid@ + ".json"@);
    assert(done@ =~= world@ + "/advancements/"@ + uuid@ + ".json"@);
}

/// A file that is not there is told apart from one that cannot be read, and is no error to whoever
/// asks for the player: there is just nothing. Every other error is handed on.
pub proof fn law_a_missing_file_is_no_error(
    path: String,
    missing: bool,
    source: String,
    e: PlayerDataError,
    r: Result<Option<NbtPlayerData>, PlayerDataError>,
)
    requires
        call_ensures(playerdata::read_error, (path, missing, source), e),
        call_ensures(
            playerdata::load_nbt_player_data,
            (Err::<NbtPlayerData, PlayerDataError>(e),),
            r,
        ),
    ensures
        missing ==> r == Ok::<Option<NbtPlayerData>, PlayerDataError>(None),
        !missing ==> r == Err::<Option<NbtPlayerData>, PlayerDataError>(
            PlayerDataError::ReadFile { path, source },
        ),
{
}

/// The profile has the pages of the state and of the statistics, in this order, and behind them the
/// page of the advancements where there are any; each is the one that is made alone.
pub proof fn law_profiles_have_their_pages(
    profile: &PlayerProfile,
    record: Option<&PlayerStats>,
    days: &[(String, u64)],
    pages: Vec<Embed>,
    first: Embed,
    second: Embed,
    third: Embed,
)
    requires
        call_ensures(playerdata::build_profile_embeds, (profile, record, days), pages),
        call_ensures(playerdata::build_overview_embed, (profile, record), first),
        call_ensures(playerdata::build_stats_embed, (profile, record, days), second),
        call_ensures(playerdata::build_advancements_embed, (profile,), third),
    ensures
        pages@.len() == if profile.advancements is Some {
            3int
        } else {
            2
        },
        pages@[0]@ == first@,
        pages@[1]@ == second@,
        profile.advancements is Some ==> pages@[2]@ == third@,
        first@.title == "🎮 "@ + profile.username@,
        second@.title == "📊 Statistics — "@ + profile.username@,
        third@.title == "🏆 Advancements — "@ + profile.username@,
{
}

/// The line for an item: how many, where there are several, and the name.
pub open spec fn carried_line(item: InventoryItem) -> Seq<char> {
    let name = playerdata::item_name(item.id@, item.components) + "\n"@;
    if item.count > 1 {
        text::dec_int(item.count as int) + "x "@ + name
    } else {
        name
    }
}

/// The lines of items, by place.
proof fn lemma_item_lines(items: Seq<InventoryItem>)
    ensures
        playerdata::item_lines(items) == Seq::new(
            items.len(),
            |i: int| carried_line(items[i]),
        ).flatten(),
    decreases items.len(),
{
    let lines = Seq::new(items.len(), |i: int| carried_line(items[i]));
    if items.len() > 0 {
        let rest = items.drop_last();
        let n = rest.len() as int;
        lemma_item_lines(rest);
        let earlier = Seq::new(rest.len(), |i: int| carried_line(rest[i]));
        assert(lines =~= earlier.push(carried_line(items[n])));
        earlier.lemma_flatten_push(carried_line(items[n]));
        assert(playerdata::item_lines(items) =~= playerdata::item_lines(rest) + carried_line(
            items[n],
        ));
    }
}

/// The inventory tells how many items there are, and lists the first eight, each at its place with
/// its own count and name; where there are more, it says how many.
pub open spec fn carried_lines(items: Seq<InventoryItem>) -> Seq<char> {
    let shown = if items.len() <= 8 {
        items.len()
    } else {
        8
    };
    let lines = Seq::new(shown, |i: int| carried_line(items[i])).flatten();
    "🎒 **Inventory:** "@ + text::dec(items.len()) + "/41 slots used\n"@ + (if items.len() == 0 {
        Seq::empty()
    } else if items.len() <= 8 {
        "```\n"@ + lines + "```\n"@
    } else {
        "```\n"@ + lines + ("... and "@ + text::dec((items.len() - 8) as nat) + " more\n```\n"@)
    })
}

/// The inventory is told as that.
proof fn lemma_carried_lines(items: Seq<InventoryItem>)
    ensures
        playerdata::inventory_lines(items) == carried_lines(items),
{
    lemma_item_lines(items);
    if items.len() > 8 {
        let first = items.take(8);
        lemma_item_lines(first);
        assert(Seq::new(first.len(), |i: int| carried_line(first[i])) =~= Seq::new(
            8,
            |i: int| carried_line(items[i]),
        ));
    }
    assert(playerdata::inventory_lines(items) =~= carried_lines(items));
}

/// The first parts of a text that is made of eight.
proof fn lemma_eight_parts(
    a: Seq<char>,
    b: Seq<char>,
    c: Seq<char>,
    d: Seq<char>,
    e: Seq<char>,
    f: Seq<char>,
    g: Seq<char>,
    h: Seq<char>,
)
    ensures
        seq![a, b, c, d, e, f, g, h].flatten() == a + b + c + d + e + f + g + h,
{
    let none = Seq::<Seq<char>>::empty();
    none.lemma_flatten_push(a);
    none.push(a).lemma_flatten_push(b);
    none.push(a).push(b).lemma_flatten_push(c);
    none.push(a).push(b).push(c).lemma_flatten_push(d);
    none.push(a).push(b).push(c).push(d).lemma_flatten_push(e);
    none.push(a).push(b).push(c).push(d).push(e).lemma_flatten_push(f);
    none.push(a).push(b).push(c).push(d).push(e).push(f).lemma_flatten_push(g);
    none.push(a).push(b).push(c).push(d).push(e).push(f).push(g).lemma_flatten_push(h);
    assert(seq![a, b, c, d, e, f, g, h] =~= none.push(a).push(b).push(c).push(d).push(e).push(
        f,
    ).push(g).push(h));
    assert(none.flatten() =~= Seq::<char>::empty());
    assert(Seq::<char>::empty() + a =~= a);
}

/// The page of a player's state shows each part of it under its own label: the health and the hunger
/// with their bars, the level, the mode, the dimension, the score and what the player carries, and
/// the absorption and the position where there are any.
pub proof fn law_state_page_shows_the_state(
    profile: &PlayerProfile,
    record: Option<&PlayerStats>,
    r: Embed,
    pd: NbtPlayerData,
)
    requires
        call_ensures(playerdata::build_overview_embed, (profile, record), r),
        profile.player_data == Some(pd),
    ensures
        r@.description matches Some(page) && {
            &&& text::contains_text(
                page,
                "❤️ **Health:** "@ + text::dec_int(pd.health as int) + "/20\n```"@
                    + playerdata::bar_text(pd.health_filled as nat, 20) + "```\n"@,
            )
            &&& text::contains_text(
                page,
                "🍖 **Hunger:** "@ + text::dec_int(pd.food_level as int) + "/20\n```"@
                    + playerdata::bar_text(
                    if pd.food_level <= 0 {
                        0
                    } else if pd.food_level >= 20 {
                        20
                    } else {
                        pd.food_level as nat
                    },
                    20,
                ) + "```\n"@,
            )
            &&& text::contains_text(
                page,
                "⭐ **Level:** "@ + text::dec_int(pd.xp_level as int) + "  •  "@ + text::dec(
                    pd.xp_percent as nat,
                ) + "% to next  •  "@ + text::dec_int(pd.xp_total as int) + " total XP\n"@,
            )
            &&& text::contains_text(
                page,
                "🎯 **Mode:** "@ + playerdata::mode_name(pd.game_type)
                    + "\n🗺️ **Dimension:** "@ + playerdata::dimension_name(pd.dimension@)
                    + "\n"@,
            )
            &&& text::contains_text(
                page,
                "💯 **Score:** "@ + text::dec_int(pd.score as int) + "\n"@,
            )
            &&& pd.absorption matches Some(n) ==> text::contains_text(
                page,
                "🟡 **Absorption:** "@ + text::dec_int(n as int) + "\n"@,
            )
            &&& pd.position matches Some(p) ==> text::contains_text(
                page,
                "📍 **Position:** "@ + p@ + "\n"@,
            )
            &&& carried_lines(pd.inventory@).is_suffix_of(page)
        },
{
    let rec = match record {
        Some(rs) => Some(*rs),
        None => None,
    };
    let none = Seq::<char>::empty();
    let page = r@.description->0;
    let a = playerdata::health_lines(pd);
    let b = playerdata::absorption_lines(pd);
    let c = playerdata::hunger_lines(pd);
    let d = playerdata::level_line(pd);
    let e = playerdata::place_lines(pd);
    let f = playerdata::activity_lines(rec);
    let g = "\n"@;
    let h = playerdata::inventory_lines(pd.inventory@);
    lemma_eight_parts(a, b, c, d, e, f, g, h);
    let parts = seq![a, b, c, d, e, f, g, h];
    assert(page == parts.flatten());
    lemma_whole(a);
    text_laws::lemma_in_a_part(parts, 0, a);
    lemma_whole(b);
    text_laws::lemma_in_a_part(parts, 1, b);
    lemma_whole(c);
    text_laws::lemma_in_a_part(parts, 2, c);
    lemma_whole(d);
    text_laws::lemma_in_a_part(parts, 3, d);
    let place = match pd.position {
        Some(p) => "📍 **Position:** "@ + p@ + "\n"@,
        None => none,
    };
    let mode = "🎯 **Mode:** "@ + playerdata::mode_name(pd.game_type) + "\n🗺️ **Dimension:** "@
        + playerdata::dimension_name(pd.dimension@) + "\n"@;
    let score = "💯 **Score:** "@ + text::dec_int(pd.score as int) + "\n"@;
    assert(e =~= none + mode + (place + score));
    text_laws::lemma_middle(none, mode, place + score);
    assert(e =~= mode + place + score);
    text_laws::lemma_middle(mode, place, score);
    assert(e =~= (mode + place) + score + none);
    text_laws::lemma_middle(mode + place, score, none);
    text_laws::lemma_in_a_part(parts, 4, mode);
    text_laws::lemma_in_a_part(parts, 4, place);
    text_laws::lemma_in_a_part(parts, 4, score);
    lemma_carried_lines(pd.inventory@);
    assert(page == (a + b + c + d + e + f + g) + h);
}

/// A text contains itself.
proof fn lemma_whole(s: Seq<char>)
    ensures
        text::contains_text(s, s),
{
    let none = Seq::<char>::empty();
    text_laws::lemma_middle(none, s, none);
    assert(none + s + none =~= s);
}

/// The same page shows what the bridge has recorded, where it has recorded any of it: how often the
/// player came, wrote and gave commands, and when the player first and last came where that is known.
pub proof fn law_state_page_shows_the_activity(
    profile: &PlayerProfile,
    rs: &PlayerStats,
    r: Embed,
    pd: NbtPlayerData,
)
    requires
        call_ensures(playerdata::build_overview_embed, (profile, Some(rs)), r),
        profile.player_data == Some(pd),
        rs.total_logins > 0 || rs.total_messages > 0 || rs.total_commands > 0,
    ensures
        r@.description matches Some(page) && {
            &&& text::contains_text(
                page,
                "🔑 Logins: "@ + text::dec(rs.total_logins as nat) + "  •  💬 Messages: "@
                    + text::dec(rs.total_messages as nat) + "  •  ⌨️ Commands: "@ + text::dec(
                    rs.total_commands as nat,
                ) + "\n"@,
            )
            &&& rs.first_login_ts > 0 ==> text::contains_text(
                page,
                "🕐 First seen: "@ + "<t:"@ + text::dec(rs.first_login_ts as nat) + ":R>\n"@,
            )
            &&& rs.last_login_ts > 0 ==> text::contains_text(
                page,
                "🟢 Last login: "@ + "<t:"@ + text::dec(rs.last_login_ts as nat) + ":R>\n"@,
            )
        },
{
    let none = Seq::<char>::empty();
    let page = r@.description->0;
    let a = playerdata::health_lines(pd);
    let b = playerdata::absorption_lines(pd);
    let c = playerdata::hunger_lines(pd);
    let d = playerdata::level_line(pd);
    let e = playerdata::place_lines(pd);
    let f = playerdata::activity_lines(Some(*rs));
    let g = "\n"@;
    let h = playerdata::inventory_lines(pd.inventory@);
    lemma_eight_parts(a, b, c, d, e, f, g, h);
    let parts = seq![a, b, c, d, e, f, g, h];
    assert(page == parts.flatten());
    reveal_strlit("\n📋 **Activity (tracked):**\n🔑 Logins: ");
    reveal_strlit("\n📋 **Activity (tracked):**\n");
    reveal_strlit("🔑 Logins: ");
    let head = "\n📋 **Activity (tracked):**\n"@;
    assert("\n📋 **Activity (tracked):**\n🔑 Logins: "@ =~= head + "🔑 Logins: "@);
    let counts = "🔑 Logins: "@ + text::dec(rs.total_logins as nat) + "  •  💬 Messages: "@
        + text::dec(rs.total_messages as nat) + "  •  ⌨️ Commands: "@ + text::dec(
        rs.total_commands as nat,
    ) + "\n"@;
    let first = playerdata::time_line("🕐 First seen: "@, rs.first_login_ts);
    let last = playerdata::time_line("🟢 Last login: "@, rs.last_login_ts);
    assert(f =~= head + counts + (first + last));
    text_laws::lemma_middle(head, counts, first + last);
    assert(f =~= (head + counts) + first + last);
    text_laws::lemma_middle(head + counts, first, last);
    assert(f =~= (head + counts + first) + last + none);
    text_laws::lemma_middle(head + counts + first, last, none);
    text_laws::lemma_in_a_part(parts, 5, counts);
    text_laws::lemma_in_a_part(parts, 5, first);
    text_laws::lemma_in_a_part(parts, 5, last);
}

/// Of a player of whom the server has no file, that is said, with the name.
pub proof fn law_a_missing_state_is_said(
    profile: &PlayerProfile,
    record: Option<&PlayerStats>,
    r: Embed,
)
    requires
        call_ensures(playerdata::build_overview_embed, (profile, record), r),
        profile.player_data is None,
    ensures
        r@.description == Some(
            "Player data file not yet available for **"@ + profile.username@
                + "**.\nJoin the server to generate it."@,
        ),
{
}

/// The line for a day: the day and its bar.
pub open spec fn bar_line(day: (String, u64)) -> Seq<char> {
    day.0@ + "  "@ + playerdata::day_bar(day.1 as nat) + "\n"@
}

/// The bars of days, by place.
proof fn lemma_day_bars(days: Seq<(String, u64)>)
    ensures
        playerdata::day_bars(days) == Seq::new(days.len(), |i: int| bar_line(days[i])).flatten(),
    decreases days.len(),
{
    let lines = Seq::new(days.len(), |i: int| bar_line(days[i]));
    if days.len() > 0 {
        let rest = days.drop_last();
        let n = rest.len() as int;
        lemma_day_bars(rest);
        let earlier = Seq::new(rest.len(), |i: int| bar_line(rest[i]));
        assert(lines =~= earlier.push(bar_line(days[n])));
        earlier.lemma_flatten_push(bar_line(days[n]));
        assert(playerdata::day_bars(days) =~= playerdata::day_bars(rest) + bar_line(days[n]));
    }
}

/// The page of the statistics shows what the bridge has recorded of the player, each number under its
/// own label, and the kills that the server counts.
#[verifier::rlimit(40)]
pub proof fn law_statistics_page_shows_the_record(
    profile: &PlayerProfile,
    rs: &PlayerStats,
    days: &[(String, u64)],
    r: Embed,
)
    requires
        call_ensures(playerdata::build_stats_embed, (profile, Some(rs), days), r),
    ensures
        r@.description matches Some(page) && {
            &&& text::contains_text(
                page,
                "⏱️ **Play Time:** "@ + playerdata::play_time_text(rs.total_play_time_secs as nat)
                    + "\n💀 **Deaths:** "@ + text::dec(rs.total_deaths as nat)
                    + "  •  ⚔️ **Mob Kills:** "@ + text::dec(
                    (match profile.stats {
                        Some(s) => s.mob_kills,
                        None => 0,
                    }) as nat,
                ),
            )
            &&& text::contains_text(
                page,
                "  •  🔑 **Logins:** "@ + text::dec(rs.total_logins as nat)
                    + "\n💬 **Messages:** "@ + text::dec(rs.total_messages as nat)
                    + "  •  ⌨️ **Commands:** "@ + text::dec(rs.total_commands as nat)
                    + "  •  🏆 **Advancements:** "@ + text::dec(rs.total_advancements as nat)
                    + "\n"@,
            )
        },
{
    let none = Seq::<char>::empty();
    let a = playerdata::record_lines(Some(*rs), profile.stats);
    let b = playerdata::movement_lines(profile.stats);
    let c = playerdata::week_lines(days@);
    let page = r@.description->0;
    let head = "⏱️ **Play Time:** "@ + playerdata::play_time_text(rs.total_play_time_secs as nat)
        + "\n💀 **Deaths:** "@ + text::dec(rs.total_deaths as nat) + "  •  ⚔️ **Mob Kills:** "@
        + text::dec(
        (match profile.stats {
            Some(s) => s.mob_kills,
            None => 0,
        }) as nat,
    );
    let tail = "  •  🔑 **Logins:** "@ + text::dec(rs.total_logins as nat) + "\n💬 **Messages:** "@
        + text::dec(rs.total_messages as nat) + "  •  ⌨️ **Commands:** "@ + text::dec(
        rs.total_commands as nat,
    ) + "  •  🏆 **Advancements:** "@ + text::dec(rs.total_advancements as nat) + "\n"@;
    lemma_stats_labels();
    lemma_record_parts(
        head,
        text::dec(rs.total_logins as nat),
        text::dec(rs.total_messages as nat),
        text::dec(rs.total_commands as nat),
        text::dec(rs.total_advancements as nat),
    );
    assert(a == head + tail);
    assert(a =~= none + head + tail);
    text_laws::lemma_middle(none, head, tail);
    assert(a =~= head + tail + none);
    text_laws::lemma_middle(head, tail, none);
    assert(a.len() > 0);
    assert(page =~= none + a + (b + c));
    text_laws::lemma_contained_in_longer(none, a, b + c, head);
    text_laws::lemma_contained_in_longer(none, a, b + c, tail);
}

/// Where the bridge has recorded nothing, the page shows the play time, the deaths and the kills that
/// the server counts; where there is nothing at all, it says so.
#[verifier::rlimit(40)]
pub proof fn law_statistics_page_goes_without_a_record(
    profile: &PlayerProfile,
    days: &[(String, u64)],
    r: Embed,
)
    requires
        call_ensures(playerdata::build_stats_embed, (profile, None::<&PlayerStats>, days), r),
    ensures
        r@.description matches Some(page) && {
            &&& profile.stats matches Some(s) ==> text::contains_text(
                page,
                "⏱️ **Play Time:** "@ + playerdata::play_time_text(s.play_time_secs as nat)
                    + "\n💀 **Deaths:** "@ + text::dec(s.deaths as nat)
                    + "  •  ⚔️ **Mob Kills:** "@ + text::dec(s.mob_kills as nat) + "\n"@,
            )
            &&& profile.stats is None && days@.len() == 0 ==> page
                == "No statistics data available for this player."@
        },
{
    let none = Seq::<char>::empty();
    let a = playerdata::record_lines(None, profile.stats);
    let b = playerdata::movement_lines(profile.stats);
    let c = playerdata::week_lines(days@);
    let page = r@.description->0;
    lemma_stats_labels();
    if profile.stats is Some {
        assert(a.len() > 0);
        assert(page =~= none + a + (b + c));
        text_laws::lemma_middle(none, a, b + c);
    }
}

/// The page shows what the server counts of the player's movements and fights, each number under its
/// own label, and the five that the player killed and mined most.
#[verifier::rlimit(40)]
pub proof fn law_statistics_page_shows_the_movements(
    profile: &PlayerProfile,
    record: Option<&PlayerStats>,
    days: &[(String, u64)],
    r: Embed,
    s: MinecraftStats,
)
    requires
        call_ensures(playerdata::build_stats_embed, (profile, record, days), r),
        profile.stats == Some(s),
    ensures
        r@.description matches Some(page) && {
            &&& text::contains_text(
                page,
                "👣 Walked: "@ + playerdata::distance_text(s.distance_walked_cm as nat)
                    + "  •  ✈️ Flown: "@ + playerdata::distance_text(s.distance_flown_cm as nat)
                    + "  •  🏊 Swum: "@ + playerdata::distance_text(s.distance_swum_cm as nat)
                    + "\n🦘 Jumps: "@ + playerdata::short_number(s.jumps as nat)
                    + "\n🗡️ **Damage Dealt:** "@ + playerdata::short_number(s.damage_dealt as nat)
                    + "  •  💥 **Damage Taken:** "@ + playerdata::short_number(
                    s.damage_taken as nat,
                ) + "\n"@,
            )
            &&& text::contains_text(
                page,
                "🔝 **Top Killed:** "@ + playerdata::top_text(s.killed@, 5, "Nothing"@)
                    + "\n⛏️ **Top Mined:** "@ + playerdata::top_text(s.mined@, 5, "Nothing"@)
                    + "\n"@,
            )
        },
{
    let rec = match record {
        Some(rs) => Some(*rs),
        None => None,
    };
    let none = Seq::<char>::empty();
    let a = playerdata::record_lines(rec, profile.stats);
    let b = playerdata::movement_lines(profile.stats);
    let c = playerdata::week_lines(days@);
    let page = r@.description->0;
    lemma_stats_labels();
    let head = "\n**Movement (from stats):**\n"@;
    let moved = "👣 Walked: "@ + playerdata::distance_text(s.distance_walked_cm as nat)
        + "  •  ✈️ Flown: "@ + playerdata::distance_text(s.distance_flown_cm as nat)
        + "  •  🏊 Swum: "@ + playerdata::distance_text(s.distance_swum_cm as nat)
        + "\n🦘 Jumps: "@ + playerdata::short_number(s.jumps as nat)
        + "\n🗡️ **Damage Dealt:** "@ + playerdata::short_number(s.damage_dealt as nat)
        + "  •  💥 **Damage Taken:** "@ + playerdata::short_number(s.damage_taken as nat) + "\n"@;
    let top = "🔝 **Top Killed:** "@ + playerdata::top_text(s.killed@, 5, "Nothing"@)
        + "\n⛏️ **Top Mined:** "@ + playerdata::top_text(s.mined@, 5, "Nothing"@) + "\n"@;
    lemma_movement_parts(
        playerdata::distance_text(s.distance_walked_cm as nat),
        playerdata::distance_text(s.distance_flown_cm as nat),
        playerdata::distance_text(s.distance_swum_cm as nat),
        playerdata::short_number(s.jumps as nat),
        playerdata::short_number(s.damage_dealt as nat),
        playerdata::short_number(s.damage_taken as nat),
        playerdata::top_text(s.killed@, 5, "Nothing"@),
        playerdata::top_text(s.mined@, 5, "Nothing"@),
    );
    text_laws::lemma_middle(head, moved, "\n"@ + top);
    text_laws::lemma_middle(head + moved + "\n"@, top, none);
    assert(b.len() > 0);
    assert(page == a + b + c);
    text_laws::lemma_contained_in_longer(a, b, c, moved);
    text_laws::lemma_contained_in_longer(a, b, c, top);
}

/// The page ends with the days, where there are any: what they come to, and each day at its place
/// with its own time.
pub proof fn law_statistics_page_shows_the_days(
    profile: &PlayerProfile,
    record: Option<&PlayerStats>,
    days: &[(String, u64)],
    r: Embed,
)
    requires
        call_ensures(playerdata::build_stats_embed, (profile, record, days), r),
        days@.len() > 0,
    ensures
        r@.description matches Some(page) && ("\n📅 **This Week:** "@
            + playerdata::play_time_text(commands::total_of(days@)) + "\n```\n"@ + Seq::new(
            days@.len(),
            |i: int| bar_line(days@[i]),
        ).flatten() + "```\n"@).is_suffix_of(page),
{
    let rec = match record {
        Some(rs) => Some(*rs),
        None => None,
    };
    let a = playerdata::record_lines(rec, profile.stats);
    let b = playerdata::movement_lines(profile.stats);
    let c = playerdata::week_lines(days@);
    lemma_day_bars(days@);
    lemma_stats_labels();
    assert(c.len() > 0);
    assert(r@.description == Some((a + b) + c));
}

/// What stands behind a beginning grows by what follows.
proof fn lemma_behind(head: Seq<char>, x: Seq<char>, s: Seq<char>, y: Seq<char>)
    requires
        s == head + x,
    ensures
        s + y == head + (x + y),
{
    assert(s + y =~= head + (x + y));
}

/// The numbers of a record come one behind the other.
proof fn lemma_record_parts(
    head: Seq<char>,
    a: Seq<char>,
    b: Seq<char>,
    c: Seq<char>,
    d: Seq<char>,
)
    ensures
        head + "  •  🔑 **Logins:** "@ + a + "\n💬 **Messages:** "@ + b + "  •  ⌨️ **Commands:** "@
            + c + "  •  🏆 **Advancements:** "@ + d + "\n"@ == head + ("  •  🔑 **Logins:** "@ + a
            + "\n💬 **Messages:** "@ + b + "  •  ⌨️ **Commands:** "@ + c
            + "  •  🏆 **Advancements:** "@ + d + "\n"@),
{
    let x0 = "  •  🔑 **Logins:** "@;
    let x1 = x0 + a;
    lemma_behind(head, x0, head + x0, a);
    let x2 = x1 + "\n💬 **Messages:** "@;
    lemma_behind(head, x1, head + x1, "\n💬 **Messages:** "@);
    let x3 = x2 + b;
    lemma_behind(head, x2, head + x2, b);
    let x4 = x3 + "  •  ⌨️ **Commands:** "@;
    lemma_behind(head, x3, head + x3, "  •  ⌨️ **Commands:** "@);
    let x5 = x4 + c;
    lemma_behind(head, x4, head + x4, c);
    let x6 = x5 + "  •  🏆 **Advancements:** "@;
    lemma_behind(head, x5, head + x5, "  •  🏆 **Advancements:** "@);
    let x7 = x6 + d;
    lemma_behind(head, x6, head + x6, d);
    lemma_behind(head, x7, head + x7, "\n"@);
}

/// The movements and the fights come one behind the other.
proof fn lemma_movement_parts(
    a: Seq<char>,
    b: Seq<char>,
    c: Seq<char>,
    d: Seq<char>,
    e: Seq<char>,
    f: Seq<char>,
    g: Seq<char>,
    h: Seq<char>,
)
    ensures
        ({
            let all = "\n**Movement (from stats):**\n👣 Walked: "@ + a + "  •  ✈️ Flown: "@ + b
                + "  •  🏊 Swum: "@ + c + "\n🦘 Jumps: "@ + d + "\n🗡️ **Damage Dealt:** "@ + e
                + "  •  💥 **Damage Taken:** "@ + f + "\n\n🔝 **Top Killed:** "@ + g
                + "\n⛏️ **Top Mined:** "@ + h + "\n"@;
            let head = "\n**Movement (from stats):**\n"@;
            let moved = "👣 Walked: "@ + a + "  •  ✈️ Flown: "@ + b + "  •  🏊 Swum: "@ + c
                + "\n🦘 Jumps: "@ + d + "\n🗡️ **Damage Dealt:** "@ + e
                + "  •  💥 **Damage Taken:** "@ + f + "\n"@;
            let top = "🔝 **Top Killed:** "@ + g + "\n⛏️ **Top Mined:** "@ + h + "\n"@;
            &&& all == head + moved + ("\n"@ + top)
            &&& all == (head + moved + "\n"@) + top + Seq::<char>::empty()
        }),
{
    lemma_stats_labels();
    let head = "\n**Movement (from stats):**\n"@;
    let x0 = "👣 Walked: "@;
    let s0 = "\n**Movement (from stats):**\n👣 Walked: "@;
    let x1 = x0 + a;
    lemma_behind(head, x0, s0, a);
    let x2 = x1 + "  •  ✈️ Flown: "@;
    lemma_behind(head, x1, s0 + a, "  •  ✈️ Flown: "@);
    let x3 = x2 + b;
    lemma_behind(head, x2, head + x2, b);
    let x4 = x3 + "  •  🏊 Swum: "@;
    lemma_behind(head, x3, head + x3, "  •  🏊 Swum: "@);
    let x5 = x4 + c;
    lemma_behind(head, x4, head + x4, c);
    let x6 = x5 + "\n🦘 Jumps: "@;
    lemma_behind(head, x5, head + x5, "\n🦘 Jumps: "@);
    let x7 = x6 + d;
    lemma_behind(head, x6, head + x6, d);
    let x8 = x7 + "\n🗡️ **Damage Dealt:** "@;
    lemma_behind(head, x7, head + x7, "\n🗡️ **Damage Dealt:** "@);
    let x9 = x8 + e;
    lemma_behind(head, x8, head + x8, e);
    let x10 = x9 + "  •  💥 **Damage Taken:** "@;
    lemma_behind(head, x9, head + x9, "  •  💥 **Damage Taken:** "@);
    let x11 = x10 + f;
    lemma_behind(head, x10, head + x10, f);
    let moved = x11 + "\n"@;
    let front = head + moved + "\n"@;
    let label = "🔝 **Top Killed:** "@;
    assert(head + x11 + "\n\n🔝 **Top Killed:** "@ =~= front + label);
    let y1 = label + g;
    lemma_behind(front, label, front + label, g);
    let y2 = y1 + "\n⛏️ **Top Mined:** "@;
    lemma_behind(front, y1, front + y1, "\n⛏️ **Top Mined:** "@);
    let y3 = y2 + h;
    lemma_behind(front, y2, front + y2, h);
    let top = y3 + "\n"@;
    lemma_behind(front, y3, front + y3, "\n"@);
    assert(front + top =~= head + moved + ("\n"@ + top));
    assert(front + top =~= front + top + Seq::<char>::empty());
}

/// The labels of the page of the statistics that stand next to each other.
proof fn lemma_stats_labels()
    ensures
        "\n**Movement (from stats):**\n👣 Walked: "@ == "\n**Movement (from stats):**\n"@
            + "👣 Walked: "@,
        "\n\n🔝 **Top Killed:** "@ == "\n"@ + "\n"@ + "🔝 **Top Killed:** "@,
        "⏱️ **Play Time:** "@.len() > 0,
        "\n📅 **This Week:** "@.len() > 0,
        "\n**Movement (from stats):**\n"@.len() > 0,
{
    reveal_strlit("\n**Movement (from stats):**\n👣 Walked: ");
    reveal_strlit("\n**Movement (from stats):**\n");
    reveal_strlit("👣 Walked: ");
    reveal_strlit("\n\n🔝 **Top Killed:** ");
    reveal_strlit("\n");
    reveal_strlit("🔝 **Top Killed:** ");
    reveal_strlit("⏱️ **Play Time:** ");
    reveal_strlit("\n📅 **This Week:** ");
    assert("\n**Movement (from stats):**\n👣 Walked: "@ =~= "\n**Movement (from stats):**\n"@
        + "👣 Walked: "@);
    assert("\n\n🔝 **Top Killed:** "@ =~= "\n"@ + "\n"@ + "🔝 **Top Killed:** "@);
}

/// Of the entries of the file those are taken that are advancements, in order: one more entry is one
/// more advancement, unless it could not be read or is the version of the data.
pub proof fn law_entries_are_taken_one_by_one(
    raw: Vec<(String, Option<AdvancementEntry>)>,
    longer: Vec<(String, Option<AdvancementEntry>)>,
    id: String,
    entry: Option<AdvancementEntry>,
    map: AdvancementMap,
    more: AdvancementMap,
)
    requires
        call_ensures(playerdata::parse_advancement_map, (raw,), map),
        call_ensures(playerdata::parse_advancement_map, (longer,), more),
        longer@ == raw@.push((id, entry)),
    ensures
        entry is None || id@ == "DataVersion"@ ==> more@ == map@,
        entry is Some && id@ != "DataVersion"@ ==> more@ == map@.push((id, entry->0)),
        raw@.len() == 0 ==> map@.len() == 0,
{
    assert(longer@.drop_last() =~= raw@);
}

/// One more entry that is begun and not done, and unlocks no recipe, is one more of those that are
/// begun, with the number of its criteria that are met; every other entry changes nothing there.
pub proof fn law_what_is_begun_is_listed(
    map: &AdvancementMap,
    longer: &AdvancementMap,
    e: (String, AdvancementEntry),
    a: Advancements,
    more: Advancements,
)
    requires
        call_ensures(playerdata::compute_advancements, (map,), a),
        call_ensures(playerdata::compute_advancements, (longer,), more),
        longer@ == map@.push(e),
    ensures
        map@.len() == 0 ==> a.in_progress@.len() == 0,
        !e.1.done && e.1.criteria@.len() > 0 && !unlocks_recipe(e.0@) ==> {
            let n = a.in_progress@.len() as int;
            &&& more.in_progress@.len() == n + 1
            &&& more.in_progress@[n].0@ == e.0@
            &&& more.in_progress@[n].1 == e.1.criteria@.len() as usize
            &&& more.in_progress@[n].2 == 1
            &&& forall|i: int|
                0 <= i < n ==> (#[trigger] more.in_progress@[i]).0@ == a.in_progress@[i].0@
                    && more.in_progress@[i].1 == a.in_progress@[i].1 && more.in_progress@[i].2
                    == a.in_progress@[i].2
        },
        e.1.done || e.1.criteria@.len() == 0 || unlocks_recipe(e.0@) ==> more.in_progress@.len()
            == a.in_progress@.len(),
{
    lemma_at_beginning(e.0@, "minecraft:recipes/"@);
    assert(longer@.drop_last() =~= map@);
    let was = playerdata::begun_view(a.in_progress@);
    let then = playerdata::begun_view(more.in_progress@);
    assert(was.len() == a.in_progress@.len());
    assert(then.len() == more.in_progress@.len());
    assert forall|i: int| 0 <= i < more.in_progress@.len() implies #[trigger] then[i] == (
        more.in_progress@[i].0@,
        more.in_progress@[i].1,
        more.in_progress@[i].2,
    ) by {}
    assert forall|i: int| 0 <= i < a.in_progress@.len() implies #[trigger] was[i] == (
        a.in_progress@[i].0@,
        a.in_progress@[i].1,
        a.in_progress@[i].2,
    ) by {}
    if !e.1.done && e.1.criteria@.len() > 0 && !unlocks_recipe(e.0@) {
        let n = a.in_progress@.len() as int;
        assert(then == was.push((e.0@, e.1.criteria@.len() as usize, 1)));
        assert(then[n] == (e.0@, e.1.criteria@.len() as usize, 1usize));
        assert forall|i: int| 0 <= i < n implies (#[trigger] more.in_progress@[i]).0@
            == a.in_progress@[i].0@ && more.in_progress@[i].1 == a.in_progress@[i].1
            && more.in_progress@[i].2 == a.in_progress@[i].2 by {
            assert(then[i] == was[i]);
        }
    }
}

/// What went wrong with a file is said after what it was, with the file.
pub proof fn law_errors_name_the_file(e: &PlayerDataError, r: String)
    requires
        call_ensures(PlayerDataError::message, (e,), r),
    ensures
        match *e {
            PlayerDataError::DataFileNotFound(path) => r@ == "player data file not found: "@ + path@,
            PlayerDataError::ReadFile { path, source } => r@ == "failed to read file `"@ + path@
                + "`: "@ + source@,
            PlayerDataError::NbtParse { path, source } => r@ == "failed to parse NBT data from `"@
                + path@ + "`: "@ + source@,
            PlayerDataError::JsonParse { path, source } => r@ == "failed to parse JSON from `"@
                + path@ + "`: "@ + source@,
        },
{
}

} // verus!
