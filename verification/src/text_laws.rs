//! What holds of the ways in which texts are taken apart and put together.

use crate::bot::commands;
use crate::log_laws;
use crate::log_parser;
use crate::log_parser::{EventView, MinecraftEvent, RecentDisconnects};
use crate::text;
use vstd::prelude::*;
use vstd::string::*;

verus! {

/// The characters that count as white space.
pub const WHITE_SPACE: [char; 25] = [
    '\u{9}',
    '\u{a}',
    '\u{b}',
    '\u{c}',
    '\u{d}',
    '\u{20}',
    '\u{85}',
    '\u{a0}',
    '\u{1680}',
    '\u{2000}',
    '\u{2001}',
    '\u{2002}',
    '\u{2003}',
    '\u{2004}',
    '\u{2005}',
    '\u{2006}',
    '\u{2007}',
    '\u{2008}',
    '\u{2009}',
    '\u{200a}',
    '\u{2028}',
    '\u{2029}',
    '\u{202f}',
    '\u{205f}',
    '\u{3000}',
];

/// A character is white space exactly where it is one of these.
pub proof fn law_white_space_is_this(c: char)
    ensures
        text::is_space(c) <==> exists|k: int| 0 <= k < 25 && #[trigger] WHITE_SPACE@[k] == c,
{
    if text::is_space(c) {
        if '\u{9}' <= c <= '\u{d}' {
            let k = c as int - 9;
            assert(WHITE_SPACE@[k] == c) by {
                assert(WHITE_SPACE@[0] == '\u{9}' && WHITE_SPACE@[1] == '\u{a}' && WHITE_SPACE@[2]
                    == '\u{b}' && WHITE_SPACE@[3] == '\u{c}' && WHITE_SPACE@[4] == '\u{d}');
            }
        } else if '\u{2000}' <= c <= '\u{200a}' {
            let k = c as int - 0x2000 + 9;
            assert(WHITE_SPACE@[k] == c) by {
                assert(WHITE_SPACE@[9] == '\u{2000}' && WHITE_SPACE@[10] == '\u{2001}'
                    && WHITE_SPACE@[11] == '\u{2002}' && WHITE_SPACE@[12] == '\u{2003}'
                    && WHITE_SPACE@[13] == '\u{2004}' && WHITE_SPACE@[14] == '\u{2005}'
                    && WHITE_SPACE@[15] == '\u{2006}' && WHITE_SPACE@[16] == '\u{2007}'
                    && WHITE_SPACE@[17] == '\u{2008}' && WHITE_SPACE@[18] == '\u{2009}'
                    && WHITE_SPACE@[19] == '\u{200a}');
            }
        } else {
            assert(WHITE_SPACE@[5] == '\u{20}' && WHITE_SPACE@[6] == '\u{85}' && WHITE_SPACE@[7]
                == '\u{a0}' && WHITE_SPACE@[8] == '\u{1680}' && WHITE_SPACE@[20] == '\u{2028}'
                && WHITE_SPACE@[21] == '\u{2029}' && WHITE_SPACE@[22] == '\u{202f}'
                && WHITE_SPACE@[23] == '\u{205f}' && WHITE_SPACE@[24] == '\u{3000}');
        }
    }
}

/// Trimming takes white space off both ends and nothing else: a text between white space that does
/// not itself begin or end with any is what is left.
pub proof fn law_trimming_leaves_the_text(before: Seq<char>, s: Seq<char>, after: Seq<char>)
    requires
        forall|i: int| 0 <= i < before.len() ==> text::is_space(#[trigger] before[i]),
        forall|i: int| 0 <= i < after.len() ==> text::is_space(#[trigger] after[i]),
        s.len() > 0 ==> !text::is_space(s[0]) && !text::is_space(s.last()),
    ensures
        text::trim(before + s + after) == s,
    decreases before.len() + after.len(),
{
    let all = before + s + after;
    if before.len() > 0 {
        assert(all[0] == before[0]);
        assert(all.skip(1) =~= before.skip(1) + s + after);
        assert forall|i: int| 0 <= i < before.skip(1).len() implies text::is_space(
            #[trigger] before.skip(1)[i],
        ) by {
            assert(before.skip(1)[i] == before[i + 1]);
        }
        law_trimming_leaves_the_text(before.skip(1), s, after);
    } else if s.len() > 0 {
        assert(all =~= s + after);
        assert(all[0] == s[0]);
        assert(text::trim_start(all) == all);
        lemma_trim_end(s, after);
    } else {
        assert(all =~= after);
        lemma_trim_all(after);
    }
}

/// White space at the end is taken off.
proof fn lemma_trim_end(s: Seq<char>, after: Seq<char>)
    requires
        forall|i: int| 0 <= i < after.len() ==> text::is_space(#[trigger] after[i]),
        s.len() > 0 ==> !text::is_space(s.last()),
    ensures
        text::trim_end(s + after) == s,
    decreases after.len(),
{
    if after.len() > 0 {
        assert((s + after).last() == after[after.len() - 1]);
        assert((s + after).drop_last() =~= s + after.drop_last());
        assert forall|i: int| 0 <= i < after.drop_last().len() implies text::is_space(
            #[trigger] after.drop_last()[i],
        ) by {
            assert(after.drop_last()[i] == after[i]);
        }
        lemma_trim_end(s, after.drop_last());
    } else {
        assert(s + after =~= s);
    }
}

/// Nothing is left of white space.
proof fn lemma_trim_all(s: Seq<char>)
    requires
        forall|i: int| 0 <= i < s.len() ==> text::is_space(#[trigger] s[i]),
    ensures
        text::trim_start(s) == Seq::<char>::empty(),
        text::trim(s) == Seq::<char>::empty(),
    decreases s.len(),
{
    if s.len() > 0 {
        assert forall|i: int| 0 <= i < s.skip(1).len() implies text::is_space(
            #[trigger] s.skip(1)[i],
        ) by {
            assert(s.skip(1)[i] == s[i + 1]);
        }
        assert(text::is_space(s[0]));
        lemma_trim_all(s.skip(1));
    } else {
        assert(s =~= Seq::<char>::empty());
    }
}

/// What follows the last separator is the last stretch.
pub proof fn lemma_split_at(s: Seq<char>, t: Seq<char>, sep: char)
    requires
        !t.contains(sep),
    ensures
        text::split_on(s.push(sep) + t, sep) == text::split_on(s, sep).push(t),
    decreases t.len(),
{
    if t.len() == 0 {
        assert(s.push(sep) + t =~= s.push(sep));
        text::lemma_split_push(s, sep, sep);
        assert(t =~= Seq::<char>::empty());
    } else {
        let u = t.drop_last();
        assert(!u.contains(sep)) by {
            if u.contains(sep) {
                let i = u.index_of(sep);
                assert(t[i] == sep);
            }
        }
        lemma_split_at(s, u, sep);
        let c = t.last();
        assert(c != sep) by {
            assert(t.contains(t[t.len() - 1]));
        }
        text::lemma_split_push(s.push(sep) + u, c, sep);
        assert((s.push(sep) + u).push(c) =~= s.push(sep) + t);
        let a = text::split_on(s, sep).push(u);
        assert(a.update(a.len() - 1, u.push(c)) =~= text::split_on(s, sep).push(u.push(c)));
        assert(u.push(c) =~= t);
    }
}

/// A text without separators is one stretch.
pub proof fn lemma_one_stretch(t: Seq<char>, sep: char)
    requires
        !t.contains(sep),
    ensures
        text::split_on(t, sep) == seq![t],
    decreases t.len(),
{
    if t.len() == 0 {
        assert(t =~= Seq::<char>::empty());
    } else {
        let u = t.drop_last();
        assert(!u.contains(sep)) by {
            if u.contains(sep) {
                let i = u.index_of(sep);
                assert(t[i] == sep);
            }
        }
        lemma_one_stretch(u, sep);
        assert(t.last() != sep) by {
            assert(t.contains(t[t.len() - 1]));
        }
        text::lemma_split_push(u, t.last(), sep);
        assert(u.push(t.last()) =~= t);
        assert(seq![u].update(0, t) =~= seq![t]);
    }
}

/// A list grows by what is between its last comma and its end, trimmed, where that is anything.
pub proof fn law_lists_grow_by_their_last_entry(s: Seq<char>, t: Seq<char>)
    requires
        !t.contains(','),
    ensures
        text::comma_list(s.push(',') + t) == if text::trim(t).len() > 0 {
            text::comma_list(s).push(text::trim(t))
        } else {
            text::comma_list(s)
        },
        text::comma_list(t) == if text::trim(t).len() > 0 {
            seq![text::trim(t)]
        } else {
            Seq::empty()
        },
{
    let f = |w: Seq<char>| text::trim(w);
    let keep = |w: Seq<char>| w.len() > 0;
    lemma_split_at(s, t, ',');
    let parts = text::split_on(s, ',');
    assert(parts.push(t).map_values(f) =~= parts.map_values(f).push(text::trim(t)));
    text::lemma_filter_push(parts.map_values(f), text::trim(t), keep);
    lemma_one_stretch(t, ',');
    let none = Seq::<Seq<char>>::empty();
    assert(seq![t].map_values(f) =~= none.push(text::trim(t)));
    text::lemma_filter_push(none, text::trim(t), keep);
    reveal(Seq::filter);
    assert(none.filter(keep) =~= none);
    assert(none.push(text::trim(t)) =~= seq![text::trim(t)]);
}

/// Names with a comma and a space between them are read as these names, in order, with or without
/// white space before them.
pub proof fn law_lists_of_names_are_read(names: Seq<Seq<char>>, spaced: bool)
    requires
        forall|i: int| 0 <= i < names.len() ==> log_laws::is_name(#[trigger] names[i]),
    ensures
        text::comma_list(
            if spaced {
                " "@ + text::joined(names, ", "@)
            } else {
                text::joined(names, ", "@)
            },
        ) == names,
    decreases names.len(),
{
    reveal_strlit(" ");
    reveal_strlit(", ");
    let lead = if spaced {
        " "@
    } else {
        Seq::empty()
    };
    if names.len() == 0 {
        let list = lead + text::joined(names, ", "@);
        assert(list =~= lead);
        assert(!lead.contains(',')) by {
            if lead.contains(',') {
                let i = lead.index_of(',');
                assert(lead[i] == ' ');
            }
        }
        law_lists_grow_by_their_last_entry(lead, lead);
        lemma_trim_all(lead);
        assert(text::joined(names, ", "@) =~= Seq::<char>::empty());
        assert(names =~= Seq::<Seq<char>>::empty());
    } else {
        let rest = names.drop_last();
        let last = names.last();
        assert(log_laws::is_name(names[names.len() - 1]));
        lemma_spaced_name(last);
        if names.len() == 1 {
            assert(text::joined(names, ", "@) == last);
            assert(names =~= seq![last]);
            if spaced {
                law_lists_grow_by_their_last_entry(Seq::empty(), " "@ + last);
            } else {
                law_lists_grow_by_their_last_entry(Seq::empty(), last);
            }
        } else {
            assert forall|i: int| 0 <= i < rest.len() implies log_laws::is_name(
                #[trigger] rest[i],
            ) by {
                assert(rest[i] == names[i]);
            }
            law_lists_of_names_are_read(rest, spaced);
            let front = if spaced {
                " "@ + text::joined(rest, ", "@)
            } else {
                text::joined(rest, ", "@)
            };
            let all = if spaced {
                " "@ + text::joined(names, ", "@)
            } else {
                text::joined(names, ", "@)
            };
            law_lists_grow_by_their_last_entry(front, " "@ + last);
            assert(", "@ =~= seq![','] + " "@);
            assert(all =~= front.push(',') + (" "@ + last));
            assert(names =~= rest.push(last));
        }
    }
}

/// A name holds no comma and no white space, with a space before it or not.
proof fn lemma_spaced_name(name: Seq<char>)
    requires
        log_laws::is_name(name),
    ensures
        !name.contains(','),
        !(" "@ + name).contains(','),
        text::trim(name) == name,
        text::trim(" "@ + name) == name,
{
    reveal_strlit(" ");
    let s = " "@ + name;
    let none = Seq::<char>::empty();
    assert(name[0] == name[0] && name[name.len() - 1] == name.last());
    if name.contains(',') {
        let i = name.index_of(',');
        assert(name[i] == ',');
    }
    if s.contains(',') {
        let i = s.index_of(',');
        if i > 0 {
            assert(s[i] == name[i - 1]);
        }
    }
    law_trimming_leaves_the_text(none, name, none);
    assert(none + name + none =~= name);
    law_trimming_leaves_the_text(" "@, name, none);
    assert(" "@ + name + none =~= s);
}

/// The server's reply to `list`: how many play of how many who may, and their names.
pub open spec fn list_reply(online: nat, max: nat, names: Seq<Seq<char>>) -> Seq<char> {
    "There are "@ + text::dec(online) + " of a max of "@ + text::dec(max) + " players online: "@
        + text::joined(names, ", "@)
}

/// The names that the server lists are read, in order, however many it says there are.
pub proof fn law_listed_players_are_read(
    response: &str,
    r: Vec<String>,
    online: nat,
    max: nat,
    names: Seq<Seq<char>>,
)
    requires
        call_ensures(commands::parse_player_list, (response,), r),
        response@ == list_reply(online, max, names),
        forall|i: int| 0 <= i < names.len() ==> log_laws::is_name(#[trigger] names[i]),
    ensures
        r@.len() == names.len(),
        forall|i: int| 0 <= i < names.len() ==> (#[trigger] r@[i])@ == names[i],
{
    let s = response@;
    let a = text::dec(online);
    let b = text::dec(max);
    let list = text::joined(names, ", "@);
    reveal_strlit("There are ");
    reveal_strlit(" of a max of ");
    reveal_strlit(" players online: ");
    reveal_strlit("online:");
    reveal_strlit(" ");
    lemma_dec_digits(online);
    lemma_dec_digits(max);
    let k = 10 + a.len() as int + 13 + b.len() as int + 9;
    assert(s.subrange(k, k + 7) =~= "online:"@);
    assert forall|j: int| 0 <= j < k implies !#[trigger] text::text_at(s, j, "online:"@) by {
        if text::text_at(s, j, "online:"@) {
            let w = s.subrange(j, j + 7);
            assert(w[0] == s[j] && w[1] == s[j + 1]);
            assert(s[j] == 'o' && s[j + 1] == 'n');
            let na = a.len() as int;
            let nb = b.len() as int;
            if j < 10 {
                assert(s[j] == "There are "@[j]);
            } else if j < 10 + na {
                assert(s[j] == a[j - 10]);
            } else if j < 23 + na {
                assert(s[j] == " of a max of "@[j - 10 - na]);
                assert(s[j + 1] == " of a max of "@[j + 1 - 10 - na]);
            } else if j < 23 + na + nb {
                assert(s[j] == b[j - 23 - na]);
            } else {
                assert(s[j] == " players online: "@[j - 23 - na - nb]);
            }
        }
    }
    assert(text::first_text_at(s, k, "online:"@));
    text::lemma_first_text(s, k, "online:"@);
    assert(text::text_at(s, k, "online:"@));
    assert(s.skip(k + 7) =~= " "@ + list);
    law_lists_of_names_are_read(names, true);
    assert(text::texts(r@) == names);
    assert forall|i: int| 0 <= i < names.len() implies (#[trigger] r@[i])@ == names[i] by {
        assert(text::texts(r@)[i] == r@[i]@);
    }
}

/// A number in decimal is at least one digit, and digits only.
pub proof fn lemma_dec_digits(n: nat)
    ensures
        text::dec(n).len() > 0,
        forall|i: int| 0 <= i < text::dec(n).len() ==> '0' <= #[trigger] text::dec(n)[i] <= '9',
    decreases n,
{
    if n >= 10 {
        lemma_dec_digits(n / 10);
        let rest = text::dec(n / 10);
        assert forall|i: int| 0 <= i < text::dec(n).len() implies '0' <= #[trigger] text::dec(n)[i]
            <= '9' by {
            if i < rest.len() {
                assert(text::dec(n)[i] == rest[i]);
            }
        }
    }
}

/// A number in decimal reads back as the number, and has no zero in front of other digits.
pub proof fn law_decimals_read_back(n: nat)
    ensures
        text::number(text::dec(n), n) == Some(n),
        text::digits_value(text::dec(n)) == n,
        n > 0 ==> text::dec(n)[0] != '0',
        text::dec_int(n as int) == text::dec(n),
        n > 0 ==> text::dec_int(-(n as int)) == seq!['-'] + text::dec(n),
    decreases n,
{
    text::lemma_dec_reads_back(n, n);
    if n >= 10 {
        law_decimals_read_back(n / 10);
        assert(text::dec(n)[0] == text::dec(n / 10)[0]);
    }
}

/// The value of digits goes by tens: one more digit counts for itself, and all before it for ten
/// times as much.
pub proof fn law_digits_count_by_tens(s: Seq<char>, c: char)
    requires
        '0' <= c <= '9',
    ensures
        text::digits_value(Seq::empty()) == 0,
        text::digits_value(s.push(c)) == 10 * text::digits_value(s) + (c as int - '0' as int),
{
    assert(s.push(c).drop_last() =~= s);
}

/// Texts that are put together with a text between them: none make nothing, one makes itself, and
/// one more comes behind the others and the text between.
pub proof fn law_joining_goes_one_by_one(parts: Seq<Seq<char>>, sep: Seq<char>, part: Seq<char>)
    ensures
        text::joined(Seq::empty(), sep) == Seq::<char>::empty(),
        text::joined(seq![part], sep) == part,
        parts.len() > 0 ==> text::joined(parts.push(part), sep) == text::joined(parts, sep) + sep
            + part,
{
    text::lemma_joined_push(parts, sep, part);
}

/// Letters keep what they are and change their size: the small of a capital is the small letter, the
/// capital of a small letter the capital, and everything else stays.
pub proof fn law_letters_change_their_size(c: char)
    ensures
        'A' <= c <= 'Z' ==> text::lower(c) as int == c as int + ('a' as int - 'A' as int),
        !('A' <= c <= 'Z') ==> text::lower(c) == c,
        'a' <= c <= 'z' ==> text::upper(c) as int == c as int - ('a' as int - 'A' as int),
        !('a' <= c <= 'z') ==> text::upper(c) == c,
{
}

/// What stands between two texts is contained.
pub proof fn lemma_middle(a: Seq<char>, b: Seq<char>, c: Seq<char>)
    ensures
        text::contains_text(a + b + c, b),
{
    let s = a + b + c;
    let n = a.len() as int;
    assert(s.subrange(n, n + b.len()) =~= b);
    assert(text::text_at(s, n, b));
}

/// What a text contains is contained in a longer text.
pub proof fn lemma_contained_in_longer(a: Seq<char>, b: Seq<char>, c: Seq<char>, p: Seq<char>)
    requires
        text::contains_text(b, p),
    ensures
        text::contains_text(a + b + c, p),
{
    let i = choose|i: int| #[trigger] text::text_at(b, i, p);
    let s = a + b + c;
    let n = a.len() as int;
    assert(s.subrange(n + i, n + i + p.len()) =~= b.subrange(i, i + p.len()));
    assert(text::text_at(s, n + i, p));
}

/// The digits at the beginning of a text are split off.
proof fn lemma_number_first(d: Seq<char>, rest: Seq<char>)
    requires
        d.len() > 0,
        forall|i: int| 0 <= i < d.len() ==> '0' <= #[trigger] d[i] <= '9',
        rest.len() > 0,
        rest[0] == ' ',
    ensures
        log_parser::number_and_rest(d + rest) == Some((d, rest)),
{
    let s = d + rest;
    lemma_digit_run(s, 0, d.len() as int);
    assert(s.take(d.len() as int) =~= d);
    assert(s.skip(d.len() as int) =~= rest);
}

/// A run of digits ends where they end.
proof fn lemma_digit_run(s: Seq<char>, i: int, n: int)
    requires
        0 <= i <= n < s.len(),
        forall|j: int| i <= j < n ==> '0' <= #[trigger] s[j] <= '9',
        s[n] == ' ',
    ensures
        log_parser::digit_run(s, i) == n,
    decreases n - i,
{
    if i < n {
        assert('0' <= s[i] <= '9');
        lemma_digit_run(s, i + 1, n);
    }
}

/// The line of the log that lists who plays is read as that list: how many, of how many who may, and
/// the names in order.
pub proof fn law_player_lists_are_reported(
    line: &str,
    recent: &mut RecentDisconnects,
    r: Option<MinecraftEvent>,
    clock: Seq<char>,
    thread: Seq<char>,
    online: u32,
    max: u32,
    names: Seq<Seq<char>>,
)
    requires
        call_ensures(log_parser::parse_log_line, (line, recent), r),
        log_laws::is_log_line(
            line@,
            clock,
            thread,
            list_reply(online as nat, max as nat, names),
        ),
        log_laws::is_ordinary(list_reply(online as nat, max as nat, names)),
        forall|i: int| 0 <= i < names.len() ==> log_laws::is_name(#[trigger] names[i]),
    ensures
        log_parser::event_view(r) == Some(
            EventView::PlayerList { current: online, max, players: names },
        ),
{
    let p = list_reply(online as nat, max as nat, names);
    log_laws::law_messages_follow_the_head(clock, thread, p);
    lemma_list_of_one_line(online, max, names);
    log_laws::lemma_plain(line@, p, old(recent)@);
    log_laws::lemma_list_is_nothing_else(p);
    lemma_list_reads_back(online, max, names);
}

/// The list that the server replies with is of one line, and how it begins.
#[verifier::rlimit(40)]
proof fn lemma_list_of_one_line(online: u32, max: u32, names: Seq<Seq<char>>)
    requires
        forall|i: int| 0 <= i < names.len() ==> log_laws::is_name(#[trigger] names[i]),
    ensures
        ({
            let p = list_reply(online as nat, max as nat, names);
            &&& !p.contains('\n')
            &&& p.len() > 6
            &&& p[0] == 'T' && p[1] == 'h' && p[2] == 'e' && p[3] == 'r' && p[4] == 'e' && p[5]
                == ' ' && p[6] == 'a'
        }),
{
    let p = list_reply(online as nat, max as nat, names);
    let a = text::dec(online as nat);
    let b = text::dec(max as nat);
    let list = text::joined(names, ", "@);
    reveal_strlit("There are ");
    reveal_strlit(" of a max of ");
    reveal_strlit(" players online: ");
    lemma_dec_digits(online as nat);
    lemma_dec_digits(max as nat);
    lemma_names_lack(names, '\n');
    let na = a.len() as int;
    let nb = b.len() as int;
    assert(p[0] == "There are "@[0] && p[1] == "There are "@[1] && p[2] == "There are "@[2] && p[3]
        == "There are "@[3] && p[4] == "There are "@[4] && p[5] == "There are "@[5] && p[6]
        == "There are "@[6]);
    assert(!p.contains('\n')) by {
        if p.contains('\n') {
            let j = p.index_of('\n');
            if j < 10 {
                assert(p[j] == "There are "@[j]);
            } else if j < 10 + na {
                assert(p[j] == a[j - 10]);
            } else if j < 23 + na {
                assert(p[j] == " of a max of "@[j - 10 - na]);
            } else if j < 23 + na + nb {
                assert(p[j] == b[j - 23 - na]);
            } else if j < 40 + na + nb {
                assert(p[j] == " players online: "@[j - 23 - na - nb]);
            } else {
                assert(p[j] == list[j - 40 - na - nb]);
                assert(list.contains(p[j]));
            }
        }
    }
}

/// The list that the server replies with reads back as what it tells.
#[verifier::rlimit(40)]
proof fn lemma_list_reads_back(online: u32, max: u32, names: Seq<Seq<char>>)
    requires
        forall|i: int| 0 <= i < names.len() ==> log_laws::is_name(#[trigger] names[i]),
    ensures
        log_parser::player_list_of(list_reply(online as nat, max as nat, names)) == Some(
            EventView::PlayerList { current: online, max, players: names },
        ),
{
    let p = list_reply(online as nat, max as nat, names);
    let a = text::dec(online as nat);
    let b = text::dec(max as nat);
    let list = text::joined(names, ", "@);
    reveal_strlit("There are ");
    reveal_strlit(" of a max of ");
    reveal_strlit(" players online: ");
    reveal_strlit(" players online");
    reveal_strlit(" ");
    lemma_dec_digits(online as nat);
    lemma_dec_digits(max as nat);
    lemma_names_lack(names, '\n');
    let rest = p.skip(10);
    assert(p.subrange(0, 10) =~= "There are "@);
    let tail = " of a max of "@ + b + " players online: "@ + list;
    assert(rest =~= a + tail);
    assert(tail[0] == ' ');
    lemma_number_first(a, tail);
    assert(tail.subrange(0, 13) =~= " of a max of "@);
    let last = " players online: "@ + list;
    assert(tail.skip(13) =~= b + last);
    assert(last[0] == ' ');
    lemma_number_first(b, last);
    assert(last.subrange(0, 15) =~= " players online"@);
    let e = last.skip(15);
    assert(e[0] == ':');
    let f = e.skip(1);
    assert(f =~= " "@ + list);
    assert(text::trim_start(f) == list) by {
        assert(f[0] == ' ');
        assert(f.skip(1) =~= list);
        if names.len() > 0 {
            lemma_list_begins(names);
        }
        assert(text::trim_start(list) == list);
    }
    law_lists_of_names_are_read(names, false);
    law_decimals_read_back(online as nat);
    law_decimals_read_back(max as nat);
    text::lemma_dec_reads_back(online as nat, u32::MAX as nat);
    text::lemma_dec_reads_back(max as nat, u32::MAX as nat);
}

/// A list of names begins with the first name.
proof fn lemma_list_begins(names: Seq<Seq<char>>)
    requires
        names.len() > 0,
        forall|i: int| 0 <= i < names.len() ==> log_laws::is_name(#[trigger] names[i]),
    ensures
        text::joined(names, ", "@).len() > 0,
        text::joined(names, ", "@)[0] == names[0][0],
        !text::is_space(text::joined(names, ", "@)[0]),
    decreases names.len(),
{
    assert(log_laws::is_name(names[0]));
    assert(names[0][0] == names[0][0]);
    if names.len() > 1 {
        let rest = names.drop_last();
        assert forall|i: int| 0 <= i < rest.len() implies log_laws::is_name(#[trigger] rest[i]) by {
            assert(rest[i] == names[i]);
        }
        lemma_list_begins(rest);
        assert(rest[0] == names[0]);
        assert(text::joined(names, ", "@)[0] == text::joined(rest, ", "@)[0]);
    }
}

/// A list of names holds no character that stands neither in a name nor between two.
proof fn lemma_names_lack(names: Seq<Seq<char>>, c: char)
    requires
        !text::is_name_char(c),
        c != ',',
        c != ' ',
        forall|i: int| 0 <= i < names.len() ==> log_laws::is_name(#[trigger] names[i]),
    ensures
        !text::joined(names, ", "@).contains(c),
    decreases names.len(),
{
    reveal_strlit(", ");
    if names.len() > 0 {
        let last = names.last();
        assert(log_laws::is_name(names[names.len() - 1]));
        assert(!last.contains(c)) by {
            if last.contains(c) {
                let i = last.index_of(c);
                assert(last[i] == c);
            }
        }
        if names.len() > 1 {
            let rest = names.drop_last();
            assert forall|i: int| 0 <= i < rest.len() implies log_laws::is_name(
                #[trigger] rest[i],
            ) by {
                assert(rest[i] == names[i]);
            }
            lemma_names_lack(rest, c);
            let front = text::joined(rest, ", "@);
            let all = text::joined(names, ", "@);
            assert(all == front + ", "@ + last);
            if all.contains(c) {
                let j = all.index_of(c);
                if j < front.len() {
                    assert(all[j] == front[j]);
                    assert(front.contains(all[j]));
                } else if j < front.len() + 2 {
                    assert(all[j] == ", "@[j - front.len()]);
                } else {
                    assert(all[j] == last[j - front.len() - 2]);
                    assert(last.contains(all[j]));
                }
            }
        }
    }
}

/// What a part contains is contained in the whole.
pub proof fn lemma_in_a_part(parts: Seq<Seq<char>>, i: int, p: Seq<char>)
    requires
        0 <= i < parts.len(),
        text::contains_text(parts[i], p),
    ensures
        text::contains_text(parts.flatten(), p),
    decreases parts.len(),
{
    let rest = parts.drop_last();
    let last = parts.last();
    assert(parts =~= rest.push(last));
    rest.lemma_flatten_push(last);
    let none = Seq::<char>::empty();
    if i < rest.len() {
        assert(rest[i] == parts[i]);
        lemma_in_a_part(rest, i, p);
        lemma_contained_in_longer(none, rest.flatten(), last, p);
        assert(none + rest.flatten() + last =~= parts.flatten());
    } else {
        lemma_contained_in_longer(rest.flatten(), last, none, p);
        assert(rest.flatten() + last + none =~= parts.flatten());
    }
}

/// Names that follow `online` and a full stop, where no colon stands anywhere, are read, in order.
pub proof fn law_listed_players_need_no_colon(
    response: &str,
    r: Vec<String>,
    front: Seq<char>,
    names: Seq<Seq<char>>,
)
    requires
        call_ensures(commands::parse_player_list, (response,), r),
        response@ == front + "online. "@ + text::joined(names, ", "@),
        !front.contains('o'),
        !front.contains(':'),
        names.len() > 0,
        forall|i: int| 0 <= i < names.len() ==> log_laws::is_name(#[trigger] names[i]),
    ensures
        r@.len() == names.len(),
        forall|i: int| 0 <= i < names.len() ==> (#[trigger] r@[i])@ == names[i],
{
    reveal_strlit("online. ");
    reveal_strlit("online:");
    reveal_strlit("online");
    let s = response@;
    let n = front.len() as int;
    let list = text::joined(names, ", "@);
    lemma_names_lack(names, ':');
    assert(!text::contains_text(s, "online:"@)) by {
        if text::contains_text(s, "online:"@) {
            let i = choose|i: int| #[trigger] text::text_at(s, i, "online:"@);
            assert(s.subrange(i, i + 7)[6] == s[i + 6]);
            let k = i + 6;
            assert(s[k] == ':');
            if k < n {
                assert(front[k] == ':');
            } else if k < n + 8 {
                assert(s[k] == "online. "@[k - n]);
            } else {
                assert(list[k - n - 8] == ':');
            }
        }
    }
    assert(s.subrange(n, n + 6) =~= "online"@);
    assert forall|j: int| 0 <= j < n implies !#[trigger] text::text_at(s, j, "online"@) by {
        if text::text_at(s, j, "online"@) {
            assert(s.subrange(j, j + 6)[0] == s[j]);
            assert(front[j] == 'o');
        }
    }
    assert(text::first_text_at(s, n, "online"@));
    assert(text::text_at(s, n, "online"@));
    text::lemma_first_text(s, n, "online"@);
    let rest = s.skip(n + 6);
    assert(rest =~= seq!['.', ' '] + list);
    assert(text::trim_start(rest) == rest);
    lemma_list_begins(names);
    assert(rest.skip(1) =~= seq![' '] + list);
    assert(rest.skip(1).skip(1) =~= list);
    assert(log_laws::is_name(names[0]));
    assert(names[0][0] == list[0]);
    assert(commands::past_marks(list) == list);
    assert(commands::past_marks(rest.skip(1)) == list);
    assert(commands::past_marks(rest) == list);
    law_lists_of_names_are_read(names, false);
    assert(text::texts(r@) == names);
    assert forall|i: int| 0 <= i < names.len() implies (#[trigger] r@[i])@ == names[i] by {
        assert(text::texts(r@)[i] == r@[i]@);
    }
}

} // verus!
