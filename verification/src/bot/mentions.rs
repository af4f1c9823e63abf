//! Mentions, turned from one side's form into the other's.

use crate::log_parser;
use crate::storage::accounts;
use crate::storage::{Memory, Storage};
use crate::text;
use crate::text::{chars_of, name_char, parse_number, push_chars, push_dec, same_text, string_of};
use vstd::prelude::*;
use vstd::slice::slice_subrange;
use vstd::string::*;

verus! {

/// The end of the run of ASCII digits that begins at `i`.
pub open spec fn digits_end(s: Seq<char>, i: int) -> int
    decreases s.len() - i,
{
    if i >= s.len() || !('0' <= s[i] <= '9') {
        i
    } else {
        digits_end(s, i + 1)
    }
}

/// Where the digits begin in a mention that begins at `i`: past `<@` or `<@!`.
pub open spec fn digits_start(s: Seq<char>, i: int) -> int {
    if i + 2 < s.len() && s[i + 2] == '!' {
        i + 3
    } else {
        i + 2
    }
}

/// `<@digits>` or `<@!digits>` stands in `s` at `i`.
pub open spec fn dc_mention_at(s: Seq<char>, i: int) -> bool {
    let n = digits_start(s, i);
    let e = digits_end(s, n);
    i + 1 < s.len() && s[i] == '<' && s[i + 1] == '@' && n < e && e < s.len() && s[e] == '>'
}

/// The player whom the mention at `i` means: the one with whom the Discord user is linked.
pub open spec fn mentioned_player(s: Seq<char>, i: int, m: Memory) -> Option<Seq<char>> {
    let n = digits_start(s, i);
    if dc_mention_at(s, i) {
        match text::number(s.subrange(n, digits_end(s, n)), u64::MAX as nat) {
            Some(id) => accounts::mc_of(m.accounts, id as u64),
            None => None,
        }
    } else {
        None
    }
}

/// What becomes of `s` from `i` on: each mention of a linked Discord user turns into `@` and the
/// player's name.
pub open spec fn named_in_mc(s: Seq<char>, i: int, m: Memory) -> Seq<char>
    decreases s.len() - i,
{
    if i >= s.len() {
        Seq::empty()
    } else {
        match mentioned_player(s, i, m) {
            Some(mc) => {
                seq!['@'] + mc + named_in_mc(s, digits_end(s, digits_start(s, i)) + 1, m)
            },
            None => seq![s[i]] + named_in_mc(s, i + 1, m),
        }
    }
}

/// Finds the end of the run of digits that begins at `i`.
fn end_of_digits(s: &[char], i: usize) -> (r: usize)
    requires
        i <= s@.len(),
    ensures
        r == digits_end(s@, i as int),
        i <= r <= s@.len(),
{
    let mut k: usize = i;
    while k < s.len() && '0' <= s[k] && s[k] <= '9'
        invariant
            i <= k <= s@.len(),
            digits_end(s@, i as int) == digits_end(s@, k as int),
        decreases s@.len() - k,
    {
        k = k + 1;
    }
    k
}

/// Reads the mention at `i`: the player whom it means and the position past it.
fn read_mention(s: &[char], i: usize, storage: &Storage) -> (r: Option<(String, usize)>)
    requires
        i < s@.len(),
        storage.wf(),
    ensures
        match r {
            Some((mc, e)) => {
                &&& mentioned_player(s@, i as int, storage@) == Some(mc@)
                &&& e == digits_end(s@, digits_start(s@, i as int)) + 1
                &&& i < e <= s@.len()
            },
            None => mentioned_player(s@, i as int, storage@) is None,
        },
{
    if s.len() - i < 3 || s[i] != '<' || s[i + 1] != '@' {
        proof {
            if dc_mention_at(s@, i as int) {
                assert(s@.len() - i == 2);
            }
        }
        return None;
    }
    let n = if s[i + 2] == '!' {
        i + 3
    } else {
        i + 2
    };
    let e = end_of_digits(s, n);
    if e == n || e >= s.len() || s[e] != '>' {
        return None;
    }
    let digits = slice_subrange(s, n, e);
    match parse_number(digits, 0xffff_ffff_ffff_ffff) {
        Some(id) => match storage.get_mc_from_dc(id) {
            Some(mc) => Some((mc, e + 1)),
            None => None,
        },
        None => None,
    }
}

/// Turns each mention of a linked Discord user into `@` and the player's name.
pub fn process_dc_mentions(content: &str, storage: &Storage) -> (r: String)
    requires
        storage.wf(),
    ensures
        r@ == named_in_mc(content@, 0, storage@),
{
    let v = chars_of(content);
    let s = v.as_slice();
    let mut out = String::new();
    let mut i: usize = 0;
    assert(out@ + named_in_mc(s@, 0, storage@) =~= named_in_mc(s@, 0, storage@));
    while i < s.len()
        invariant
            storage.wf(),
            i <= s@.len(),
            out@ + named_in_mc(s@, i as int, storage@) == named_in_mc(s@, 0, storage@),
        decreases s@.len() - i,
    {
        let ghost was = out@;
        match read_mention(s, i, storage) {
            Some((mc, e)) => {
                out.push('@');
                out.append(mc.as_str());
                assert(was + (seq!['@'] + mc@ + named_in_mc(s@, e as int, storage@)) =~= out@
                    + named_in_mc(s@, e as int, storage@));
                i = e;
            },
            None => {
                out.push(s[i]);
                assert(was + (seq![s@[i as int]] + named_in_mc(s@, i + 1, storage@)) =~= out@
                    + named_in_mc(s@, i + 1, storage@));
                i = i + 1;
            },
        }
    }
    assert(out@ + Seq::<char>::empty() =~= out@);
    out
}

/// The Discord user whom a word of a player's chat pings: the one who is linked with the player of
/// that name, unless it is the speaker or the user does not want to be mentioned.
pub open spec fn pinged(word: Seq<char>, sender: Seq<char>, m: Memory) -> Option<u64> {
    match accounts::dc_of(m.accounts, word) {
        Some(id) => if 3 <= word.len() <= 16 && word != sender && !m.mute_mention.contains(id) {
            Some(id)
        } else {
            None
        },
        None => None,
    }
}

/// A word of a player's chat, as a mention where it pings somebody.
pub open spec fn word_in_dc(word: Seq<char>, sender: Seq<char>, m: Memory) -> Seq<char> {
    match pinged(word, sender, m) {
        Some(id) => "<@"@ + text::dec(id as nat) + ">"@,
        None => word,
    }
}

/// What becomes of a player's chat from `i` on, where no word has begun before: each word that
/// pings somebody turns into a mention. A word is a run of characters that may stand in a name.
pub open spec fn named_in_dc(s: Seq<char>, i: int, sender: Seq<char>, m: Memory) -> Seq<char>
    decreases s.len() - i,
{
    if i >= s.len() {
        Seq::empty()
    } else {
        let e = log_parser::name_run(s, i);
        if i < e <= s.len() {
            word_in_dc(s.subrange(i, e), sender, m) + named_in_dc(s, e, sender, m)
        } else {
            seq![s[i]] + named_in_dc(s, i + 1, sender, m)
        }
    }
}

/// Finds the end of the word that begins at `i`.
fn end_of_word(s: &[char], i: usize) -> (r: usize)
    requires
        i <= s@.len(),
    ensures
        r == log_parser::name_run(s@, i as int),
        i <= r <= s@.len(),
{
    let mut k: usize = i;
    while k < s.len() && name_char(s[k])
        invariant
            i <= k <= s@.len(),
            log_parser::name_run(s@, i as int) == log_parser::name_run(s@, k as int),
        decreases s@.len() - k,
    {
        k = k + 1;
    }
    k
}

/// Finds the Discord user whom a word pings.
fn ping_of(word: &[char], sender_mc: &str, storage: &Storage) -> (r: Option<u64>)
    requires
        storage.wf(),
    ensures
        r == pinged(word@, sender_mc@, storage@),
{
    if word.len() < 3 || word.len() > 16 {
        return None;
    }
    let name = string_of(word);
    if same_text(name.as_str(), sender_mc) {
        return None;
    }
    match storage.get_dc_from_mc(name.as_str()) {
        Some(id) => if storage.is_mention_muted(id) {
            None
        } else {
            Some(id)
        },
        None => None,
    }
}

/// Turns each word of a player's chat that pings somebody into a mention.
pub fn process_mc_mentions(content: &str, sender_mc: &str, storage: &Storage) -> (r: String)
    requires
        storage.wf(),
    ensures
        r@ == named_in_dc(content@, 0, sender_mc@, storage@),
{
    let v = chars_of(content);
    let s = v.as_slice();
    let mut out = String::new();
    let mut i: usize = 0;
    let ghost whole = named_in_dc(s@, 0, sender_mc@, storage@);
    assert(out@ + whole =~= whole);
    while i < s.len()
        invariant
            storage.wf(),
            i <= s@.len(),
            out@ + named_in_dc(s@, i as int, sender_mc@, storage@) == whole,
        decreases s@.len() - i,
    {
        let ghost was = out@;
        let e = end_of_word(s, i);
        if e > i {
            let word = slice_subrange(s, i, e);
            let ghost rest = named_in_dc(s@, e as int, sender_mc@, storage@);
            match ping_of(word, sender_mc, storage) {
                Some(id) => {
                    out.append("<@");
                    push_dec(&mut out, id);
                    out.append(">");
                    assert(was + ("<@"@ + text::dec(id as nat) + ">"@ + rest) =~= out@ + rest);
                },
                None => {
                    push_chars(&mut out, word);
                    assert(was + (word@ + rest) =~= out@ + rest);
                },
            }
            i = e;
        } else {
            out.push(s[i]);
            assert(was + (seq![s@[i as int]] + named_in_dc(s@, i + 1, sender_mc@, storage@))
                =~= out@ + named_in_dc(s@, i + 1, sender_mc@, storage@));
            i = i + 1;
        }
    }
    assert(out@ + Seq::<char>::empty() =~= out@);
    out
}

/// Text in which no mention means a linked user is kept from any position on.
proof fn lemma_kept_in_mc(s: Seq<char>, i: int, m: Memory)
    requires
        0 <= i <= s.len(),
        !text::contains_text(s, "<@"@),
    ensures
        named_in_mc(s, i, m) == s.skip(i),
    decreases s.len() - i,
{
    if i < s.len() {
        reveal_strlit("<@");
        if dc_mention_at(s, i) {
            assert(s.subrange(i, i + 2) =~= "<@"@);
            assert(text::text_at(s, i, "<@"@));
        }
        lemma_kept_in_mc(s, i + 1, m);
        assert(seq![s[i]] + s.skip(i + 1) =~= s.skip(i));
    } else {
        assert(s.skip(i) =~= Seq::<char>::empty());
    }
}

/// Text of Discord without mentions reaches Minecraft as it is.
pub proof fn law_text_without_mentions_is_kept(s: Seq<char>, m: Memory)
    requires
        !text::contains_text(s, "<@"@),
    ensures
        named_in_mc(s, 0, m) == s,
{
    lemma_kept_in_mc(s, 0, m);
    assert(s.skip(0) =~= s);
}

/// Chat in which no word pings anybody is kept from any position on.
proof fn lemma_kept_in_dc(s: Seq<char>, i: int, sender: Seq<char>, m: Memory)
    requires
        0 <= i <= s.len(),
        forall|word: Seq<char>| #[trigger] pinged(word, sender, m) is None,
    ensures
        named_in_dc(s, i, sender, m) == s.skip(i),
    decreases s.len() - i,
{
    if i < s.len() {
        let e = log_parser::name_run(s, i);
        if i < e <= s.len() {
            lemma_kept_in_dc(s, e, sender, m);
            assert(pinged(s.subrange(i, e), sender, m) is None);
            assert(s.subrange(i, e) + s.skip(e) =~= s.skip(i));
        } else {
            lemma_kept_in_dc(s, i + 1, sender, m);
            assert(seq![s[i]] + s.skip(i + 1) =~= s.skip(i));
        }
    } else {
        assert(s.skip(i) =~= Seq::<char>::empty());
    }
}

/// Where nobody who is linked wants to be mentioned, chat reaches Discord as it is.
pub proof fn law_muted_mentions_do_not_ping(s: Seq<char>, sender: Seq<char>, m: Memory)
    requires
        forall|mc: Seq<char>|
            (#[trigger] accounts::dc_of(m.accounts, mc)) matches Some(id)
                ==> m.mute_mention.contains(id),
    ensures
        named_in_dc(s, 0, sender, m) == s,
{
    assert forall|word: Seq<char>| #[trigger] pinged(word, sender, m) is None by {
        assert(accounts::dc_of(m.accounts, word) matches Some(id) ==> m.mute_mention.contains(id));
    }
    lemma_kept_in_dc(s, 0, sender, m);
    assert(s.skip(0) =~= s);
}

/// A linked player who wants to be mentioned is pinged by a chat message that is just the player's
/// name, unless the player says it.
pub proof fn law_name_pings(mc: Seq<char>, sender: Seq<char>, m: Memory)
    requires
        log_parser::is_player_name(mc),
        mc != sender,
        accounts::dc_of(m.accounts, mc) is Some,
        !m.mute_mention.contains(accounts::dc_of(m.accounts, mc)->0),
    ensures
        named_in_dc(mc, 0, sender, m) == "<@"@ + text::dec(
            accounts::dc_of(m.accounts, mc)->0 as nat,
        ) + ">"@,
{
    log_parser::lemma_name_run_of_name(mc, 0);
    assert(mc.subrange(0, mc.len() as int) =~= mc);
    let mention = "<@"@ + text::dec(accounts::dc_of(m.accounts, mc)->0 as nat) + ">"@;
    assert(named_in_dc(mc, mc.len() as int, sender, m) =~= Seq::<char>::empty());
    assert(mention + Seq::<char>::empty() =~= mention);
}

/// A run of digits ends at the first other character.
proof fn lemma_digits_end_is(s: Seq<char>, i: int, e: int)
    requires
        0 <= i <= e < s.len(),
        forall|j: int| i <= j < e ==> '0' <= #[trigger] s[j] <= '9',
        !('0' <= s[e] <= '9'),
    ensures
        digits_end(s, i) == e,
    decreases e - i,
{
    if i < e {
        lemma_digits_end_is(s, i + 1, e);
    }
}

/// Wherever a linked Discord user is mentioned, in either form of a mention, the player is named.
pub proof fn law_mention_names_player(s: Seq<char>, i: int, id: u64, nick: bool, m: Memory)
    requires
        accounts::mc_of(m.accounts, id) is Some,
        text::text_at(
            s,
            i,
            (if nick {
                "<@!"@
            } else {
                "<@"@
            }) + text::dec(id as nat) + ">"@,
        ),
    ensures
        ({
            let head: int = if nick {
                3
            } else {
                2
            };
            named_in_mc(s, i, m) == seq!['@'] + accounts::mc_of(m.accounts, id)->0 + named_in_mc(
                s,
                i + head + text::dec(id as nat).len() + 1,
                m,
            )
        }),
{
    reveal_strlit("<@");
    reveal_strlit("<@!");
    reveal_strlit(">");
    text::lemma_dec_reads_back(id as nat, u64::MAX as nat);
    let d = text::dec(id as nat);
    let head = if nick {
        "<@!"@
    } else {
        "<@"@
    };
    let p = head + d + ">"@;
    let n = i + head.len();
    let e = n + d.len();
    assert(s.subrange(i, i + p.len()) == p);
    assert forall|j: int| 0 <= j < p.len() implies s[i + j] == #[trigger] p[j] by {
        assert(s.subrange(i, i + p.len())[j] == s[i + j]);
    }
    assert(p[0] == '<' && p[1] == '@');
    assert(s[i + 0] == '<' && s[i + 1] == '@');
    assert forall|j: int| n <= j < e implies '0' <= #[trigger] s[j] <= '9' by {
        assert(p[j - i] == d[j - n]);
        assert(s[i + (j - i)] == p[j - i]);
    }
    assert(p[e - i] == '>');
    assert(s[i + (e - i)] == p[e - i]);
    if nick {
        assert(p[2] == '!');
    } else {
        assert(p[2] == d[0]);
    }
    assert(s[i + 2] == p[2]);
    lemma_digits_end_is(s, n, e);
    assert(s.subrange(n, e) =~= d) by {
        assert forall|j: int| 0 <= j < d.len() implies s.subrange(n, e)[j] == #[trigger] d[j] by {
            assert(p[head.len() + j] == d[j]);
            assert(s[i + (head.len() + j)] == p[head.len() + j]);
        }
    }
}

} // verus!
