//! The command that brings a message of Discord into Minecraft's chat.

use crate::bot::types::FromDiscordEvent;
use crate::text::chars_of;
use vstd::prelude::*;
use vstd::string::*;

verus! {

/// A character as it may stand in a string of JSON: quotation marks, backslashes and control
/// characters turn into spaces.
pub open spec fn json_safe(c: char) -> char {
    if c == '"' || c == '\\' || c <= '\u{1f}' {
        ' '
    } else {
        c
    }
}

/// A text as it may stand in a string of JSON.
pub open spec fn json_safe_text(s: Seq<char>) -> Seq<char> {
    s.map_values(|c: char| json_safe(c))
}

/// Turns quotation marks, backslashes and control characters into spaces.
pub fn sanitize(s: &str) -> (r: String)
    ensures
        r@ == json_safe_text(s@),
{
    let v = chars_of(s);
    let mut out = String::new();
    let mut i: usize = 0;
    while i < v.len()
        invariant
            v@ == s@,
            i <= v@.len(),
            out@ == json_safe_text(s@).take(i as int),
        decreases v@.len() - i,
    {
        let c = v[i];
        out.push(if c == '"' || c == '\\' || c <= '\u{1f}' { ' ' } else { c });
        i = i + 1;
        assert(json_safe_text(s@).take(i as int) =~= json_safe_text(s@).take(i - 1).push(
            json_safe(c),
        ));
    }
    assert(json_safe_text(s@).take(i as int) =~= json_safe_text(s@));
    out
}

/// What players see of a message of Discord.
pub open spec fn shown_text(username: Seq<char>, content: Seq<char>) -> Seq<char> {
    "[Discord] <"@ + json_safe_text(username) + ">: "@ + json_safe_text(content)
}

/// The command that shows a message of Discord to all players.
pub open spec fn tellraw_text(username: Seq<char>, content: Seq<char>) -> Seq<char> {
    "tellraw @a {\"text\":\"[Discord] <"@ + json_safe_text(username) + ">: "@ + json_safe_text(
        content,
    ) + "\", \"color\":\"gold\"}"@
}

/// Writes the command that shows a message of Discord to all players.
pub fn tellraw_command(event: &FromDiscordEvent) -> (r: String)
    ensures
        r@ == tellraw_text(event.username@, event.content@),
{
    let username = sanitize(event.username.as_str());
    let content = sanitize(event.content.as_str());
    let mut s = "tellraw @a {\"text\":\"[Discord] <".to_owned();
    s.append(username.as_str());
    s.append(">: ");
    s.append(content.as_str());
    s.append("\", \"color\":\"gold\"}");
    s
}

/// Whatever is written in Discord stays within the one string of the command that holds it: the
/// command is a fixed head, that text and a fixed tail, and no quotation mark, backslash or control
/// character stands in the text.
pub proof fn law_relayed_text_stays_in_its_string(username: Seq<char>, content: Seq<char>)
    ensures
        tellraw_text(username, content) == "tellraw @a {\"text\":\""@ + shown_text(username, content)
            + "\", \"color\":\"gold\"}"@,
        !shown_text(username, content).contains('"'),
        !shown_text(username, content).contains('\\'),
        forall|i: int|
            0 <= i < shown_text(username, content).len() ==> '\u{20}' <= #[trigger] shown_text(
                username,
                content,
            )[i],
{
    reveal_strlit("tellraw @a {\"text\":\"[Discord] <");
    reveal_strlit("tellraw @a {\"text\":\"");
    reveal_strlit("[Discord] <");
    reveal_strlit(">: ");
    assert("tellraw @a {\"text\":\"[Discord] <"@ =~= "tellraw @a {\"text\":\""@ + "[Discord] <"@);
    assert(tellraw_text(username, content) =~= "tellraw @a {\"text\":\""@ + shown_text(
        username,
        content,
    ) + "\", \"color\":\"gold\"}"@);
    let s = shown_text(username, content);
    let u = json_safe_text(username);
    let c = json_safe_text(content);
    assert forall|i: int| 0 <= i < s.len() implies #[trigger] s[i] != '"' && s[i] != '\\'
        && '\u{20}' <= s[i] by {
        if i < 11 {
            assert(s[i] == "[Discord] <"@[i]);
        } else if i < 11 + u.len() {
            assert(s[i] == u[i - 11]);
        } else if i < 14 + u.len() {
            assert(s[i] == ">: "@[i - 11 - u.len()]);
        } else {
            assert(s[i] == c[i - 14 - u.len()]);
        }
    }
}

/// The command shows who wrote and what was written, character by character, with a space in place of
/// each quotation mark, backslash and control character, and nothing else is changed.
pub proof fn law_relayed_text_is_the_message(event: &FromDiscordEvent, r: String)
    requires
        call_ensures(tellraw_command, (event,), r),
    ensures
        ({
            let head = "tellraw @a {\"text\":\"[Discord] <"@;
            let n = head.len() as int;
            let u = event.username@;
            let c = event.content@;
            let k = n + u.len() + 3;
            &&& head.is_prefix_of(r@)
            &&& forall|i: int|
                0 <= i < u.len() ==> #[trigger] r@[n + i] == (if u[i] == '"' || u[i] == '\\' || u[i]
                    <= '\u{1f}' {
                    ' '
                } else {
                    u[i]
                })
            &&& r@.subrange(n + u.len(), k) == ">: "@
            &&& forall|i: int|
                0 <= i < c.len() ==> #[trigger] r@[k + i] == (if c[i] == '"' || c[i] == '\\' || c[i]
                    <= '\u{1f}' {
                    ' '
                } else {
                    c[i]
                })
            &&& r@.skip(k + c.len()) == "\", \"color\":\"gold\"}"@
        }),
{
    let head = "tellraw @a {\"text\":\"[Discord] <"@;
    let n = head.len() as int;
    let u = event.username@;
    let c = event.content@;
    let k = n + u.len() + 3;
    reveal_strlit(">: ");
    assert(r@.subrange(n + u.len(), k) =~= ">: "@);
    assert(r@.skip(k + c.len()) =~= "\", \"color\":\"gold\"}"@);
    assert forall|i: int| 0 <= i < u.len() implies #[trigger] r@[n + i] == json_safe(u[i]) by {
        assert(r@[n + i] == json_safe_text(u)[i]);
    }
    assert forall|i: int| 0 <= i < c.len() implies #[trigger] r@[k + i] == json_safe(c[i]) by {
        assert(r@[k + i] == json_safe_text(c)[i]);
    }
}

} // verus!
