//! Moderation-case records and their label formats.
//!
//! A case label is an uppercase action code followed by a positive case
//! number (`WARN5`); durations are rendered compactly with at most two
//! units.

use vstd::prelude::*;

use crate::text::{
    ascii_uppercase,
    chars_to_string,
    chars_subrange,
    dec_str,
    is_ascii_alpha,
    is_ascii_alpha_exec,
    parse_u64_chars,
    parse_u64_spec,
    str_eq,
    str_to_chars,
    trim_chars,
    trim_ws,
    u64_to_string,
    upper_seq,
};

verus! {

/// One moderation case, as listed in summaries.
#[derive(Clone, Debug)]
pub struct CaseSummary {
    pub case_number: u64,
    pub case_code: String,
    pub action_case_number: u64,
    pub target_user_id: Option<u64>,
    pub moderator_user_id: u64,
    pub action: String,
    pub reason: String,
    pub duration_seconds: Option<u64>,
    pub created_at: u64,
}

/// One moderation case, in full.
#[derive(Clone, Debug)]
pub struct ModerationCase {
    pub id: u64,
    pub case_number: u64,
    pub case_code: String,
    pub action_case_number: u64,
    pub guild_id: u64,
    pub target_user_id: Option<u64>,
    pub moderator_user_id: u64,
    pub action: String,
    pub reason: String,
    pub status: String,
    pub duration_seconds: Option<u64>,
    pub created_at: u64,
    pub updated_at: u64,
}

/// One event in a case's history.
#[derive(Clone, Debug)]
pub struct CaseEvent {
    pub event_type: String,
    pub actor_user_id: u64,
    pub old_reason: Option<String>,
    pub new_reason: Option<String>,
    pub note: Option<String>,
    pub created_at: u64,
}

/// A moderator's note about a user.
#[derive(Clone, Debug)]
pub struct UserNote {
    pub id: u64,
    pub guild_id: u64,
    pub target_user_id: u64,
    pub author_user_id: u64,
    pub content: String,
    pub created_at: u64,
    pub updated_at: u64,
    pub deleted_at: Option<u64>,
}

/// The label of a case: the uppercased code followed by the number.
pub open spec fn case_label(case_code: Seq<char>, action_case_number: u64) -> Seq<char> {
    upper_seq(case_code) + dec_str(action_case_number as int)
}

/// Format a case label from its code and number.
pub fn format_case_label(case_code: &str, action_case_number: u64) -> (r: String)
    ensures
        r@ == case_label(case_code@, action_case_number),
{
    let mut out = ascii_uppercase(case_code);
    out.append(u64_to_string(action_case_number).as_str());
    out
}

/// What `to_uppercase` on one character yields (a character can uppercase to
/// several).
pub uninterp spec fn upper_chars_of(c: char) -> Seq<char>;

/// Relies on `char::to_uppercase`: the Unicode uppercase mapping of the
/// character, a function of the character alone.
#[verifier::external_body]
fn char_to_uppercase(c: char) -> (r: String)
    ensures
        r@ == upper_chars_of(c),
{
    c.to_uppercase().collect()
}

/// The user-facing name of an action: a fixed name for each known action,
/// else the action with its first character uppercased (`Unknown` for an
/// empty action).
pub open spec fn action_display_spec(a: Seq<char>) -> Seq<char> {
    if a == "warn"@ {
        "Warned"@
    } else if a == "ban"@ {
        "Banned"@
    } else if a == "kick"@ {
        "Kicked"@
    } else if a == "timeout"@ {
        "Timeout"@
    } else if a == "unban"@ {
        "Unbanned"@
    } else if a == "untimeout"@ {
        "Untimeout"@
    } else if a == "unwarn"@ {
        "Unwarned"@
    } else if a == "unwarn_all"@ {
        "Unwarned All"@
    } else if a == "purge"@ {
        "Purged"@
    } else if a == "terminate"@ {
        "Terminated"@
    } else if a.len() == 0 {
        "Unknown"@
    } else {
        upper_chars_of(a[0]) + a.skip(1)
    }
}

/// Convert an internal action identifier to its user-facing name.
pub fn action_display_name(action: &str) -> (r: String)
    ensures
        r@ == action_display_spec(action@),
{
    if str_eq(action, "warn") {
        String::from_str("Warned")
    } else if str_eq(action, "ban") {
        String::from_str("Banned")
    } else if str_eq(action, "kick") {
        String::from_str("Kicked")
    } else if str_eq(action, "timeout") {
        String::from_str("Timeout")
    } else if str_eq(action, "unban") {
        String::from_str("Unbanned")
    } else if str_eq(action, "untimeout") {
        String::from_str("Untimeout")
    } else if str_eq(action, "unwarn") {
        String::from_str("Unwarned")
    } else if str_eq(action, "unwarn_all") {
        String::from_str("Unwarned All")
    } else if str_eq(action, "purge") {
        String::from_str("Purged")
    } else if str_eq(action, "terminate") {
        String::from_str("Terminated")
    } else {
        let n = action.unicode_len();
        if n == 0 {
            String::from_str("Unknown")
        } else {
            let mut out = char_to_uppercase(action.get_char(0));
            out.append(action.substring_char(1, n));
            proof {
                assert(action@.subrange(1, n as int) =~= action@.skip(1));
            }
            out
        }
    }
}

/// The length of the run of ASCII letters at the front of `s`.
pub open spec fn alpha_prefix_len(s: Seq<char>) -> int
    decreases s.len(),
{
    if s.len() > 0 && is_ascii_alpha(s[0]) {
        1 + alpha_prefix_len(s.drop_first())
    } else {
        0
    }
}

proof fn lemma_alpha_prefix_bound(s: Seq<char>)
    ensures
        0 <= alpha_prefix_len(s) <= s.len(),
    decreases s.len(),
{
    if s.len() > 0 && is_ascii_alpha(s[0]) {
        lemma_alpha_prefix_bound(s.drop_first());
    }
}

/// What parsing a case label yields: the trimmed input must be an ASCII
/// letter code followed by a positive number that fits 64 bits; the code
/// comes back uppercased.
pub open spec fn parse_case_label_spec(s: Seq<char>) -> Option<(Seq<char>, u64)> {
    let t = trim_ws(s);
    let k = alpha_prefix_len(t);
    if t.len() == 0 || k == 0 || k >= t.len() {
        None
    } else {
        match parse_u64_spec(t.skip(k)) {
            Some(v) => if v > 0 {
                Some((upper_seq(t.take(k)), v))
            } else {
                None
            },
            None => None,
        }
    }
}

/// Parse a case label like `WARN5` into its code and number.
pub fn parse_case_label(raw: &str) -> (r: Option<(String, u64)>)
    ensures
        match r {
            Some((code, v)) => parse_case_label_spec(raw@) == Some((code@, v)),
            None => parse_case_label_spec(raw@) is None,
        },
{
    let chars = str_to_chars(raw);
    let t = trim_chars(&chars);
    proof {
        lemma_alpha_prefix_bound(t@);
    }
    if t.len() == 0 {
        return None;
    }
    let mut k: usize = 0;
    proof {
        assert(t@.skip(0) =~= t@);
    }
    while k < t.len() && is_ascii_alpha_exec(t[k])
        invariant
            k <= t@.len(),
            alpha_prefix_len(t@) == k + alpha_prefix_len(t@.skip(k as int)),
            0 <= alpha_prefix_len(t@) <= t@.len(),
        decreases t@.len() - k,
    {
        proof {
            assert(t@.skip(k as int)[0] == t@[k as int]);
            assert(t@.skip(k as int).drop_first() =~= t@.skip(k + 1));
        }
        k = k + 1;
    }
    proof {
        if k < t.len() {
            assert(t@.skip(k as int)[0] == t@[k as int]);
        }
        assert(alpha_prefix_len(t@.skip(k as int)) == 0);
    }
    if k == 0 || k >= t.len() {
        return None;
    }
    let digits = chars_subrange(&t, k, t.len());
    proof {
        assert(t@.subrange(k as int, t@.len() as int) =~= t@.skip(k as int));
    }
    match parse_u64_chars(&digits) {
        Some(v) => {
            if v > 0 {
                let code_chars = chars_subrange(&t, 0, k);
                proof {
                    assert(t@.subrange(0, k as int) =~= t@.take(k as int));
                }
                let mut upper: Vec<char> = Vec::new();
                let mut i: usize = 0;
                while i < code_chars.len()
                    invariant
                        i <= code_chars@.len(),
                        upper@ =~= upper_seq(code_chars@.take(i as int)),
                    decreases code_chars@.len() - i,
                {
                    upper.push(crate::text::upper_char_exec(code_chars[i]));
                    proof {
                        assert(upper@ =~= upper_seq(code_chars@.take(i + 1)));
                    }
                    i = i + 1;
                }
                proof {
                    assert(code_chars@.take(code_chars@.len() as int) =~= code_chars@);
                }
                Some((chars_to_string(upper), v))
            } else {
                None
            }
        },
        None => None,
    }
}

/// The compact rendering of a duration: the two most significant non-zero
/// units among days, hours, minutes and seconds (seconds alone when under a
/// minute).
pub open spec fn compact_duration(total_seconds: u64) -> Seq<char> {
    let days = total_seconds as int / 86400;
    let hours = (total_seconds as int % 86400) / 3600;
    let minutes = (total_seconds as int % 3600) / 60;
    let seconds = total_seconds as int % 60;
    if days > 0 {
        if hours > 0 {
            dec_str(days) + "d "@ + dec_str(hours) + "h"@
        } else {
            dec_str(days) + "d"@
        }
    } else if hours > 0 {
        if minutes > 0 {
            dec_str(hours) + "h "@ + dec_str(minutes) + "m"@
        } else {
            dec_str(hours) + "h"@
        }
    } else if minutes > 0 {
        if seconds > 0 {
            dec_str(minutes) + "m "@ + dec_str(seconds) + "s"@
        } else {
            dec_str(minutes) + "m"@
        }
    } else {
        dec_str(seconds) + "s"@
    }
}

/// Format seconds into a compact human-readable duration.
pub fn format_compact_duration(total_seconds: u64) -> (r: String)
    ensures
        r@ == compact_duration(total_seconds),
{
    let days = total_seconds / 86400;
    let hours = (total_seconds % 86400) / 3600;
    let minutes = (total_seconds % 3600) / 60;
    let seconds = total_seconds % 60;

    if days > 0 {
        let mut out = u64_to_string(days);
        if hours > 0 {
            out.append("d ");
            out.append(u64_to_string(hours).as_str());
            out.append("h");
        } else {
            out.append("d");
        }
        out
    } else if hours > 0 {
        let mut out = u64_to_string(hours);
        if minutes > 0 {
            out.append("h ");
            out.append(u64_to_string(minutes).as_str());
            out.append("m");
        } else {
            out.append("h");
        }
        out
    } else if minutes > 0 {
        let mut out = u64_to_string(minutes);
        if seconds > 0 {
            out.append("m ");
            out.append(u64_to_string(seconds).as_str());
            out.append("s");
        } else {
            out.append("m");
        }
        out
    } else {
        let mut out = u64_to_string(seconds);
        out.append("s");
        out
    }
}

/// The user-facing label of a case-history event kind.
pub open spec fn event_display_spec(event_type: Seq<char>) -> Seq<char> {
    if event_type == "created"@ {
        "Created"@
    } else if event_type == "reason_updated"@ {
        "Reason Updated"@
    } else if event_type == "note_added"@ {
        "Note Added"@
    } else {
        "Updated"@
    }
}

/// Map an internal case event key to its user-facing label.
pub fn event_display_name(event_type: &str) -> (r: &'static str)
    ensures
        r@ == event_display_spec(event_type@),
{
    if str_eq(event_type, "created") {
        "Created"
    } else if str_eq(event_type, "reason_updated") {
        "Reason Updated"
    } else if str_eq(event_type, "note_added") {
        "Note Added"
    } else {
        "Updated"
    }
}

} // verus!
