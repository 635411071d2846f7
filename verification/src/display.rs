//! Presentation helpers: neutralising mentions, truncating to embed limits,
//! and rendering log content lines.

use vstd::prelude::*;

use crate::media::rfind_open;
use crate::text::{
    chars_subrange,
    chars_to_string,
    dec_str,
    find_char,
    find_ws,
    first_token,
    lemma_find_char_characterize,
    lemma_find_ws_characterize,
    lower_chars,
    lower_seq,
    str_eq,
    str_to_chars,
    trim_chars,
    trim_ws,
    u64_to_string,
};

verus! {

/// How one character is neutralised against pings: a zero-width space is
/// slipped in after every `@`.
pub open spec fn mention_step(c: char) -> Seq<char> {
    if c == '@' {
        seq!['@', '\u{200B}']
    } else {
        seq![c]
    }
}

/// `s` with every `@` followed by a zero-width space.
pub open spec fn mentions_sanitized(s: Seq<char>) -> Seq<char>
    decreases s.len(),
{
    if s.len() == 0 {
        Seq::empty()
    } else {
        mention_step(s[0]) + mentions_sanitized(s.drop_first())
    }
}

/// Neutralise mentions: slip a zero-width space in after every `@`.
pub fn sanitize_mentions(value: &str) -> (r: String)
    ensures
        r@ == mentions_sanitized(value@),
{
    let v = str_to_chars(value);
    let mut out: Vec<char> = Vec::new();
    let mut i: usize = 0;
    proof {
        assert(v@.skip(0) =~= v@);
        assert(mentions_sanitized(v@) =~= out@ + mentions_sanitized(v@.skip(0)));
    }
    while i < v.len()
        invariant
            i <= v@.len(),
            mentions_sanitized(v@) == out@ + mentions_sanitized(v@.skip(i as int)),
        decreases v@.len() - i,
    {
        let ghost rest = v@.skip(i as int);
        let ghost old_out = out@;
        let c = v[i];
        proof {
            assert(rest[0] == v@[i as int]);
            assert(rest.drop_first() =~= v@.skip(i + 1));
        }
        if c == '@' {
            out.push('@');
            out.push('\u{200B}');
        } else {
            out.push(c);
        }
        proof {
            assert(out@ =~= old_out + mention_step(c));
            assert(mentions_sanitized(v@) =~= out@ + mentions_sanitized(v@.skip(i + 1)));
        }
        i = i + 1;
    }
    proof {
        assert(v@.skip(v@.len() as int) =~= Seq::<char>::empty());
        assert(mentions_sanitized(v@) =~= out@);
    }
    chars_to_string(out)
}

/// How one character is flattened for a single-line rendering: mentions are
/// neutralised and line breaks become spaces.
pub open spec fn flatten_step(c: char) -> Seq<char> {
    if c == '@' {
        seq!['@', '\u{200B}']
    } else if c == '\n' {
        seq![' ']
    } else {
        seq![c]
    }
}

/// `s` with mentions neutralised and line breaks flattened to spaces.
pub open spec fn flattened(s: Seq<char>) -> Seq<char>
    decreases s.len(),
{
    if s.len() == 0 {
        Seq::empty()
    } else {
        flatten_step(s[0]) + flattened(s.drop_first())
    }
}

fn flatten_chars(v: &Vec<char>) -> (r: Vec<char>)
    ensures
        r@ == flattened(v@),
{
    let mut out: Vec<char> = Vec::new();
    let mut i: usize = 0;
    proof {
        assert(v@.skip(0) =~= v@);
        assert(flattened(v@) =~= out@ + flattened(v@.skip(0)));
    }
    while i < v.len()
        invariant
            i <= v@.len(),
            flattened(v@) == out@ + flattened(v@.skip(i as int)),
        decreases v@.len() - i,
    {
        let ghost rest = v@.skip(i as int);
        let ghost old_out = out@;
        let c = v[i];
        proof {
            assert(rest[0] == v@[i as int]);
            assert(rest.drop_first() =~= v@.skip(i + 1));
        }
        if c == '@' {
            out.push('@');
            out.push('\u{200B}');
        } else if c == '\n' {
            out.push(' ');
        } else {
            out.push(c);
        }
        proof {
            assert(out@ =~= old_out + flatten_step(c));
            assert(flattened(v@) =~= out@ + flattened(v@.skip(i + 1)));
        }
        i = i + 1;
    }
    proof {
        assert(v@.skip(v@.len() as int) =~= Seq::<char>::empty());
        assert(flattened(v@) =~= out@);
    }
    out
}

/// Neutralise mentions and flatten line breaks to spaces.
pub fn sanitize(value: &str) -> (r: String)
    ensures
        r@ == flattened(value@),
{
    let v = str_to_chars(value);
    chars_to_string(flatten_chars(&v))
}

/// `s` cut to at most `max` characters, an ellipsis marking the cut.
pub open spec fn truncated(s: Seq<char>, max: int) -> Seq<char> {
    if s.len() <= max {
        s
    } else {
        s.take(max).push('…')
    }
}

fn truncate_chars(v: &Vec<char>, max_len: usize) -> (r: Vec<char>)
    ensures
        r@ == truncated(v@, max_len as int),
{
    if v.len() <= max_len {
        let mut out = chars_subrange(v, 0, v.len());
        proof {
            assert(v@.subrange(0, v@.len() as int) =~= v@);
        }
        out
    } else {
        let mut out = chars_subrange(v, 0, max_len);
        out.push('…');
        proof {
            assert(v@.subrange(0, max_len as int) =~= v@.take(max_len as int));
        }
        out
    }
}

/// Cut `value` to at most `max_len` characters for an embed, an ellipsis
/// marking the cut.
pub fn truncate_for_embed(value: &str, max_len: usize) -> (r: String)
    ensures
        r@ == truncated(value@, max_len as int),
{
    let v = str_to_chars(value);
    chars_to_string(truncate_chars(&v, max_len))
}

/// Cut `value` to at most `max_len` characters, an ellipsis marking the cut.
pub fn truncate_text(value: &str, max_len: usize) -> (r: String)
    ensures
        r@ == truncated(value@, max_len as int),
{
    let v = str_to_chars(value);
    chars_to_string(truncate_chars(&v, max_len))
}

/// The user-facing label of a word-filter action.
pub open spec fn filter_action_display_spec(action: Seq<char>) -> Seq<char> {
    if action == "log_only"@ {
        "Only Log"@
    } else if action == "delete_and_log"@ {
        "Delete and Log"@
    } else if action == "warn_and_log"@ {
        "Warn, Delete and Log"@
    } else if action == "timeout_delete_and_log"@ {
        "Timeout, Delete and Log"@
    } else {
        "Unknown"@
    }
}

/// Map an internal word-filter action key to its user-facing label.
pub fn action_display(action: &str) -> (r: &'static str)
    ensures
        r@ == filter_action_display_spec(action@),
{
    if str_eq(action, "log_only") {
        "Only Log"
    } else if str_eq(action, "delete_and_log") {
        "Delete and Log"
    } else if str_eq(action, "warn_and_log") {
        "Warn, Delete and Log"
    } else if str_eq(action, "timeout_delete_and_log") {
        "Timeout, Delete and Log"
    } else {
        "Unknown"
    }
}

/// The speaker name used in a history line: the trimmed display name with
/// line breaks flattened, or `unknown` when blank or absent.
pub open spec fn history_name(display_name: Option<Seq<char>>) -> Seq<char> {
    match display_name {
        Some(d) => {
            let t = trim_ws(d);
            if t.len() == 0 {
                "unknown"@
            } else {
                t.map_values(|c: char| nl_to_space(c))
            }
        },
        None => "unknown"@,
    }
}

/// Line breaks flatten to spaces in a speaker name.
pub open spec fn nl_to_space(c: char) -> char {
    if c == '\n' {
        ' '
    } else {
        c
    }
}

/// A history line handed to the completion call: `name: content` for user
/// turns, the bare content for assistant turns.
pub open spec fn history_content(
    role: Seq<char>,
    display_name: Option<Seq<char>>,
    content: Seq<char>,
) -> Seq<char> {
    if role == "user"@ {
        history_name(display_name) + ": "@ + content
    } else {
        content
    }
}

/// Render one chat-history line for the completion call.
pub fn format_history_content(role: &str, display_name: Option<&str>, content: &str) -> (r: String)
    ensures
        r@ == history_content(
            role@,
            match display_name {
                Some(d) => Some(d@),
                None => None,
            },
            content@,
        ),
{
    if !str_eq(role, "user") {
        return content.to_owned();
    }
    let name: String = match display_name {
        Some(d) => {
            let chars = str_to_chars(d);
            let t = trim_chars(&chars);
            if t.len() == 0 {
                String::from_str("unknown")
            } else {
                let mut out: Vec<char> = Vec::new();
                let mut i: usize = 0;
                while i < t.len()
                    invariant
                        i <= t@.len(),
                        out@ =~= t@.take(i as int).map_values(|c: char| nl_to_space(c)),
                    decreases t@.len() - i,
                {
                    let c = t[i];
                    out.push(
                        if c == '\n' {
                            ' '
                        } else {
                            c
                        },
                    );
                    proof {
                        assert(out@ =~= t@.take(i + 1).map_values(|c: char| nl_to_space(c)));
                    }
                    i = i + 1;
                }
                proof {
                    assert(t@.take(t@.len() as int) =~= t@);
                }
                chars_to_string(out)
            }
        },
        None => String::from_str("unknown"),
    };
    let mut out = name;
    out.append(": ");
    out.append(content);
    out
}

/// The sample items the pagination test renders.
pub fn build_test_items() -> (r: Vec<String>)
    ensures
        r@.len() == 24,
        forall|i: int|
            0 <= i < 24 ==> (#[trigger] r@[i])@ == "Sample pagination item #"@ + dec_str(i + 1),
{
    let mut out: Vec<String> = Vec::new();
    let mut k: u64 = 1;
    while k <= 24
        invariant
            1 <= k <= 25,
            out@.len() == k - 1,
            forall|i: int|
                0 <= i < k - 1 ==> (#[trigger] out@[i])@ == "Sample pagination item #"@ + dec_str(
                    i + 1,
                ),
        decreases 25 - k,
    {
        let mut item = String::from_str("Sample pagination item #");
        item.append(u64_to_string(k).as_str());
        out.push(item);
        k = k + 1;
    }
    out
}

/// What one summary line renders to in a filename list: a markdown link for
/// a well-formed `filename (url)` line, the trimmed line otherwise, nothing
/// for a blank line.
pub open spec fn filename_part(line: Seq<char>) -> Option<Seq<char>> {
    let t = trim_ws(line);
    if t.len() == 0 {
        None
    } else {
        let p = rfind_open(t);
        if p >= 0 && t.last() == ')' {
            Some("["@ + t.take(p) + "]("@ + t.subrange(p + 2, t.len() - 1) + ")"@)
        } else {
            Some(t)
        }
    }
}

/// The parts of all lines of a summary, in order.
pub open spec fn filename_parts(s: Seq<char>) -> Seq<Seq<char>>
    decreases s.len(),
{
    if s.len() == 0 {
        Seq::empty()
    } else {
        let i = find_char(s, '\n');
        if 0 <= i < s.len() {
            part_items(s.take(i)) + filename_parts(s.skip(i + 1))
        } else {
            part_items(s)
        }
    }
}

/// The zero or one parts one line contributes.
pub open spec fn part_items(line: Seq<char>) -> Seq<Seq<char>> {
    match filename_part(line) {
        Some(p) => seq![p],
        None => Seq::empty(),
    }
}

/// The parts joined with `, `.
pub open spec fn joined(parts: Seq<Seq<char>>) -> Seq<char>
    decreases parts.len(),
{
    if parts.len() == 0 {
        Seq::empty()
    } else if parts.len() == 1 {
        parts[0]
    } else {
        parts[0] + ", "@ + joined(parts.drop_first())
    }
}

fn render_line(line: &Vec<char>) -> (r: Option<String>)
    ensures
        match r {
            Some(p) => filename_part(line@) == Some(p@),
            None => filename_part(line@) is None,
        },
{
    let t = trim_chars(line);
    if t.len() == 0 {
        return None;
    }
    let p = match crate::media::rfind_open_in(&t) {
        Some(p) => Some(p),
        None => None,
    };
    let well_formed = match p {
        Some(_) => t[t.len() - 1] == ')',
        None => false,
    };
    proof {
        assert(t@.last() == t@[t@.len() - 1]);
    }
    match (p, well_formed) {
        (Some(p), true) => {
            proof {
                assert(t@[p + 1] == '(');
                assert(t@.last() == ')');
                assert(p + 1 < t@.len() - 1);
            }
            let name = chars_subrange(&t, 0, p);
            let url = chars_subrange(&t, p + 2, t.len() - 1);
            proof {
                assert(t@.subrange(0, p as int) =~= t@.take(p as int));
            }
            let mut out = String::from_str("[");
            out.append(chars_to_string(name).as_str());
            out.append("](");
            out.append(chars_to_string(url).as_str());
            out.append(")");
            Some(out)
        },
        _ => Some(chars_to_string(t)),
    }
}

fn join_parts(parts: &Vec<String>, i: usize) -> (r: String)
    requires
        i <= parts@.len(),
    ensures
        r@ == joined(parts@.map_values(|s: String| s@).skip(i as int)),
    decreases parts@.len() - i,
{
    let ghost ps = parts@.map_values(|s: String| s@);
    if i >= parts.len() {
        proof {
            assert(ps.skip(i as int) =~= Seq::<Seq<char>>::empty());
        }
        String::new()
    } else if i == parts.len() - 1 {
        proof {
            assert(ps.skip(i as int).len() == 1);
            assert(ps.skip(i as int)[0] == ps[i as int]);
        }
        parts[i].clone()
    } else {
        let rest = join_parts(parts, i + 1);
        proof {
            assert(ps.skip(i as int)[0] == ps[i as int]);
            assert(ps.skip(i as int).drop_first() =~= ps.skip(i + 1));
            assert(ps.skip(i as int).len() > 1);
        }
        let mut out = parts[i].clone();
        out.append(", ");
        out.append(rest.as_str());
        out
    }
}

/// Render a summary's attachments as a `, `-joined list of markdown links.
pub fn extract_attachment_filenames(raw: &str) -> (r: String)
    ensures
        r@ == joined(filename_parts(raw@)),
{
    let v = str_to_chars(raw);
    let ghost sfn = |s: String| s@;
    let mut parts: Vec<String> = Vec::new();
    let mut pos: usize = 0;
    proof {
        assert(v@.skip(0) =~= v@);
        assert(parts@.map_values(sfn) =~= Seq::<Seq<char>>::empty());
    }
    while pos < v.len()
        invariant
            pos <= v@.len(),
            sfn == (|s: String| s@),
            filename_parts(v@) == parts@.map_values(sfn) + filename_parts(v@.skip(pos as int)),
        decreases v@.len() - pos,
    {
        let ghost rest = v@.skip(pos as int);
        let mut nl = pos;
        while nl < v.len() && v[nl] != '\n'
            invariant
                pos <= nl <= v@.len(),
                forall|j: int| pos <= j < nl ==> v@[j] != '\n',
            decreases v@.len() - nl,
        {
            nl = nl + 1;
        }
        proof {
            lemma_find_char_characterize(rest, '\n', nl - pos);
        }
        let line = chars_subrange(&v, pos, nl);
        proof {
            assert(line@ =~= rest.take(nl - pos));
        }
        let item = render_line(&line);
        let ghost old_parts = parts@.map_values(sfn);
        match item {
            Some(p) => {
                parts.push(p);
            },
            None => (),
        }
        proof {
            assert(parts@.map_values(sfn) =~= old_parts + part_items(line@));
        }
        if nl < v.len() {
            proof {
                assert(rest.skip(nl - pos as int + 1) =~= v@.skip(nl + 1));
                assert(filename_parts(rest) == part_items(line@) + filename_parts(v@.skip(nl + 1)));
                assert(filename_parts(v@) =~= parts@.map_values(sfn) + filename_parts(
                    v@.skip(nl + 1),
                ));
            }
            pos = nl + 1;
        } else {
            proof {
                assert(line@ =~= rest);
                assert(filename_parts(rest) == part_items(line@));
                assert(filename_parts(v@) =~= parts@.map_values(sfn) + filename_parts(
                    v@.skip(v@.len() as int),
                ));
            }
            pos = v.len();
        }
    }
    proof {
        assert(v@.skip(pos as int) =~= Seq::<char>::empty());
        assert(filename_parts(v@) =~= parts@.map_values(sfn));
        assert(parts@.map_values(|s: String| s@) =~= parts@.map_values(sfn));
        assert(parts@.map_values(|s: String| s@).skip(0) =~= parts@.map_values(|s: String| s@));
    }
    join_parts(&parts, 0)
}

/// How stored message content is shown in a log listing: a link label for a
/// GIF-host or direct media first link, else the text flattened and cut to
/// 300 characters.
pub open spec fn content_display(s: Seq<char>) -> Seq<char> {
    let t = trim_ws(s);
    let l = lower_seq(t);
    if crate::text::seq_contains(l, "tenor.com"@) || crate::text::seq_contains(l, "giphy.com"@) {
        "[GIF]("@ + (match first_token(t) {
            Some(tok) => tok,
            None => t,
        }) + ")"@
    } else {
        match first_token(t) {
            Some(url) => {
                let ul = lower_seq(url);
                if (crate::text::seq_starts_with(ul, "http://"@) || crate::text::seq_starts_with(
                    ul,
                    "https://"@,
                )) && (crate::text::seq_ends_with(ul, ".png"@) || crate::text::seq_ends_with(
                    ul,
                    ".jpg"@,
                ) || crate::text::seq_ends_with(ul, ".jpeg"@) || crate::text::seq_ends_with(
                    ul,
                    ".gif"@,
                ) || crate::text::seq_ends_with(ul, ".webp"@)) {
                    "[Image]("@ + url + ")"@
                } else if (crate::text::seq_starts_with(ul, "http://"@)
                    || crate::text::seq_starts_with(ul, "https://"@)) && (
                crate::text::seq_ends_with(ul, ".mp4"@) || crate::text::seq_ends_with(ul, ".webm"@)
                    || crate::text::seq_ends_with(ul, ".mov"@) || crate::text::seq_ends_with(
                    ul,
                    ".mkv"@,
                )) {
                    "[Video]("@ + url + ")"@
                } else {
                    truncated(flattened(t), 300)
                }
            },
            None => truncated(flattened(t), 300),
        }
    }
}

/// Render stored message content for a log listing.
pub fn format_content_display(content: &str) -> (r: String)
    ensures
        r@ == content_display(content@),
{
    let chars = str_to_chars(content);
    let t = trim_chars(&chars);
    let l = lower_chars(&t);
    let gif_host = crate::text::chars_contain(&l, "tenor.com") || crate::text::chars_contain(
        &l,
        "giphy.com",
    );

    // The first whitespace-separated token of the trimmed content.
    let token: Option<Vec<char>> = if t.len() == 0 {
        None
    } else {
        let e = crate::text::find_ws_from(&t, 0);
        proof {
            lemma_find_ws_characterize(t@, e as int);
        }
        let tok = chars_subrange(&t, 0, e);
        proof {
            assert(tok@ =~= t@.take(find_ws(t@)));
        }
        Some(tok)
    };

    if gif_host {
        let mut out = String::from_str("[GIF](");
        match &token {
            Some(tok) => {
                out.append(chars_to_string(crate::text::clone_chars(tok)).as_str());
            },
            None => {
                out.append(chars_to_string(t).as_str());
            },
        }
        out.append(")");
        return out;
    }

    if let Some(tok) = &token {
        let ul = lower_chars(tok);
        let http = crate::text::chars_start_with(&ul, "http://") || crate::text::chars_start_with(
            &ul,
            "https://",
        );
        if http && (crate::text::chars_end_with(&ul, ".png") || crate::text::chars_end_with(
            &ul,
            ".jpg",
        ) || crate::text::chars_end_with(&ul, ".jpeg") || crate::text::chars_end_with(&ul, ".gif")
            || crate::text::chars_end_with(&ul, ".webp")) {
            let mut out = String::from_str("[Image](");
            out.append(chars_to_string(crate::text::clone_chars(tok)).as_str());
            out.append(")");
            return out;
        }
        if http && (crate::text::chars_end_with(&ul, ".mp4") || crate::text::chars_end_with(
            &ul,
            ".webm",
        ) || crate::text::chars_end_with(&ul, ".mov") || crate::text::chars_end_with(
            &ul,
            ".mkv",
        )) {
            let mut out = String::from_str("[Video](");
            out.append(chars_to_string(crate::text::clone_chars(tok)).as_str());
            out.append(")");
            return out;
        }
    }

    let flat = flatten_chars(&t);
    chars_to_string(truncate_chars(&flat, 300))
}


/// The name a message is displayed under: the first of the member nickname
/// and the global display name whose trimmed form is non-blank, else the
/// account username.
pub open spec fn display_name_of(
    nick: Option<Seq<char>>,
    global_name: Option<Seq<char>>,
    username: Seq<char>,
) -> Seq<char> {
    if nick is Some && trim_ws(nick->Some_0).len() > 0 {
        nick->Some_0
    } else if global_name is Some && trim_ws(global_name->Some_0).len() > 0 {
        global_name->Some_0
    } else {
        username
    }
}

/// Pick the name a message is displayed under.
pub fn message_display_name(
    nick: Option<&str>,
    global_name: Option<&str>,
    username: &str,
) -> (r: String)
    ensures
        r@ == display_name_of(
            match nick {
                Some(n) => Some(n@),
                None => None,
            },
            match global_name {
                Some(g) => Some(g@),
                None => None,
            },
            username@,
        ),
{
    if let Some(n) = nick {
        let chars = str_to_chars(n);
        if trim_chars(&chars).len() > 0 {
            return n.to_owned();
        }
    }
    if let Some(g) = global_name {
        let chars = str_to_chars(g);
        if trim_chars(&chars).len() > 0 {
            return g.to_owned();
        }
    }
    username.to_owned()
}

} // verus!
