//! Attachment summaries and media links.
//!
//! An attachment summary is the serialized ordered list of a message's
//! attachments, one `filename (url)` entry per line. This module parses it
//! back into structured items, classifies media by filename and URL, and
//! scans message text for embeddable or unfurlable links.

use vstd::prelude::*;

use crate::text::{
    chars_contain,
    chars_end_with,
    chars_start_with,
    chars_subrange,
    chars_to_string,
    find_char,
    find_ws,
    is_ws_char,
    is_ws_char_exec,
    lemma_find_char_characterize,
    lemma_find_ws_characterize,
    lower_chars,
    lower_seq,
    str_to_chars,
    trim_chars,
    trim_ws,
};

verus! {

/// Parsed attachment info from the `filename (url)` summary format.
#[derive(Clone, Debug)]
pub struct AttachmentInfo {
    pub filename: String,
    pub url: String,
    pub is_media: bool,
}

/// Mathematical value of one parsed attachment.
pub ghost struct AttachmentData {
    pub filename: Seq<char>,
    pub url: Seq<char>,
    pub is_media: bool,
}

impl View for AttachmentInfo {
    type V = AttachmentData;

    open spec fn view(&self) -> AttachmentData {
        AttachmentData { filename: self.filename@, url: self.url@, is_media: self.is_media }
    }
}

/// Whether a filename names embeddable media, by extension.
pub open spec fn is_media_filename(f: Seq<char>) -> bool {
    let l = lower_seq(f);
    crate::text::seq_ends_with(l, ".png"@) || crate::text::seq_ends_with(l, ".jpg"@)
        || crate::text::seq_ends_with(l, ".jpeg"@) || crate::text::seq_ends_with(l, ".gif"@)
        || crate::text::seq_ends_with(l, ".webp"@) || crate::text::seq_ends_with(l, ".mp4"@)
        || crate::text::seq_ends_with(l, ".webm"@) || crate::text::seq_ends_with(l, ".mov"@)
}

fn is_media_filename_exec(f: &Vec<char>) -> (r: bool)
    ensures
        r == is_media_filename(f@),
{
    let l = lower_chars(f);
    chars_end_with(&l, ".png") || chars_end_with(&l, ".jpg") || chars_end_with(&l, ".jpeg")
        || chars_end_with(&l, ".gif") || chars_end_with(&l, ".webp") || chars_end_with(&l, ".mp4")
        || chars_end_with(&l, ".webm") || chars_end_with(&l, ".mov")
}

/// Index of the last ` (` in `s`, or -1 when there is none.
pub open spec fn rfind_open(s: Seq<char>) -> int
    decreases s.len(),
{
    if s.len() < 2 {
        -1
    } else if s[s.len() - 2] == ' ' && s.last() == '(' {
        s.len() - 2
    } else {
        rfind_open(s.drop_last())
    }
}

proof fn lemma_rfind_open_characterize(s: Seq<char>, p: int)
    requires
        p == -1 || (0 <= p <= s.len() - 2 && s[p] == ' ' && s[p + 1] == '('),
        forall|i: int| p < i <= s.len() - 2 ==> !(s[i] == ' ' && #[trigger] s[i + 1] == '('),
    ensures
        rfind_open(s) == p,
    decreases s.len(),
{
    if s.len() >= 2 {
        if s[s.len() - 2] == ' ' && s.last() == '(' {
            if p < s.len() - 2 {
                assert(!(s[s.len() - 2] == ' ' && s[(s.len() - 2) + 1] == '('));
                assert(false);
            }
        } else {
            assert(p != s.len() - 2);
            lemma_rfind_open_characterize(s.drop_last(), p);
        }
    }
}

/// Position of the last ` (` in `v`, with what stands at it.
pub fn rfind_open_in(v: &Vec<char>) -> (r: Option<usize>)
    ensures
        match r {
            Some(p) => rfind_open(v@) == p && p + 2 <= v@.len() && v@[p as int] == ' '
                && v@[p + 1] == '(',
            None => rfind_open(v@) == -1,
        },
{
    let n = v.len();
    if n < 2 {
        proof {
            lemma_rfind_open_characterize(v@, -1);
        }
        return None;
    }
    let mut q: usize = n - 1;
    while q > 0
        invariant
            n == v@.len(),
            n >= 2,
            q <= n - 1,
            forall|i: int| q <= i <= n - 2 ==> !(v@[i] == ' ' && #[trigger] v@[i + 1] == '('),
        decreases q,
    {
        if v[q - 1] == ' ' && v[q] == '(' {
            proof {
                lemma_rfind_open_characterize(v@, q - 1);
            }
            return Some(q - 1);
        }
        q = q - 1;
    }
    proof {
        lemma_rfind_open_characterize(v@, -1);
    }
    None
}

/// What one line of a summary parses to: the trimmed line must be
/// `filename (url)`; the filename is everything before the last ` (`.
pub open spec fn line_item(line: Seq<char>) -> Option<AttachmentData> {
    let t = trim_ws(line);
    let p = rfind_open(t);
    if t.len() == 0 || p < 0 || t.last() != ')' {
        None
    } else {
        let filename = t.take(p);
        let url = t.subrange(p + 2, t.len() - 1);
        Some(AttachmentData { filename, url, is_media: is_media_filename(filename) })
    }
}

/// The attachments a summary parses to, line by line; lines that do not fit
/// the format are skipped.
pub open spec fn summary_items(s: Seq<char>) -> Seq<AttachmentData>
    decreases s.len(),
{
    if s.len() == 0 {
        Seq::empty()
    } else {
        let i = find_char(s, '\n');
        if 0 <= i < s.len() {
            line_items(s.take(i)) + summary_items(s.skip(i + 1))
        } else {
            line_items(s)
        }
    }
}

/// The zero or one attachments one line contributes.
pub open spec fn line_items(line: Seq<char>) -> Seq<AttachmentData> {
    match line_item(line) {
        Some(a) => seq![a],
        None => Seq::empty(),
    }
}

fn parse_line(line: &Vec<char>) -> (r: Option<AttachmentInfo>)
    ensures
        match r {
            Some(a) => line_item(line@) == Some(a@),
            None => line_item(line@) is None,
        },
{
    let t = trim_chars(line);
    if t.len() == 0 {
        return None;
    }
    let p = match rfind_open_in(&t) {
        Some(p) => p,
        None => {
            return None;
        },
    };
    if t[t.len() - 1] != ')' {
        proof {
            assert(t@.last() == t@[t@.len() - 1]);
        }
        return None;
    }
    proof {
        // The last ` (` sits strictly before the closing `)`.
        assert(t@[p + 1] == '(');
        assert(t@.last() == ')');
        assert(p + 1 < t@.len() - 1);
    }
    let filename = chars_subrange(&t, 0, p);
    let url = chars_subrange(&t, p + 2, t.len() - 1);
    proof {
        assert(t@.subrange(0, p as int) =~= t@.take(p as int));
    }
    let is_media = is_media_filename_exec(&filename);
    Some(
        AttachmentInfo {
            filename: chars_to_string(filename),
            url: chars_to_string(url),
            is_media,
        },
    )
}

/// Parse the `filename (url)` summary lines into structured items.
pub fn parse_attachment_summary(raw: &str) -> (r: Vec<AttachmentInfo>)
    ensures
        r@.map_values(|a: AttachmentInfo| a@) == summary_items(raw@),
{
    let v = str_to_chars(raw);
    let ghost vfn = |a: AttachmentInfo| a@;
    let mut out: Vec<AttachmentInfo> = Vec::new();
    let mut pos: usize = 0;
    proof {
        assert(v@.skip(0) =~= v@);
        assert(out@.map_values(vfn) =~= Seq::<AttachmentData>::empty());
    }
    while pos < v.len()
        invariant
            pos <= v@.len(),
            vfn == (|a: AttachmentInfo| a@),
            summary_items(v@) == out@.map_values(vfn) + summary_items(v@.skip(pos as int)),
        decreases v@.len() - pos,
    {
        let ghost rest = v@.skip(pos as int);
        // Find the end of the current line.
        let mut nl = pos;
        while nl < v.len() && v[nl] != '\n'
            invariant
                pos <= nl <= v@.len(),
                forall|j: int| pos <= j < nl ==> v@[j] != '\n',
            decreases v@.len() - nl,
        {
            nl = nl + 1;
        }
        proof {
            lemma_find_char_characterize(rest, '\n', nl - pos);
        }
        let line = chars_subrange(&v, pos, nl);
        proof {
            assert(line@ =~= rest.take(nl - pos));
        }
        let item = parse_line(&line);
        let ghost old_out = out@.map_values(vfn);
        match item {
            Some(a) => {
                out.push(a);
            },
            None => (),
        }
        proof {
            assert(out@.map_values(vfn) =~= old_out + line_items(line@));
        }
        if nl < v.len() {
            proof {
                assert(rest.skip(nl - pos as int + 1) =~= v@.skip(nl + 1));
                assert(summary_items(rest) == line_items(line@) + summary_items(v@.skip(nl + 1)));
                assert(summary_items(v@) =~= out@.map_values(vfn) + summary_items(v@.skip(nl + 1)));
            }
            pos = nl + 1;
        } else {
            proof {
                assert(line@ =~= rest);
                assert(summary_items(rest) == line_items(line@));
                assert(summary_items(v@) =~= out@.map_values(vfn) + summary_items(
                    v@.skip(v@.len() as int),
                ));
            }
            pos = v.len();
        }
    }
    proof {
        assert(v@.skip(pos as int) =~= Seq::<char>::empty());
    }
    out
}

/// Trimming of surrounding link punctuation (`<`, `>`, `(`, `)`, `[`, `]`)
/// goes by this set.
pub open spec fn is_bracket_char(c: char) -> bool {
    c == '<' || c == '>' || c == '(' || c == ')' || c == '[' || c == ']'
}

fn is_bracket_char_exec(c: char) -> (r: bool)
    ensures
        r == is_bracket_char(c),
{
    c == '<' || c == '>' || c == '(' || c == ')' || c == '[' || c == ']'
}

/// A token without leading bracket punctuation.
pub open spec fn brackets_front(s: Seq<char>) -> Seq<char>
    decreases s.len(),
{
    if s.len() > 0 && is_bracket_char(s[0]) {
        brackets_front(s.drop_first())
    } else {
        s
    }
}

/// A token without trailing bracket punctuation.
pub open spec fn brackets_back(s: Seq<char>) -> Seq<char>
    decreases s.len(),
{
    if s.len() > 0 && is_bracket_char(s.last()) {
        brackets_back(s.drop_last())
    } else {
        s
    }
}

/// A token without surrounding bracket punctuation.
pub open spec fn trim_brackets(s: Seq<char>) -> Seq<char> {
    brackets_back(brackets_front(s))
}

fn trim_brackets_chars(v: &Vec<char>) -> (r: Vec<char>)
    ensures
        r@ == trim_brackets(v@),
{
    let n = v.len();
    let mut a: usize = 0;
    proof {
        assert(v@.skip(0) =~= v@);
    }
    while a < n && is_bracket_char_exec(v[a])
        invariant
            n == v@.len(),
            a <= n,
            brackets_front(v@) == brackets_front(v@.skip(a as int)),
        decreases n - a,
    {
        proof {
            assert(v@.skip(a as int).drop_first() =~= v@.skip(a + 1));
        }
        a = a + 1;
    }
    proof {
        if a < n {
            assert(v@.skip(a as int)[0] == v@[a as int]);
        }
        assert(brackets_front(v@.skip(a as int)) == v@.skip(a as int));
    }
    let mut b: usize = n;
    while b > a && is_bracket_char_exec(v[b - 1])
        invariant
            n == v@.len(),
            a <= b <= n,
            brackets_front(v@) == v@.skip(a as int),
            a < n ==> !is_bracket_char(v@[a as int]),
            brackets_back(v@.skip(a as int)) == brackets_back(v@.subrange(a as int, b as int)),
        decreases b,
    {
        proof {
            assert(v@.subrange(a as int, b as int).last() == v@[b - 1]);
            assert(v@.subrange(a as int, b as int).drop_last() =~= v@.subrange(a as int, b - 1));
        }
        b = b - 1;
    }
    proof {
        let sub = v@.subrange(a as int, b as int);
        if b > a {
            assert(sub.last() == v@[b - 1]);
        }
        assert(brackets_back(sub) == sub);
    }
    chars_subrange(v, a, b)
}

/// Whether a (lowercased) token looks like an embeddable media link.
pub open spec fn media_url_pred(t: Seq<char>) -> bool {
    let l = lower_seq(t);
    (crate::text::seq_starts_with(l, "http://"@) || crate::text::seq_starts_with(l, "https://"@))
        && (crate::text::seq_ends_with(l, ".png"@) || crate::text::seq_ends_with(l, ".jpg"@)
        || crate::text::seq_ends_with(l, ".jpeg"@) || crate::text::seq_ends_with(l, ".gif"@)
        || crate::text::seq_ends_with(l, ".webp"@) || crate::text::seq_ends_with(l, ".mp4"@)
        || crate::text::seq_ends_with(l, ".webm"@) || crate::text::seq_contains(l, "tenor.com"@)
        || crate::text::seq_contains(l, "giphy.com"@) || crate::text::seq_contains(
        l,
        "cdn.discordapp.com"@,
    ) || crate::text::seq_contains(l, "media.discordapp.net"@))
}

fn media_url_pred_exec(t: &Vec<char>) -> (r: bool)
    ensures
        r == media_url_pred(t@),
{
    let l = lower_chars(t);
    (chars_start_with(&l, "http://") || chars_start_with(&l, "https://")) && (chars_end_with(
        &l,
        ".png",
    ) || chars_end_with(&l, ".jpg") || chars_end_with(&l, ".jpeg") || chars_end_with(&l, ".gif")
        || chars_end_with(&l, ".webp") || chars_end_with(&l, ".mp4") || chars_end_with(&l, ".webm")
        || chars_contain(&l, "tenor.com") || chars_contain(&l, "giphy.com") || chars_contain(
        &l,
        "cdn.discordapp.com",
    ) || chars_contain(&l, "media.discordapp.net"))
}

/// Whether a (lowercased) token should be sent as a standalone unfurl link.
pub open spec fn unfurl_url_pred(t: Seq<char>) -> bool {
    let l = lower_seq(t);
    (crate::text::seq_starts_with(l, "http://"@) || crate::text::seq_starts_with(l, "https://"@))
        && (crate::text::seq_contains(l, "tenor.com"@) || crate::text::seq_contains(
        l,
        "giphy.com"@,
    ) || crate::text::seq_ends_with(l, ".mp4"@) || crate::text::seq_ends_with(l, ".webm"@)
        || crate::text::seq_ends_with(l, ".mov"@))
}

fn unfurl_url_pred_exec(t: &Vec<char>) -> (r: bool)
    ensures
        r == unfurl_url_pred(t@),
{
    let l = lower_chars(t);
    (chars_start_with(&l, "http://") || chars_start_with(&l, "https://")) && (chars_contain(
        &l,
        "tenor.com",
    ) || chars_contain(&l, "giphy.com") || chars_end_with(&l, ".mp4") || chars_end_with(
        &l,
        ".webm",
    ) || chars_end_with(&l, ".mov"))
}

/// The first whitespace-separated token of `s` whose bracket-trimmed form
/// satisfies `pred`, in that trimmed form.
pub open spec fn first_token_match(s: Seq<char>, pred: spec_fn(Seq<char>) -> bool) -> Option<
    Seq<char>,
>
    decreases s.len(),
{
    if s.len() == 0 {
        None
    } else if is_ws_char(s[0]) {
        first_token_match(s.drop_first(), pred)
    } else {
        let e = find_ws(s);
        let clean = trim_brackets(s.take(e));
        if pred(clean) {
            Some(clean)
        } else if 1 <= e < s.len() {
            first_token_match(s.skip(e), pred)
        } else {
            None
        }
    }
}

/// Finds the first URL in content that looks like an embeddable media link.
pub fn extract_first_media_url(content: Option<&str>) -> (r: Option<String>)
    ensures
        match content {
            None => r is None,
            Some(s) => (match r {
                Some(u) => first_token_match(s@, |t: Seq<char>| media_url_pred(t)) == Some(u@),
                None => first_token_match(s@, |t: Seq<char>| media_url_pred(t)) is None,
            }),
        },
{
    let s = match content {
        Some(s) => s,
        None => {
            return None;
        },
    };
    proof {
        assert(content == Some(s));
    }
    let ghost pred = |t: Seq<char>| media_url_pred(t);
    let v = str_to_chars(s);
    let mut pos: usize = 0;
    proof {
        assert(v@.skip(0) =~= v@);
    }
    while pos < v.len()
        invariant
            content == Some(s),
            v@ == s@,
            pos <= v@.len(),
            pred == (|t: Seq<char>| media_url_pred(t)),
            first_token_match(v@, pred) == first_token_match(v@.skip(pos as int), pred),
        decreases v@.len() - pos,
    {
        let ghost rest = v@.skip(pos as int);
        if is_ws_char_exec(v[pos]) {
            proof {
                assert(rest[0] == v@[pos as int]);
                assert(rest.drop_first() =~= v@.skip(pos + 1));
            }
            pos = pos + 1;
        } else {
            let e = crate::text::find_ws_from(&v, pos);
            proof {
                assert(rest[0] == v@[pos as int]);
                assert forall|j: int| 0 <= j < e - pos implies !is_ws_char(rest[j]) by {
                    assert(rest[j] == v@[pos + j]);
                }
                if e < v@.len() {
                    assert(rest[e - pos] == v@[e as int]);
                }
                lemma_find_ws_characterize(rest, e - pos);
            }
            let tok = chars_subrange(&v, pos, e);
            proof {
                assert(tok@ =~= rest.take(e - pos));
            }
            let clean = trim_brackets_chars(&tok);
            if media_url_pred_exec(&clean) {
                return Some(chars_to_string(clean));
            }
            if e < v.len() {
                proof {
                    assert(rest.skip(e - pos) =~= v@.skip(e as int));
                }
                pos = e;
            } else {
                return None;
            }
        }
    }
    proof {
        assert(v@.skip(pos as int) =~= Seq::<char>::empty());
    }
    None
}

/// Finds the first URL in content that should be sent as a standalone
/// unfurl message.
pub fn extract_first_unfurl_link(content: Option<&str>) -> (r: Option<String>)
    ensures
        match content {
            None => r is None,
            Some(s) => (match r {
                Some(u) => first_token_match(s@, |t: Seq<char>| unfurl_url_pred(t)) == Some(u@),
                None => first_token_match(s@, |t: Seq<char>| unfurl_url_pred(t)) is None,
            }),
        },
{
    let s = match content {
        Some(s) => s,
        None => {
            return None;
        },
    };
    proof {
        assert(content == Some(s));
    }
    let ghost pred = |t: Seq<char>| unfurl_url_pred(t);
    let v = str_to_chars(s);
    let mut pos: usize = 0;
    proof {
        assert(v@.skip(0) =~= v@);
    }
    while pos < v.len()
        invariant
            content == Some(s),
            v@ == s@,
            pos <= v@.len(),
            pred == (|t: Seq<char>| unfurl_url_pred(t)),
            first_token_match(v@, pred) == first_token_match(v@.skip(pos as int), pred),
        decreases v@.len() - pos,
    {
        let ghost rest = v@.skip(pos as int);
        if is_ws_char_exec(v[pos]) {
            proof {
                assert(rest[0] == v@[pos as int]);
                assert(rest.drop_first() =~= v@.skip(pos + 1));
            }
            pos = pos + 1;
        } else {
            let e = crate::text::find_ws_from(&v, pos);
            proof {
                assert(rest[0] == v@[pos as int]);
                assert forall|j: int| 0 <= j < e - pos implies !is_ws_char(rest[j]) by {
                    assert(rest[j] == v@[pos + j]);
                }
                if e < v@.len() {
                    assert(rest[e - pos] == v@[e as int]);
                }
                lemma_find_ws_characterize(rest, e - pos);
            }
            let tok = chars_subrange(&v, pos, e);
            proof {
                assert(tok@ =~= rest.take(e - pos));
            }
            let clean = trim_brackets_chars(&tok);
            if unfurl_url_pred_exec(&clean) {
                return Some(chars_to_string(clean));
            }
            if e < v.len() {
                proof {
                    assert(rest.skip(e - pos) =~= v@.skip(e as int));
                }
                pos = e;
            } else {
                return None;
            }
        }
    }
    proof {
        assert(v@.skip(pos as int) =~= Seq::<char>::empty());
    }
    None
}

/// Whether a URL points directly to an image, by extension or by image
/// format parameters on the platform's media host.
pub open spec fn direct_image_url(u: Seq<char>) -> bool {
    let l = lower_seq(u);
    crate::text::seq_ends_with(l, ".png"@) || crate::text::seq_ends_with(l, ".jpg"@)
        || crate::text::seq_ends_with(l, ".jpeg"@) || crate::text::seq_ends_with(l, ".gif"@)
        || crate::text::seq_ends_with(l, ".webp"@) || (crate::text::seq_contains(
        l,
        "media.discordapp.net"@,
    ) && (crate::text::seq_contains(l, "format=gif"@) || crate::text::seq_contains(
        l,
        "format=png"@,
    ) || crate::text::seq_contains(l, "format=jpg"@) || crate::text::seq_contains(
        l,
        "format=jpeg"@,
    ) || crate::text::seq_contains(l, "format=webp"@)))
}

/// Checks whether a URL points directly to an image.
pub fn is_direct_image_url(url: &str) -> (r: bool)
    ensures
        r == direct_image_url(url@),
{
    let v = str_to_chars(url);
    let l = lower_chars(&v);
    chars_end_with(&l, ".png") || chars_end_with(&l, ".jpg") || chars_end_with(&l, ".jpeg")
        || chars_end_with(&l, ".gif") || chars_end_with(&l, ".webp") || (chars_contain(
        &l,
        "media.discordapp.net",
    ) && (chars_contain(&l, "format=gif") || chars_contain(&l, "format=png") || chars_contain(
        &l,
        "format=jpg",
    ) || chars_contain(&l, "format=jpeg") || chars_contain(&l, "format=webp")))
}

/// Index of the last `/` in `s`, or -1 when there is none.
pub open spec fn rfind_slash(s: Seq<char>) -> int
    decreases s.len(),
{
    if s.len() == 0 {
        -1
    } else if s.last() == '/' {
        s.len() - 1
    } else {
        rfind_slash(s.drop_last())
    }
}

proof fn lemma_rfind_slash_characterize(s: Seq<char>, p: int)
    requires
        -1 <= p < s.len(),
        p >= 0 ==> s[p] == '/',
        forall|i: int| p < i < s.len() ==> s[i] != '/',
    ensures
        rfind_slash(s) == p,
    decreases s.len(),
{
    if s.len() > 0 && s.last() != '/' {
        lemma_rfind_slash_characterize(s.drop_last(), p);
    }
}

/// The filename a media URL implies: the path segment after the last `/`,
/// query stripped; `fallback` when that segment is blank.
pub open spec fn inferred_filename(u: Seq<char>, fallback: Seq<char>) -> Seq<char> {
    let cleaned = u.take(find_char(u, '?'));
    let candidate = cleaned.skip(rfind_slash(cleaned) + 1);
    if trim_ws(candidate).len() == 0 {
        fallback
    } else {
        candidate
    }
}

/// Guess a filename from a media URL, falling back to a default.
pub fn infer_media_filename(url: &str, fallback: &str) -> (r: String)
    ensures
        r@ == inferred_filename(url@, fallback@),
{
    let v = str_to_chars(url);
    let mut cut: usize = 0;
    while cut < v.len() && v[cut] != '?'
        invariant
            cut <= v@.len(),
            forall|j: int| 0 <= j < cut ==> v@[j] != '?',
        decreases v@.len() - cut,
    {
        cut = cut + 1;
    }
    proof {
        lemma_find_char_characterize(v@, '?', cut as int);
    }
    let cleaned = chars_subrange(&v, 0, cut);
    proof {
        assert(cleaned@ =~= v@.take(cut as int));
    }
    let mut sl: usize = cleaned.len();
    while sl > 0 && cleaned[sl - 1] != '/'
        invariant
            sl <= cleaned@.len(),
            forall|j: int| sl <= j < cleaned@.len() ==> cleaned@[j] != '/',
        decreases sl,
    {
        sl = sl - 1;
    }
    proof {
        lemma_rfind_slash_characterize(cleaned@, sl - 1);
    }
    let candidate = chars_subrange(&cleaned, sl, cleaned.len());
    proof {
        assert(candidate@ =~= cleaned@.skip(rfind_slash(cleaned@) + 1));
    }
    let trimmed = trim_chars(&candidate);
    if trimmed.len() == 0 {
        str_to_owned(fallback)
    } else {
        chars_to_string(candidate)
    }
}

/// Replaces potentially dangerous characters in an attachment filename.
///
/// Characters other than ASCII letters, digits, `.`, `_` and `-` become
/// `_`; an empty filename becomes a generic one.
pub fn sanitize_attachment_filename(filename: &str) -> (r: String)
    ensures
        r@ == sanitized_filename(filename@),
{
    let n = filename.unicode_len();
    if n == 0 {
        let out = str_to_owned("attachment.bin");
        return out;
    }
    let mut out: Vec<char> = Vec::new();
    let mut i: usize = 0;
    while i < n
        invariant
            n == filename@.len(),
            i <= n,
            out@ =~= filename@.take(i as int).map_values(|c: char| filename_char(c)),
        decreases n - i,
    {
        let c = filename.get_char(i);
        let mapped = if is_filename_char_exec(c) {
            c
        } else {
            '_'
        };
        out.push(mapped);
        proof {
            assert(out@ =~= filename@.take(i + 1).map_values(|c: char| filename_char(c)));
        }
        i = i + 1;
    }
    proof {
        assert(filename@.take(n as int) =~= filename@);
    }
    chars_to_string(out)
}

/// What a filename sanitizes to: a character-wise replacement, or a generic
/// name for an empty filename.
pub open spec fn sanitized_filename(f: Seq<char>) -> Seq<char> {
    if f.len() == 0 {
        "attachment.bin"@
    } else {
        f.map_values(|c: char| filename_char(c))
    }
}

/// How one filename character sanitizes.
pub open spec fn filename_char(c: char) -> char {
    if is_safe_filename_char(c) {
        c
    } else {
        '_'
    }
}

/// The characters an attachment filename may keep.
pub open spec fn is_safe_filename_char(c: char) -> bool {
    crate::text::is_ascii_alpha(c) || crate::text::is_digit_char(c) || c == '.' || c == '_' || c
        == '-'
}

fn is_filename_char_exec(c: char) -> (r: bool)
    ensures
        r == is_safe_filename_char(c),
{
    crate::text::is_ascii_alpha_exec(c) || crate::text::is_digit_char_exec(c) || c == '.' || c
        == '_' || c == '-'
}

fn str_to_owned(s: &str) -> (r: String)
    ensures
        r@ == s@,
{
    s.to_owned()
}


/// One summary line: `filename (url)`.
pub open spec fn summary_entry(p: (Seq<char>, Seq<char>)) -> Seq<char> {
    p.0 + " ("@ + p.1 + ")"@
}

/// The serialized summary of an ordered attachment list, one entry per
/// line.
pub open spec fn summary_of(parts: Seq<(Seq<char>, Seq<char>)>) -> Seq<char>
    decreases parts.len(),
{
    if parts.len() == 0 {
        Seq::empty()
    } else if parts.len() == 1 {
        summary_entry(parts[0])
    } else {
        summary_entry(parts[0]) + "\n"@ + summary_of(parts.drop_first())
    }
}

fn summary_from(parts: &Vec<(String, String)>, i: usize) -> (r: String)
    requires
        i <= parts@.len(),
    ensures
        r@ == summary_of(
            parts@.map_values(|p: (String, String)| (p.0@, p.1@)).skip(i as int),
        ),
    decreases parts@.len() - i,
{
    let ghost ps = parts@.map_values(|p: (String, String)| (p.0@, p.1@));
    if i >= parts.len() {
        proof {
            assert(ps.skip(i as int) =~= Seq::<(Seq<char>, Seq<char>)>::empty());
        }
        String::new()
    } else {
        proof {
            assert(ps.skip(i as int)[0] == ps[i as int]);
        }
        let mut line = parts[i].0.clone();
        line.append(" (");
        line.append(parts[i].1.as_str());
        line.append(")");
        if i == parts.len() - 1 {
            proof {
                assert(ps.skip(i as int).len() == 1);
            }
            line
        } else {
            let rest = summary_from(parts, i + 1);
            proof {
                assert(ps.skip(i as int).drop_first() =~= ps.skip(i + 1));
                assert(ps.skip(i as int).len() > 1);
            }
            line.append("\n");
            line.append(rest.as_str());
            line
        }
    }
}

/// Serialize an ordered list of (filename, url) attachments into the
/// summary format, `None` for an attachment-free message.
pub fn attachment_summary_from_parts(parts: &Vec<(String, String)>) -> (r: Option<String>)
    ensures
        match r {
            Some(s) => parts@.len() > 0 && s@ == summary_of(
                parts@.map_values(|p: (String, String)| (p.0@, p.1@)),
            ),
            None => parts@.len() == 0,
        },
{
    if parts.len() == 0 {
        return None;
    }
    let s = summary_from(parts, 0);
    proof {
        let ps = parts@.map_values(|p: (String, String)| (p.0@, p.1@));
        assert(ps.skip(0) =~= ps);
    }
    Some(s)
}

} // verus!
