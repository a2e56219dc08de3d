//! Text helpers around the bot's messages, file names and scraped pages.
use crate::text::{
    append_chars, chars_of, has_prefix, i32_of, i64_of, is_digit, parse_i32, parse_i64,
    starts_with, string_of, trim_chars, trim_class, trim_end_class, CharClass,
};
use regex::Regex;
use vstd::prelude::*;

verus! {

/// What group `group` of the first match of `pattern` in `text` holds; none
/// where the pattern does not compile, nothing matches, or the group took no
/// part in the match.
pub uninterp spec fn regex_group_of(pattern: Seq<char>, text: Seq<char>, group: int) -> Option<
    Seq<char>,
>;

/// Relies on `regex::Regex::new` and `Regex::captures`: the text of one
/// capture group of the leftmost-first match.
#[verifier::external_body]
fn regex_group(pattern: &str, text: &str, group: usize) -> (r: Option<String>)
    ensures
        crate::command::opt_view(r) == regex_group_of(pattern@, text@, group as int),
{
    Regex::new(pattern).ok().and_then(
        |re| re.captures(text).and_then(|c| c.get(group)).map(|m| m.as_str().to_string()),
    )
}

/// The pattern of an id in a link: a dash followed by digits.
pub const NUM_PATTERN: &'static str = "-(\\d+)";

/// The pattern of a listing's info line: a count, then a date.
pub const INFO_PATTERN: &'static str = "(\\d+)\\s*.*?(\\d{4}-\\d{2}-\\d{2})";

/// The number after the first dash followed by digits, where it fits an
/// `i64`.
pub fn extract_num(s: &str) -> (r: Option<i64>)
    ensures
        r == (match regex_group_of(NUM_PATTERN@, s@, 1) {
            Some(t) => i64_of(t),
            None => None,
        }),
{
    match regex_group(NUM_PATTERN, s, 1) {
        Some(t) => parse_i64(&chars_of(t.as_str())),
        None => None,
    }
}

/// The count and the date of a listing's info line: `(0, "")` where the line
/// does not match, and a count of 0 where it does not fit an `i32`.
pub fn extract_info(info: &str) -> (r: (i32, String))
    ensures
        regex_group_of(INFO_PATTERN@, info@, 1) is None ==> r.0 == 0 && r.1@ == Seq::<char>::empty(),
        regex_group_of(INFO_PATTERN@, info@, 1) matches Some(t) ==> r.0 == (match i32_of(t) {
            Some(v) => v,
            None => 0,
        }) && r.1@ == (match regex_group_of(INFO_PATTERN@, info@, 2) {
            Some(d) => d,
            None => Seq::<char>::empty(),
        }),
{
    match regex_group(INFO_PATTERN, info, 1) {
        Some(t) => {
            let total = match parse_i32(&chars_of(t.as_str())) {
                Some(v) => v,
                None => 0,
            };
            let date = match regex_group(INFO_PATTERN, info, 2) {
                Some(d) => d,
                None => String::new(),
            };
            (total, date)
        },
        None => (0, String::new()),
    }
}

/// The ASCII digits of a text, in order.
pub open spec fn keep_digits(s: Seq<char>) -> Seq<char>
    decreases s.len(),
{
    if s.len() == 0 {
        seq![]
    } else if is_digit(s.last()) {
        keep_digits(s.drop_last()).push(s.last())
    } else {
        keep_digits(s.drop_last())
    }
}

/// The number that the ASCII digits of a text spell together, or 0 where
/// there are none or it does not fit an `i32`.
pub fn digits_to_i32(s: &str) -> (r: i32)
    ensures
        r == (match i32_of(keep_digits(s@)) {
            Some(v) => v,
            None => 0,
        }),
{
    let cs = chars_of(s);
    let mut d: Vec<char> = Vec::new();
    let mut i: usize = 0;
    while i < cs.len()
        invariant
            cs@ == s@,
            i <= cs@.len(),
            d@ == keep_digits(cs@.subrange(0, i as int)),
        decreases cs@.len() - i,
    {
        assert(cs@.subrange(0, i + 1).drop_last() =~= cs@.subrange(0, i as int));
        if '0' <= cs[i] && cs[i] <= '9' {
            d.push(cs[i]);
        }
        i = i + 1;
    }
    assert(cs@.subrange(0, cs@.len() as int) =~= s@);
    match parse_i32(&d) {
        Some(v) => v,
        None => 0,
    }
}

/// The characters that MarkdownV2 asks to escape.
pub open spec fn md_special(c: char) -> bool {
    c == '_' || c == '*' || c == '[' || c == ']' || c == '(' || c == ')' || c == '~' || c == '`'
        || c == '>' || c == '#' || c == '+' || c == '-' || c == '=' || c == '|' || c == '{' || c
        == '}' || c == '.' || c == '!'
}

/// A text with a backslash before each MarkdownV2 special character.
pub open spec fn escape_md(s: Seq<char>) -> Seq<char>
    decreases s.len(),
{
    if s.len() == 0 {
        seq![]
    } else if md_special(s.last()) {
        escape_md(s.drop_last()) + seq!['\\', s.last()]
    } else {
        escape_md(s.drop_last()).push(s.last())
    }
}

/// Escapes a text for MarkdownV2.
pub fn escape_md_v2(s: &str) -> (r: String)
    ensures
        r@ == escape_md(s@),
{
    let cs = chars_of(s);
    let mut out: Vec<char> = Vec::new();
    let mut i: usize = 0;
    while i < cs.len()
        invariant
            cs@ == s@,
            i <= cs@.len(),
            out@ == escape_md(cs@.subrange(0, i as int)),
        decreases cs@.len() - i,
    {
        let ch = cs[i];
        assert(cs@.subrange(0, i + 1).drop_last() =~= cs@.subrange(0, i as int));
        if ch == '_' || ch == '*' || ch == '[' || ch == ']' || ch == '(' || ch == ')' || ch == '~'
            || ch == '`' || ch == '>' || ch == '#' || ch == '+' || ch == '-' || ch == '=' || ch
            == '|' || ch == '{' || ch == '}' || ch == '.' || ch == '!' {
            out.push('\\');
            out.push(ch);
            assert(out@ =~= escape_md(cs@.subrange(0, i + 1)));
        } else {
            out.push(ch);
        }
        i = i + 1;
    }
    assert(cs@.subrange(0, cs@.len() as int) =~= s@);
    string_of(&out)
}

/// The character that stands for `c` in a file name: ASCII letters, digits,
/// `-`, `_`, `.` and space stay, anything else becomes `_`.
pub open spec fn filename_char(c: char) -> char {
    if ('a' <= c && c <= 'z') || ('A' <= c && c <= 'Z') || ('0' <= c && c <= '9') || c == '-' || c
        == '_' || c == '.' || c == ' ' {
        c
    } else {
        '_'
    }
}

/// The longest file name, in characters.
pub const MAX_FILENAME_CHARS: usize = 128;

/// A safe file name for a title: each character mapped by `filename_char`,
/// whitespace then dots trimmed at both ends, `file` where nothing is left,
/// and at most `MAX_FILENAME_CHARS` characters.
pub open spec fn sanitized(name: Seq<char>) -> Seq<char> {
    let mapped = name.map_values(|c: char| filename_char(c));
    let t = trim_class(trim_class(mapped, CharClass::Whitespace), CharClass::One('.'));
    let s = if t.len() == 0 {
        "file"@
    } else {
        t
    };
    if s.len() > MAX_FILENAME_CHARS {
        s.subrange(0, MAX_FILENAME_CHARS as int)
    } else {
        s
    }
}

/// A file name made safe for the file system.
pub fn sanitize_filename(name: &str) -> (r: String)
    ensures
        r@ == sanitized(name@),
{
    let cs = chars_of(name);
    let mut out: Vec<char> = Vec::new();
    let mut i: usize = 0;
    while i < cs.len()
        invariant
            cs@ == name@,
            i <= cs@.len(),
            out@ == cs@.subrange(0, i as int).map_values(|c: char| filename_char(c)),
        decreases cs@.len() - i,
    {
        let ch = cs[i];
        let ok = ('a' <= ch && ch <= 'z') || ('A' <= ch && ch <= 'Z') || ('0' <= ch && ch <= '9')
            || ch == '-' || ch == '_' || ch == '.' || ch == ' ';
        out.push(
            if ok {
                ch
            } else {
                '_'
            },
        );
        i = i + 1;
        assert(out@ =~= cs@.subrange(0, i as int).map_values(|c: char| filename_char(c)));
    }
    assert(cs@.subrange(0, cs@.len() as int) =~= name@);
    let t1 = trim_chars(&out, CharClass::Whitespace, true, true);
    let t2 = trim_chars(&t1, CharClass::One('.'), true, true);
    let s = if t2.len() == 0 {
        chars_of("file")
    } else {
        t2
    };
    if s.len() > MAX_FILENAME_CHARS {
        string_of(&s[0..MAX_FILENAME_CHARS])
    } else {
        string_of(&s)
    }
}

/// The scheme to put before a protocol-relative link of a page.
pub open spec fn scheme_of(url: Seq<char>) -> Seq<char> {
    if has_prefix(url, "https"@) {
        "https:"@
    } else {
        "http:"@
    }
}

/// The scheme to put before a protocol-relative link of a page.
pub fn get_scheme(url: &str) -> (r: String)
    ensures
        r@ == scheme_of(url@),
{
    if starts_with(&chars_of(url), &chars_of("https")) {
        String::from_str("https:")
    } else {
        String::from_str("http:")
    }
}

/// An image link made absolute: a link that does not start with `http` gets
/// the scheme in front, after dropping two of its slashes where it starts
/// with four.
pub open spec fn fixed_image_url(url: Seq<char>, scheme: Seq<char>) -> Seq<char> {
    if has_prefix(url, "http"@) {
        url
    } else if has_prefix(url, "////"@) {
        scheme + url.skip(2)
    } else {
        scheme + url
    }
}

/// An image link made absolute.
pub fn fix_image_url(url: &str, scheme: &str) -> (r: String)
    ensures
        r@ == fixed_image_url(url@, scheme@),
{
    let u = chars_of(url);
    if starts_with(&u, &chars_of("http")) {
        return String::from_str(url);
    }
    let mut out = chars_of(scheme);
    if starts_with(&u, &chars_of("////")) {
        proof {
            reveal_strlit("////");
        }
        append_chars(&mut out, &u[2..u.len()]);
        assert(u@.subrange(2, u@.len() as int) =~= u@.skip(2));
    } else {
        append_chars(&mut out, &u);
    }
    string_of(&out)
}

/// The link of a work's image pages under a site's base link.
pub open spec fn images_url(base_url: Seq<char>, aid: Seq<char>) -> Seq<char> {
    trim_end_class(base_url, CharClass::One('/')) + "/photos-webp-aid-"@ + aid + ".html"@
}

/// The link of a work's image pages.
pub fn build_images_url(base_url: &str, aid: &str) -> (r: String)
    ensures
        r@ == images_url(base_url@, aid@),
{
    let mut out = trim_chars(&chars_of(base_url), CharClass::One('/'), false, true);
    append_chars(&mut out, &chars_of("/photos-webp-aid-"));
    append_chars(&mut out, &chars_of(aid));
    append_chars(&mut out, &chars_of(".html"));
    string_of(&out)
}

} // verus!
