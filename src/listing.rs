//! The pages of listings that the bot sends: which page is asked for, the
//! message text around the listed works, and the buttons to the previous and
//! next pages.
use crate::codec::{
    arg_values, encode_command, token_of, ArgValue, CodecError, CommandArg, MAX_TOKEN_LEN,
};
use crate::text::{append_chars, chars_of, decimal_of, decimal_text, string_of};
use crate::util::{escape_md, escape_md_v2};
use vstd::prelude::*;

verus! {

/// The highest page of a listing that the bot asks for.
pub const MAX_PAGE: i32 = 1000;

/// How many works one message lists at most.
pub const MAX_ITEMS: usize = 20;

/// The page asked for: page 1 where none is given, kept within 1 and
/// `MAX_PAGE`.
pub fn clamp_page(page: Option<i32>) -> (r: i32)
    ensures
        r == (match page {
            Some(p) => if p < 1 {
                1
            } else if p > MAX_PAGE {
                MAX_PAGE
            } else {
                p
            },
            None => 1,
        }),
{
    match page {
        Some(p) => if p < 1 {
            1
        } else if p > MAX_PAGE {
            MAX_PAGE
        } else {
            p
        },
        None => 1,
    }
}

/// The first line of a listing: its title in bold, the page, and how many
/// works the page holds.
pub open spec fn heading(title: Seq<char>, page: i32, count: nat) -> Seq<char> {
    "*"@ + title + "*   🌏"@ + decimal_text(page as int) + " 📄"@ + decimal_text(count as int)
}

/// The heading of a category or search listing, its title escaped.
pub fn listing_heading(title: &str, page: i32, count: usize) -> (r: String)
    requires
        count <= i64::MAX,
    ensures
        r@ == heading(escape_md(title@), page, count as nat),
{
    let mut out = chars_of("*");
    append_chars(&mut out, &chars_of(escape_md_v2(title).as_str()));
    append_chars(&mut out, &chars_of("*   🌏"));
    append_chars(&mut out, &decimal_of(page as i64));
    append_chars(&mut out, &chars_of(" 📄"));
    append_chars(&mut out, &decimal_of(count as i64));
    string_of(&out)
}

/// The first line of the ranking: the period escaped, the page, the count.
pub open spec fn rank_heading_text(period: Seq<char>, page: i32, count: nat) -> Seq<char> {
    "*排行榜* \\(`"@ + escape_md(period) + "`\\) 🌏"@ + decimal_text(page as int) + " 📄"@
        + decimal_text(count as int)
}

/// The heading of a ranking page.
pub fn rank_heading(period: &str, page: i32, count: usize) -> (r: String)
    requires
        count <= i64::MAX,
    ensures
        r@ == rank_heading_text(period@, page, count as nat),
{
    let mut out = chars_of("*排行榜* \\(`");
    append_chars(&mut out, &chars_of(escape_md_v2(period).as_str()));
    append_chars(&mut out, &chars_of("`\\) 🌏"));
    append_chars(&mut out, &decimal_of(page as i64));
    append_chars(&mut out, &chars_of(" 📄"));
    append_chars(&mut out, &decimal_of(count as i64));
    string_of(&out)
}

/// The heading, then at most `MAX_ITEMS` item lines, one per line.
pub open spec fn listing_text(head: Seq<char>, items: Seq<Seq<char>>) -> Seq<char>
    decreases items.len(),
{
    if items.len() == 0 {
        head
    } else {
        listing_text(head, items.drop_last()) + seq!['\n'] + items.last()
    }
}

/// The first `MAX_ITEMS` item lines.
pub open spec fn first_items(items: Seq<String>) -> Seq<Seq<char>> {
    let n = if items.len() < MAX_ITEMS {
        items.len()
    } else {
        MAX_ITEMS as nat
    };
    items.subrange(0, n as int).map_values(|s: String| s@)
}

/// The message of a listing page: the heading and the first `MAX_ITEMS`
/// item lines, joined with newlines.
pub fn listing_message(head: &str, items: &[String]) -> (r: String)
    ensures
        r@ == listing_text(head@, first_items(items@)),
{
    let n = if items.len() < MAX_ITEMS {
        items.len()
    } else {
        MAX_ITEMS
    };
    let ghost all = first_items(items@);
    let mut out = chars_of(head);
    let mut i: usize = 0;
    while i < n
        invariant
            n <= items@.len(),
            n == all.len(),
            all == first_items(items@),
            i <= n,
            out@ == listing_text(head@, all.subrange(0, i as int)),
        decreases n - i,
    {
        out.push('\n');
        append_chars(&mut out, &chars_of(items[i].as_str()));
        proof {
            let next = all.subrange(0, i + 1);
            assert(next.drop_last() =~= all.subrange(0, i as int));
            assert(next.last() == items@[i as int]@);
        }
        i = i + 1;
    }
    assert(all.subrange(0, n as int) =~= all);
    string_of(&out)
}

/// A button: its label and the token of the command it runs.
pub struct Button {
    pub label: String,
    pub token: String,
}

/// The prefix arguments, then the page number as text.
pub open spec fn page_args(prefix: Seq<CommandArg>, page: int) -> Seq<ArgValue> {
    arg_values(prefix) + seq![ArgValue::Text(decimal_text(page))]
}

/// The buttons under a listing page: to the previous page where there is
/// one, and to the next page; each runs `command` with the prefix arguments
/// and the page's number as text. Fails where a token would be too long.
pub fn page_buttons(command: &str, prefix: &[CommandArg], page: i32) -> (r: Result<
    Vec<Button>,
    CodecError,
>)
    requires
        page < i32::MAX,
    ensures
        r matches Ok(bs) ==> bs@.len() == (if page > 1 {
            2int
        } else {
            1int
        }) && bs@.last().token@ == token_of(command@, page_args(prefix@, page + 1)) && (page
            > 1 ==> bs@[0].token@ == token_of(command@, page_args(prefix@, page - 1))),
        r is Err <==> (token_of(command@, page_args(prefix@, page + 1)).len() > MAX_TOKEN_LEN || (page > 1
            && token_of(command@, page_args(prefix@, page - 1)).len() > MAX_TOKEN_LEN)),
{
    let mut buttons: Vec<Button> = Vec::new();
    if page > 1 {
        let args = with_page(prefix, page - 1);
        match encode_command(command, &args) {
            Ok(t) => buttons.push(Button { label: String::from_str("⬅️上一页"), token: t }),
            Err(e) => return Err(e),
        }
    }
    let args = with_page(prefix, page + 1);
    match encode_command(command, &args) {
        Ok(t) => buttons.push(Button { label: String::from_str("下一页➡️"), token: t }),
        Err(e) => return Err(e),
    }
    Ok(buttons)
}

/// The prefix arguments followed by the page's number as text.
fn with_page(prefix: &[CommandArg], page: i32) -> (r: Vec<CommandArg>)
    ensures
        arg_values(r@) == page_args(prefix@, page as int),
{
    let mut r: Vec<CommandArg> = Vec::new();
    let mut i: usize = 0;
    while i < prefix.len()
        invariant
            i <= prefix@.len(),
            arg_values(r@) == arg_values(prefix@.subrange(0, i as int)),
        decreases prefix@.len() - i,
    {
        let a = match &prefix[i] {
            CommandArg::String(s) => CommandArg::String(string_of(&chars_of(s.as_str()))),
            CommandArg::I32(v) => CommandArg::I32(*v),
            CommandArg::I64(v) => CommandArg::I64(*v),
            CommandArg::Bool(b) => CommandArg::Bool(*b),
        };
        assert(a@ == prefix@[i as int]@);
        let ghost old_r = r@;
        r.push(a);
        assert(r@ =~= old_r.push(a));
        assert(prefix@.subrange(0, i + 1) =~= prefix@.subrange(0, i as int).push(prefix@[i as int]));
        assert(arg_values(r@) =~= arg_values(old_r).push(a@));
        assert(arg_values(prefix@.subrange(0, i + 1)) =~= arg_values(
            prefix@.subrange(0, i as int),
        ).push(prefix@[i as int]@));
        i = i + 1;
    }
    assert(prefix@.subrange(0, prefix@.len() as int) =~= prefix@);
    let ghost before = r@;
    r.push(CommandArg::String(string_of(&decimal_of(page as i64))));
    assert(r@ =~= before.push(r@.last()));
    assert(arg_values(r@) =~= page_args(prefix@, page as int));
    r
}

} // verus!
