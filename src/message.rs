//! The bot's MarkdownV2 messages for listings and detail pages, with start
//! links that carry command tokens.
use crate::codec::{
    arg_texts, encode_command_link, join_colon, lemma_size_ceiling, plain_of, token_of, ArgValue,
    CommandArg, MAX_TOKEN_LEN,
};
use crate::keystore::{key_to_id_post, KeyStore};
use crate::models::{MangaDetail, MangaInfo};
use crate::text::{
    append_chars, chars_of, decimal_of, decimal_text, lemma_digits_text_short, pow10, string_of,
};
use crate::util::{escape_md, escape_md_v2};
use vstd::prelude::*;
use vstd::utf8::{is_ascii_chars, is_ascii_chars_encode_utf8};

verus! {

/// A start link that opens the bot with the token of a command.
pub open spec fn link_text(bot: Seq<char>, name: Seq<char>, args: Seq<ArgValue>) -> Seq<char> {
    "https://t.me/"@ + bot + "?start="@ + token_of(name, args)
}

/// The arguments of the detail command for a work.
pub open spec fn info_args(id: i64) -> Seq<ArgValue> {
    seq![ArgValue::I64(id)]
}

/// The arguments of a search by compact key: the key's id, the type, page 1.
pub open spec fn search_args(num: u64, typ: Seq<char>) -> Seq<ArgValue> {
    seq![ArgValue::Text(decimal_text(num as int)), ArgValue::Text(typ), ArgValue::Text("1"@)]
}

proof fn lemma_ascii_token_fits(name: Seq<char>, args: Seq<ArgValue>)
    requires
        is_ascii_chars(plain_of(name, args)),
        plain_of(name, args).len() <= 48,
    ensures
        token_of(name, args).len() <= MAX_TOKEN_LEN,
{
    is_ascii_chars_encode_utf8(plain_of(name, args));
    lemma_size_ceiling(name, args);
}

proof fn lemma_short_decimal(n: nat)
    requires
        n <= u64::MAX,
    ensures
        decimal_text(n as int).len() <= 20,
        is_ascii_chars(decimal_text(n as int)),
{
    assert(pow10(20) == 100000000000000000000) by {
        reveal_with_fuel(pow10, 21);
    }
    lemma_digits_text_short(n, 20);
}

proof fn lemma_ascii_concat(a: Seq<char>, b: Seq<char>)
    requires
        is_ascii_chars(a),
        is_ascii_chars(b),
    ensures
        is_ascii_chars(a + b),
{
    assert forall|i: int| 0 <= i < (a + b).len() implies '\0' <= #[trigger] (a + b)[i] <= '\u{7f}' by {
        if i < a.len() {
            assert((a + b)[i] == a[i]);
        } else {
            assert((a + b)[i] == b[i - a.len()]);
        }
    }
}

/// The link to a work's detail view.
pub fn info_link(bot_name: &str, id: i64) -> (r: String)
    ensures
        r@ == link_text(bot_name@, "info"@, info_args(id)),
{
    let args = [CommandArg::I64(id)];
    proof {
        let a = info_args(id);
        assert(args@.map_values(|x: CommandArg| x@) =~= a);
        let texts = arg_texts(a);
        assert(texts =~= seq![decimal_text(id as int)]);
        assert(texts.drop_last() =~= Seq::<Seq<char>>::empty());
        assert(join_colon("info"@, Seq::<Seq<char>>::empty()) == "info"@);
        assert(join_colon("info"@, texts) == join_colon("info"@, texts.drop_last()) + seq![':']
            + texts.last());
        assert(join_colon("info"@, texts) == "info"@ + seq![':'] + decimal_text(id as int));
        reveal_strlit("info");
        if id < 0 {
            lemma_short_decimal((-(id as int)) as nat);
        } else {
            lemma_short_decimal(id as nat);
        }
        crate::text::lemma_decimal_text_short(id);
        lemma_ascii_concat("info"@, seq![':']);
        lemma_ascii_concat("info"@ + seq![':'], decimal_text(id as int));
        lemma_ascii_token_fits("info"@, a);
    }
    encode_command_link(bot_name, "info", &args)
}

/// The link to a search by the compact id of a key.
pub fn search_link(bot_name: &str, num: u64, typ_is_user: bool) -> (r: String)
    ensures
        r@ == link_text(
            bot_name@,
            "csearch"@,
            search_args(
                num,
                if typ_is_user {
                    "u"@
                } else {
                    "t"@
                },
            ),
        ),
{
    let typ = if typ_is_user {
        "u"
    } else {
        "t"
    };
    let n = string_of(&decimal_of_u64(num));
    let args = [
        CommandArg::String(n),
        CommandArg::String(String::from_str(typ)),
        CommandArg::String(String::from_str("1")),
    ];
    proof {
        let ty = typ@;
        let a = search_args(num, ty);
        assert(args@.map_values(|x: CommandArg| x@) =~= a);
        let d = decimal_text(num as int);
        let texts = arg_texts(a);
        assert(texts =~= seq![d, ty, "1"@]);
        assert(texts.drop_last().drop_last().drop_last() =~= Seq::<Seq<char>>::empty());
        assert(texts.drop_last().drop_last() =~= seq![d]);
        assert(texts.drop_last() =~= seq![d, ty]);
        let p = "csearch"@ + seq![':'] + d + seq![':'] + ty + seq![':'] + "1"@;
        let c = "csearch"@;
        assert(join_colon(c, Seq::<Seq<char>>::empty()) == c);
        assert(join_colon(c, seq![d]) == join_colon(c, seq![d].drop_last()) + seq![':'] + d);
        assert(seq![d].drop_last() =~= Seq::<Seq<char>>::empty());
        assert(join_colon(c, seq![d, ty]) == join_colon(c, seq![d, ty].drop_last()) + seq![':']
            + ty);
        assert(seq![d, ty].drop_last() =~= seq![d]);
        assert(join_colon(c, texts) == join_colon(c, texts.drop_last()) + seq![':'] + "1"@);
        assert(join_colon("csearch"@, texts) == p);
        reveal_strlit("csearch");
        reveal_strlit("u");
        reveal_strlit("t");
        reveal_strlit("1");
        lemma_short_decimal(num as nat);
        lemma_ascii_concat("csearch"@, seq![':']);
        lemma_ascii_concat("csearch"@ + seq![':'], d);
        lemma_ascii_concat("csearch"@ + seq![':'] + d, seq![':']);
        lemma_ascii_concat("csearch"@ + seq![':'] + d + seq![':'], ty);
        lemma_ascii_concat("csearch"@ + seq![':'] + d + seq![':'] + ty, seq![':']);
        lemma_ascii_concat("csearch"@ + seq![':'] + d + seq![':'] + ty + seq![':'], "1"@);
        lemma_ascii_token_fits("csearch"@, a);
    }
    encode_command_link(bot_name, "csearch", &args)
}

/// The decimal text of a `u64`.
fn decimal_of_u64(n: u64) -> (r: Vec<char>)
    ensures
        r@ == decimal_text(n as int),
{
    if n <= 9223372036854775807 {
        decimal_of(n as i64)
    } else {
        let mut r = decimal_of((n / 10) as i64);
        let d = n % 10;
        let c = if d == 0 { '0' } else if d == 1 { '1' } else if d == 2 { '2' } else if d == 3 { '3' }
            else if d == 4 { '4' } else if d == 5 { '5' } else if d == 6 { '6' } else if d == 7 { '7' }
            else if d == 8 { '8' } else { '9' };
        r.push(c);
        r
    }
}

/// A count shown as at least 0.
pub open spec fn non_negative(v: i32) -> int {
    if v < 0 {
        0
    } else {
        v as int
    }
}

/// One line of a category or search listing.
pub open spec fn listing_item(m: MangaInfo, bot: Seq<char>) -> Seq<char> {
    "* ["@ + escape_md(m.title@) + "]("@ + m.cover@ + ") / 📄"@ + decimal_text(non_negative(m.total))
        + " / 📢"@ + escape_md(m.published@) + " / 👉["@ + decimal_text(m.id as int) + "]("@
        + link_text(bot, "info"@, info_args(m.id)) + ") "@
}

fn push_str(out: &mut Vec<char>, s: &str)
    ensures
        final(out)@ == old(out)@ + s@,
{
    append_chars(out, &chars_of(s));
}

/// One line of a category or search listing.
pub fn format_manga_item(m: &MangaInfo, bot_name: &str) -> (r: String)
    ensures
        r@ == listing_item(*m, bot_name@),
{
    let total: i32 = if m.total < 0 {
        0
    } else {
        m.total
    };
    let mut out = chars_of("* [");
    push_str(&mut out, escape_md_v2(m.title.as_str()).as_str());
    push_str(&mut out, "](");
    push_str(&mut out, m.cover.as_str());
    push_str(&mut out, ") / 📄");
    append_chars(&mut out, &decimal_of(total as i64));
    push_str(&mut out, " / 📢");
    push_str(&mut out, escape_md_v2(m.published.as_str()).as_str());
    push_str(&mut out, " / 👉[");
    append_chars(&mut out, &decimal_of(m.id));
    push_str(&mut out, "](");
    push_str(&mut out, info_link(bot_name, m.id).as_str());
    push_str(&mut out, ") ");
    string_of(&out)
}

/// One line of the ranking, where the author's escaped name has the compact
/// id `author_num`.
pub open spec fn rank_item(m: MangaInfo, bot: Seq<char>, author_num: u64) -> Seq<char> {
    "*\\#"@ + decimal_text(non_negative(m.rank)) + "* ["@ + escape_md(m.title@) + "]("@ + m.cover@
        + ") / 📄"@ + decimal_text(non_negative(m.total)) + " / ⭐"@ + decimal_text(
        non_negative(m.fav),
    ) + " / 👤["@ + escape_md(m.author@) + "]("@ + link_text(
        bot,
        "csearch"@,
        search_args(author_num, "u"@),
    ) + ") / 👉["@ + decimal_text(m.id as int) + "]("@ + link_text(bot, "info"@, info_args(m.id))
        + ") "@
}

/// The ranking line for the author's compact id.
pub fn rank_item_text(m: &MangaInfo, bot_name: &str, author_num: u64) -> (r: String)
    ensures
        r@ == rank_item(*m, bot_name@, author_num),
{
    let mut out = chars_of("*\\#");
    append_chars(&mut out, &decimal_of(if m.rank < 0 { 0 } else { m.rank } as i64));
    push_str(&mut out, "* [");
    push_str(&mut out, escape_md_v2(m.title.as_str()).as_str());
    push_str(&mut out, "](");
    push_str(&mut out, m.cover.as_str());
    push_str(&mut out, ") / 📄");
    append_chars(&mut out, &decimal_of(if m.total < 0 { 0 } else { m.total } as i64));
    push_str(&mut out, " / ⭐");
    append_chars(&mut out, &decimal_of(if m.fav < 0 { 0 } else { m.fav } as i64));
    push_str(&mut out, " / 👤[");
    push_str(&mut out, escape_md_v2(m.author.as_str()).as_str());
    push_str(&mut out, "](");
    push_str(&mut out, search_link(bot_name, author_num, true).as_str());
    push_str(&mut out, ") / 👉[");
    append_chars(&mut out, &decimal_of(m.id));
    push_str(&mut out, "](");
    push_str(&mut out, info_link(bot_name, m.id).as_str());
    push_str(&mut out, ") ");
    string_of(&out)
}

/// One line of the ranking: the author's escaped name is compacted through
/// the store, and the line links to a search by that key.
pub fn format_rank_item(store: &mut KeyStore, m: &MangaInfo, bot_name: &str) -> (r: String)
    ensures
        exists|num: u64|
            key_to_id_post(old(store)@, final(store)@, escape_md(m.author@), num) && r@
                == rank_item(*m, bot_name@, num),
{
    let author = escape_md_v2(m.author.as_str());
    let num = store.key_to_id(author.as_str());
    rank_item_text(m, bot_name, num)
}

/// The link of one tag: `[\#tag](search link)`, the tag escaped.
pub open spec fn tag_link(tag: Seq<char>, num: u64, bot: Seq<char>) -> Seq<char> {
    "[\\#"@ + escape_md(tag) + "]("@ + link_text(bot, "csearch"@, search_args(num, "t"@)) + ")"@
}

/// The links of the tags, separated by spaces; `nums[i]` is the compact id of
/// the escaped `tags[i]`.
pub open spec fn tag_links(tags: Seq<Seq<char>>, nums: Seq<u64>, bot: Seq<char>) -> Seq<char>
    decreases tags.len(),
{
    if tags.len() == 0 {
        seq![]
    } else if tags.len() == 1 {
        tag_link(tags[0], nums[0], bot)
    } else {
        tag_links(tags.drop_last(), nums, bot) + " "@ + tag_link(
            tags.last(),
            nums[tags.len() - 1],
            bot,
        )
    }
}

/// The tags of a work as sequences of characters.
pub open spec fn tag_texts(m: MangaDetail) -> Seq<Seq<char>> {
    m.tags@.map_values(|t: String| t@)
}

/// The detail message of a work, where the escaped author has the compact id
/// `author_num` and the escaped tags have the ids `tag_nums`.
pub open spec fn detail_text(m: MangaDetail, bot: Seq<char>, author_num: u64, tag_nums: Seq<u64>) -> Seq<
    char,
> {
    "*["@ + escape_md(m.title@) + "]("@ + m.cover@ + ")*\n\n👤 *Author:* ["@ + escape_md(m.author@)
        + "]("@ + link_text(bot, "csearch"@, search_args(author_num, "u"@))
        + ")\n📚 *Category:* `"@ + escape_md(m.category@) + "`\n🏷 *Tags:* "@ + tag_links(
        tag_texts(m),
        tag_nums,
        bot,
    ) + "\n📄 *Size:* `"@ + decimal_text(m.total as int) + "`\n\n"@ + escape_md(m.description@)
}

/// The detail message for the given compact ids.
pub fn detail_message(m: &MangaDetail, bot_name: &str, author_num: u64, tag_nums: &[u64]) -> (r:
    String)
    requires
        tag_nums@.len() == m.tags@.len(),
    ensures
        r@ == detail_text(*m, bot_name@, author_num, tag_nums@),
{
    let ghost tags = tag_texts(*m);
    let mut links: Vec<char> = Vec::new();
    let mut i: usize = 0;
    while i < m.tags.len()
        invariant
            tags == tag_texts(*m),
            tag_nums@.len() == m.tags@.len(),
            i <= m.tags@.len(),
            links@ == tag_links(tags.subrange(0, i as int), tag_nums@, bot_name@),
        decreases m.tags@.len() - i,
    {
        if i > 0 {
            push_str(&mut links, " ");
        }
        push_str(&mut links, "[\\#");
        push_str(&mut links, escape_md_v2(m.tags[i].as_str()).as_str());
        push_str(&mut links, "](");
        push_str(&mut links, search_link(bot_name, tag_nums[i], false).as_str());
        push_str(&mut links, ")");
        proof {
            let next = tags.subrange(0, i + 1);
            assert(next.drop_last() =~= tags.subrange(0, i as int));
            assert(next.last() == m.tags@[i as int]@);
            if i == 0 {
                assert(next.len() == 1);
                assert(links@ =~= tag_links(next, tag_nums@, bot_name@));
            } else {
                assert(links@ =~= tag_links(next, tag_nums@, bot_name@));
            }
        }
        i = i + 1;
    }
    assert(tags.subrange(0, m.tags@.len() as int) =~= tags);
    let mut out = chars_of("*[");
    push_str(&mut out, escape_md_v2(m.title.as_str()).as_str());
    push_str(&mut out, "](");
    push_str(&mut out, m.cover.as_str());
    push_str(&mut out, ")*\n\n👤 *Author:* [");
    push_str(&mut out, escape_md_v2(m.author.as_str()).as_str());
    push_str(&mut out, "](");
    push_str(&mut out, search_link(bot_name, author_num, true).as_str());
    push_str(&mut out, ")\n📚 *Category:* `");
    push_str(&mut out, escape_md_v2(m.category.as_str()).as_str());
    push_str(&mut out, "`\n🏷 *Tags:* ");
    append_chars(&mut out, &links);
    push_str(&mut out, "\n📄 *Size:* `");
    append_chars(&mut out, &decimal_of(m.total as i64));
    push_str(&mut out, "`\n\n");
    push_str(&mut out, escape_md_v2(m.description.as_str()).as_str());
    string_of(&out)
}

/// The detail message of a work: the escaped author and each escaped tag are
/// compacted through the store, in that order, and linked to searches by
/// those keys.
pub fn build_detail_msg(store: &mut KeyStore, m: &MangaDetail, bot_name: &str) -> (r: String)
    ensures
        exists|a: u64, nums: Seq<u64>|
            nums.len() == m.tags@.len() && r@ == detail_text(*m, bot_name@, a, nums),
{
    let author = escape_md_v2(m.author.as_str());
    let a = store.key_to_id(author.as_str());
    let mut nums: Vec<u64> = Vec::new();
    let mut i: usize = 0;
    while i < m.tags.len()
        invariant
            i <= m.tags@.len(),
            nums@.len() == i,
        decreases m.tags@.len() - i,
    {
        let tag = escape_md_v2(m.tags[i].as_str());
        let n = store.key_to_id(tag.as_str());
        nums.push(n);
        i = i + 1;
    }
    detail_message(m, bot_name, a, &nums)
}

} // verus!
