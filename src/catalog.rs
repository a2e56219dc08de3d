//! The site's catalog as the bot offers it: categories with their
//! subcategories, ranking periods, and the page links built from them.
use crate::codec::{ascii_ieq, ascii_ieq_exec};
use crate::text::{
    append_chars, chars_of, decimal_of, decimal_text, digit_char, string_of, trim_chars,
    trim_end_class, CharClass,
};
use percent_encoding::{utf8_percent_encode, NON_ALPHANUMERIC};
use vstd::prelude::*;
use vstd::utf8::encode_utf8;

verus! {

/// The subcategories of doujinshi.
#[derive(Debug, Clone, Copy, PartialEq, Eq, Structural)]
pub enum DoujinshiSub {
    All,
    Zh,
    Ja,
    En,
    Cg,
    Cosplay,
    ThreeD,
    Ai,
}

/// The subcategories of tankoubon.
#[derive(Debug, Clone, Copy, PartialEq, Eq, Structural)]
pub enum TankoubonSub {
    All,
    Zh,
    Ja,
    En,
}

/// The subcategories of short works.
#[derive(Debug, Clone, Copy, PartialEq, Eq, Structural)]
pub enum ShortSub {
    All,
    Zh,
    Ja,
    En,
}

/// The subcategories of webtoons.
#[derive(Debug, Clone, Copy, PartialEq, Eq, Structural)]
pub enum WebtoonSub {
    All,
    Zh,
    Src,
}

/// A category of the site with one of its subcategories.
#[derive(Debug, Clone, Copy, PartialEq, Eq, Structural)]
pub enum Category {
    Doujinshi(DoujinshiSub),
    Tankoubon(TankoubonSub),
    Short(ShortSub),
    Webtoon(WebtoonSub),
}

/// The category named by a category word and a subcategory word, up to ASCII
/// case; an unknown word falls back to the Chinese-translated subcategory,
/// an unknown category to doujinshi.
pub open spec fn category_of(cate: Seq<char>, sub: Seq<char>) -> Category {
    if (ascii_ieq(cate, "同人志"@) || ascii_ieq(cate, "doujinshi"@) || ascii_ieq(cate, "trz"@)) {
        Category::Doujinshi(
            if (ascii_ieq(sub, "全部"@) || ascii_ieq(sub, "all"@) || ascii_ieq(sub, "qb"@)) {
                DoujinshiSub::All
            } else if (ascii_ieq(sub, "汉化"@) || ascii_ieq(sub, "zh"@) || ascii_ieq(sub, "hh"@)) {
                DoujinshiSub::Zh
            } else if (ascii_ieq(sub, "日语"@) || ascii_ieq(sub, "ja"@) || ascii_ieq(sub, "ry"@)) {
                DoujinshiSub::Ja
            } else if (ascii_ieq(sub, "英语"@) || ascii_ieq(sub, "en"@) || ascii_ieq(sub, "yy"@)) {
                DoujinshiSub::En
            } else if (ascii_ieq(sub, "cg"@)) {
                DoujinshiSub::Cg
            } else if (ascii_ieq(sub, "cosplay"@) || ascii_ieq(sub, "cos"@)) {
                DoujinshiSub::Cosplay
            } else if (ascii_ieq(sub, "3d"@)) {
                DoujinshiSub::ThreeD
            } else if (ascii_ieq(sub, "ai"@)) {
                DoujinshiSub::Ai
            } else {
                DoujinshiSub::Zh
            },
        )
    } else if (ascii_ieq(cate, "单行本"@) || ascii_ieq(cate, "tankoubon"@) || ascii_ieq(cate, "dxb"@)) {
        Category::Tankoubon(
            if (ascii_ieq(sub, "全部"@) || ascii_ieq(sub, "all"@) || ascii_ieq(sub, "qb"@)) {
                TankoubonSub::All
            } else if (ascii_ieq(sub, "日语"@) || ascii_ieq(sub, "ja"@) || ascii_ieq(sub, "ry"@)) {
                TankoubonSub::Ja
            } else if (ascii_ieq(sub, "英语"@) || ascii_ieq(sub, "en"@) || ascii_ieq(sub, "yy"@)) {
                TankoubonSub::En
            } else {
                TankoubonSub::Zh
            },
        )
    } else if (ascii_ieq(cate, "短篇"@) || ascii_ieq(cate, "short"@) || ascii_ieq(cate, "sc"@) || ascii_ieq(cate, "dp"@)) {
        Category::Short(
            if (ascii_ieq(sub, "全部"@) || ascii_ieq(sub, "all"@) || ascii_ieq(sub, "qb"@)) {
                ShortSub::All
            } else if (ascii_ieq(sub, "日语"@) || ascii_ieq(sub, "ja"@) || ascii_ieq(sub, "ry"@)) {
                ShortSub::Ja
            } else if (ascii_ieq(sub, "英语"@) || ascii_ieq(sub, "en"@) || ascii_ieq(sub, "yy"@)) {
                ShortSub::En
            } else {
                ShortSub::Zh
            },
        )
    } else if (ascii_ieq(cate, "韩漫"@) || ascii_ieq(cate, "webtoon"@) || ascii_ieq(cate, "kt"@) || ascii_ieq(cate, "hm"@)) {
        Category::Webtoon(
            if (ascii_ieq(sub, "全部"@) || ascii_ieq(sub, "all"@) || ascii_ieq(sub, "qb"@)) {
                WebtoonSub::All
            } else if (ascii_ieq(sub, "生肉"@) || ascii_ieq(sub, "src"@)) {
                WebtoonSub::Src
            } else {
                WebtoonSub::Zh
            },
        )
    } else {
        Category::Doujinshi(DoujinshiSub::Zh)
    }
}

/// The category's name, its subcategory's name, and the site's number for
/// the pair.
pub open spec fn category_names(c: Category) -> (Seq<char>, Seq<char>, Seq<char>) {
    match c {
        Category::Doujinshi(s) => (
            "同人志"@,
            match s {
                DoujinshiSub::All => "全部"@,
                DoujinshiSub::Zh => "汉化"@,
                DoujinshiSub::Ja => "日语"@,
                DoujinshiSub::En => "英语"@,
                DoujinshiSub::Cg => "CG"@,
                DoujinshiSub::Cosplay => "COSPLAY"@,
                DoujinshiSub::ThreeD => "3D"@,
                DoujinshiSub::Ai => "AI"@,
            },
            match s {
                DoujinshiSub::All => "5"@,
                DoujinshiSub::Zh => "1"@,
                DoujinshiSub::Ja => "12"@,
                DoujinshiSub::En => "16"@,
                DoujinshiSub::Cg => "2"@,
                DoujinshiSub::Cosplay => "3"@,
                DoujinshiSub::ThreeD => "22"@,
                DoujinshiSub::Ai => "37"@,
            },
        ),
        Category::Tankoubon(s) => (
            "单行本"@,
            match s {
                TankoubonSub::All => "全部"@,
                TankoubonSub::Zh => "汉化"@,
                TankoubonSub::Ja => "日语"@,
                TankoubonSub::En => "英语"@,
            },
            match s {
                TankoubonSub::All => "6"@,
                TankoubonSub::Zh => "9"@,
                TankoubonSub::Ja => "13"@,
                TankoubonSub::En => "17"@,
            },
        ),
        Category::Short(s) => (
            "短篇"@,
            match s {
                ShortSub::All => "全部"@,
                ShortSub::Zh => "汉化"@,
                ShortSub::Ja => "日语"@,
                ShortSub::En => "英语"@,
            },
            match s {
                ShortSub::All => "7"@,
                ShortSub::Zh => "10"@,
                ShortSub::Ja => "14"@,
                ShortSub::En => "18"@,
            },
        ),
        Category::Webtoon(s) => (
            "韩漫"@,
            match s {
                WebtoonSub::All => "全部"@,
                WebtoonSub::Zh => "汉化"@,
                WebtoonSub::Src => "生肉"@,
            },
            match s {
                WebtoonSub::All => "19"@,
                WebtoonSub::Zh => "20"@,
                WebtoonSub::Src => "12"@,
            },
        ),
    }
}

impl Category {
    /// The category for a category word and a subcategory word.
    pub fn from_str(cate: &str, sub: &str) -> (r: Category)
        ensures
            r == category_of(cate@, sub@),
    {
        let c = chars_of(cate);
        let s = chars_of(sub);
        if (ascii_ieq_exec(&c, "同人志") || ascii_ieq_exec(&c, "doujinshi") || ascii_ieq_exec(&c, "trz")) {
            Category::Doujinshi(
                if (ascii_ieq_exec(&s, "全部") || ascii_ieq_exec(&s, "all") || ascii_ieq_exec(&s, "qb")) {
                    DoujinshiSub::All
                } else if (ascii_ieq_exec(&s, "汉化") || ascii_ieq_exec(&s, "zh") || ascii_ieq_exec(&s, "hh")) {
                    DoujinshiSub::Zh
                } else if (ascii_ieq_exec(&s, "日语") || ascii_ieq_exec(&s, "ja") || ascii_ieq_exec(&s, "ry")) {
                    DoujinshiSub::Ja
                } else if (ascii_ieq_exec(&s, "英语") || ascii_ieq_exec(&s, "en") || ascii_ieq_exec(&s, "yy")) {
                    DoujinshiSub::En
                } else if (ascii_ieq_exec(&s, "cg")) {
                    DoujinshiSub::Cg
                } else if (ascii_ieq_exec(&s, "cosplay") || ascii_ieq_exec(&s, "cos")) {
                    DoujinshiSub::Cosplay
                } else if (ascii_ieq_exec(&s, "3d")) {
                    DoujinshiSub::ThreeD
                } else if (ascii_ieq_exec(&s, "ai")) {
                    DoujinshiSub::Ai
                } else {
                    DoujinshiSub::Zh
                },
            )
        } else if (ascii_ieq_exec(&c, "单行本") || ascii_ieq_exec(&c, "tankoubon") || ascii_ieq_exec(&c, "dxb")) {
            Category::Tankoubon(
                if (ascii_ieq_exec(&s, "全部") || ascii_ieq_exec(&s, "all") || ascii_ieq_exec(&s, "qb")) {
                    TankoubonSub::All
                } else if (ascii_ieq_exec(&s, "日语") || ascii_ieq_exec(&s, "ja") || ascii_ieq_exec(&s, "ry")) {
                    TankoubonSub::Ja
                } else if (ascii_ieq_exec(&s, "英语") || ascii_ieq_exec(&s, "en") || ascii_ieq_exec(&s, "yy")) {
                    TankoubonSub::En
                } else {
                    TankoubonSub::Zh
                },
            )
        } else if (ascii_ieq_exec(&c, "短篇") || ascii_ieq_exec(&c, "short") || ascii_ieq_exec(&c, "sc") || ascii_ieq_exec(&c, "dp")) {
            Category::Short(
                if (ascii_ieq_exec(&s, "全部") || ascii_ieq_exec(&s, "all") || ascii_ieq_exec(&s, "qb")) {
                    ShortSub::All
                } else if (ascii_ieq_exec(&s, "日语") || ascii_ieq_exec(&s, "ja") || ascii_ieq_exec(&s, "ry")) {
                    ShortSub::Ja
                } else if (ascii_ieq_exec(&s, "英语") || ascii_ieq_exec(&s, "en") || ascii_ieq_exec(&s, "yy")) {
                    ShortSub::En
                } else {
                    ShortSub::Zh
                },
            )
        } else if (ascii_ieq_exec(&c, "韩漫") || ascii_ieq_exec(&c, "webtoon") || ascii_ieq_exec(&c, "kt") || ascii_ieq_exec(&c, "hm")) {
            Category::Webtoon(
                if (ascii_ieq_exec(&s, "全部") || ascii_ieq_exec(&s, "all") || ascii_ieq_exec(&s, "qb")) {
                    WebtoonSub::All
                } else if (ascii_ieq_exec(&s, "生肉") || ascii_ieq_exec(&s, "src")) {
                    WebtoonSub::Src
                } else {
                    WebtoonSub::Zh
                },
            )
        } else {
            Category::Doujinshi(DoujinshiSub::Zh)
        }
    }
}

impl Category {
    /// The category's name, its subcategory's name, and the site's number.
    pub fn names(&self) -> (r: (&'static str, &'static str, &'static str))
        ensures
            (r.0@, r.1@, r.2@) == category_names(*self),
    {
        match self {
            Category::Doujinshi(s) => (
                "同人志",
                match s {
                    DoujinshiSub::All => "全部",
                    DoujinshiSub::Zh => "汉化",
                    DoujinshiSub::Ja => "日语",
                    DoujinshiSub::En => "英语",
                    DoujinshiSub::Cg => "CG",
                    DoujinshiSub::Cosplay => "COSPLAY",
                    DoujinshiSub::ThreeD => "3D",
                    DoujinshiSub::Ai => "AI",
                },
                match s {
                    DoujinshiSub::All => "5",
                    DoujinshiSub::Zh => "1",
                    DoujinshiSub::Ja => "12",
                    DoujinshiSub::En => "16",
                    DoujinshiSub::Cg => "2",
                    DoujinshiSub::Cosplay => "3",
                    DoujinshiSub::ThreeD => "22",
                    DoujinshiSub::Ai => "37",
                },
            ),
            Category::Tankoubon(s) => (
                "单行本",
                match s {
                    TankoubonSub::All => "全部",
                    TankoubonSub::Zh => "汉化",
                    TankoubonSub::Ja => "日语",
                    TankoubonSub::En => "英语",
                },
                match s {
                    TankoubonSub::All => "6",
                    TankoubonSub::Zh => "9",
                    TankoubonSub::Ja => "13",
                    TankoubonSub::En => "17",
                },
            ),
            Category::Short(s) => (
                "短篇",
                match s {
                    ShortSub::All => "全部",
                    ShortSub::Zh => "汉化",
                    ShortSub::Ja => "日语",
                    ShortSub::En => "英语",
                },
                match s {
                    ShortSub::All => "7",
                    ShortSub::Zh => "10",
                    ShortSub::Ja => "14",
                    ShortSub::En => "18",
                },
            ),
            Category::Webtoon(s) => (
                "韩漫",
                match s {
                    WebtoonSub::All => "全部",
                    WebtoonSub::Zh => "汉化",
                    WebtoonSub::Src => "生肉",
                },
                match s {
                    WebtoonSub::All => "19",
                    WebtoonSub::Zh => "20",
                    WebtoonSub::Src => "12",
                },
            ),
        }
    }

    /// The title of the category's page, `category-subcategory`, and the
    /// site's number for it.
    pub fn to_cate_info(&self) -> (r: (String, &'static str))
        ensures
            r.0@ == category_names(*self).0 + seq!['-'] + category_names(*self).1,
            r.1@ == category_names(*self).2,
    {
        let (cate, sub, num) = self.names();
        let mut nav = chars_of(cate);
        nav.push('-');
        append_chars(&mut nav, &chars_of(sub));
        (string_of(&nav), num)
    }
}

/// A page link under a site's base link: the base without trailing slashes,
/// then the given parts in order.
pub open spec fn site_url(base_url: Seq<char>, parts: Seq<char>) -> Seq<char> {
    trim_end_class(base_url, CharClass::One('/')) + parts
}

/// The link of a page of a category listing.
pub fn build_cate_url(base_url: &str, cate_num: &str, page: i32) -> (r: String)
    ensures
        r@ == site_url(
            base_url@,
            "/albums-index-page-"@ + decimal_text(page as int) + "-cate-"@ + cate_num@ + ".html"@,
        ),
{
    let mut out = trim_chars(&chars_of(base_url), CharClass::One('/'), false, true);
    append_chars(&mut out, &chars_of("/albums-index-page-"));
    append_chars(&mut out, &decimal_of(page as i64));
    append_chars(&mut out, &chars_of("-cate-"));
    append_chars(&mut out, &chars_of(cate_num));
    append_chars(&mut out, &chars_of(".html"));
    string_of(&out)
}

/// The link of a work's information page.
pub fn build_info_url(base_url: &str, aid: &str) -> (r: String)
    ensures
        r@ == site_url(base_url@, "/photos-index-aid-"@ + aid@ + ".html"@),
{
    let mut out = trim_chars(&chars_of(base_url), CharClass::One('/'), false, true);
    append_chars(&mut out, &chars_of("/photos-index-aid-"));
    append_chars(&mut out, &chars_of(aid));
    append_chars(&mut out, &chars_of(".html"));
    string_of(&out)
}

/// A period of the favourites ranking.
#[derive(Debug, Clone, Copy, PartialEq, Eq, Structural)]
pub enum RankType {
    Day,
    Week,
    Month,
}

/// The word of a ranking period in the site's links.
pub open spec fn rank_name(t: RankType) -> Seq<char> {
    match t {
        RankType::Day => "day"@,
        RankType::Week => "week"@,
        RankType::Month => "month"@,
    }
}

/// The period that a word names, up to ASCII case: the day's ranking for any
/// word it does not know.
pub open spec fn rank_of(s: Seq<char>) -> RankType {
    if ascii_ieq(s, "week"@) || ascii_ieq(s, "w"@) || ascii_ieq(s, "2"@) {
        RankType::Week
    } else if ascii_ieq(s, "month"@) || ascii_ieq(s, "m"@) || ascii_ieq(s, "3"@) {
        RankType::Month
    } else {
        RankType::Day
    }
}

impl RankType {
    /// The word of the period in the site's links.
    pub fn as_str(&self) -> (r: &'static str)
        ensures
            r@ == rank_name(*self),
    {
        match self {
            RankType::Day => "day",
            RankType::Week => "week",
            RankType::Month => "month",
        }
    }

    /// The period that a word names; never none.
    pub fn from_str(s: &str) -> (r: Option<RankType>)
        ensures
            r == Some(rank_of(s@)),
    {
        let c = chars_of(s);
        if ascii_ieq_exec(&c, "week") || ascii_ieq_exec(&c, "w") || ascii_ieq_exec(&c, "2") {
            Some(RankType::Week)
        } else if ascii_ieq_exec(&c, "month") || ascii_ieq_exec(&c, "m") || ascii_ieq_exec(&c, "3") {
            Some(RankType::Month)
        } else {
            Some(RankType::Day)
        }
    }
}

/// The link of a page of the favourites ranking.
pub fn build_ranking_url(base_url: &str, rank_type: RankType, page: i32) -> (r: String)
    ensures
        r@ == site_url(
            base_url@,
            "/albums-favorite_ranking-page-"@ + decimal_text(page as int) + "-type-"@ + rank_name(
                rank_type,
            ) + ".html"@,
        ),
{
    let mut out = trim_chars(&chars_of(base_url), CharClass::One('/'), false, true);
    append_chars(&mut out, &chars_of("/albums-favorite_ranking-page-"));
    append_chars(&mut out, &decimal_of(page as i64));
    append_chars(&mut out, &chars_of("-type-"));
    append_chars(&mut out, &chars_of(rank_type.as_str()));
    append_chars(&mut out, &chars_of(".html"));
    string_of(&out)
}

/// The digit of a four-bit value in upper-case hexadecimal.
pub open spec fn hex_digit(d: int) -> char {
    if d < 10 {
        digit_char(d)
    } else {
        ((55 + d) as u32) as char
    }
}

/// Percent-encoding of bytes: ASCII letters and digits stay, every other byte
/// becomes `%` and two upper-case hexadecimal digits.
pub open spec fn percent_encoded(b: Seq<u8>) -> Seq<char>
    decreases b.len(),
{
    if b.len() == 0 {
        seq![]
    } else {
        let x = b.last();
        percent_encoded(b.drop_last()) + if (48 <= x <= 57) || (65 <= x <= 90) || (97 <= x <= 122) {
            seq![(x as u32) as char]
        } else {
            seq!['%', hex_digit(x as int / 16), hex_digit(x as int % 16)]
        }
    }
}

/// Relies on `percent_encoding::utf8_percent_encode` with `NON_ALPHANUMERIC`:
/// every byte of the UTF-8 text but ASCII letters and digits becomes `%XX`.
#[verifier::external_body]
fn percent_encode(s: &str) -> (r: String)
    ensures
        r@ == percent_encoded(encode_utf8(s@)),
{
    utf8_percent_encode(s, NON_ALPHANUMERIC).to_string()
}

/// The heading of a search listing: the kind of search, then the key.
pub open spec fn search_nav(typ: Seq<char>, key: Seq<char>) -> Seq<char> {
    if typ == "u"@ {
        "用户:"@ + key
    } else if typ == "t"@ {
        "标签:"@ + key
    } else {
        "全部:"@ + key
    }
}

/// The heading of a search listing.
pub fn type_nav(typ: &str, key: &str) -> (r: String)
    ensures
        r@ == search_nav(typ@, key@),
{
    let t = chars_of(typ);
    let head = if t.len() == 1 && t[0] == 'u' {
        proof {
            reveal_strlit("u");
            assert(t@ =~= "u"@);
        }
        "用户:"
    } else if t.len() == 1 && t[0] == 't' {
        proof {
            reveal_strlit("u");
            reveal_strlit("t");
            assert(t@ =~= "t"@);
        }
        "标签:"
    } else {
        proof {
            reveal_strlit("u");
            reveal_strlit("t");
            if t@.len() == 1 {
                assert(t@ != "u"@ && t@ != "t"@) by {
                    assert("u"@[0] == 'u');
                }
            }
        }
        "全部:"
    };
    let mut out = chars_of(head);
    append_chars(&mut out, &chars_of(key));
    string_of(&out)
}

/// The link of a page of search results: by user for type `u`, by tag for
/// type `t`, over everything otherwise; the key percent-encoded.
pub open spec fn search_url(base_url: Seq<char>, key: Seq<char>, typ: Seq<char>, page: int) -> Seq<
    char,
> {
    let k = percent_encoded(encode_utf8(key));
    let p = decimal_text(page);
    if typ == "u"@ {
        site_url(
            base_url,
            "/q/index.php?q="@ + k + "&syn=yes&f=user_nicename&s=create_time_DESC&p="@ + p,
        )
    } else if typ == "t"@ {
        site_url(base_url, "/albums-index-page-"@ + p + "-tag-"@ + k + ".html"@)
    } else {
        site_url(base_url, "/q/index.php?q="@ + k + "&f=_all&syn=yes&s=create_time_DESC&p="@ + p)
    }
}

/// The link of a page of search results.
pub fn build_search_url(base_url: &str, key: &str, typ: &str, page: i32) -> (r: String)
    ensures
        r@ == search_url(base_url@, key@, typ@, page as int),
{
    let k = chars_of(percent_encode(key).as_str());
    let p = decimal_of(page as i64);
    let t = chars_of(typ);
    let mut out = trim_chars(&chars_of(base_url), CharClass::One('/'), false, true);
    proof {
        reveal_strlit("u");
        reveal_strlit("t");
    }
    if t.len() == 1 && t[0] == 'u' {
        assert(t@ =~= "u"@);
        append_chars(&mut out, &chars_of("/q/index.php?q="));
        append_chars(&mut out, &k);
        append_chars(&mut out, &chars_of("&syn=yes&f=user_nicename&s=create_time_DESC&p="));
        append_chars(&mut out, &p);
    } else if t.len() == 1 && t[0] == 't' {
        assert(t@ =~= "t"@);
        append_chars(&mut out, &chars_of("/albums-index-page-"));
        append_chars(&mut out, &p);
        append_chars(&mut out, &chars_of("-tag-"));
        append_chars(&mut out, &k);
        append_chars(&mut out, &chars_of(".html"));
    } else {
        assert(t@ != "u"@ && t@ != "t"@);
        append_chars(&mut out, &chars_of("/q/index.php?q="));
        append_chars(&mut out, &k);
        append_chars(&mut out, &chars_of("&f=_all&syn=yes&s=create_time_DESC&p="));
        append_chars(&mut out, &p);
    }
    string_of(&out)
}

} // verus!
