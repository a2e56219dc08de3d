//! The bot's commands, as typed by users and as carried by tokens.
use crate::text::{
    chars_of, i32_of, is_whitespace, is_ws, parse_i32, string_of, trim_chars, trim_class, CharClass,
};
use vstd::prelude::*;

verus! {

/// A command of the bot with its positional parameters.
#[allow(non_camel_case_types)]
#[derive(Debug, Clone, PartialEq)]
pub enum Command {
    /// The entry command; its payload may be a token for another command.
    Start(Option<String>),
    /// key, type, page
    Search(Option<String>, Option<String>, Option<i32>),
    /// period, page
    Rank(Option<String>, Option<i32>),
    /// category, subcategory, page
    Cate(Option<String>, Option<String>, Option<i32>),
    /// id
    Info(String),
    /// id, page
    Preview(Option<String>, Option<i32>),
    /// id
    Zip(i64),
    Menu_Rank,
    Menu_Cate_TRZ,
    Menu_Cate_DXB,
    Menu_Cate_DP,
    Menu_Cate_HM,
}

/// A command with its texts as sequences of characters.
pub enum CommandModel {
    Start(Option<Seq<char>>),
    Search(Option<Seq<char>>, Option<Seq<char>>, Option<i32>),
    Rank(Option<Seq<char>>, Option<i32>),
    Cate(Option<Seq<char>>, Option<Seq<char>>, Option<i32>),
    Info(Seq<char>),
    Preview(Option<Seq<char>>, Option<i32>),
    Zip(i64),
    MenuRank,
    MenuCateTrz,
    MenuCateDxb,
    MenuCateDp,
    MenuCateHm,
}

/// An optional text as an optional sequence of characters.
pub open spec fn opt_view(o: Option<String>) -> Option<Seq<char>> {
    match o {
        Some(s) => Some(s@),
        None => None,
    }
}

impl View for Command {
    type V = CommandModel;

    open spec fn view(&self) -> CommandModel {
        match self {
            Command::Start(p) => CommandModel::Start(opt_view(*p)),
            Command::Search(k, t, p) => CommandModel::Search(opt_view(*k), opt_view(*t), *p),
            Command::Rank(k, p) => CommandModel::Rank(opt_view(*k), *p),
            Command::Cate(c, s, p) => CommandModel::Cate(opt_view(*c), opt_view(*s), *p),
            Command::Info(i) => CommandModel::Info(i@),
            Command::Preview(i, p) => CommandModel::Preview(opt_view(*i), *p),
            Command::Zip(i) => CommandModel::Zip(*i),
            Command::Menu_Rank => CommandModel::MenuRank,
            Command::Menu_Cate_TRZ => CommandModel::MenuCateTrz,
            Command::Menu_Cate_DXB => CommandModel::MenuCateDxb,
            Command::Menu_Cate_DP => CommandModel::MenuCateDp,
            Command::Menu_Cate_HM => CommandModel::MenuCateHm,
        }
    }
}

/// The words of a text: its longest runs of non-whitespace characters, as
/// `str::split_whitespace` gives them.
pub open spec fn words(s: Seq<char>) -> Seq<Seq<char>>
    decreases s.len(),
{
    if s.len() == 0 {
        seq![]
    } else {
        let w = words(s.drop_last());
        let c = s.last();
        if is_ws(c) {
            w
        } else if s.len() > 1 && !is_ws(s[s.len() - 2]) {
            w.update(w.len() - 1, w.last().push(c))
        } else {
            w.push(seq![c])
        }
    }
}

/// The first `max` words of a text.
fn first_words(s: &str, max: usize) -> (r: Vec<Vec<char>>)
    ensures
        r@.len() == if words(s@).len() < max {
            words(s@).len()
        } else {
            max as nat
        },
        forall|i: int| 0 <= i < r@.len() ==> #[trigger] r@[i]@ == words(s@)[i],
{
    let cs = chars_of(s);
    let mut done: Vec<Vec<char>> = Vec::new();
    let mut cur: Vec<char> = Vec::new();
    let mut i: usize = 0;
    while i < cs.len()
        invariant
            cs@ == s@,
            i <= cs@.len(),
            (i > 0 && !is_ws(cs@[i - 1])) ==> cur@.len() > 0 && words(cs@.subrange(0, i as int))
                == done@.map_values(|v: Vec<char>| v@).push(cur@),
            !(i > 0 && !is_ws(cs@[i - 1])) ==> cur@.len() == 0 && words(cs@.subrange(0, i as int))
                == done@.map_values(|v: Vec<char>| v@),
        decreases cs@.len() - i,
    {
        let c = cs[i];
        let ghost pre = cs@.subrange(0, i as int);
        let ghost w = words(pre);
        assert(cs@.subrange(0, i + 1).drop_last() =~= pre);
        if is_whitespace(c) {
            if cur.len() > 0 {
                let word = cur;
                done.push(word);
                cur = Vec::new();
                assert(done@.map_values(|v: Vec<char>| v@) =~= w);
            }
        } else {
            let ghost was = i > 0 && !is_ws(cs@[i - 1]);
            cur.push(c);
            proof {
                if was {
                    assert(done@.map_values(|v: Vec<char>| v@).push(cur@) =~= w.update(
                        w.len() - 1,
                        w.last().push(c),
                    ));
                } else {
                    assert(cur@ =~= seq![c]);
                    assert(done@.map_values(|v: Vec<char>| v@).push(cur@) =~= w.push(seq![c]));
                }
            }
        }
        i = i + 1;
    }
    assert(cs@.subrange(0, cs@.len() as int) =~= s@);
    if cur.len() > 0 {
        let ghost before = done@.map_values(|v: Vec<char>| v@).push(cur@);
        done.push(cur);
        assert(done@.map_values(|v: Vec<char>| v@) =~= before);
    }
    let ghost all = done@.map_values(|v: Vec<char>| v@);
    assert(all == words(s@));
    assert(forall|j: int| 0 <= j < done@.len() ==> #[trigger] done@[j]@ == all[j]);
    if done.len() > max {
        done.truncate(max);
    }
    done
}

/// The word at `i`, where there is one.
pub open spec fn word_opt(w: Seq<Seq<char>>, i: int) -> Option<Seq<char>> {
    if w.len() > i {
        Some(w[i])
    } else {
        None
    }
}

/// Reads `/rank`-style arguments, a period then a page: a lone number is
/// taken as the page.
pub open spec fn period_page(s: Seq<char>) -> (Option<Seq<char>>, Option<i32>) {
    let w = words(s);
    let period = word_opt(w, 0);
    let page = if w.len() > 1 {
        i32_of(w[1])
    } else {
        None
    };
    if w.len() > 0 && page is None && i32_of(w[0]) is Some {
        (None, i32_of(w[0]))
    } else {
        (period, page)
    }
}

/// Reads `/rank`-style arguments.
pub fn parse_string_i32(s: &str) -> (r: (Option<String>, Option<i32>))
    ensures
        opt_view(r.0) == period_page(s@).0,
        r.1 == period_page(s@).1,
{
    let w = first_words(s, 2);
    let page = if w.len() > 1 {
        parse_i32(&w[1])
    } else {
        None
    };
    if w.len() > 0 {
        let first = parse_i32(&w[0]);
        if page.is_none() && first.is_some() {
            return (None, first);
        }
        (Some(string_of(&w[0])), page)
    } else {
        (None, page)
    }
}

/// Reads `/cate`-style arguments: two words, then a page.
pub fn parse_string_string_i32(s: &str) -> (r: (Option<String>, Option<String>, Option<i32>))
    ensures
        opt_view(r.0) == word_opt(words(s@), 0),
        opt_view(r.1) == word_opt(words(s@), 1),
        r.2 == (if words(s@).len() > 2 {
            i32_of(words(s@)[2])
        } else {
            None
        }),
{
    let w = first_words(s, 3);
    let a = if w.len() > 0 {
        Some(string_of(&w[0]))
    } else {
        None
    };
    let b = if w.len() > 1 {
        Some(string_of(&w[1]))
    } else {
        None
    };
    let page = if w.len() > 2 {
        parse_i32(&w[2])
    } else {
        None
    };
    (a, b, page)
}

/// Reads the payload of `/start`: the text without surrounding whitespace,
/// none where nothing is left.
pub fn parse_start_payload(s: &str) -> (r: Option<String>)
    ensures
        opt_view(r) == (if trim_class(s@, CharClass::Whitespace).len() == 0 {
            None
        } else {
            Some(trim_class(s@, CharClass::Whitespace))
        }),
{
    let t = trim_chars(&chars_of(s), CharClass::Whitespace, true, true);
    if t.len() == 0 {
        None
    } else {
        Some(string_of(&t))
    }
}

/// Whether the message that held a pressed button is deleted once its
/// command has run: only when a preview moves past its first page.
pub fn should_delete(cmd: &Command) -> (r: bool)
    ensures
        r == (cmd@ matches CommandModel::Preview(_, Some(page)) && page > 1),
{
    match cmd {
        Command::Preview(_, Some(page)) => *page > 1,
        _ => false,
    }
}

} // verus!
