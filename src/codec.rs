//! Commands and their positional arguments, packed into short URL-safe tokens
//! and read back from them.
//!
//! A token holds no version field: the format described here is version 1,
//! the only one, and a reader takes every token as that version.
use crate::b64::{
    b64_decode, b64_encode, b64_text, lemma_b64_injective, lemma_b64_len, utf8_decode,
};
use crate::command::{Command, CommandModel};
use crate::text::{
    chars_of, decimal_of, decimal_text, i32_of, i64_of, lemma_decimal_round_trip, parse_i32, parse_i64,
    string_of,
};
use vstd::prelude::*;
use vstd::utf8::*;

verus! {

broadcast use vstd::string::group_string_axioms;

/// The longest token that the chat platform carries in a start link or a
/// button.
pub const MAX_TOKEN_LEN: usize = 64;

/// A positional argument of a command.
#[derive(Debug, Clone, PartialEq)]
pub enum CommandArg {
    String(String),
    I32(i32),
    I64(i64),
    Bool(bool),
}

/// What an argument holds, with its text as a sequence of characters.
pub enum ArgValue {
    Text(Seq<char>),
    I32(i32),
    I64(i64),
    Bool(bool),
}

impl View for CommandArg {
    type V = ArgValue;

    open spec fn view(&self) -> ArgValue {
        match self {
            CommandArg::String(s) => ArgValue::Text(s@),
            CommandArg::I32(v) => ArgValue::I32(*v),
            CommandArg::I64(v) => ArgValue::I64(*v),
            CommandArg::Bool(b) => ArgValue::Bool(*b),
        }
    }
}

/// What each argument holds.
pub open spec fn arg_values(args: Seq<CommandArg>) -> Seq<ArgValue> {
    args.map_values(|a: CommandArg| a@)
}

/// The canonical text of an argument: integers in decimal, `true` as `1` and
/// `false` as `0`, text as it is.
pub open spec fn arg_text(a: ArgValue) -> Seq<char> {
    match a {
        ArgValue::Text(s) => s,
        ArgValue::I32(v) => decimal_text(v as int),
        ArgValue::I64(v) => decimal_text(v as int),
        ArgValue::Bool(b) => if b {
            seq!['1']
        } else {
            seq!['0']
        },
    }
}

/// Whether `c` is `l` up to ASCII case, for a lower-case letter `l`.
pub open spec fn char_ieq(c: char, l: char) -> bool {
    c == l || ('A' <= c <= 'Z' && c as int + 32 == l as int)
}

/// Whether `s` equals the lower-case ASCII word `w` up to ASCII case.
pub open spec fn ascii_ieq(s: Seq<char>, w: Seq<char>) -> bool {
    s.len() == w.len() && forall|i: int| 0 <= i < s.len() ==> char_ieq(#[trigger] s[i], w[i])
}

/// How the text of an argument is typed when a token is read: an integer if
/// it parses as one, else a boolean literal, else text.
pub open spec fn arg_of_text(s: Seq<char>) -> ArgValue {
    match i64_of(s) {
        Some(v) => ArgValue::I64(v),
        None => if s == seq!['1'] || ascii_ieq(s, "true"@) {
            ArgValue::Bool(true)
        } else if s == seq!['0'] || ascii_ieq(s, "false"@) {
            ArgValue::Bool(false)
        } else {
            ArgValue::Text(s)
        },
    }
}

/// The text argument at `i`, where there is one.
pub open spec fn arg_get_text(args: Seq<ArgValue>, i: int) -> Option<Seq<char>> {
    if 0 <= i < args.len() {
        match args[i] {
            ArgValue::Text(s) => Some(s),
            _ => None,
        }
    } else {
        None
    }
}

/// The integer argument at `i`, where it fits an `i32`.
pub open spec fn arg_get_i32(args: Seq<ArgValue>, i: int) -> Option<i32> {
    if 0 <= i < args.len() {
        match args[i] {
            ArgValue::I32(v) => Some(v),
            ArgValue::I64(v) => if i32::MIN <= v <= i32::MAX {
                Some(v as i32)
            } else {
                None
            },
            _ => None,
        }
    } else {
        None
    }
}

/// The integer argument at `i`.
pub open spec fn arg_get_i64(args: Seq<ArgValue>, i: int) -> Option<i64> {
    if 0 <= i < args.len() {
        match args[i] {
            ArgValue::I64(v) => Some(v),
            ArgValue::I32(v) => Some(v as i64),
            _ => None,
        }
    } else {
        None
    }
}

/// The boolean argument at `i`.
pub open spec fn arg_get_bool(args: Seq<ArgValue>, i: int) -> Option<bool> {
    if 0 <= i < args.len() {
        match args[i] {
            ArgValue::Bool(b) => Some(b),
            _ => None,
        }
    } else {
        None
    }
}

/// Typed access to the arguments of a decoded command.
pub trait CommandArgsExt {
    spec fn arg_seq(&self) -> Seq<ArgValue>;

    fn get_string(&self, index: usize) -> (r: Option<&str>)
        ensures
            r is Some <==> arg_get_text(self.arg_seq(), index as int) is Some,
            r matches Some(s) ==> s@ == arg_get_text(self.arg_seq(), index as int)->0,
    ;

    fn get_i32(&self, index: usize) -> (r: Option<i32>)
        ensures
            r == arg_get_i32(self.arg_seq(), index as int),
    ;

    fn get_i64(&self, index: usize) -> (r: Option<i64>)
        ensures
            r == arg_get_i64(self.arg_seq(), index as int),
    ;

    fn get_bool(&self, index: usize) -> (r: Option<bool>)
        ensures
            r == arg_get_bool(self.arg_seq(), index as int),
    ;
}

impl CommandArgsExt for Vec<CommandArg> {
    open spec fn arg_seq(&self) -> Seq<ArgValue> {
        arg_values(self@)
    }

    fn get_string(&self, index: usize) -> (r: Option<&str>) {
        if index < self.len() {
            match &self[index] {
                CommandArg::String(s) => Some(s.as_str()),
                _ => None,
            }
        } else {
            None
        }
    }

    fn get_i32(&self, index: usize) -> (r: Option<i32>) {
        if index < self.len() {
            match &self[index] {
                CommandArg::I32(v) => Some(*v),
                CommandArg::I64(v) => if *v >= -2147483648 && *v <= 2147483647 {
                    Some(*v as i32)
                } else {
                    None
                },
                _ => None,
            }
        } else {
            None
        }
    }

    fn get_i64(&self, index: usize) -> (r: Option<i64>) {
        if index < self.len() {
            match &self[index] {
                CommandArg::I64(v) => Some(*v),
                CommandArg::I32(v) => Some(*v as i64),
                _ => None,
            }
        } else {
            None
        }
    }

    fn get_bool(&self, index: usize) -> (r: Option<bool>) {
        if index < self.len() {
            match &self[index] {
                CommandArg::Bool(b) => Some(*b),
                _ => None,
            }
        } else {
            None
        }
    }
}

impl CommandArg {
    /// The canonical text of the argument.
    pub fn to_text(&self) -> (r: Vec<char>)
        ensures
            r@ == arg_text(self@),
    {
        match self {
            CommandArg::String(s) => chars_of(s.as_str()),
            CommandArg::I32(v) => decimal_of(*v as i64),
            CommandArg::I64(v) => decimal_of(*v),
            CommandArg::Bool(b) => {
                let mut r: Vec<char> = Vec::new();
                r.push(if *b {
                    '1'
                } else {
                    '0'
                });
                assert(r@ =~= arg_text(self@));
                r
            },
        }
    }
}

impl From<String> for CommandArg {
    fn from(s: String) -> (r: CommandArg) {
        CommandArg::String(s)
    }
}

impl vstd::std_specs::convert::FromSpecImpl<String> for CommandArg {
    open spec fn obeys_from_spec() -> bool {
        true
    }

    open spec fn from_spec(s: String) -> CommandArg {
        CommandArg::String(s)
    }
}

impl From<i32> for CommandArg {
    fn from(v: i32) -> (r: CommandArg) {
        CommandArg::I32(v)
    }
}

impl vstd::std_specs::convert::FromSpecImpl<i32> for CommandArg {
    open spec fn obeys_from_spec() -> bool {
        true
    }

    open spec fn from_spec(v: i32) -> CommandArg {
        CommandArg::I32(v)
    }
}

impl From<i64> for CommandArg {
    fn from(v: i64) -> (r: CommandArg) {
        CommandArg::I64(v)
    }
}

impl vstd::std_specs::convert::FromSpecImpl<i64> for CommandArg {
    open spec fn obeys_from_spec() -> bool {
        true
    }

    open spec fn from_spec(v: i64) -> CommandArg {
        CommandArg::I64(v)
    }
}

impl From<bool> for CommandArg {
    fn from(v: bool) -> (r: CommandArg) {
        CommandArg::Bool(v)
    }
}

impl vstd::std_specs::convert::FromSpecImpl<bool> for CommandArg {
    open spec fn obeys_from_spec() -> bool {
        true
    }

    open spec fn from_spec(v: bool) -> CommandArg {
        CommandArg::Bool(v)
    }
}

/// The fields of a text between its `:` delimiters; a text without a
/// delimiter is one field.
pub open spec fn split_colon(s: Seq<char>) -> Seq<Seq<char>>
    decreases s.len(),
{
    if s.len() == 0 {
        seq![seq![]]
    } else {
        let rest = split_colon(s.drop_last());
        if s.last() == ':' {
            rest.push(seq![])
        } else {
            rest.update(rest.len() - 1, rest.last().push(s.last()))
        }
    }
}

/// The command name and the argument texts, joined with `:`.
pub open spec fn join_colon(name: Seq<char>, texts: Seq<Seq<char>>) -> Seq<char>
    decreases texts.len(),
{
    if texts.len() == 0 {
        name
    } else {
        join_colon(name, texts.drop_last()) + seq![':'] + texts.last()
    }
}

/// Whether a text holds no `:` delimiter.
pub open spec fn no_colon(s: Seq<char>) -> bool {
    forall|i: int| 0 <= i < s.len() ==> #[trigger] s[i] != ':'
}

/// The canonical texts of the arguments.
pub open spec fn arg_texts(args: Seq<ArgValue>) -> Seq<Seq<char>> {
    args.map_values(|a: ArgValue| arg_text(a))
}

/// The plain text that a token carries for a command and its arguments.
pub open spec fn plain_of(name: Seq<char>, args: Seq<ArgValue>) -> Seq<char> {
    join_colon(name, arg_texts(args))
}

/// The token for a command and its arguments, however long it is.
pub open spec fn token_of(name: Seq<char>, args: Seq<ArgValue>) -> Seq<char> {
    b64_text(encode_utf8(plain_of(name, args)))
}

/// The plain text inside a token, where the token is well formed.
pub open spec fn plain_of_token(t: Seq<char>) -> Option<Seq<char>> {
    if exists|b: Seq<u8>| b64_text(b) == t {
        let b = choose|b: Seq<u8>| b64_text(b) == t;
        if valid_utf8(b) {
            Some(decode_utf8(b))
        } else {
            None
        }
    } else {
        None
    }
}

/// The field at `i`, where there is one.
pub open spec fn field_opt(parts: Seq<Seq<char>>, i: int) -> Option<Seq<char>> {
    if parts.len() > i {
        Some(parts[i])
    } else {
        None
    }
}

/// A page field: its number where it parses, page 1 where it is absent.
pub open spec fn field_page(parts: Seq<Seq<char>>, i: int) -> Option<i32> {
    if parts.len() > i {
        i32_of(parts[i])
    } else {
        Some(1)
    }
}

/// The ranking command for typed arguments: a leading number is the page, a leading text the
/// period followed by the page.
pub open spec fn rank_model(args: Seq<ArgValue>) -> CommandModel {
    if args.len() > 0 {
        match args[0] {
            ArgValue::I32(pg) => CommandModel::Rank(None, Some(pg)),
            ArgValue::I64(pg) => CommandModel::Rank(
                None,
                if i32::MIN <= pg <= i32::MAX {
                    Some(pg as i32)
                } else {
                    None
                },
            ),
            ArgValue::Text(p) => CommandModel::Rank(Some(p), arg_get_i32(args, 1)),
            ArgValue::Bool(_) => CommandModel::Rank(None, None),
        }
    } else {
        CommandModel::Rank(None, None)
    }
}

/// The preview command for typed arguments: id 0 and page 1 where absent, nothing where
/// mistyped.
pub open spec fn preview_model(args: Seq<ArgValue>) -> CommandModel {
    let aid = if args.len() > 0 {
        arg_get_i64(args, 0)
    } else {
        Some(0i64)
    };
    let page = if args.len() > 1 {
        arg_get_i32(args, 1)
    } else {
        Some(1i32)
    };
    CommandModel::Preview(
        match aid {
            Some(v) => Some(decimal_text(v as int)),
            None => None,
        },
        page,
    )
}

/// The command that the fields of a token stand for: the first field names
/// it (up to ASCII case), the others fill its parameters in order. An unknown
/// name gives the entry command without payload.
pub open spec fn command_of_fields(parts: Seq<Seq<char>>) -> CommandModel {
    let name = parts[0];
    let args = parts.skip(1).map_values(|t: Seq<char>| arg_of_text(t));
    if ascii_ieq(name, "rank"@) {
        rank_model(args)
    } else if ascii_ieq(name, "search"@) || ascii_ieq(name, "csearch"@) {
        CommandModel::Search(field_opt(parts, 1), field_opt(parts, 2), field_page(parts, 3))
    } else if ascii_ieq(name, "info"@) {
        CommandModel::Info(
            if parts.len() > 1 {
                parts[1]
            } else {
                seq![]
            },
        )
    } else if ascii_ieq(name, "preview"@) {
        preview_model(args)
    } else if ascii_ieq(name, "zip"@) || ascii_ieq(name, "archive"@) {
        CommandModel::Zip(
            if parts.len() > 1 && i64_of(parts[1]) is Some {
                i64_of(parts[1])->0
            } else {
                0
            },
        )
    } else if ascii_ieq(name, "cate"@) || ascii_ieq(name, "category"@) {
        CommandModel::Cate(field_opt(parts, 1), field_opt(parts, 2), field_page(parts, 3))
    } else if ascii_ieq(name, "start"@) || ascii_ieq(name, "entry"@) {
        CommandModel::Start(
            if parts.len() > 1 && parts[1].len() > 0 {
                Some(parts[1])
            } else {
                None
            },
        )
    } else {
        CommandModel::Start(None)
    }
}

/// Why a token could not be made or read.
#[derive(Debug, Clone, Copy, PartialEq, Eq, Structural)]
pub enum CodecError {
    /// The token would be longer than `MAX_TOKEN_LEN`.
    TokenTooLong,
    /// The token is not base64 of UTF-8 text.
    Malformed,
    /// The token carries no text at all.
    EmptyPayload,
}

/// What `decode_command` gives for a token.
pub open spec fn decode_result(t: Seq<char>) -> Result<CommandModel, CodecError> {
    match plain_of_token(t) {
        None => Err(CodecError::Malformed),
        Some(p) => if p.len() == 0 {
            Err(CodecError::EmptyPayload)
        } else {
            Ok(command_of_fields(split_colon(p)))
        },
    }
}

proof fn lemma_split_len(s: Seq<char>)
    ensures
        split_colon(s).len() >= 1,
    decreases s.len(),
{
    if s.len() > 0 {
        lemma_split_len(s.drop_last());
    }
}

proof fn lemma_split_append_plain(s: Seq<char>, t: Seq<char>)
    requires
        no_colon(t),
    ensures
        split_colon(s + t) == split_colon(s).update(
            split_colon(s).len() - 1,
            split_colon(s).last() + t,
        ),
    decreases t.len(),
{
    lemma_split_len(s);
    let r = split_colon(s);
    if t.len() == 0 {
        assert(s + t =~= s);
        assert(r.last() + t =~= r.last());
        assert(r.update(r.len() - 1, r.last()) =~= r);
    } else {
        let u = t.drop_last();
        assert(no_colon(u));
        lemma_split_append_plain(s, u);
        assert((s + t).drop_last() =~= s + u);
        assert((s + t).last() == t.last());
        assert(t.last() != ':');
        let r2 = split_colon(s + u);
        assert(r2.last() == r.last() + u);
        assert((r.last() + u).push(t.last()) =~= r.last() + t);
        assert(r2.update(r2.len() - 1, r2.last().push(t.last())) =~= r.update(
            r.len() - 1,
            r.last() + t,
        ));
    }
}

/// Splitting the joined text gives back the name and the argument texts,
/// where none of them holds the delimiter.
pub proof fn lemma_split_join(name: Seq<char>, texts: Seq<Seq<char>>)
    requires
        no_colon(name),
        forall|i: int| 0 <= i < texts.len() ==> no_colon(#[trigger] texts[i]),
    ensures
        split_colon(join_colon(name, texts)) == seq![name] + texts,
    decreases texts.len(),
{
    if texts.len() == 0 {
        lemma_split_append_plain(seq![], name);
        assert(Seq::<char>::empty() + name =~= name);
        assert(Seq::<char>::empty() + name =~= name);
        assert(seq![name] + texts =~= seq![name]);
        assert(split_colon(Seq::<char>::empty()).update(0, Seq::<char>::empty() + name) =~= seq![name]);
    } else {
        let init = texts.drop_last();
        assert forall|i: int| 0 <= i < init.len() implies no_colon(#[trigger] init[i]) by {
            assert(init[i] == texts[i]);
        }
        lemma_split_join(name, init);
        let j = join_colon(name, init);
        let jc = j + seq![':'];
        assert(jc.drop_last() =~= j);
        assert(split_colon(jc) == (seq![name] + init).push(seq![]));
        assert(no_colon(texts.last())) by {
            assert(texts.last() == texts[texts.len() - 1]);
        }
        lemma_split_append_plain(jc, texts.last());
        let r = split_colon(jc);
        assert(r.update(r.len() - 1, r.last() + texts.last()) =~= seq![name] + texts) by {
            assert(Seq::<char>::empty() + texts.last() =~= texts.last());
        }
    }
}

/// Each integer argument comes back as the same number; the others come back
/// as their text typed afresh.
pub proof fn lemma_arg_of_text_integer(a: ArgValue)
    ensures
        a matches ArgValue::I64(v) ==> arg_of_text(arg_text(a)) == ArgValue::I64(v),
        a matches ArgValue::I32(v) ==> arg_of_text(arg_text(a)) == ArgValue::I64(v as i64),
        no_colon(arg_text(a)) || a is Text,
{
    match a {
        ArgValue::I64(v) => {
            lemma_decimal_round_trip(v as int);
        },
        ArgValue::I32(v) => {
            lemma_decimal_round_trip(v as int);
        },
        ArgValue::Bool(b) => {},
        ArgValue::Text(_) => {},
    }
}

/// Round trip: the token made for a command name and its arguments reads back
/// as the command that those fields stand for, each argument typed from its
/// canonical text, where neither the name nor any argument text holds the
/// delimiter.
pub proof fn lemma_round_trip(name: Seq<char>, args: Seq<ArgValue>)
    requires
        name.len() > 0,
        no_colon(name),
        forall|i: int| 0 <= i < args.len() ==> no_colon(#[trigger] arg_text(args[i])),
    ensures
        plain_of_token(token_of(name, args)) == Some(plain_of(name, args)),
        split_colon(plain_of(name, args)) == seq![name] + arg_texts(args),
        decode_result(token_of(name, args)) == Ok::<CommandModel, CodecError>(
            command_of_fields(seq![name] + arg_texts(args)),
        ),
{
    let p = plain_of(name, args);
    let texts = arg_texts(args);
    assert forall|i: int| 0 <= i < texts.len() implies no_colon(#[trigger] texts[i]) by {
        assert(texts[i] == arg_text(args[i]));
    }
    lemma_split_join(name, texts);
    let b = encode_utf8(p);
    let t = b64_text(b);
    assert(exists|c: Seq<u8>| b64_text(c) == t);
    let c = choose|c: Seq<u8>| b64_text(c) == t;
    lemma_b64_injective(c, b);
    encode_utf8_valid_utf8(p);
    encode_utf8_decode_utf8(p);
    lemma_join_len(name, texts);
}

proof fn lemma_join_len(name: Seq<char>, texts: Seq<Seq<char>>)
    ensures
        join_colon(name, texts).len() >= name.len(),
    decreases texts.len(),
{
    if texts.len() > 0 {
        lemma_join_len(name, texts.drop_last());
    }
}

/// The fields of a text between its `:` delimiters.
fn split_fields(s: &[char]) -> (r: Vec<Vec<char>>)
    ensures
        r@.map_values(|v: Vec<char>| v@) == split_colon(s@),
        r@.len() >= 1,
{
    let mut parts: Vec<Vec<char>> = Vec::new();
    let mut cur: Vec<char> = Vec::new();
    let mut i: usize = 0;
    while i < s.len()
        invariant
            i <= s@.len(),
            parts@.map_values(|v: Vec<char>| v@).push(cur@) == split_colon(s@.subrange(0, i as int)),
        decreases s@.len() - i,
    {
        let c = s[i];
        let ghost before = parts@.map_values(|v: Vec<char>| v@).push(cur@);
        assert(s@.subrange(0, i + 1).drop_last() =~= s@.subrange(0, i as int));
        if c == ':' {
            let done = cur;
            parts.push(done);
            cur = Vec::new();
            assert(parts@.map_values(|v: Vec<char>| v@).push(cur@) =~= before.push(seq![]));
        } else {
            cur.push(c);
            assert(parts@.map_values(|v: Vec<char>| v@).push(cur@) =~= before.update(
                before.len() - 1,
                before.last().push(c),
            ));
        }
        i = i + 1;
    }
    assert(s@.subrange(0, s@.len() as int) =~= s@);
    let ghost before = parts@.map_values(|v: Vec<char>| v@).push(cur@);
    parts.push(cur);
    assert(parts@.map_values(|v: Vec<char>| v@) =~= before);
    parts
}

/// Whether `s` is the lower-case ASCII word `w` up to ASCII case.
pub(crate) fn ascii_ieq_exec(s: &[char], w: &str) -> (r: bool)
    ensures
        r == ascii_ieq(s@, w@),
{
    let n = w.unicode_len();
    if s.len() != n {
        return false;
    }
    let mut i: usize = 0;
    while i < n
        invariant
            n == w@.len(),
            n == s@.len(),
            i <= n,
            forall|j: int| 0 <= j < i ==> char_ieq(#[trigger] s@[j], w@[j]),
        decreases n - i,
    {
        let c = s[i];
        let l = w.get_char(i);
        if !(c == l || ('A' <= c && c <= 'Z' && (c as u32) + 32 == l as u32)) {
            return false;
        }
        i = i + 1;
    }
    true
}

/// Types the text of an argument: an integer if it parses as one, else a
/// boolean literal, else text.
pub fn parse_arg(s: &[char]) -> (r: CommandArg)
    ensures
        r@ == arg_of_text(s@),
{
    if let Some(v) = parse_i64(s) {
        return CommandArg::I64(v);
    }
    let one = s.len() == 1 && s[0] == '1';
    let zero = s.len() == 1 && s[0] == '0';
    proof {
        if s@.len() == 1 {
            assert(s@ =~= seq![s@[0]]);
        }
    }
    if one || ascii_ieq_exec(s, "true") {
        CommandArg::Bool(true)
    } else if zero || ascii_ieq_exec(s, "false") {
        CommandArg::Bool(false)
    } else {
        CommandArg::String(string_of(s))
    }
}

/// Packs a command and its arguments into a token: their canonical texts
/// joined with `:`, as URL-safe base64 of the UTF-8 bytes, without padding.
/// Fails, and never cuts the token short, where it would be longer than
/// `MAX_TOKEN_LEN`.
pub fn encode_command(command: &str, args: &[CommandArg]) -> (r: Result<String, CodecError>)
    ensures
        r is Ok <==> token_of(command@, arg_values(args@)).len() <= MAX_TOKEN_LEN,
        r matches Ok(t) ==> t@ == token_of(command@, arg_values(args@)),
        r is Err ==> r == Err::<String, CodecError>(CodecError::TokenTooLong),
{
    let ghost vals = arg_values(args@);
    let mut plain = chars_of(command);
    let mut i: usize = 0;
    while i < args.len()
        invariant
            i <= args@.len(),
            vals == arg_values(args@),
            plain@ == join_colon(command@, arg_texts(vals.subrange(0, i as int))),
        decreases args@.len() - i,
    {
        let t = args[i].to_text();
        plain.push(':');
        let mut j: usize = 0;
        let ghost base = plain@;
        while j < t.len()
            invariant
                j <= t@.len(),
                plain@ == base + t@.subrange(0, j as int),
            decreases t@.len() - j,
        {
            plain.push(t[j]);
            j = j + 1;
            assert(plain@ =~= base + t@.subrange(0, j as int));
        }
        assert(t@.subrange(0, t@.len() as int) =~= t@);
        let ghost texts = arg_texts(vals.subrange(0, i + 1));
        assert(texts.drop_last() =~= arg_texts(vals.subrange(0, i as int)));
        assert(texts.last() == arg_text(args@[i as int]@));
        i = i + 1;
    }
    assert(vals.subrange(0, args@.len() as int) =~= vals);
    let text = string_of(&plain);
    let bytes = text.as_str().as_bytes();
    let token = b64_encode(bytes);
    proof {
        lemma_b64_len(encode_utf8(plain@));
    }
    if token.as_str().unicode_len() > MAX_TOKEN_LEN {
        Err(CodecError::TokenTooLong)
    } else {
        Ok(token)
    }
}

/// Reads a token back into a command. Fails only where the token is not
/// base64 of UTF-8 text, or carries no text; an unknown command name gives
/// the entry command without payload, and a missing or mistyped argument
/// leaves its parameter empty or at its default.
pub fn decode_command(payload: &str) -> (r: Result<Command, CodecError>)
    ensures
        r matches Ok(c) ==> decode_result(payload@) == Ok::<CommandModel, CodecError>(c@),
        r matches Err(e) ==> decode_result(payload@) == Err::<CommandModel, CodecError>(e),
{
    let bytes = match b64_decode(payload) {
        Some(b) => b,
        None => return Err(CodecError::Malformed),
    };
    let ghost b = bytes@;
    proof {
        let c = choose|c: Seq<u8>| b64_text(c) == payload@;
        lemma_b64_injective(c, b);
    }
    let text = match utf8_decode(bytes) {
        Some(t) => t,
        None => return Err(CodecError::Malformed),
    };
    let plain = chars_of(text.as_str());
    if plain.len() == 0 {
        return Err(CodecError::EmptyPayload);
    }
    let parts = split_fields(&plain);
    let ghost fields = split_colon(plain@);
    assert(parts@[0]@ == fields[0]);
    let mut args: Vec<CommandArg> = Vec::new();
    let mut i: usize = 1;
    while i < parts.len()
        invariant
            1 <= i <= parts@.len(),
            parts@.map_values(|v: Vec<char>| v@) == fields,
            arg_values(args@) == fields.subrange(1, i as int).map_values(
                |t: Seq<char>| arg_of_text(t),
            ),
        decreases parts@.len() - i,
    {
        let a = parse_arg(&parts[i]);
        assert(parts@[i as int]@ == fields[i as int]);
        let ghost old_args = args@;
        args.push(a);
        assert(args@ =~= old_args.push(a));
        assert(arg_values(args@) =~= arg_values(old_args).push(a@));
        assert(fields.subrange(1, i + 1) =~= fields.subrange(1, i as int).push(fields[i as int]));
        i = i + 1;
        assert(arg_values(args@) =~= fields.subrange(1, i as int).map_values(
            |t: Seq<char>| arg_of_text(t),
        ));
    }
    let ghost av = fields.skip(1).map_values(|t: Seq<char>| arg_of_text(t));
    assert(fields.subrange(1, parts@.len() as int) =~= fields.skip(1));
    assert(args.arg_seq() == av);
    let name: &[char] = parts[0].as_slice();
    let n = parts.len();
    let cmd = if ascii_ieq_exec(name, "rank") {
        if args.len() > 0 {
            match &args[0] {
                CommandArg::I32(pg) => Command::Rank(None, Some(*pg)),
                CommandArg::I64(pg) => Command::Rank(None, args.get_i32(0)),
                CommandArg::String(p) => Command::Rank(Some(p.clone()), args.get_i32(1)),
                CommandArg::Bool(_) => Command::Rank(None, None),
            }
        } else {
            Command::Rank(None, None)
        }
    } else if ascii_ieq_exec(name, "search") || ascii_ieq_exec(name, "csearch") {
        Command::Search(field_string(&parts, 1), field_string(&parts, 2), field_page_exec(&parts, 3))
    } else if ascii_ieq_exec(name, "info") {
        Command::Info(
            if n > 1 {
                string_of(&parts[1])
            } else {
                String::new()
            },
        )
    } else if ascii_ieq_exec(name, "preview") {
        let aid = if args.len() > 0 {
            args.get_i64(0)
        } else {
            Some(0)
        };
        let page = if args.len() > 1 {
            args.get_i32(1)
        } else {
            Some(1)
        };
        Command::Preview(
            match aid {
                Some(v) => Some(string_of(&decimal_of(v))),
                None => None,
            },
            page,
        )
    } else if ascii_ieq_exec(name, "zip") || ascii_ieq_exec(name, "archive") {
        Command::Zip(
            if n > 1 {
                match parse_i64(&parts[1]) {
                    Some(v) => v,
                    None => 0,
                }
            } else {
                0
            },
        )
    } else if ascii_ieq_exec(name, "cate") || ascii_ieq_exec(name, "category") {
        Command::Cate(field_string(&parts, 1), field_string(&parts, 2), field_page_exec(&parts, 3))
    } else if ascii_ieq_exec(name, "start") || ascii_ieq_exec(name, "entry") {
        Command::Start(
            if n > 1 && parts[1].len() > 0 {
                Some(string_of(&parts[1]))
            } else {
                None
            },
        )
    } else {
        Command::Start(None)
    };
    Ok(cmd)
}

fn field_string(parts: &Vec<Vec<char>>, i: usize) -> (r: Option<String>)
    ensures
        crate::command::opt_view(r) == field_opt(parts@.map_values(|v: Vec<char>| v@), i as int),
{
    if i < parts.len() {
        Some(string_of(&parts[i]))
    } else {
        None
    }
}

fn field_page_exec(parts: &Vec<Vec<char>>, i: usize) -> (r: Option<i32>)
    ensures
        r == field_page(parts@.map_values(|v: Vec<char>| v@), i as int),
{
    if i < parts.len() {
        parse_i32(&parts[i])
    } else {
        Some(1)
    }
}

/// A start link that opens the bot with the token of a command.
pub fn encode_command_link(bot_name: &str, command: &str, args: &[CommandArg]) -> (r: String)
    requires
        token_of(command@, arg_values(args@)).len() <= MAX_TOKEN_LEN,
    ensures
        r@ == "https://t.me/"@ + bot_name@ + "?start="@ + token_of(command@, arg_values(args@)),
{
    let data = match encode_command(command, args) {
        Ok(t) => t,
        Err(_) => String::new(),
    };
    let mut r = String::from_str("https://t.me/");
    r.append(bot_name);
    r.append("?start=");
    r.append(data.as_str());
    r
}

/// A token fits the ceiling exactly when the UTF-8 plain text it carries has
/// at most 48 bytes: `encode_command` refuses every longer text.
pub proof fn lemma_size_ceiling(name: Seq<char>, args: Seq<ArgValue>)
    ensures
        token_of(name, args).len() <= MAX_TOKEN_LEN <==> encode_utf8(plain_of(name, args)).len()
            <= 48,
{
    lemma_b64_len(encode_utf8(plain_of(name, args)));
}

} // verus!
