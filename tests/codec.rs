use base64::engine::general_purpose::URL_SAFE_NO_PAD;
use base64::Engine;
use mangabot::codec::{
    decode_command, encode_command, encode_command_link, parse_arg, CodecError, CommandArg,
    CommandArgsExt, MAX_TOKEN_LEN,
};
use mangabot::command::Command;

fn text(s: &str) -> CommandArg {
    CommandArg::String(s.to_string())
}

fn chars(s: &str) -> Vec<char> {
    s.chars().collect()
}

#[test]
fn test_encode_command() {
    let cmd = encode_command("search", &[text("123456789011"), text("user_nicename"), text("1")])
        .unwrap();
    println!("{:?}", cmd);
    assert_eq!(
        URL_SAFE_NO_PAD.decode(&cmd).unwrap(),
        b"search:123456789011:user_nicename:1".to_vec()
    );
}

#[test]
fn encode_gives_known_token() {
    let t = encode_command("rank", &[text("day"), CommandArg::I32(123)]).unwrap();
    assert_eq!(t, "cmFuazpkYXk6MTIz");
}

#[test]
fn info_scenario_round_trips() {
    let t = encode_command("info", &[text("482913")]).unwrap();
    assert_eq!(decode_command(&t).unwrap(), Command::Info("482913".to_string()));
}

#[test]
fn category_scenario_round_trips() {
    let t = encode_command("category", &[text("trz"), text("zh"), text("2")]).unwrap();
    assert_eq!(
        decode_command(&t).unwrap(),
        Command::Cate(Some("trz".to_string()), Some("zh".to_string()), Some(2))
    );
}

#[test]
fn every_command_round_trips() {
    let cases: Vec<(&str, Vec<CommandArg>, Command)> = vec![
        (
            "rank",
            vec![text("week"), CommandArg::I32(3)],
            Command::Rank(Some("week".to_string()), Some(3)),
        ),
        ("rank", vec![CommandArg::I64(4)], Command::Rank(None, Some(4))),
        (
            "search",
            vec![CommandArg::I64(17), text("t"), CommandArg::I32(2)],
            Command::Search(Some("17".to_string()), Some("t".to_string()), Some(2)),
        ),
        (
            "cate",
            vec![text("dxb"), text("hh")],
            Command::Cate(Some("dxb".to_string()), Some("hh".to_string()), Some(1)),
        ),
        ("info", vec![CommandArg::I64(9)], Command::Info("9".to_string())),
        (
            "preview",
            vec![CommandArg::I64(482913), CommandArg::I32(2)],
            Command::Preview(Some("482913".to_string()), Some(2)),
        ),
        ("preview", vec![], Command::Preview(Some("0".to_string()), Some(1))),
        ("zip", vec![CommandArg::I64(-5)], Command::Zip(-5)),
        ("archive", vec![CommandArg::I64(77)], Command::Zip(77)),
        ("start", vec![text("abc")], Command::Start(Some("abc".to_string()))),
        ("start", vec![], Command::Start(None)),
    ];
    for (name, args, want) in cases {
        let t = encode_command(name, &args).unwrap();
        assert_eq!(decode_command(&t).unwrap(), want, "{}", name);
    }
}

#[test]
fn command_name_ignores_ascii_case() {
    let t = encode_command("INFO", &[text("5")]).unwrap();
    assert_eq!(decode_command(&t).unwrap(), Command::Info("5".to_string()));
}

#[test]
fn unknown_command_is_entry_without_payload() {
    let t = encode_command("nosuch", &[text("x")]).unwrap();
    assert_eq!(decode_command(&t).unwrap(), Command::Start(None));
}

#[test]
fn mistyped_argument_degrades() {
    let t = encode_command("preview", &[text("abc"), text("xyz")]).unwrap();
    assert_eq!(decode_command(&t).unwrap(), Command::Preview(None, None));
    let t = encode_command("zip", &[text("abc")]).unwrap();
    assert_eq!(decode_command(&t).unwrap(), Command::Zip(0));
}

#[test]
fn size_ceiling_is_exact() {
    // 48 bytes of plain text make a 64-character token; 49 bytes are refused.
    let ok = "a".repeat(48 - "info:".len());
    let t = encode_command("info", &[text(&ok)]).unwrap();
    assert_eq!(t.len(), MAX_TOKEN_LEN);
    let long = "a".repeat(49 - "info:".len());
    assert_eq!(encode_command("info", &[text(&long)]), Err(CodecError::TokenTooLong));
}

#[test]
fn oversized_arguments_are_refused() {
    let key = "x".repeat(200);
    assert_eq!(
        encode_command("search", &[text(&key), text("a"), CommandArg::I32(1)]),
        Err(CodecError::TokenTooLong)
    );
}

#[test]
fn malformed_tokens_fail() {
    assert_eq!(decode_command("!!!!"), Err(CodecError::Malformed));
    assert_eq!(decode_command("cmFuaw=="), Err(CodecError::Malformed));
    let not_utf8 = URL_SAFE_NO_PAD.encode([0xffu8, 0xfe]);
    assert_eq!(decode_command(&not_utf8), Err(CodecError::Malformed));
    assert_eq!(decode_command(""), Err(CodecError::EmptyPayload));
}

#[test]
fn arguments_are_typed_in_order() {
    assert_eq!(parse_arg(&chars("42")), CommandArg::I64(42));
    assert_eq!(parse_arg(&chars("-7")), CommandArg::I64(-7));
    assert_eq!(parse_arg(&chars("+8")), CommandArg::I64(8));
    assert_eq!(parse_arg(&chars("1")), CommandArg::I64(1));
    assert_eq!(parse_arg(&chars("TRUE")), CommandArg::Bool(true));
    assert_eq!(parse_arg(&chars("false")), CommandArg::Bool(false));
    assert_eq!(parse_arg(&chars("9223372036854775808")), text("9223372036854775808"));
    assert_eq!(parse_arg(&chars("day")), text("day"));
}

#[test]
fn canonical_texts() {
    assert_eq!(CommandArg::Bool(true).to_text(), chars("1"));
    assert_eq!(CommandArg::Bool(false).to_text(), chars("0"));
    assert_eq!(CommandArg::I64(i64::MIN).to_text(), chars("-9223372036854775808"));
    assert_eq!(CommandArg::I32(-12).to_text(), chars("-12"));
    assert_eq!(text("a b").to_text(), chars("a b"));
}

#[test]
fn typed_getters() {
    let args = vec![text("s"), CommandArg::I64(5), CommandArg::I64(1 << 40), CommandArg::Bool(true)];
    assert_eq!(args.get_string(0), Some("s"));
    assert_eq!(args.get_string(1), None);
    assert_eq!(args.get_i32(1), Some(5));
    assert_eq!(args.get_i32(2), None);
    assert_eq!(args.get_i64(2), Some(1 << 40));
    assert_eq!(args.get_bool(3), Some(true));
    assert_eq!(args.get_bool(9), None);
}

#[test]
fn link_carries_token() {
    let link = encode_command_link("mangars_bot", "rank", &[text("day"), CommandArg::I32(123)]);
    assert_eq!(link, "https://t.me/mangars_bot?start=cmFuazpkYXk6MTIz");
}

#[test]
fn from_conversions() {
    assert_eq!(CommandArg::from(3i32), CommandArg::I32(3));
    assert_eq!(CommandArg::from(3i64), CommandArg::I64(3));
    assert_eq!(CommandArg::from(true), CommandArg::Bool(true));
    assert_eq!(CommandArg::from("k".to_string()), text("k"));
}
