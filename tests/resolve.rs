use base64::engine::general_purpose::URL_SAFE_NO_PAD;
use base64::Engine;
use mangabot::codec::{encode_command, CommandArg};
use mangabot::command::{should_delete, Command};
use mangabot::resolve::{resolve_command, MAX_DEPTH};

fn wrap(token: &str) -> String {
    URL_SAFE_NO_PAD.encode(format!("start:{}", token))
}

#[test]
fn nested_entry_resolves_to_inner_command() {
    let inner = encode_command("info", &[CommandArg::String("482913".to_string())]).unwrap();
    let outer = wrap(&inner);
    let r = resolve_command(Command::Start(Some(outer)));
    assert_eq!(r, Command::Info("482913".to_string()));
}

#[test]
fn chain_longer_than_bound_stops_at_entry() {
    let mut token = encode_command("info", &[CommandArg::String("1".to_string())]).unwrap();
    for _ in 0..7 {
        token = wrap(&token);
    }
    let r = resolve_command(Command::Start(Some(token)));
    assert_eq!(MAX_DEPTH, 5);
    match r {
        Command::Start(Some(p)) => assert!(!p.is_empty()),
        other => panic!("expected an entry command, got {:?}", other),
    }
}

#[test]
fn undecodable_payload_is_kept() {
    let r = resolve_command(Command::Start(Some("%%%".to_string())));
    assert_eq!(r, Command::Start(Some("%%%".to_string())));
}

#[test]
fn other_commands_pass_through() {
    assert_eq!(resolve_command(Command::Zip(3)), Command::Zip(3));
    assert_eq!(resolve_command(Command::Start(None)), Command::Start(None));
}

#[test]
fn only_later_preview_pages_delete_the_message() {
    assert!(should_delete(&Command::Preview(Some("1".to_string()), Some(2))));
    assert!(!should_delete(&Command::Preview(Some("1".to_string()), Some(1))));
    assert!(!should_delete(&Command::Preview(None, None)));
    assert!(!should_delete(&Command::Zip(2)));
}
