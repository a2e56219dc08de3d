use mangabot::codec::{CodecError, CommandArg};
use mangabot::listing::{clamp_page, listing_heading, listing_message, page_buttons, rank_heading};

#[test]
fn pages_are_clamped() {
    assert_eq!(clamp_page(None), 1);
    assert_eq!(clamp_page(Some(0)), 1);
    assert_eq!(clamp_page(Some(5)), 5);
    assert_eq!(clamp_page(Some(5000)), 1000);
}

#[test]
fn headings() {
    assert_eq!(listing_heading("同人志-汉化", 2, 3), "*同人志\\-汉化*   🌏2 📄3");
    assert_eq!(rank_heading("day", 1, 0), "*排行榜* \\(`day`\\) 🌏1 📄0");
}

#[test]
fn message_lists_at_most_twenty() {
    let items: Vec<String> = (0..25).map(|i| format!("item{}", i)).collect();
    let m = listing_message("head", &items);
    assert_eq!(m.lines().count(), 21);
    assert!(m.starts_with("head\nitem0\n"));
    assert!(m.ends_with("\nitem19"));
    assert_eq!(listing_message("head", &[]), "head");
}

#[test]
fn previous_and_next_buttons() {
    let prefix = vec![CommandArg::String("trz".to_string()), CommandArg::String("zh".to_string())];
    let b = page_buttons("cate", &prefix, 2).unwrap();
    assert_eq!(b.len(), 2);
    assert_eq!(b[0].label, "⬅️上一页");
    assert_eq!(b[0].token, "Y2F0ZTp0cno6emg6MQ");
    assert_eq!(b[1].label, "下一页➡️");
    assert_eq!(b[1].token, "Y2F0ZTp0cno6emg6Mw");
    let b = page_buttons("rank", &[CommandArg::String("week".to_string())], 1).unwrap();
    assert_eq!(b.len(), 1);
    assert_eq!(b[0].token, "cmFuazp3ZWVrOjI");
}

#[test]
fn long_button_arguments_fail() {
    let prefix = vec![CommandArg::String("k".repeat(60))];
    assert!(matches!(page_buttons("cate", &prefix, 1), Err(CodecError::TokenTooLong)));
}
