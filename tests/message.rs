use mangabot::keystore::KeyStore;
use mangabot::message::{build_detail_msg, format_manga_item, format_rank_item, info_link, search_link};
use mangabot::models::{MangaDetail, MangaInfo};

fn info(id: i64) -> MangaInfo {
    MangaInfo {
        id,
        rank: 3,
        title: "A_B".to_string(),
        cover: "https://c.example/x.jpg".to_string(),
        author: "bob".to_string(),
        total: -1,
        fav: 7,
        published: "2024-01-02".to_string(),
    }
}

#[test]
fn links() {
    assert_eq!(info_link("bot", 42), "https://t.me/bot?start=aW5mbzo0Mg");
    assert_eq!(search_link("bot", 1, true), "https://t.me/bot?start=Y3NlYXJjaDoxOnU6MQ");
    assert_eq!(search_link("bot", 2, false), "https://t.me/bot?start=Y3NlYXJjaDoyOnQ6MQ");
}

#[test]
fn listing_line() {
    assert_eq!(
        format_manga_item(&info(42), "bot"),
        "* [A\\_B](https://c.example/x.jpg) / 📄0 / 📢2024\\-01\\-02 / 👉[42](https://t.me/bot?start=aW5mbzo0Mg) "
    );
}

#[test]
fn ranking_line_compacts_author() {
    let mut store = KeyStore::new(10, 10);
    assert_eq!(
        format_rank_item(&mut store, &info(42), "bot"),
        "*\\#3* [A\\_B](https://c.example/x.jpg) / 📄0 / ⭐7 / 👤[bob](https://t.me/bot?start=Y3NlYXJjaDoxOnU6MQ) / 👉[42](https://t.me/bot?start=aW5mbzo0Mg) "
    );
    assert_eq!(store.id_to_key(1), Some("bob".to_string()));
}

#[test]
fn detail_message_links_tags() {
    let mut store = KeyStore::new(10, 10);
    let m = MangaDetail {
        id: 42,
        title: "T".to_string(),
        cover: "c".to_string(),
        author: "bob".to_string(),
        total: 12,
        category: "x.y".to_string(),
        tags: vec!["t1".to_string(), "t2".to_string()],
        description: "d!".to_string(),
    };
    assert_eq!(
        build_detail_msg(&mut store, &m, "bot"),
        "*[T](c)*\n\n👤 *Author:* [bob](https://t.me/bot?start=Y3NlYXJjaDoxOnU6MQ)\n📚 *Category:* `x\\.y`\n🏷 *Tags:* [\\#t1](https://t.me/bot?start=Y3NlYXJjaDoyOnQ6MQ) [\\#t2](https://t.me/bot?start=Y3NlYXJjaDozOnQ6MQ)\n📄 *Size:* `12`\n\nd\\!"
    );
}
