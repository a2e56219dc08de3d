use mangabot::catalog::{
    build_cate_url, build_info_url, build_ranking_url, build_search_url, type_nav, Category,
    DoujinshiSub, RankType, ShortSub, TankoubonSub, WebtoonSub,
};

#[test]
fn categories_from_words() {
    assert_eq!(Category::from_str("trz", "zh"), Category::Doujinshi(DoujinshiSub::Zh));
    assert_eq!(Category::from_str("同人志", "全部"), Category::Doujinshi(DoujinshiSub::All));
    assert_eq!(Category::from_str("TRZ", "COS"), Category::Doujinshi(DoujinshiSub::Cosplay));
    assert_eq!(Category::from_str("dxb", "ja"), Category::Tankoubon(TankoubonSub::Ja));
    assert_eq!(Category::from_str("dp", "yy"), Category::Short(ShortSub::En));
    assert_eq!(Category::from_str("hm", "src"), Category::Webtoon(WebtoonSub::Src));
    assert_eq!(Category::from_str("hm", "???"), Category::Webtoon(WebtoonSub::Zh));
    assert_eq!(Category::from_str("nosuch", "all"), Category::Doujinshi(DoujinshiSub::Zh));
}

#[test]
fn category_info() {
    assert_eq!(
        Category::Doujinshi(DoujinshiSub::Ai).to_cate_info(),
        ("同人志-AI".to_string(), "37")
    );
    assert_eq!(Category::Webtoon(WebtoonSub::Src).to_cate_info(), ("韩漫-生肉".to_string(), "12"));
}

#[test]
fn page_links() {
    assert_eq!(build_cate_url("https://s.example/", "1", 3), "https://s.example/albums-index-page-3-cate-1.html");
    assert_eq!(build_info_url("https://s.example", "42"), "https://s.example/photos-index-aid-42.html");
    assert_eq!(
        build_ranking_url("https://s.example/", RankType::Week, 2),
        "https://s.example/albums-favorite_ranking-page-2-type-week.html"
    );
}

#[test]
fn rank_words() {
    assert_eq!(RankType::from_str("W"), Some(RankType::Week));
    assert_eq!(RankType::from_str("3"), Some(RankType::Month));
    assert_eq!(RankType::from_str("whatever"), Some(RankType::Day));
    assert_eq!(RankType::Month.as_str(), "month");
}

#[test]
fn search_links_and_headings() {
    assert_eq!(
        build_search_url("https://s.example/", "a b", "u", 1),
        "https://s.example/q/index.php?q=a%20b&syn=yes&f=user_nicename&s=create_time_DESC&p=1"
    );
    assert_eq!(
        build_search_url("https://s.example", "标签", "t", 2),
        "https://s.example/albums-index-page-2-tag-%E6%A0%87%E7%AD%BE.html"
    );
    assert_eq!(
        build_search_url("https://s.example", "x", "a", 5),
        "https://s.example/q/index.php?q=x&f=_all&syn=yes&s=create_time_DESC&p=5"
    );
    assert_eq!(type_nav("u", "bob"), "用户:bob");
    assert_eq!(type_nav("t", "cat"), "标签:cat");
    assert_eq!(type_nav("", "all"), "全部:all");
}
