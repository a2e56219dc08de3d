use mangabot::config::Config;

#[test]
fn test_config() {
    let config = Config::load();
    assert_eq!(config.server.log_level, "info");
    assert_eq!(config.server.log_path, "/tmp/mangabot/app.log");
    assert_eq!(config.bot.bot_name, "mangars_bot");
}

#[test]
fn test_is_admin() {
    let config = Config::load();
    assert!(!config.is_admin(123456789));
}

#[test]
fn is_admin_finds_listed_user() {
    let mut config = Config::load();
    config.bot.admin_ids = vec![7, 42];
    assert!(config.is_admin(42));
    assert!(!config.is_admin(43));
}
