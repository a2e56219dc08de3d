//! The bot's settings.
use vstd::prelude::*;

verus! {

/// All settings of the bot.
#[derive(Debug, Clone)]
pub struct Config {
    pub bot: BotConfig,
    pub server: ServerConfig,
    pub manga: MangaConfig,
}

/// The chat side: the bot's name, its token and its administrators.
#[derive(Debug, Clone)]
pub struct BotConfig {
    pub bot_name: String,
    pub telegram_token: String,
    pub admin_ids: Vec<u64>,
}

/// The server side: web endpoint, timeouts, logging, downloads and cache sizes.
#[derive(Debug, Clone)]
pub struct ServerConfig {
    pub port: u16,
    pub web_host: String,
    pub http_timeout: u64,
    pub download_timeout: u64,
    pub log_level: String,
    pub log_path: String,
    pub download_path: String,
    pub download_concurrency: usize,
    pub cache_download_token_minute_ttl: u64,
    pub cache_download_token_max_size: u64,
    pub cache_search_key_num_minute_ttl: u64,
    pub cache_search_key_num_max_size: u64,
}

/// The site side: its base link, preview size and cache sizes.
#[derive(Debug, Clone)]
pub struct MangaConfig {
    pub base_url: String,
    pub preview_size: u32,
    pub cache_image_minute_ttl: u64,
    pub cache_image_max_size: u64,
    pub cache_info_minute_ttl: u64,
    pub cache_info_max_size: u64,
}

impl Config {
    /// The settings before any configuration file is applied: every setting
    /// at its default.
    pub fn load() -> (r: Config)
        ensures
            r.bot.bot_name@ == "mangars_bot"@,
            r.bot.telegram_token@ == ""@,
            r.bot.admin_ids@.len() == 0,
            r.server.port == 8087,
            r.server.web_host@ == "http://localhost:8087"@,
            r.server.http_timeout == 10,
            r.server.download_timeout == 15,
            r.server.log_level@ == "info"@,
            r.server.log_path@ == "/tmp/mangabot/app.log"@,
            r.server.download_path@ == "/tmp/mangabot/downloads"@,
            r.server.download_concurrency == 5,
            r.server.cache_download_token_minute_ttl == 10,
            r.server.cache_download_token_max_size == 256,
            r.server.cache_search_key_num_minute_ttl == 60,
            r.server.cache_search_key_num_max_size == 1024,
            r.manga.base_url@ == ""@,
            r.manga.preview_size == 10,
            r.manga.cache_image_minute_ttl == 20,
            r.manga.cache_image_max_size == 256,
            r.manga.cache_info_minute_ttl == 20,
            r.manga.cache_info_max_size == 256,
    {
        Config {
            bot: BotConfig {
                bot_name: String::from_str("mangars_bot"),
                telegram_token: String::from_str(""),
                admin_ids: Vec::new(),
            },
            server: ServerConfig {
                port: 8087,
                web_host: String::from_str("http://localhost:8087"),
                http_timeout: 10,
                download_timeout: 15,
                log_level: String::from_str("info"),
                log_path: String::from_str("/tmp/mangabot/app.log"),
                download_path: String::from_str("/tmp/mangabot/downloads"),
                download_concurrency: 5,
                cache_download_token_minute_ttl: 10,
                cache_download_token_max_size: 256,
                cache_search_key_num_minute_ttl: 60,
                cache_search_key_num_max_size: 1024,
            },
            manga: MangaConfig {
                base_url: String::from_str(""),
                preview_size: 10,
                cache_image_minute_ttl: 20,
                cache_image_max_size: 256,
                cache_info_minute_ttl: 20,
                cache_info_max_size: 256,
            },
        }
    }

    /// Whether the user is one of the administrators.
    pub fn is_admin(&self, user_id: u64) -> (r: bool)
        ensures
            r == self.bot.admin_ids@.contains(user_id),
    {
        let mut i: usize = 0;
        while i < self.bot.admin_ids.len()
            invariant
                i <= self.bot.admin_ids@.len(),
                forall|j: int| 0 <= j < i ==> self.bot.admin_ids@[j] != user_id,
            decreases self.bot.admin_ids@.len() - i,
        {
            if self.bot.admin_ids[i] == user_id {
                assert(self.bot.admin_ids@[i as int] == user_id);
                return true;
            }
            i = i + 1;
        }
        assert(!self.bot.admin_ids@.contains(user_id));
        false
    }
}

} // verus!
