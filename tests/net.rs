use mangabot::net::{
    download_file_path, download_retry, fetch_allowed, resolve_url, same_host, RetryStep,
};

#[test]
fn hosts_compared() {
    assert!(same_host("https://a.example/x", "http://a.example/"));
    assert!(!same_host("https://b.example/x", "https://a.example/"));
    assert!(!same_host("not a url", "https://a.example/"));
    assert!(fetch_allowed("https://b.example/x", ""));
    assert!(!fetch_allowed("https://b.example/x", "https://a.example"));
    assert!(fetch_allowed("https://a.example/page", "https://a.example"));
}

#[test]
fn links_made_absolute() {
    assert_eq!(resolve_url("http://x.example/a.jpg", "https://a.example"), "http://x.example/a.jpg");
    assert_eq!(resolve_url("////img.example/a.jpg", ""), "https://img.example/a.jpg");
    assert_eq!(resolve_url("//img.example/a.jpg", ""), "https://img.example/a.jpg");
    assert_eq!(resolve_url("/p/a.jpg", ""), "/p/a.jpg");
    assert_eq!(resolve_url("/p/a.jpg", "https://a.example/x/y"), "https://a.example/p/a.jpg");
    assert_eq!(resolve_url("b.jpg", "https://a.example/x/y"), "https://a.example/x/b.jpg");
    assert_eq!(resolve_url("b.jpg", "no base"), "b.jpg");
}

#[test]
fn retries_then_gives_up() {
    assert_eq!(download_retry(1, true), RetryStep::Proceed);
    assert_eq!(download_retry(1, false), RetryStep::Wait(100));
    assert_eq!(download_retry(2, false), RetryStep::Wait(200));
    assert_eq!(download_retry(3, false), RetryStep::GiveUp);
}

#[test]
fn download_paths() {
    assert_eq!(download_file_path("/tmp/d", "https://a.example/p/0001.webp"), "/tmp/d/0001.webp");
    assert_eq!(download_file_path("/tmp/d", "https://a.example/p/"), "/tmp/d/file");
    assert_eq!(download_file_path("d", "a*b"), "d/a_b");
}
