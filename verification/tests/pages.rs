use cdp_server::discovery::{
    chrome_major_version, parse_listen_address, web_socket_debugger_url, ListenAddress,
};
use cdp_server::navigatorinfo::{
    AppCodeName, AppName, AppVersion, Language, OperatingSystem, Platform, Product, ProductSub,
    TaintEnabled, UserAgent, Vendor, VendorSub,
};
use cdp_server::servolog::{
    allowed, escape, fallback, log_line, page_html, page_of_log, rotated_line, Level, LevelFilter,
    LogSize, LogSource, MAX_LOG_FILE_BYTES, TAIL_BYTES,
};

#[test]
fn chromium_versions() {
    assert_eq!(chrome_major_version("Mozilla/5.0 Chrome/141.0.7390.54 Safari/537.36"), "141");
    assert_eq!(chrome_major_version("Mozilla/5.0 Gecko/20100101"), "0");
    assert_eq!(chrome_major_version("Chrome/"), "");
    assert_eq!(chrome_major_version("Chrome/12"), "12");
    assert_eq!(chrome_major_version("Chrome/12Chrome/13.0"), "12");
    assert_eq!(chrome_major_version("é Chrome/7.1"), "7");
    assert_eq!(chrome_major_version("Mozilla/5.0 Chrome/120 Safari/537.36"), "120");
    assert_eq!(chrome_major_version("Chrome/beta.5"), "beta");
    assert_eq!(chrome_major_version("Chrome/12a.0"), "12a");
    assert_eq!(chrome_major_version("Chrome/x.1 Chrome/8"), "x");
}

#[test]
fn listen_addresses() {
    assert_eq!(parse_listen_address("", false), ListenAddress::Local(9222));
    assert_eq!(parse_listen_address("127.0.0.1:80", true), ListenAddress::AsGiven);
    assert_eq!(parse_listen_address("1234", false), ListenAddress::Local(1234));
    assert_eq!(parse_listen_address("+1234", false), ListenAddress::Local(1234));
    assert_eq!(parse_listen_address("0065535", false), ListenAddress::Local(65535));
    assert_eq!(parse_listen_address("65536", false), ListenAddress::Local(9222));
    assert_eq!(parse_listen_address("+", false), ListenAddress::Local(9222));
    assert_eq!(parse_listen_address("-1", false), ListenAddress::Local(9222));
    assert_eq!(parse_listen_address("localhost", false), ListenAddress::Local(9222));
}

#[test]
fn debugger_urls() {
    assert_eq!(
        web_socket_debugger_url("127.0.0.1:9222", "abc"),
        "ws://127.0.0.1:9222/devtools/browser/abc"
    );
}

#[test]
fn navigator_values() {
    assert_eq!(Product(), "Gecko");
    assert_eq!(ProductSub(), "20030107");
    assert_eq!(Vendor(), "Google Inc.");
    assert_eq!(VendorSub(), "");
    assert!(!TaintEnabled());
    assert_eq!(AppName(), "Netscape");
    assert_eq!(AppCodeName(), "Mozilla");
    assert_eq!(Platform(OperatingSystem::Windows), "Win32");
    assert_eq!(Platform(OperatingSystem::Android), "Linux armv8l");
    assert_eq!(Platform(OperatingSystem::Linux), "Linux x86_64");
    assert_eq!(Platform(OperatingSystem::FreeBsd), "Linux x86_64");
    assert_eq!(Platform(OperatingSystem::MacOs), "MacIntel");
    assert_eq!(Platform(OperatingSystem::Ios), "iPhone");
    assert_eq!(UserAgent("ua"), "ua");
    assert_eq!(Language("en-US"), "en-US");
}

#[test]
fn app_version_completes_to_user_agent() {
    assert_eq!(AppVersion("Mozilla/5.0 (X11)"), "5.0 (X11)");
    assert_eq!(AppVersion("Mozilla/"), "");
    assert_eq!(AppVersion("Opera/9"), "Opera/9");
    assert_eq!(AppVersion("mozilla/5.0"), "mozilla/5.0");
}

#[test]
fn log_filters() {
    let filters = [
        ("servo".to_owned(), LevelFilter::Info),
        ("servo::net".to_owned(), LevelFilter::Trace),
        ("noisy".to_owned(), LevelFilter::Off),
    ];
    assert!(allowed(&filters, "servo::layout", Level::Info));
    assert!(!allowed(&filters, "servo::layout", Level::Debug));
    assert!(allowed(&filters, "servo::net", Level::Trace));
    assert!(!allowed(&filters, "noisy", Level::Error));
    assert!(!allowed(&filters, "other", Level::Error));
    assert!(!allowed(&[], "servo", Level::Error));
}

#[test]
fn log_lines() {
    assert_eq!(log_line("    1.500", Level::Warn, "t", "m"), "[    1.500] WARN  [t] m\n");
    assert_eq!(log_line("0", Level::Error, "t", "m"), "[0] ERROR [t] m\n");
    assert_eq!(log_line("0", Level::Info, "", ""), "[0] INFO  [] \n");
    assert_eq!(log_line("0", Level::Debug, "a", "b"), "[0] DEBUG [a] b\n");
    assert_eq!(log_line("0", Level::Trace, "a", "b"), "[0] TRACE [a] b\n");
    assert_eq!(rotated_line("    2.000"), "[    2.000] LOG ROTATED\n");
}

#[test]
fn the_log_restarts_when_it_is_full() {
    let notice = rotated_line("    1.000");
    let mut log = LogSize::new();
    assert!(!log.count_line("é\n", &notice));
    assert_eq!(log.size, 3);
    log.size = MAX_LOG_FILE_BYTES - 1;
    assert!(!log.count_line("x", &notice));
    assert_eq!(log.size, MAX_LOG_FILE_BYTES);
    assert!(!log.count_line("", &notice));
    assert!(log.count_line("x", &notice));
    assert_eq!(log.size, notice.len() as u64 + 1);
    log.size = MAX_LOG_FILE_BYTES - 1;
    assert!(log.count_line("é", &notice));
    assert_eq!(log.size, notice.len() as u64 + 2);
    log.take_back("é");
    assert_eq!(log.size, notice.len() as u64);
    log.take_back(&notice);
    assert_eq!(log.size, 0);
}

#[test]
fn escaped_text_has_no_markup() {
    assert_eq!(escape("<a & b>"), "&lt;a &amp; b&gt;");
    assert_eq!(escape("&lt;"), "&amp;lt;");
    assert_eq!(escape(""), "");
}

#[test]
fn the_log_page_says_why_there_is_no_log() {
    assert!(fallback("<x>").ends_with("margin:12px\">&lt;x&gt;</body></html>"));
    assert_eq!(
        page_html(&LogSource::NoPath),
        fallback("The log file path was not initialized.")
    );
    assert_eq!(
        page_html(&LogSource::Unreadable("/a&b".to_owned())),
        fallback("Could not read /a&b.")
    );
}

#[test]
fn the_log_page_shows_the_newest_line_first() {
    let page = page_html(&LogSource::Contents(b"one\r\ntwo <\nthree".to_vec()));
    assert!(page.starts_with("<!doctype html><html><head><meta charset=\"utf-8\">"));
    assert!(page.contains("<meta http-equiv=\"refresh\" content=\"3\">"));
    assert!(page.ends_with("margin:8px\">three\ntwo &lt;\none\n</body></html>"));
}

#[test]
fn the_log_page_shows_the_tail() {
    let mut bytes = b"old\n".to_vec();
    bytes.extend(vec![b'x'; TAIL_BYTES - 4]);
    bytes.extend_from_slice(b"\nnew");
    let page = page_html(&LogSource::Contents(bytes));
    assert!(page.contains("margin:8px\">new\n"));
    assert!(!page.contains("old"));
    let page = page_html(&LogSource::Contents(vec![0xFF, b'a']));
    assert!(page.contains("\u{FFFD}a\n"));
}

#[test]
fn the_log_page_is_that_of_its_text() {
    let page = page_of_log("a\r\nb<\n");
    assert!(page.ends_with("margin:8px\">b&lt;\na\n</body></html>"));
    assert_eq!(page, page_html(&LogSource::Contents(b"a\r\nb<\n".to_vec())));
}
