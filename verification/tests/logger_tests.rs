use ani_tui::logger::{chrono_now, log_file_name, sanitize_for_log, sanitize_url_for_log, Logger};

#[test]
fn controls_are_dropped_and_tabs_kept() {
    assert_eq!(sanitize_for_log("a\nb\rc\td\u{1b}[31m", 100), "abc\td[31m");
    assert_eq!(sanitize_for_log("x\u{85}y\u{7f}", 100), "xy");
}

#[test]
fn long_text_is_cut() {
    assert_eq!(sanitize_for_log("abcdefghij", 4), "abcd...[truncado]");
    assert_eq!(sanitize_for_log("abcd", 4), "abcd");
    // the cut falls back to the last character boundary
    assert_eq!(sanitize_for_log("ñx", 1), "...[truncado]");
    assert_eq!(sanitize_for_log("añbc", 2), "a...[truncado]");
    assert_eq!(sanitize_for_log("añbc", 3), "añ...[truncado]");
}

#[test]
fn sensitive_urls_are_redacted() {
    assert_eq!(
        sanitize_url_for_log("https://mega.nz/file/abc#key"),
        "https://mega.nz[...redactado por seguridad]"
    );
    assert_eq!(
        sanitize_url_for_log("http://pixeldrain.com/u/xyz"),
        "http://pixeldrain.com[...redactado por seguridad]"
    );
    assert_eq!(sanitize_url_for_log("https://animeav1.com/x"), "https://animeav1.com/x");
    let long = format!("https://example.com/{}", "a".repeat(200));
    assert_eq!(sanitize_url_for_log(&long), format!("{}...[truncado]", &long[..150]));
}

#[test]
fn time_stamps() {
    assert_eq!(chrono_now(0), "1970-01-01 00:00:00");
    assert_eq!(chrono_now(86_400 * 31 + 3_661), "1970-02-02 01:01:01");
    assert_eq!(chrono_now(86_400 * 364), "1970-12-05 00:00:00");
    assert_eq!(chrono_now(86_400 * 365 + 59), "1971-01-01 00:00:59");
}

#[test]
fn null_logger_writes_nothing() {
    let l = Logger::null();
    assert!(l.log_path().is_none());
    assert!(l.info("m", "x", "t").is_none());
    assert!(l.net("GET", "https://a", "200", "t").is_none());
}

#[test]
fn log_lines() {
    let l = Logger::open("/tmp/a.log".to_string(), "2024-05-06 07:08:09");
    assert_eq!(l.log_path().map(|p| p.as_str()), Some("/tmp/a.log"));
    let w = l.info("tui", "hola", "T").unwrap();
    assert_eq!(w.path, "/tmp/a.log");
    assert_eq!(w.text, "[T] INFO  [tui] hola");
    assert_eq!(l.warn("m", "w", "T").unwrap().text, "[T] WARN  [m] w");
    assert_eq!(l.error("m", "e", "T").unwrap().text, "[T] ERROR [m] e");
    assert_eq!(l.security("m", "s", "T").unwrap().text, "[T] SEC   [m] s");
    assert_eq!(
        l.cmd("mpv", &["--fs", "https://x\ny"], "ok", "T").unwrap().text,
        "[T] CMD   [EXEC] $ mpv --fs https://xy → ok"
    );
    assert_eq!(
        l.net("GET", "https://mega.nz/f", "200", "T").unwrap().text,
        "[T] NET   [HTTP] GET https://mega.nz[...redactado por seguridad] → 200"
    );
}

#[test]
fn session_banner_and_file_name() {
    let l = Logger::open("/tmp/a.log".to_string(), "2024-05-06 07:08:09");
    let w = l.session_header().unwrap();
    assert!(w.text.contains("Nueva sesión: 2024-05-06T07-08-09  ║"));
    assert_eq!(log_file_name("2024-05-06 07:08:09"), "ani-tui-2024-05-06.log");
}

#[test]
fn a_message_cannot_forge_a_line() {
    let l = Logger::open("/tmp/a.log".to_string(), "2024-05-06 07:08:09");
    let w = l.security("sec", "bad\n[2025-01-01 00:00:00] INFO  [x] forged", "T").unwrap();
    assert_eq!(w.text, "[T] SEC   [sec] bad[2025-01-01 00:00:00] INFO  [x] forged");
    assert!(!w.text.contains('\n'));
    let url = format!("https://example.com/{}é", "a".repeat(129));
    let n = l.net("GET", &url, "200", "T").unwrap();
    assert_eq!(n.text, format!("[T] NET   [HTTP] GET https://example.com/{}...[truncado] → 200", "a".repeat(129)));
}
