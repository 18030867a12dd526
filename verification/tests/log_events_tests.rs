use ani_tui::logger::{LogEvent, Logger};
use ani_tui::resolver::{mp4upload_log, resolution_log, EmbedPage};
use ani_tui::security::{query_rejection_log, slug_rejection_log};

fn parts(e: &LogEvent) -> (&str, &str, &str) {
    match e {
        LogEvent::Info { module, message } => ("INFO", module, message),
        LogEvent::Warn { module, message } => ("WARN", module, message),
        LogEvent::Error { module, message } => ("ERROR", module, message),
        LogEvent::Security { module, message } => ("SEC", module, message),
        LogEvent::Net { method, url, .. } => ("NET", method, url),
    }
}

#[test]
fn resolution_records_the_request_and_its_outcome() {
    let v = resolution_log("HLS", "https://zilla-networks.com/play/0123456789abcdef0123456789abcdef");
    assert_eq!(v.len(), 2);
    assert_eq!(
        parts(&v[0]),
        ("INFO", "resolver", "Resolviendo servidor=HLS url=https://zilla-networks.com/play/0123456789abcdef0123456789ab")
    );
    assert_eq!(parts(&v[1]), ("INFO", "resolver::zilla", "URL m3u8 resuelta para ID 01234567 — tipo: HLS"));

    let v = resolution_log("HLS", "https://x/m3u8/abc");
    assert_eq!(parts(&v[1]), ("INFO", "resolver::zilla", "URL ya es m3u8 directo"));
    let v = resolution_log("HLS", "https://x/other");
    assert_eq!(parts(&v[1]), ("WARN", "resolver::zilla", "No se pudo extraer ID de la URL del player: https://x/other"));
}

#[test]
fn resolution_cuts_the_url_and_refuses_schemes() {
    let long = format!("https://example.com/{}", "é".repeat(30));
    let v = resolution_log("Mega", &long);
    // 20 bytes of prefix, then 20 two-byte characters fit in 60 bytes.
    assert_eq!(parts(&v[0]).2, format!("Resolviendo servidor=Mega url=https://example.com/{}", "é".repeat(20)));
    assert_eq!(parts(&v[1]), ("INFO", "resolver", "Servidor 'Mega' sin resolución directa → navegador"));

    let v = resolution_log("HLS", "javascript:alert(1)");
    assert_eq!(v.len(), 2);
    assert_eq!(parts(&v[1]), ("SEC", "resolver", "URL rechazada: no es http/https — servidor=HLS"));
}

#[test]
fn pixeldrain_and_mp4upload_requests_are_recorded() {
    let v = resolution_log("PDrain", "https://pixeldrain.com/u/abc123");
    assert_eq!(parts(&v[1]), ("INFO", "resolver::pixeldrain", "URL directa resuelta para ID abc123"));
    let v = resolution_log("PDrain", "https://pixeldrain.com/u/abcdefghijklmnopqrstuvwxyz");
    assert_eq!(parts(&v[1]), ("SEC", "resolver::pixeldrain", "File ID rechazado: formato inválido (abcdefghij)"));
    let v = resolution_log("PDrain", "https://pixeldrain.com/x");
    assert_eq!(parts(&v[1]), ("WARN", "resolver::pixeldrain", "No se pudo extraer file ID"));
    let v = resolution_log("MP4Upload", "https://www.mp4upload.com/embed-x.html");
    assert_eq!(parts(&v[1]), ("NET", "GET", "https://www.mp4upload.com/embed-x.html"));
    let v = resolution_log("MP4Upload", "https://otro.com/x");
    assert_eq!(parts(&v[1]), ("SEC", "resolver::mp4upload", "URL rechazada: no es de mp4upload.com (https://otro.com/x)"));
}

#[test]
fn mp4upload_outcomes_are_recorded() {
    let e = mp4upload_log(&EmbedPage::ClientError("tls".to_string()));
    assert_eq!(parts(&e), ("ERROR", "resolver::mp4upload", "Error cliente HTTP: tls"));
    let e = mp4upload_log(&EmbedPage::NetworkError("timeout".to_string()));
    assert_eq!(parts(&e), ("ERROR", "resolver::mp4upload", "Error fetch: timeout"));
    let e = mp4upload_log(&EmbedPage::ReadError("eof".to_string()));
    assert_eq!(parts(&e), ("ERROR", "resolver::mp4upload", "Error leyendo respuesta: eof"));
    let e = mp4upload_log(&EmbedPage::Page("<source src=\"https://h/v.mp4\">".to_string()));
    assert_eq!(parts(&e), ("INFO", "resolver::mp4upload", "URL MP4 directa extraída correctamente"));
    let e = mp4upload_log(&EmbedPage::Page("nada".to_string()));
    assert_eq!(parts(&e), ("WARN", "resolver::mp4upload", "No se encontró src del MP4 en el HTML"));
}

#[test]
fn refused_slugs_are_recorded() {
    let e = slug_rejection_log("one-piece!").expect("a SEC line");
    assert_eq!(parts(&e), ("SEC", "security", "Slug rechazado: carácter inválido '!' en 'one-piece!'"));
    let long = format!("{}!", "a".repeat(40));
    let e = slug_rejection_log(&long).expect("a SEC line");
    assert_eq!(parts(&e).2, format!("Slug rechazado: carácter inválido '!' en '{}'", "a".repeat(30)));
    assert!(slug_rejection_log("one-piece").is_none());
    assert!(slug_rejection_log("").is_none());
    assert!(slug_rejection_log("-a").is_none());
}

#[test]
fn refused_queries_are_recorded() {
    let e = query_rejection_log("naruto <SCRIPT>").expect("a SEC line");
    assert_eq!(
        parts(&e),
        ("SEC", "security", "Query sospechosa rechazada: contiene patrón '<script' en query='naruto <SCRIPT>'")
    );
    assert!(query_rejection_log("naruto").is_none());
    assert!(query_rejection_log("   ").is_none());
}

#[test]
fn events_are_written_as_lines() {
    let l = Logger::open("/tmp/a.log".to_string(), "2024-05-06 07:08:09");
    let e = LogEvent::Warn { module: "m".to_string(), message: "uno\ndos".to_string() };
    assert_eq!(l.event(&e, "T").unwrap().text, "[T] WARN  [m] unodos");
    let e = LogEvent::Net { method: "GET".to_string(), url: "https://h/x".to_string(), status: "200".to_string() };
    assert_eq!(l.event(&e, "T").unwrap().text, "[T] NET   [HTTP] GET https://h/x → 200");
    assert!(Logger::null().event(&e, "T").is_none());
}
