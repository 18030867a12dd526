use ani_tui::resolver::{
    resolve_mp4upload_fetched, resolve_mp4upload_page, resolve_pixeldrain, resolve_pixeldrain_sync, resolve_url,
    resolve_zilla_hls, EmbedPage, Resolution, ResolvedUrl, StreamType,
};

fn direct(r: &ResolvedUrl) -> (&str, Option<&str>, &StreamType) {
    match r {
        ResolvedUrl::DirectStream { url, referer, content_type } => (url, referer.as_deref(), content_type),
        other => panic!("expected a direct stream, got {:?}", other),
    }
}

fn fallback(r: &ResolvedUrl) -> (&str, &str) {
    match r {
        ResolvedUrl::FallbackBrowser { url, reason } => (url, reason),
        other => panic!("expected the browser, got {:?}", other),
    }
}

#[test]
fn zilla_player_to_m3u8() {
    let r = resolve_zilla_hls("https://player.zilla-networks.com/play/7601658844858539e438dceee32e7924");
    let (url, referer, kind) = direct(&r);
    assert_eq!(url, "https://player.zilla-networks.com/m3u8/7601658844858539e438dceee32e7924");
    assert_eq!(referer, Some("https://player.zilla-networks.com/play/7601658844858539e438dceee32e7924"));
    assert!(matches!(kind, StreamType::Hls));
}

#[test]
fn zilla_already_m3u8() {
    let r = resolve_zilla_hls("https://player.zilla-networks.com/m3u8/abc");
    let (url, referer, _) = direct(&r);
    assert_eq!(url, "https://player.zilla-networks.com/m3u8/abc");
    assert_eq!(referer, Some("https://player.zilla-networks.com/play/abc"));
}

#[test]
fn zilla_without_id() {
    // the id must be 32 lower-case hexadecimal digits
    let r = resolve_zilla_hls("https://player.zilla-networks.com/play/7601658844858539E438DCEEE32E7924");
    let (url, reason) = fallback(&r);
    assert_eq!(url, "https://player.zilla-networks.com/play/7601658844858539E438DCEEE32E7924");
    assert_eq!(reason, "No se pudo extraer el ID del player de Zilla Networks");
}

#[test]
fn pixeldrain() {
    let r = resolve_pixeldrain("https://pixeldrain.com/u/MJzY7Ab1?embed");
    let (url, referer, kind) = direct(&r);
    assert_eq!(url, "https://pixeldrain.com/api/file/MJzY7Ab1");
    assert_eq!(referer, None);
    assert!(matches!(kind, StreamType::Mp4));
    let r = resolve_pixeldrain_sync("https://pixeldrain.com/u/abc");
    assert_eq!(direct(&r).0, "https://pixeldrain.com/api/file/abc");
    let r = resolve_pixeldrain("https://pixeldrain.com/file/abc");
    assert_eq!(fallback(&r).1, "No se pudo extraer el file ID de PixelDrain");
    let r = resolve_pixeldrain(&format!("https://pixeldrain.com/u/{}", "a".repeat(21)));
    assert_eq!(fallback(&r).1, "File ID de PixelDrain con formato inválido");
}

#[test]
fn mp4upload_page() {
    let html = "<script>player.src({type:\"video/mp4\",src:\"https://a1.mp4upload.com:183/d/xyz/video.mp4?t=1\"});</script>";
    let r = resolve_mp4upload_page("https://www.mp4upload.com/embed-x.html", html);
    let (url, referer, kind) = direct(&r);
    assert_eq!(url, "https://a1.mp4upload.com:183/d/xyz/video.mp4?t=1");
    assert_eq!(referer, Some("https://www.mp4upload.com/"));
    assert!(matches!(kind, StreamType::Mp4));
    let r = resolve_mp4upload_page("https://www.mp4upload.com/embed-x.html", "src:\"https://x/a.mkv\"");
    assert_eq!(fallback(&r).1, "No se encontró la URL del MP4 en el HTML del embed");
}

#[test]
fn mp4upload_failures() {
    let u = "https://www.mp4upload.com/embed-x.html";
    let r = resolve_mp4upload_fetched(u, EmbedPage::NetworkError("timeout".to_string()));
    assert_eq!(fallback(&r), (u, "Error de red al acceder a MP4Upload: timeout"));
    let r = resolve_mp4upload_fetched(u, EmbedPage::ClientError("tls".to_string()));
    assert_eq!(fallback(&r).1, "Error al crear cliente HTTP: tls");
    let r = resolve_mp4upload_fetched(u, EmbedPage::ReadError("eof".to_string()));
    assert_eq!(fallback(&r).1, "Error al leer HTML de MP4Upload: eof");
    let r = resolve_mp4upload_fetched(u, EmbedPage::Page("src:\"https://h/v.mp4\"".to_string()));
    assert_eq!(direct(&r).0, "https://h/v.mp4");
}

#[test]
fn dispatch_by_server() {
    match resolve_url("HLS", "ftp://x") {
        Resolution::Resolved(r) => assert_eq!(fallback(&r).1, "URL con esquema no permitido (solo http/https)"),
        _ => panic!("expected a result"),
    }
    match resolve_url("PDrain", "https://pixeldrain.com/u/abc") {
        Resolution::Resolved(r) => assert_eq!(direct(&r).0, "https://pixeldrain.com/api/file/abc"),
        _ => panic!("expected a result"),
    }
    match resolve_url("MP4Upload", "https://www.mp4upload.com/embed-x.html") {
        Resolution::FetchMp4Upload(u) => assert_eq!(u, "https://www.mp4upload.com/embed-x.html"),
        _ => panic!("expected the page to be read"),
    }
    match resolve_url("MP4Upload", "https://otro.com/x") {
        Resolution::Resolved(r) => assert_eq!(fallback(&r).1, "URL no es de mp4upload.com"),
        _ => panic!("expected a result"),
    }
    match resolve_url("Mega", "https://mega.nz/embed/x") {
        Resolution::Resolved(r) => {
            assert_eq!(fallback(&r), ("https://mega.nz/embed/x", "Servidor 'Mega' no tiene resolución directa implementada"))
        },
        _ => panic!("expected a result"),
    }
}

#[test]
fn stream_type_labels() {
    assert_eq!(StreamType::Hls.display(), "HLS (m3u8)");
    assert_eq!(StreamType::Mp4.display(), "MP4 directo");
    assert_eq!(StreamType::Unknown.display(), "Desconocido");
}

#[test]
fn mp4upload_source_tag() {
    let html = r#"<video><source src="https://s1.mp4upload.com:183/d/abc/video.mp4" type="video/mp4"></video>"#;
    let r = resolve_mp4upload_fetched("https://www.mp4upload.com/embed-vvgjuxkynbmv.html", EmbedPage::Page(html.to_string()));
    let (url, referer, kind) = direct(&r);
    assert_eq!(url, "https://s1.mp4upload.com:183/d/abc/video.mp4");
    assert_eq!(referer, Some("https://www.mp4upload.com/"));
    assert!(matches!(kind, StreamType::Mp4));
}
