use ani_tui::security::{validate_anime_slug, validate_episode_number, validate_search_query, SecurityError};

fn slug_reason(slug: &str) -> String {
    match validate_anime_slug(slug) {
        Err(SecurityError::InvalidSlug { reason, .. }) => reason,
        other => panic!("expected a rejected slug, got {:?}", other),
    }
}

fn query_reason(q: &str) -> String {
    match validate_search_query(q) {
        Err(SecurityError::InvalidQuery { reason }) => reason,
        other => panic!("expected a rejected query, got {:?}", other),
    }
}

#[test]
fn valid_slugs() {
    assert!(validate_anime_slug("one-piece").is_ok());
    assert!(validate_anime_slug("serial-experiments-lain").is_ok());
    assert!(validate_anime_slug("naruto-shippuuden-movie-6-road-to-ninja").is_ok());
    assert!(validate_anime_slug("a").is_ok());
}

#[test]
fn rejected_slugs() {
    assert_eq!(slug_reason("../../etc/passwd"), "carácter no permitido: '.'");
    assert_eq!(slug_reason("127.0.0.1"), "carácter no permitido: '.'");
    assert_eq!(slug_reason("a/b"), "carácter no permitido: '/'");
    assert_eq!(slug_reason("abc%2F.."), "carácter no permitido: '%'");
    assert_eq!(slug_reason("One-Piece"), "carácter no permitido: 'O'");
    assert_eq!(slug_reason("ñandú"), "carácter no permitido: 'ñ'");
    assert_eq!(slug_reason(""), "slug vacío");
    assert_eq!(slug_reason("-abc"), "el slug no puede empezar ni terminar con guión");
    assert_eq!(slug_reason("abc-"), "el slug no puede empezar ni terminar con guión");
    assert_eq!(slug_reason("a--b"), "guiones dobles consecutivos no permitidos");
}

#[test]
fn long_slug_is_quoted_by_its_start() {
    let slug = "a".repeat(201);
    match validate_anime_slug(&slug) {
        Err(SecurityError::InvalidSlug { slug: q, reason }) => {
            assert_eq!(q, format!("{}...", "a".repeat(20)));
            assert_eq!(reason, "slug demasiado largo (201 chars, máximo 200)");
        },
        other => panic!("expected a rejected slug, got {:?}", other),
    }
    assert!(validate_anime_slug(&"a".repeat(200)).is_ok());
}

#[test]
fn episode_numbers() {
    assert!(validate_episode_number(1).is_ok());
    assert!(validate_episode_number(99_999).is_ok());
    match validate_episode_number(0) {
        Err(SecurityError::InvalidEpisodeNumber { number, reason }) => {
            assert_eq!(number, 0);
            assert_eq!(reason, "el número de episodio no puede ser 0");
        },
        other => panic!("unexpected {:?}", other),
    }
    match validate_episode_number(100_000) {
        Err(SecurityError::InvalidEpisodeNumber { reason, .. }) => {
            assert_eq!(reason, "número de episodio demasiado grande: 100000")
        },
        other => panic!("unexpected {:?}", other),
    }
}

#[test]
fn queries() {
    assert!(validate_search_query("one piece").is_ok());
    assert!(validate_search_query("  naruto ").is_ok());
    assert_eq!(query_reason("   \t"), "consulta de búsqueda vacía");
    assert_eq!(query_reason(""), "consulta de búsqueda vacía");
    assert_eq!(query_reason(&"x".repeat(501)), "consulta demasiado larga (501 chars, máximo 500)");
    assert!(validate_search_query(&"x".repeat(500)).is_ok());
    assert_eq!(query_reason("<SCRIPT>alert(1)"), "patrón no permitido en la consulta: '<script'");
    assert_eq!(query_reason("JavaScript:void"), "patrón no permitido en la consulta: 'javascript:'");
    assert_eq!(query_reason("file:///etc"), "patrón no permitido en la consulta: 'file://'");
    assert_eq!(query_reason("data:text"), "patrón no permitido en la consulta: 'data:'");
    assert_eq!(query_reason("a\0b"), "patrón no permitido en la consulta: '\0'");
}

#[test]
fn error_messages() {
    let e = SecurityError::InvalidSlug { slug: "a/b".to_string(), reason: "r".to_string() };
    assert_eq!(e.message(), "Slug inválido 'a/b': r");
    let e = SecurityError::InvalidEpisodeNumber { number: 7, reason: "r".to_string() };
    assert_eq!(e.message(), "Número de episodio inválido 7: r");
    let e = SecurityError::InvalidQuery { reason: "r".to_string() };
    assert_eq!(e.message(), "Consulta de búsqueda inválida: r");
}

#[test]
fn long_slug_quoted_at_a_character() {
    let slug = format!("a{}", "é".repeat(100));
    match validate_anime_slug(&slug) {
        Err(SecurityError::InvalidSlug { slug: q, reason }) => {
            assert_eq!(q, format!("a{}...", "é".repeat(9)));
            assert_eq!(reason, "slug demasiado largo (201 chars, máximo 200)");
        },
        other => panic!("expected a rejected slug, got {:?}", other),
    }
}
