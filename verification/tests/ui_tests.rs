use ani_tui::routes::{default_page, SearchParams};
use ani_tui::scraper::episodes::{anime_page_url, extract_episodes_block_fallback, get_episodes};
use ani_tui::scraper::search::extract_results_block_fallback;
use ani_tui::scraper::sources::{episode_page_url, extract_embeds_block_fallback};
use ani_tui::structs::{Anime, AnimeCategory, AudioType, Episode, VideoSource};
use ani_tui::ui::{
    category_badge, dub_tab_label, play_mode, results_title, sub_tab_label, synopsis_or_notice, PlayMode,
    episode_label, episodes_count_label, selected_episode_number, server_column, sources_header, synopsis_preview,
    truncate_str, truncate_url,
};

#[test]
fn titles_are_cut_by_characters() {
    assert_eq!(truncate_str("One Piece", 20), "One Piece");
    assert_eq!(truncate_str("One Piece", 9), "One Piece");
    assert_eq!(truncate_str("One Piece", 5), "One …");
    assert_eq!(truncate_str("ñañaña", 3), "ña…");
    assert_eq!(truncate_str("", 0), "");
}

#[test]
fn urls_are_cut_by_bytes() {
    assert_eq!(truncate_url("https://a.com/x", 20), "https://a.com/x");
    assert_eq!(truncate_url("https://a.com/xyz", 10), "a.com/xyz");
    assert_eq!(truncate_url("https://https://a.com", 6), "a.com");
    assert_eq!(truncate_url("http://abcdefghij", 5), "abcd…");
    assert_eq!(truncate_url("https://ñandú.com/x", 4), "ña…");
}

#[test]
fn episode_labels() {
    assert_eq!(episode_label(7), "Ep. 0007");
    assert_eq!(episode_label(1166), "Ep. 1166");
    assert_eq!(episode_label(123456), "Ep. 123456");
    assert_eq!(episodes_count_label(Some(1166), 3), "1166 episodios");
    assert_eq!(episodes_count_label(None, 3), "3 episodios");
    let eps = vec![Episode { id: 1, number: 5, anime_slug: "a".to_string() }];
    assert_eq!(selected_episode_number(&eps, Some(0)), 5);
    assert_eq!(selected_episode_number(&eps, Some(1)), 0);
    assert_eq!(selected_episode_number(&eps, None), 0);
}

#[test]
fn synopsis_previews() {
    assert_eq!(synopsis_preview("Primera línea\r\nsegunda"), "Primera línea");
    assert_eq!(synopsis_preview("sin salto"), "sin salto");
    assert_eq!(synopsis_preview("\nx"), "");
    let long = "a".repeat(100);
    assert_eq!(synopsis_preview(&long), format!("{}...", "a".repeat(80)));
    assert_eq!(synopsis_preview(&"b".repeat(80)), "b".repeat(80));
}

#[test]
fn page_urls() {
    assert_eq!(anime_page_url("one-piece"), "https://animeav1.com/media/one-piece");
    assert_eq!(episode_page_url("one-piece", 12), "https://animeav1.com/media/one-piece/12");
}

#[test]
fn block_fallbacks() {
    assert_eq!(extract_episodes_block_fallback("x episodes:[{id:1},[2]] y").as_deref(), Some("{id:1},[2]"));
    assert_eq!(extract_episodes_block_fallback("episodes:[]"), None);
    assert_eq!(extract_episodes_block_fallback("episodes:[{id:1}"), None);
    assert_eq!(extract_episodes_block_fallback("nada"), None);
    assert_eq!(extract_results_block_fallback("results:[{a}],total:2").as_deref(), Some("{a}"));
    assert_eq!(extract_results_block_fallback("results:[{a}]"), None);
    assert_eq!(extract_embeds_block_fallback("embeds:{SUB:[{x:1}]}}").as_deref(), Some("SUB:[{x:1}]"));
    assert_eq!(extract_embeds_block_fallback("embeds:{SUB:["), None);
}

#[test]
fn episodes_page_fills_in_the_anime() {
    let mut a = Anime {
        id: "1".to_string(),
        title: "A".to_string(),
        slug: "a".to_string(),
        synopsis: String::new(),
        category: AnimeCategory::TvAnime,
        mal_id: None,
        episodes_count: Some(2),
        score: Some("7.5".to_string()),
    };
    let eps = get_episodes(&mut a, "episodesCount:12,score:8.1,episodes:[{id:5,number:2},{id:4,number:1}]");
    assert_eq!(eps.iter().map(|e| e.number).collect::<Vec<_>>(), vec![1, 2]);
    assert!(eps.iter().all(|e| e.anime_slug == "a"));
    assert_eq!(a.episodes_count, Some(12));
    assert_eq!(a.score.as_deref(), Some("8.1"));
    let mut b = a.copy();
    let none = get_episodes(&mut b, "<html></html>");
    assert!(none.is_empty());
    assert_eq!(b.episodes_count, Some(12));
    assert_eq!(b.score.as_deref(), Some("8.1"));
}

#[test]
fn search_params_default_page() {
    assert_eq!(default_page(), 1);
    let p = SearchParams { q: "naruto".to_string(), page: default_page() };
    assert_eq!(p.page, 1);
    assert_eq!(p.q, "naruto");
}

#[test]
fn results_screen_texts() {
    assert_eq!(results_title("naruto", 3, 2, 5), "\"naruto\" — 3 resultados [pág. 2/5]");
    assert_eq!(results_title("lain", 1, 1, 1), "\"lain\" — 1 resultados");
    assert_eq!(category_badge(&AnimeCategory::TvAnime), " TV  ");
    assert_eq!(category_badge(&AnimeCategory::Movie), "MOV  ");
    assert_eq!(category_badge(&AnimeCategory::Unknown("9".to_string())), "  ?  ");
    assert_eq!(synopsis_or_notice(""), "Sin sinopsis disponible.");
    assert_eq!(synopsis_or_notice("Texto"), "Texto");
}

#[test]
fn sources_screen_texts() {
    let hls = VideoSource { server: "HLS".to_string(), url: "https://x".to_string(), audio: AudioType::Sub, quality: None };
    let mega = VideoSource { server: "Mega".to_string(), url: "https://y".to_string(), audio: AudioType::Sub, quality: None };
    assert_eq!(play_mode(&hls, true), PlayMode::Mpv);
    assert_eq!(play_mode(&hls, false), PlayMode::BrowserForLackOfMpv);
    assert_eq!(play_mode(&mega, true), PlayMode::Browser);
    assert_eq!(PlayMode::Mpv.icon(), "🎬 mpv");
    assert_eq!(PlayMode::Browser.icon(), "🌐 web");
    assert_eq!(PlayMode::BrowserForLackOfMpv.description(), "compatible con mpv (no instalado) — se usará navegador");
    assert_eq!(sub_tab_label(2), "[ SUB (2) ]");
    assert_eq!(dub_tab_label(0), "[ DUB (no disponible) ]");
    assert_eq!(dub_tab_label(1), "[ DUB (1) ]");
}

#[test]
fn sources_header_and_server_column() {
    assert_eq!(sources_header(Some("One Piece"), Some(12)), "One Piece — Ep. 12");
    assert_eq!(sources_header(None, None), "Anime — Ep. 0");
    assert_eq!(server_column("HLS"), "HLS         ");
    assert_eq!(server_column("Streamtape-long"), "Streamtape-long");
}
