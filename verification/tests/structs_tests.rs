use ani_tui::structs::{Anime, AnimeCategory, AudioType, Episode, EpisodeSources, VideoSource};

fn source(server: &str) -> VideoSource {
    VideoSource { server: server.to_string(), url: format!("https://x/{}", server), audio: AudioType::Sub, quality: None }
}

#[test]
fn categories_by_id() {
    assert!(matches!(AnimeCategory::from_id(1), AnimeCategory::TvAnime));
    assert!(matches!(AnimeCategory::from_id(2), AnimeCategory::Movie));
    assert!(matches!(AnimeCategory::from_id(3), AnimeCategory::Ova));
    assert!(matches!(AnimeCategory::from_id(4), AnimeCategory::Special));
    assert!(matches!(AnimeCategory::from_id(0), AnimeCategory::Unknown(s) if s == "0"));
    assert!(matches!(AnimeCategory::from_id(17), AnimeCategory::Unknown(s) if s == "17"));
}

#[test]
fn categories_by_name() {
    assert!(matches!(AnimeCategory::from_name("TV Anime"), AnimeCategory::TvAnime));
    assert!(matches!(AnimeCategory::from_name("tv-anime"), AnimeCategory::TvAnime));
    assert!(matches!(AnimeCategory::from_name("movie"), AnimeCategory::Movie));
    assert!(matches!(AnimeCategory::from_name("OVA"), AnimeCategory::Ova));
    assert!(matches!(AnimeCategory::from_name("special"), AnimeCategory::Special));
    assert!(matches!(AnimeCategory::from_name("Tv Anime"), AnimeCategory::Unknown(s) if s == "Tv Anime"));
}

#[test]
fn labels() {
    assert_eq!(AnimeCategory::TvAnime.display(), "TV");
    assert_eq!(AnimeCategory::Movie.display(), "Movie");
    assert_eq!(AnimeCategory::Ova.display(), "OVA");
    assert_eq!(AnimeCategory::Special.display(), "Especial");
    assert_eq!(AnimeCategory::Unknown("x".to_string()).display(), "?");
    assert_eq!(AudioType::Sub.display(), "SUB");
    assert_eq!(AudioType::Dub.display(), "DUB");
}

#[test]
fn urls_and_titles() {
    let a = Anime {
        id: "197".to_string(),
        title: "One Piece".to_string(),
        slug: "one-piece".to_string(),
        synopsis: String::new(),
        category: AnimeCategory::TvAnime,
        mal_id: Some(21),
        episodes_count: None,
        score: None,
    };
    assert_eq!(a.page_url("https://animeav1.com"), "https://animeav1.com/media/one-piece");
    let e = Episode { id: 1, number: 1045, anime_slug: "one-piece".to_string() };
    assert_eq!(e.page_url("https://animeav1.com"), "https://animeav1.com/media/one-piece/1045");
    assert_eq!(e.display_title(), "Episodio 1045");
    let c = a.copy();
    assert_eq!(c.slug, "one-piece");
    assert_eq!(c.mal_id, Some(21));
}

#[test]
fn mpv_sources() {
    assert!(source("HLS").is_mpv_compatible());
    assert!(source("PDrain").is_mpv_compatible());
    assert!(!source("Mega").is_mpv_compatible());
    assert!(!source("hls").is_mpv_compatible());
    let s = EpisodeSources { sub: vec![source("Mega"), source("PDrain")], dub: vec![] };
    assert_eq!(s.best_for_mpv(&AudioType::Sub).unwrap().server, "PDrain");
    assert!(s.best_for_mpv(&AudioType::Dub).is_none());
    let s2 = EpisodeSources { sub: vec![source("Mega")], dub: vec![source("HLS")] };
    assert_eq!(s2.best_for_mpv(&AudioType::Sub).unwrap().server, "Mega");
    assert_eq!(s2.get(&AudioType::Dub).len(), 1);
    assert!(s2.has_dub());
}
