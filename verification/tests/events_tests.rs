use ani_tui::app::{App, LoadingState, Screen};
use ani_tui::events::{
    handle_app_event, handle_episodes_input, handle_results_input, handle_search_input, handle_sources_input,
    on_key, on_tick, show_play_result, trigger_load_episodes, trigger_load_sources, trigger_search, trim, AppEvent,
    Command, Key,
};
use ani_tui::player::{player_info, PlayResult};
use ani_tui::structs::{Anime, AnimeCategory, AudioType, Episode, EpisodeSources, VideoSource};

fn anime(slug: &str) -> Anime {
    Anime {
        id: "1".to_string(),
        title: slug.to_string(),
        slug: slug.to_string(),
        synopsis: String::new(),
        category: AnimeCategory::Movie,
        mal_id: None,
        episodes_count: None,
        score: None,
    }
}

fn episode(number: u32) -> Episode {
    Episode { id: number, number, anime_slug: "a".to_string() }
}

fn source(server: &str, audio: AudioType) -> VideoSource {
    VideoSource { server: server.to_string(), url: format!("https://x/{}", server), audio, quality: None }
}

fn app() -> App {
    App::new(player_info(false))
}

#[test]
fn trimming() {
    assert_eq!(trim("  one piece \t\n"), "one piece");
    assert_eq!(trim("\u{3000}x\u{a0}"), "x");
    assert_eq!(trim("   "), "");
    assert_eq!(trim(""), "");
    assert_eq!(trim("a b"), "a b");
}

#[test]
fn triggers_mark_the_work_in_progress() {
    let mut a = app();
    match trigger_search(&mut a, "x".to_string(), 3) {
        Command::Search { query, page } => {
            assert_eq!(query, "x");
            assert_eq!(page, 3);
        },
        _ => panic!("expected a search"),
    }
    assert_eq!(a.loading, LoadingState::SearchingAnime);
    assert!(matches!(trigger_load_episodes(&mut a, anime("z")), Command::LoadEpisodes(x) if x.slug == "z"));
    assert_eq!(a.loading, LoadingState::LoadingEpisodes);
    assert!(matches!(trigger_load_sources(&mut a, episode(4)), Command::LoadSources(e) if e.number == 4));
    assert_eq!(a.loading, LoadingState::LoadingSources);
}

#[test]
fn search_screen_keys() {
    let mut a = app();
    assert!(matches!(handle_search_input(&mut a, Key::Char('q'), false), Command::Nothing));
    assert!(a.should_quit);
    let mut a = app();
    handle_search_input(&mut a, Key::Char('n'), false);
    handle_search_input(&mut a, Key::Char('q'), false);
    assert_eq!(a.search_input, "nq");
    assert!(!a.should_quit);
    handle_search_input(&mut a, Key::Esc, false);
    assert_eq!(a.search_input, "nq");
    assert!(!a.should_quit);
    handle_search_input(&mut a, Key::Backspace, false);
    assert_eq!(a.search_input, "n");
    handle_search_input(&mut a, Key::Home, false);
    assert_eq!(a.cursor_position, 0);
    handle_search_input(&mut a, Key::End, false);
    assert_eq!(a.cursor_position, 1);
    handle_search_input(&mut a, Key::Char('u'), true);
    assert_eq!(a.search_input, "");
    assert_eq!(a.cursor_position, 0);
    handle_search_input(&mut a, Key::Char('c'), true);
    assert_eq!(a.search_input, "c");
    handle_search_input(&mut a, Key::Esc, false);
    assert!(!a.should_quit);
}

#[test]
fn enter_searches_the_trimmed_text() {
    let mut a = app();
    a.search_input = "  one piece  ".to_string();
    a.cursor_position = 13;
    match handle_search_input(&mut a, Key::Enter, false) {
        Command::Search { query, page } => {
            assert_eq!(query, "one piece");
            assert_eq!(page, 1);
        },
        _ => panic!("expected a search"),
    }
    assert_eq!(a.loading, LoadingState::SearchingAnime);
    let mut b = app();
    b.search_input = "   ".to_string();
    assert!(matches!(handle_search_input(&mut b, Key::Enter, false), Command::Nothing));
    assert_eq!(b.loading, LoadingState::Idle);
}

fn results_app() -> App {
    let mut a = app();
    a.set_search_results(vec![anime("a"), anime("b")], 2, 3, "naruto".to_string());
    a
}

#[test]
fn results_paging() {
    let mut a = results_app();
    match handle_results_input(&mut a, Key::Right) {
        Command::Search { query, page } => {
            assert_eq!(query, "naruto");
            assert_eq!(page, 3);
        },
        _ => panic!("expected the next page"),
    }
    let mut b = results_app();
    match handle_results_input(&mut b, Key::Left) {
        Command::Search { page, .. } => assert_eq!(page, 1),
        _ => panic!("expected the previous page"),
    }
    let mut c = results_app();
    c.results_page = 3;
    assert!(matches!(handle_results_input(&mut c, Key::Right), Command::Nothing));
    assert_eq!(c.loading, LoadingState::Idle);
    c.results_page = 1;
    assert!(matches!(handle_results_input(&mut c, Key::Left), Command::Nothing));
}

#[test]
fn results_selection_and_navigation() {
    let mut a = results_app();
    handle_results_input(&mut a, Key::Char('j'));
    assert_eq!(a.results_state.selected(), Some(1));
    match handle_results_input(&mut a, Key::Enter) {
        Command::LoadEpisodes(x) => assert_eq!(x.slug, "b"),
        _ => panic!("expected episodes to load"),
    }
    assert_eq!(a.loading, LoadingState::LoadingEpisodes);
    let mut b = results_app();
    handle_results_input(&mut b, Key::Char('k'));
    assert_eq!(b.results_state.selected(), Some(1));
    handle_results_input(&mut b, Key::Char('/'));
    assert_eq!(b.screen, Screen::Search);
    let mut c = results_app();
    handle_results_input(&mut c, Key::Char('q'));
    assert_eq!(c.screen, Screen::Search);
    assert!(c.search_results.is_empty());
}

fn episodes_app(n: u32) -> App {
    let mut a = app();
    a.set_episodes(anime("a"), (1..=n).map(episode).collect());
    a
}

#[test]
fn episodes_keys() {
    let mut a = episodes_app(25);
    handle_episodes_input(&mut a, Key::PageDown);
    assert_eq!(a.episodes_state.selected(), Some(10));
    handle_episodes_input(&mut a, Key::PageDown);
    handle_episodes_input(&mut a, Key::PageDown);
    assert_eq!(a.episodes_state.selected(), Some(5));
    handle_episodes_input(&mut a, Key::PageUp);
    assert_eq!(a.episodes_state.selected(), Some(20));
    handle_episodes_input(&mut a, Key::Home);
    assert_eq!(a.episodes_state.selected(), Some(0));
    handle_episodes_input(&mut a, Key::End);
    assert_eq!(a.episodes_state.selected(), Some(24));
    match handle_episodes_input(&mut a, Key::Enter) {
        Command::LoadSources(e) => assert_eq!(e.number, 25),
        _ => panic!("expected sources to load"),
    }
    assert_eq!(a.loading, LoadingState::LoadingSources);
    let mut b = episodes_app(3);
    handle_episodes_input(&mut b, Key::Char('/'));
    assert_eq!(b.screen, Screen::Search);
    let mut c = episodes_app(3);
    handle_episodes_input(&mut c, Key::Esc);
    assert_eq!(c.screen, Screen::Results);
}

fn sources_app(with_dub: bool) -> App {
    let mut a = app();
    let dub = if with_dub { vec![source("PDrain", AudioType::Dub)] } else { vec![] };
    a.set_sources(episode(1), EpisodeSources { sub: vec![source("HLS", AudioType::Sub), source("Mega", AudioType::Sub)], dub });
    a
}

#[test]
fn sources_keys() {
    let mut a = sources_app(true);
    handle_sources_input(&mut a, Key::Tab);
    assert_eq!(a.selected_audio, AudioType::Dub);
    handle_sources_input(&mut a, Key::Char('d'));
    assert_eq!(a.selected_audio, AudioType::Dub);
    handle_sources_input(&mut a, Key::Char('s'));
    assert_eq!(a.selected_audio, AudioType::Sub);
    handle_sources_input(&mut a, Key::Down);
    match handle_sources_input(&mut a, Key::Enter) {
        Command::Play(s) => assert_eq!(s.server, "Mega"),
        _ => panic!("expected a source to play"),
    }
    let mut b = sources_app(false);
    handle_sources_input(&mut b, Key::BackTab);
    assert_eq!(b.selected_audio, AudioType::Sub);
    handle_sources_input(&mut b, Key::Char('d'));
    assert_eq!(b.selected_audio, AudioType::Sub);
    handle_sources_input(&mut b, Key::Esc);
    assert_eq!(b.screen, Screen::Episodes);
}

#[test]
fn play_outcomes() {
    let mut a = sources_app(false);
    show_play_result(&mut a, &PlayResult::LaunchedMpv);
    assert_eq!(a.error_message, None);
    assert_eq!(a.info_message.as_deref(), Some("mpv lanzado"));
    show_play_result(&mut a, &PlayResult::LaunchedBrowser);
    assert_eq!(a.info_message.as_deref(), Some("Navegador abierto"));
    show_play_result(&mut a, &PlayResult::NoSources);
    assert_eq!(a.error_message.as_deref(), Some("No hay fuentes disponibles"));
    show_play_result(&mut a, &PlayResult::Error("sin red".to_string()));
    assert_eq!(a.error_message.as_deref(), Some("Error al reproducir: sin red"));
}

#[test]
fn background_work_results() {
    let mut a = app();
    a.loading = LoadingState::SearchingAnime;
    handle_app_event(
        &mut a,
        AppEvent::SearchResults { animes: vec![], page: 1, total_pages: 0, query: "zzz".to_string() },
    );
    assert_eq!(a.error_message.as_deref(), Some("No se encontraron resultados para \"zzz\""));
    assert_eq!(a.loading, LoadingState::Idle);
    let mut b = app();
    handle_app_event(
        &mut b,
        AppEvent::SearchResults { animes: vec![anime("a")], page: 1, total_pages: 1, query: "a".to_string() },
    );
    assert_eq!(b.screen, Screen::Results);
    handle_app_event(&mut b, AppEvent::EpisodesLoaded { anime: anime("a"), episodes: vec![] });
    assert_eq!(b.error_message.as_deref(), Some("No se encontraron episodios para este anime"));
    assert_eq!(b.screen, Screen::Results);
    handle_app_event(&mut b, AppEvent::EpisodesLoaded { anime: anime("a"), episodes: vec![episode(1)] });
    assert_eq!(b.screen, Screen::Episodes);
    handle_app_event(&mut b, AppEvent::SourcesLoaded { episode: episode(1), sources: EpisodeSources::default() });
    assert_eq!(b.screen, Screen::Sources);
    handle_app_event(&mut b, AppEvent::Error("Error al buscar: x".to_string()));
    assert_eq!(b.error_message.as_deref(), Some("Error al buscar: x"));
}

#[test]
fn a_key_only_clears_an_error() {
    let mut a = app();
    let mut prev = Screen::Search;
    a.error_message = Some("e".to_string());
    assert!(matches!(on_key(&mut a, &mut prev, Key::Char('x'), false), Command::Nothing));
    assert_eq!(a.error_message, None);
    assert_eq!(a.search_input, "");
}

#[test]
fn keys_are_ignored_while_loading() {
    let mut a = app();
    let mut prev = Screen::Search;
    a.loading = LoadingState::SearchingAnime;
    on_key(&mut a, &mut prev, Key::Char('x'), false);
    on_key(&mut a, &mut prev, Key::Char('?'), false);
    assert_eq!(a.search_input, "");
    assert_eq!(a.screen, Screen::Search);
}

#[test]
fn help_opens_and_closes() {
    let mut a = results_app();
    let mut prev = Screen::Search;
    on_key(&mut a, &mut prev, Key::Char('?'), false);
    assert_eq!(a.screen, Screen::Help);
    assert_eq!(prev, Screen::Results);
    on_key(&mut a, &mut prev, Key::Char('?'), false);
    assert_eq!(a.screen, Screen::Results);
    on_key(&mut a, &mut prev, Key::Char('?'), false);
    assert_eq!(a.screen, Screen::Help);
    on_key(&mut a, &mut prev, Key::Down, false);
    assert_eq!(a.screen, Screen::Results);
    assert_eq!(a.results_state.selected(), Some(0));
}

#[test]
fn question_mark_on_search_types_and_opens_help() {
    let mut a = app();
    let mut prev = Screen::Results;
    on_key(&mut a, &mut prev, Key::Char('?'), false);
    assert_eq!(a.search_input, "?");
    assert_eq!(a.screen, Screen::Help);
    assert_eq!(prev, Screen::Search);
}

#[test]
fn on_key_dispatches_by_screen() {
    let mut a = app();
    let mut prev = Screen::Search;
    for c in "bleach".chars() {
        on_key(&mut a, &mut prev, Key::Char(c), false);
    }
    match on_key(&mut a, &mut prev, Key::Enter, false) {
        Command::Search { query, page } => {
            assert_eq!(query, "bleach");
            assert_eq!(page, 1);
        },
        _ => panic!("expected a search"),
    }
}

#[test]
fn ticks_move_the_spinner_only_while_loading() {
    let mut a = app();
    on_tick(&mut a);
    assert_eq!(a.spinner_frame, 0);
    a.loading = LoadingState::LoadingEpisodes;
    on_tick(&mut a);
    on_tick(&mut a);
    assert_eq!(a.spinner_frame, 2);
}

#[test]
fn every_list_pages_and_jumps() {
    let mut a = app();
    let animes: Vec<Anime> = (0..15).map(|i| anime(&format!("a{}", i))).collect();
    a.set_search_results(animes, 1, 1, "x".to_string());
    handle_results_input(&mut a, Key::PageDown);
    assert_eq!(a.results_state.selected(), Some(10));
    handle_results_input(&mut a, Key::End);
    assert_eq!(a.results_state.selected(), Some(14));
    handle_results_input(&mut a, Key::Home);
    assert_eq!(a.results_state.selected(), Some(0));
    handle_results_input(&mut a, Key::PageUp);
    assert_eq!(a.results_state.selected(), Some(5));
    let mut s = sources_app(false);
    handle_sources_input(&mut s, Key::End);
    assert_eq!(s.sources_state.selected(), Some(1));
    handle_sources_input(&mut s, Key::Home);
    assert_eq!(s.sources_state.selected(), Some(0));
    handle_sources_input(&mut s, Key::Char('/'));
    assert_eq!(s.screen, Screen::Search);
}

#[test]
fn page_down_then_page_up_comes_back() {
    let mut a = episodes_app(7);
    a.episodes_state.select(Some(3));
    handle_episodes_input(&mut a, Key::PageDown);
    assert_eq!(a.episodes_state.selected(), Some(6));
    handle_episodes_input(&mut a, Key::PageUp);
    assert_eq!(a.episodes_state.selected(), Some(3));
    handle_episodes_input(&mut a, Key::PageUp);
    handle_episodes_input(&mut a, Key::PageDown);
    assert_eq!(a.episodes_state.selected(), Some(3));
}

#[test]
fn blank_fields_are_never_searched() {
    for text in ["", " ", "\t \u{3000}"] {
        let mut a = app();
        a.search_input = text.to_string();
        assert!(matches!(handle_search_input(&mut a, Key::Enter, false), Command::Nothing));
    }
}
