use ani_tui::app::{App, ListState, LoadingState, Screen};
use ani_tui::player::player_info;
use ani_tui::structs::{Anime, AnimeCategory, AudioType, Episode, EpisodeSources, VideoSource};

fn anime(slug: &str) -> Anime {
    Anime {
        id: "1".to_string(),
        title: slug.to_string(),
        slug: slug.to_string(),
        synopsis: String::new(),
        category: AnimeCategory::TvAnime,
        mal_id: None,
        episodes_count: None,
        score: None,
    }
}

fn episode(number: u32) -> Episode {
    Episode { id: number + 100, number, anime_slug: "a".to_string() }
}

fn source(server: &str, audio: AudioType) -> VideoSource {
    VideoSource { server: server.to_string(), url: format!("https://x/{}", server), audio, quality: None }
}

fn new_app() -> App {
    App::new(player_info(true))
}

#[test]
fn initial_state() {
    let app = new_app();
    assert_eq!(app.screen, Screen::Search);
    assert!(!app.should_quit);
    assert_eq!(app.search_input, "");
    assert_eq!(app.cursor_position, 0);
    assert_eq!(app.results_page, 1);
    assert_eq!(app.results_total_pages, 1);
    assert_eq!(app.selected_audio, AudioType::Sub);
    assert_eq!(app.loading, LoadingState::Idle);
    assert_eq!(app.results_state.selected(), None);
    assert_eq!(app.spinner_frame, 0);
    assert!(app.player_info.mpv_available);
}

#[test]
fn loading_messages() {
    assert_eq!(LoadingState::Idle.message(), None);
    assert_eq!(LoadingState::SearchingAnime.message(), Some("Buscando anime..."));
    assert_eq!(LoadingState::LoadingEpisodes.message(), Some("Cargando episodios..."));
    assert_eq!(LoadingState::LoadingSources.message(), Some("Cargando fuentes de video..."));
    assert!(!LoadingState::Idle.is_loading());
    assert!(LoadingState::LoadingSources.is_loading());
}

#[test]
fn typing_and_editing() {
    let mut app = new_app();
    app.input_char('a');
    app.input_char('b');
    app.cursor_home();
    app.input_char('x');
    assert_eq!(app.search_input, "xab");
    assert_eq!(app.cursor_position, 1);
    app.cursor_end();
    assert_eq!(app.cursor_position, 3);
    app.delete_char();
    assert_eq!(app.search_input, "xa");
    assert_eq!(app.cursor_position, 2);
    app.cursor_home();
    app.delete_char();
    assert_eq!(app.search_input, "xa");
    assert_eq!(app.cursor_position, 0);
    app.clear_input();
    assert_eq!(app.search_input, "");
    assert_eq!(app.cursor_position, 0);
}

#[test]
fn cursor_end_counts_bytes() {
    let mut app = new_app();
    app.search_input = "ñu".to_string();
    app.cursor_end();
    assert_eq!(app.cursor_position, 3);
}

#[test]
fn delete_right_after_typing_restores_the_field() {
    let mut app = new_app();
    app.search_input = "añb".to_string();
    app.cursor_position = 3; // between 'ñ' and 'b'
    app.input_char('€');
    assert_eq!(app.search_input, "añ€b");
    assert_eq!(app.cursor_position, 6);
    app.delete_char();
    assert_eq!(app.search_input, "añb");
    assert_eq!(app.cursor_position, 3);
}

#[test]
fn go_back_walks_the_screens() {
    let mut app = new_app();
    app.search_results = vec![anime("a")];
    app.results_state.select(Some(0));
    app.screen = Screen::Sources;
    app.error_message = Some("x".to_string());
    app.go_back();
    assert_eq!(app.screen, Screen::Episodes);
    assert_eq!(app.error_message, None);
    app.go_back();
    assert_eq!(app.screen, Screen::Results);
    app.go_back();
    assert_eq!(app.screen, Screen::Search);
    assert!(app.search_results.is_empty());
    assert_eq!(app.results_state.selected(), None);
    app.search_input = "abc".to_string();
    app.cursor_position = 3;
    app.go_back();
    assert_eq!(app.search_input, "");
    assert_eq!(app.cursor_position, 0);
    assert!(!app.should_quit);
    app.go_back();
    assert!(app.should_quit);
    let mut help = new_app();
    help.screen = Screen::Help;
    help.go_back();
    assert_eq!(help.screen, Screen::Search);
}

#[test]
fn lists_wrap_around() {
    let mut app = new_app();
    app.screen = Screen::Results;
    app.search_results = vec![anime("a"), anime("b"), anime("c")];
    app.list_up();
    assert_eq!(app.results_state.selected(), Some(2));
    app.list_down();
    assert_eq!(app.results_state.selected(), Some(0));
    app.list_down();
    app.list_down();
    assert_eq!(app.results_state.selected(), Some(2));
    app.list_down();
    assert_eq!(app.results_state.selected(), Some(0));
    // down then up comes back
    app.results_state.select(Some(1));
    app.list_down();
    app.list_up();
    assert_eq!(app.results_state.selected(), Some(1));
}

#[test]
fn empty_lists() {
    let mut app = new_app();
    app.screen = Screen::Episodes;
    app.list_down();
    assert_eq!(app.episodes_state.selected(), None);
    app.list_up();
    assert_eq!(app.episodes_state.selected(), Some(0));
    let mut s = new_app();
    s.screen = Screen::Search;
    s.list_up();
    assert_eq!(s.results_state.selected(), None);
}

#[test]
fn sources_list_follows_the_audio() {
    let mut app = new_app();
    app.screen = Screen::Sources;
    app.sources = EpisodeSources {
        sub: vec![source("HLS", AudioType::Sub), source("Mega", AudioType::Sub)],
        dub: vec![source("PDrain", AudioType::Dub)],
    };
    app.sources_state.select(Some(0));
    app.list_down();
    assert_eq!(app.sources_state.selected(), Some(1));
    app.toggle_audio();
    assert_eq!(app.selected_audio, AudioType::Dub);
    assert_eq!(app.sources_state.selected(), Some(0));
    app.list_down();
    assert_eq!(app.sources_state.selected(), Some(0));
    app.toggle_audio();
    assert_eq!(app.selected_audio, AudioType::Sub);
    assert_eq!(app.sources_state.selected(), Some(0));
}

#[test]
fn toggle_to_an_empty_audio_selects_nothing() {
    let mut app = new_app();
    app.sources = EpisodeSources { sub: vec![source("HLS", AudioType::Sub)], dub: vec![] };
    app.sources_state.select(Some(0));
    app.toggle_audio();
    assert_eq!(app.selected_audio, AudioType::Dub);
    assert_eq!(app.sources_state.selected(), None);
}

#[test]
fn search_results_arrive() {
    let mut app = new_app();
    app.loading = LoadingState::SearchingAnime;
    app.info_message = Some("i".to_string());
    app.set_search_results(vec![anime("a"), anime("b")], 2, 5, "naruto".to_string());
    assert_eq!(app.screen, Screen::Results);
    assert_eq!(app.results_state.selected(), Some(0));
    assert_eq!(app.results_page, 2);
    assert_eq!(app.results_total_pages, 5);
    assert_eq!(app.last_query.as_deref(), Some("naruto"));
    assert_eq!(app.loading, LoadingState::Idle);
    assert_eq!(app.info_message, None);
    let mut none = new_app();
    none.set_search_results(vec![], 1, 1, "x".to_string());
    assert_eq!(none.screen, Screen::Search);
    assert_eq!(none.results_state.selected(), None);
    assert_eq!(none.last_query.as_deref(), Some("x"));
}

#[test]
fn episodes_and_sources_arrive() {
    let mut app = new_app();
    app.set_episodes(anime("a"), vec![episode(1), episode(2)]);
    assert_eq!(app.screen, Screen::Episodes);
    assert_eq!(app.episodes_state.selected(), Some(0));
    assert_eq!(app.selected_anime.as_ref().map(|a| a.slug.as_str()), Some("a"));
    app.selected_audio = AudioType::Dub;
    app.set_sources(episode(2), EpisodeSources { sub: vec![source("HLS", AudioType::Sub)], dub: vec![] });
    assert_eq!(app.screen, Screen::Sources);
    assert_eq!(app.selected_audio, AudioType::Sub);
    assert_eq!(app.sources_state.selected(), Some(0));
    assert_eq!(app.selected_episode.as_ref().map(|e| e.number), Some(2));
    let mut empty = new_app();
    empty.set_sources(episode(1), EpisodeSources::default());
    assert_eq!(empty.screen, Screen::Sources);
    assert_eq!(empty.sources_state.selected(), None);
}

#[test]
fn errors_and_info() {
    let mut app = new_app();
    app.loading = LoadingState::LoadingEpisodes;
    app.set_error("fallo".to_string());
    assert_eq!(app.error_message.as_deref(), Some("fallo"));
    assert_eq!(app.loading, LoadingState::Idle);
    app.set_info("hola".to_string());
    assert_eq!(app.info_message.as_deref(), Some("hola"));
}

#[test]
fn spinner_cycles_through_eight_frames() {
    let mut app = new_app();
    let frames = ['⠋', '⠙', '⠹', '⠸', '⠼', '⠴', '⠦', '⠧'];
    for i in 0..8 {
        assert_eq!(app.spinner_char(), frames[i]);
        app.tick_spinner();
    }
    assert_eq!(app.spinner_frame, 0);
    assert_eq!(app.spinner_char(), '⠋');
}

#[test]
fn list_state_default() {
    let s = ListState::default();
    assert_eq!(s.selected(), None);
    let mut t = ListState::new();
    t.select(Some(4));
    assert_eq!(t.selected(), Some(4));
}

#[test]
fn backspace_deletes_the_whole_character_before_the_cursor() {
    let mut app = new_app();
    app.search_input = "añb".to_string();
    app.cursor_position = 3; // just after 'ñ'
    app.delete_char();
    assert_eq!(app.search_input, "ab");
    assert_eq!(app.cursor_position, 1);
    let mut typed = new_app();
    typed.input_char('ñ'); // the cursor moves past both bytes of 'ñ'
    assert_eq!(typed.cursor_position, 2);
    typed.delete_char();
    assert_eq!(typed.search_input, "");
    assert_eq!(typed.cursor_position, 0);
    let mut end = new_app();
    end.search_input = "x€".to_string();
    end.cursor_end();
    end.delete_char();
    assert_eq!(end.search_input, "x");
    assert_eq!(end.cursor_position, 1);
}

#[test]
fn typing_after_a_multibyte_character() {
    let mut app = new_app();
    app.input_char('ñ');
    app.input_char('a');
    app.input_char('😀');
    app.input_char('b');
    assert_eq!(app.search_input, "ña😀b");
    assert_eq!(app.cursor_position, 8);
    assert!(app.search_input.is_char_boundary(app.cursor_position));
    app.delete_char();
    app.delete_char();
    assert_eq!(app.search_input, "ña");
    assert_eq!(app.cursor_position, 3);
}
