//! What a key press or the end of a piece of background work does to the
//! interface.
//!
//! The event loop itself (reading the terminal, drawing, running searches
//! and downloads, launching players) is the caller's: it hands each key and
//! each finished piece of work to the functions here, and carries out the
//! `Command` they return.

use vstd::prelude::*;

use crate::app::{
    after_delete_char, after_episodes, after_error, after_go_back, after_input_char, after_list_down,
    after_list_up, after_search_results, after_select_first, after_select_last, after_sources, after_tick,
    after_toggle_audio, can_delete, can_insert, law_down_up_restores, lemma_moves_stay_in_list,
    shown_list_len, shown_selection, shown_sources, App, AppView, LoadingState, Screen,
};
use crate::player::{PlayResult, PlayResultView};
use crate::security::{char_is_whitespace, unicode_whitespace};
use crate::structs::{Anime, AudioType, Episode, EpisodeSources, VideoSource};
use crate::text::{chars_of, push_range, push_str, to_string, utf8_len};

verus! {

// ————————————————————————————————————————————————
// Keys and commands
// ————————————————————————————————————————————————

/// A key pressed (modifiers apart).
#[derive(Debug, Clone, Copy, PartialEq, Eq, Structural)]
pub enum Key {
    Char(char),
    Esc,
    Enter,
    Backspace,
    Home,
    End,
    Up,
    Down,
    Left,
    Right,
    PageUp,
    PageDown,
    Tab,
    BackTab,
    /// Any other key
    Other,
}

/// Background work for the caller to start.
#[derive(Debug, Clone)]
pub enum Command {
    /// Nothing to start
    Nothing,
    /// Search the catalogue, then report `AppEvent::SearchResults`
    Search { query: String, page: u32 },
    /// Load the episodes of an anime, then report `AppEvent::EpisodesLoaded`
    LoadEpisodes(Anime),
    /// Load the sources of an episode, then report `AppEvent::SourcesLoaded`
    LoadSources(Episode),
    /// Play a source, then report the outcome to `show_play_result`
    Play(VideoSource),
}

/// `Command` with its query as characters.
pub enum CommandView {
    Nothing,
    Search { query: Seq<char>, page: u32 },
    LoadEpisodes(Anime),
    LoadSources(Episode),
    Play(VideoSource),
}

impl View for Command {
    type V = CommandView;

    open spec fn view(&self) -> CommandView {
        match self {
            Command::Nothing => CommandView::Nothing,
            Command::Search { query, page } => CommandView::Search { query: query@, page: *page },
            Command::LoadEpisodes(a) => CommandView::LoadEpisodes(*a),
            Command::LoadSources(e) => CommandView::LoadSources(*e),
            Command::Play(s) => CommandView::Play(*s),
        }
    }
}

/// The outcome of background work, reported back to the interface.
pub enum AppEvent {
    /// Search results
    SearchResults { animes: Vec<Anime>, page: u32, total_pages: u32, query: String },
    /// The episodes of an anime
    EpisodesLoaded { anime: Anime, episodes: Vec<Episode> },
    /// The video sources of an episode
    SourcesLoaded { episode: Episode, sources: EpisodeSources },
    /// The work failed with this message
    Error(String),
}

// ————————————————————————————————————————————————
// Trimming
// ————————————————————————————————————————————————

/// `s` without its leading white space.
pub open spec fn trim_start(s: Seq<char>) -> Seq<char>
    decreases s.len(),
{
    if s.len() > 0 && unicode_whitespace(s[0]) {
        trim_start(s.drop_first())
    } else {
        s
    }
}

/// `s` without its trailing white space.
pub open spec fn trim_end(s: Seq<char>) -> Seq<char>
    decreases s.len(),
{
    if s.len() > 0 && unicode_whitespace(s.last()) {
        trim_end(s.drop_last())
    } else {
        s
    }
}

/// `s` without leading and trailing white space (`str::trim`).
pub open spec fn trimmed(s: Seq<char>) -> Seq<char> {
    trim_end(trim_start(s))
}

/// `str::trim`, as a new string.
pub fn trim(s: &str) -> (r: String)
    ensures
        r@ == trimmed(s@),
{
    let v = chars_of(s);
    let n = v.len();
    let mut a: usize = 0;
    assert(v@.subrange(0, n as int) =~= v@);
    while a < n && char_is_whitespace(v[a])
        invariant
            a <= n,
            n == v@.len(),
            trim_start(v@) == trim_start(v@.subrange(a as int, n as int)),
        decreases n - a,
    {
        assert(v@.subrange(a as int, n as int).drop_first() =~= v@.subrange(a + 1, n as int));
        a += 1;
    }
    assert(trim_start(v@) == v@.subrange(a as int, n as int));
    let mut b: usize = n;
    while b > a && char_is_whitespace(v[b - 1])
        invariant
            a <= b <= n,
            n == v@.len(),
            trim_end(v@.subrange(a as int, n as int)) == trim_end(v@.subrange(a as int, b as int)),
        decreases b - a,
    {
        assert(v@.subrange(a as int, b as int).drop_last() =~= v@.subrange(a as int, b - 1));
        b -= 1;
    }
    assert(trim_end(v@.subrange(a as int, b as int)) == v@.subrange(a as int, b as int));
    let mut r = String::new();
    push_range(&mut r, &v, a, b);
    assert(r@ =~= v@.subrange(a as int, b as int));
    r
}

// ————————————————————————————————————————————————
// Starting background work
// ————————————————————————————————————————————————

/// Starts a search: the interface shows it is searching.
pub fn trigger_search(app: &mut App, query: String, page: u32) -> (c: Command)
    ensures
        final(app)@ == (AppView { loading: LoadingState::SearchingAnime, ..old(app)@ }),
        c@ == (CommandView::Search { query: query@, page }),
{
    app.loading = LoadingState::SearchingAnime;
    assert(app@ =~= AppView { loading: LoadingState::SearchingAnime, ..old(app)@ });
    Command::Search { query, page }
}

/// Starts loading the episodes of an anime.
pub fn trigger_load_episodes(app: &mut App, anime: Anime) -> (c: Command)
    ensures
        final(app)@ == (AppView { loading: LoadingState::LoadingEpisodes, ..old(app)@ }),
        c@ == CommandView::LoadEpisodes(anime),
{
    app.loading = LoadingState::LoadingEpisodes;
    assert(app@ =~= AppView { loading: LoadingState::LoadingEpisodes, ..old(app)@ });
    Command::LoadEpisodes(anime)
}

/// Starts loading the sources of an episode.
pub fn trigger_load_sources(app: &mut App, episode: Episode) -> (c: Command)
    ensures
        final(app)@ == (AppView { loading: LoadingState::LoadingSources, ..old(app)@ }),
        c@ == CommandView::LoadSources(episode),
{
    app.loading = LoadingState::LoadingSources;
    assert(app@ =~= AppView { loading: LoadingState::LoadingSources, ..old(app)@ });
    Command::LoadSources(episode)
}

// ————————————————————————————————————————————————
// The search screen
// ————————————————————————————————————————————————

/// A key on the search screen can be handled without a panic: Backspace
/// needs a deletable character, and a typed character a cursor where it
/// can go.
pub open spec fn search_key_ok(a: AppView, key: Key, ctrl: bool) -> bool {
    match key {
        Key::Backspace => can_delete(a),
        Key::Char(c) => (c == 'q' && a.search_input.len() == 0) || (c == 'u' && ctrl) || can_insert(a),
        _ => true,
    }
}

/// A key on the search screen: Esc or `q` on an empty field quits; Ctrl+U
/// empties the field; Backspace, Home and End edit and move; Enter searches
/// the trimmed text, if any, from page 1; any other character is typed.
pub open spec fn on_search_key(a: AppView, key: Key, ctrl: bool) -> (AppView, CommandView) {
    if (key == Key::Esc || key == Key::Char('q')) && a.search_input.len() == 0 {
        (AppView { should_quit: true, ..a }, CommandView::Nothing)
    } else if key == Key::Char('u') && ctrl {
        (AppView { search_input: Seq::empty(), cursor_position: 0, ..a }, CommandView::Nothing)
    } else {
        match key {
            Key::Backspace => (after_delete_char(a), CommandView::Nothing),
            Key::Home => (AppView { cursor_position: 0, ..a }, CommandView::Nothing),
            Key::End => (AppView { cursor_position: utf8_len(a.search_input) as usize, ..a }, CommandView::Nothing),
            Key::Enter => {
                let q = trimmed(a.search_input);
                if q.len() > 0 {
                    (
                        AppView { loading: LoadingState::SearchingAnime, ..a },
                        CommandView::Search { query: q, page: 1 },
                    )
                } else {
                    (a, CommandView::Nothing)
                }
            },
            Key::Char(c) => (after_input_char(a, c), CommandView::Nothing),
            _ => (a, CommandView::Nothing),
        }
    }
}

/// Handles a key on the search screen (see `on_search_key`).
pub fn handle_search_input(app: &mut App, key: Key, ctrl: bool) -> (c: Command)
    requires
        search_key_ok(old(app)@, key, ctrl),
    ensures
        (final(app)@, c@) == on_search_key(old(app)@, key, ctrl),
{
    if (key == Key::Esc || key == Key::Char('q')) && app.search_input.as_str().is_empty() {
        app.should_quit = true;
        assert(app@ =~= AppView { should_quit: true, ..old(app)@ });
        return Command::Nothing;
    }
    if key == Key::Char('u') && ctrl {
        app.clear_input();
        return Command::Nothing;
    }
    match key {
        Key::Backspace => {
            app.delete_char();
            Command::Nothing
        },
        Key::Home => {
            app.cursor_home();
            Command::Nothing
        },
        Key::End => {
            app.cursor_end();
            Command::Nothing
        },
        Key::Enter => {
            let query = trim(app.search_input.as_str());
            if query.as_str().is_empty() {
                Command::Nothing
            } else {
                trigger_search(app, query, 1)
            }
        },
        Key::Char(c) => {
            app.input_char(c);
            Command::Nothing
        },
        _ => Command::Nothing,
    }
}

// ————————————————————————————————————————————————
// The results screen
// ————————————————————————————————————————————————

/// A key on the results screen: Esc or `q` goes back; Up/`k` and Down/`j`
/// move one item, PageUp and PageDown ten, Home and End to the first and
/// the last; `/` returns to the search field; Right and Left search the
/// next and the previous page of the last query, when there is one; Enter
/// loads the episodes of the selected anime.
pub open spec fn on_results_key(a: AppView, key: Key) -> (AppView, CommandView) {
    let searching = AppView { loading: LoadingState::SearchingAnime, ..a };
    match key {
        Key::Esc | Key::Char('q') => (after_go_back(a), CommandView::Nothing),
        Key::Up | Key::Char('k') => (after_list_up(a), CommandView::Nothing),
        Key::Down | Key::Char('j') => (after_list_down(a), CommandView::Nothing),
        Key::Char('/') => (AppView { screen: Screen::Search, ..a }, CommandView::Nothing),
        Key::PageUp => (list_up_times(a, LIST_PAGE as nat), CommandView::Nothing),
        Key::PageDown => (list_down_times(a, LIST_PAGE as nat), CommandView::Nothing),
        Key::Home => (after_select_first(a), CommandView::Nothing),
        Key::End => (after_select_last(a), CommandView::Nothing),
        Key::Right => match a.last_query {
            Some(q) if a.results_page < a.results_total_pages => (
                searching,
                CommandView::Search { query: q, page: (a.results_page + 1) as u32 },
            ),
            _ => (a, CommandView::Nothing),
        },
        Key::Left => match a.last_query {
            Some(q) if a.results_page > 1 => (
                searching,
                CommandView::Search { query: q, page: (a.results_page - 1) as u32 },
            ),
            _ => (a, CommandView::Nothing),
        },
        Key::Enter => match a.results_selected {
            Some(i) if i < a.search_results.len() => (
                AppView { loading: LoadingState::LoadingEpisodes, ..a },
                CommandView::LoadEpisodes(a.search_results[i as int]),
            ),
            _ => (a, CommandView::Nothing),
        },
        _ => (a, CommandView::Nothing),
    }
}

/// Handles a key on the results screen (see `on_results_key`).
pub fn handle_results_input(app: &mut App, key: Key) -> (c: Command)
    requires
        old(app).wf(),
    ensures
        final(app).wf(),
        (final(app)@, c@) == on_results_key(old(app)@, key),
{
    match key {
        Key::Esc | Key::Char('q') => {
            app.go_back();
            Command::Nothing
        },
        Key::Up | Key::Char('k') => {
            app.list_up();
            Command::Nothing
        },
        Key::Down | Key::Char('j') => {
            app.list_down();
            Command::Nothing
        },
        Key::Char('/') => {
            app.screen = Screen::Search;
            assert(app@ =~= AppView { screen: Screen::Search, ..old(app)@ });
            Command::Nothing
        },
        Key::PageUp => {
            page_up(app);
            Command::Nothing
        },
        Key::PageDown => {
            page_down(app);
            Command::Nothing
        },
        Key::Home => {
            app.select_first();
            Command::Nothing
        },
        Key::End => {
            app.select_last();
            Command::Nothing
        },
        Key::Right => {
            if app.results_page < app.results_total_pages {
                match &app.last_query {
                    Some(q) => {
                        let query = q.clone();
                        let page = app.results_page + 1;
                        trigger_search(app, query, page)
                    },
                    None => Command::Nothing,
                }
            } else {
                Command::Nothing
            }
        },
        Key::Left => {
            if app.results_page > 1 {
                match &app.last_query {
                    Some(q) => {
                        let query = q.clone();
                        let page = app.results_page - 1;
                        trigger_search(app, query, page)
                    },
                    None => Command::Nothing,
                }
            } else {
                Command::Nothing
            }
        },
        Key::Enter => {
            match app.results_state.selected() {
                Some(i) => {
                    if i < app.search_results.len() {
                        let anime = app.search_results[i].copy();
                        trigger_load_episodes(app, anime)
                    } else {
                        Command::Nothing
                    }
                },
                None => Command::Nothing,
            }
        },
        _ => Command::Nothing,
    }
}

// ————————————————————————————————————————————————
// The episodes screen
// ————————————————————————————————————————————————

/// The state after moving up `n` times.
pub open spec fn list_up_times(a: AppView, n: nat) -> AppView
    decreases n,
{
    if n == 0 {
        a
    } else {
        after_list_up(list_up_times(a, (n - 1) as nat))
    }
}

/// The state after moving down `n` times.
pub open spec fn list_down_times(a: AppView, n: nat) -> AppView
    decreases n,
{
    if n == 0 {
        a
    } else {
        after_list_down(list_down_times(a, (n - 1) as nat))
    }
}

/// How far PageUp and PageDown move in a list.
pub const LIST_PAGE: usize = 10;

/// Moves the selection of the list on display up by a page.
fn page_up(app: &mut App)
    requires
        old(app).wf(),
    ensures
        final(app).wf(),
        final(app)@ == list_up_times(old(app)@, LIST_PAGE as nat),
{
    let ghost a0 = app@;
    let mut k: usize = 0;
    while k < LIST_PAGE
        invariant
            k <= LIST_PAGE,
            app@ == list_up_times(a0, k as nat),
            app.wf(),
        decreases LIST_PAGE - k,
    {
        app.list_up();
        k += 1;
    }
}

/// Moves the selection of the list on display down by a page.
fn page_down(app: &mut App)
    requires
        old(app).wf(),
    ensures
        final(app).wf(),
        final(app)@ == list_down_times(old(app)@, LIST_PAGE as nat),
{
    let ghost a0 = app@;
    let mut k: usize = 0;
    while k < LIST_PAGE
        invariant
            k <= LIST_PAGE,
            app@ == list_down_times(a0, k as nat),
            app.wf(),
        decreases LIST_PAGE - k,
    {
        app.list_down();
        k += 1;
    }
}

/// A key on the episodes screen: Esc or `q` goes back; `/` returns to the
/// search field; Up/`k` and Down/`j` move one episode, PageUp and PageDown
/// ten, Home and End to the first and the last; Enter loads the sources of
/// the selected episode.
pub open spec fn on_episodes_key(a: AppView, key: Key) -> (AppView, CommandView) {
    let len = a.episodes.len();
    match key {
        Key::Esc | Key::Char('q') => (after_go_back(a), CommandView::Nothing),
        Key::Up | Key::Char('k') => (after_list_up(a), CommandView::Nothing),
        Key::Down | Key::Char('j') => (after_list_down(a), CommandView::Nothing),
        Key::Char('/') => (AppView { screen: Screen::Search, ..a }, CommandView::Nothing),
        Key::PageUp => (list_up_times(a, LIST_PAGE as nat), CommandView::Nothing),
        Key::PageDown => (list_down_times(a, LIST_PAGE as nat), CommandView::Nothing),
        Key::Home => (after_select_first(a), CommandView::Nothing),
        Key::End => (after_select_last(a), CommandView::Nothing),
        Key::Enter => match a.episodes_selected {
            Some(i) if i < len => (
                AppView { loading: LoadingState::LoadingSources, ..a },
                CommandView::LoadSources(a.episodes[i as int]),
            ),
            _ => (a, CommandView::Nothing),
        },
        _ => (a, CommandView::Nothing),
    }
}

/// Handles a key on the episodes screen (see `on_episodes_key`).
pub fn handle_episodes_input(app: &mut App, key: Key) -> (c: Command)
    requires
        old(app).wf(),
    ensures
        final(app).wf(),
        (final(app)@, c@) == on_episodes_key(old(app)@, key),
{
    match key {
        Key::Esc | Key::Char('q') => {
            app.go_back();
            Command::Nothing
        },
        Key::Up | Key::Char('k') => {
            app.list_up();
            Command::Nothing
        },
        Key::Down | Key::Char('j') => {
            app.list_down();
            Command::Nothing
        },
        Key::Char('/') => {
            app.screen = Screen::Search;
            assert(app@ =~= AppView { screen: Screen::Search, ..old(app)@ });
            Command::Nothing
        },
        Key::PageUp => {
            page_up(app);
            Command::Nothing
        },
        Key::PageDown => {
            page_down(app);
            Command::Nothing
        },
        Key::Home => {
            app.select_first();
            Command::Nothing
        },
        Key::End => {
            app.select_last();
            Command::Nothing
        },
        Key::Enter => {
            match app.episodes_state.selected() {
                Some(i) => {
                    if i < app.episodes.len() {
                        let episode = app.episodes[i].copy();
                        trigger_load_sources(app, episode)
                    } else {
                        Command::Nothing
                    }
                },
                None => Command::Nothing,
            }
        },
        _ => Command::Nothing,
    }
}

// ————————————————————————————————————————————————
// The sources screen
// ————————————————————————————————————————————————

/// A key on the sources screen: Esc or `q` goes back; `/` returns to the
/// search field; Up/`k` and Down/`j` move one item, PageUp and PageDown
/// ten, Home and End to the first and the last; Tab switches the audio when
/// there are dubbed sources, `s` selects SUB and `d` DUB (when there is
/// any); Enter plays the selected source.
pub open spec fn on_sources_key(a: AppView, key: Key) -> (AppView, CommandView) {
    let has_dub = a.sources_dub.len() > 0;
    match key {
        Key::Esc | Key::Char('q') => (after_go_back(a), CommandView::Nothing),
        Key::Up | Key::Char('k') => (after_list_up(a), CommandView::Nothing),
        Key::Down | Key::Char('j') => (after_list_down(a), CommandView::Nothing),
        Key::Char('/') => (AppView { screen: Screen::Search, ..a }, CommandView::Nothing),
        Key::PageUp => (list_up_times(a, LIST_PAGE as nat), CommandView::Nothing),
        Key::PageDown => (list_down_times(a, LIST_PAGE as nat), CommandView::Nothing),
        Key::Home => (after_select_first(a), CommandView::Nothing),
        Key::End => (after_select_last(a), CommandView::Nothing),
        Key::Tab | Key::BackTab => (
            if has_dub {
                after_toggle_audio(a)
            } else {
                a
            },
            CommandView::Nothing,
        ),
        Key::Char('s') => (
            if a.selected_audio != AudioType::Sub {
                after_toggle_audio(a)
            } else {
                a
            },
            CommandView::Nothing,
        ),
        Key::Char('d') => (
            if has_dub && a.selected_audio != AudioType::Dub {
                after_toggle_audio(a)
            } else {
                a
            },
            CommandView::Nothing,
        ),
        Key::Enter => match a.sources_selected {
            Some(i) if i < shown_sources(a).len() => (a, CommandView::Play(shown_sources(a)[i as int])),
            _ => (a, CommandView::Nothing),
        },
        _ => (a, CommandView::Nothing),
    }
}

/// Handles a key on the sources screen (see `on_sources_key`).
pub fn handle_sources_input(app: &mut App, key: Key) -> (c: Command)
    requires
        old(app).wf(),
    ensures
        final(app).wf(),
        (final(app)@, c@) == on_sources_key(old(app)@, key),
{
    match key {
        Key::Esc | Key::Char('q') => {
            app.go_back();
            Command::Nothing
        },
        Key::Up | Key::Char('k') => {
            app.list_up();
            Command::Nothing
        },
        Key::Down | Key::Char('j') => {
            app.list_down();
            Command::Nothing
        },
        Key::Char('/') => {
            app.screen = Screen::Search;
            assert(app@ =~= AppView { screen: Screen::Search, ..old(app)@ });
            Command::Nothing
        },
        Key::PageUp => {
            page_up(app);
            Command::Nothing
        },
        Key::PageDown => {
            page_down(app);
            Command::Nothing
        },
        Key::Home => {
            app.select_first();
            Command::Nothing
        },
        Key::End => {
            app.select_last();
            Command::Nothing
        },
        Key::Tab | Key::BackTab => {
            if app.sources.has_dub() {
                app.toggle_audio();
            }
            Command::Nothing
        },
        Key::Char('s') => {
            if app.selected_audio != AudioType::Sub {
                app.toggle_audio();
            }
            Command::Nothing
        },
        Key::Char('d') => {
            if app.sources.has_dub() && app.selected_audio != AudioType::Dub {
                app.toggle_audio();
            }
            Command::Nothing
        },
        Key::Enter => {
            let sources = app.sources.get(&app.selected_audio);
            match app.sources_state.selected() {
                Some(i) => {
                    if i < sources.len() {
                        Command::Play(sources[i].copy())
                    } else {
                        Command::Nothing
                    }
                },
                None => Command::Nothing,
            }
        },
        _ => Command::Nothing,
    }
}

/// The message shown for an outcome of playing, if any: none for a player
/// launched; "No hay fuentes disponibles" when there was no source; "Error
/// al reproducir: " and the reason on a failure.
pub open spec fn play_error_message(r: PlayResultView) -> Option<Seq<char>> {
    match r {
        PlayResultView::NoSources => Some("No hay fuentes disponibles"@),
        PlayResultView::Error(e) => Some("Error al reproducir: "@ + e),
        _ => None,
    }
}

/// The notice shown once a player has started: "mpv lanzado" or "Navegador
/// abierto", the words the log records for these outcomes.
pub open spec fn play_notice(r: PlayResultView) -> Option<Seq<char>> {
    match r {
        PlayResultView::LaunchedMpv => Some("mpv lanzado"@),
        PlayResultView::LaunchedBrowser => Some("Navegador abierto"@),
        _ => None,
    }
}

/// Shows the outcome of playing a source: an error when there was none to
/// play or playing failed; a notice when a player was launched.
pub fn show_play_result(app: &mut App, result: &PlayResult)
    ensures
        final(app)@ == match play_error_message(result@) {
            Some(m) => after_error(old(app)@, m),
            None => match play_notice(result@) {
                Some(m) => AppView { info_message: Some(m), ..old(app)@ },
                None => old(app)@,
            },
        },
{
    match result {
        PlayResult::NoSources => app.set_error(to_string("No hay fuentes disponibles")),
        PlayResult::Error(e) => {
            let mut m = to_string("Error al reproducir: ");
            push_str(&mut m, e.as_str());
            app.set_error(m);
        },
        PlayResult::LaunchedMpv => app.set_info(to_string("mpv lanzado")),
        PlayResult::LaunchedBrowser => app.set_info(to_string("Navegador abierto")),
    }
}

// ————————————————————————————————————————————————
// Finished background work
// ————————————————————————————————————————————————

/// The error shown when a search finds nothing.
pub open spec fn no_results_message(query: Seq<char>) -> Seq<char> {
    "No se encontraron resultados para \""@ + query + "\""@
}

/// The error shown when an anime has no episodes.
pub open spec fn no_episodes_message() -> Seq<char> {
    "No se encontraron episodios para este anime"@
}

/// Applies the outcome of background work: search results (an error when
/// there are none), episodes (an error when there are none), sources, or
/// an error message.
pub fn handle_app_event(app: &mut App, event: AppEvent)
    ensures
        old(app).wf() ==> final(app).wf(),
        match event {
            AppEvent::SearchResults { animes, page, total_pages, query } => final(app)@ == if animes@.len()
                == 0 {
                after_error(old(app)@, no_results_message(query@))
            } else {
                after_search_results(old(app)@, animes@, page, total_pages, query@)
            },
            AppEvent::EpisodesLoaded { anime, episodes } => final(app)@ == if episodes@.len() == 0 {
                after_error(old(app)@, no_episodes_message())
            } else {
                after_episodes(old(app)@, anime, episodes@)
            },
            AppEvent::SourcesLoaded { episode, sources } => final(app)@ == after_sources(
                old(app)@,
                episode,
                sources.sub@,
                sources.dub@,
            ),
            AppEvent::Error(msg) => final(app)@ == after_error(old(app)@, msg@),
        },
{
    match event {
        AppEvent::SearchResults { animes, page, total_pages, query } => {
            if animes.len() == 0 {
                let mut m = to_string("No se encontraron resultados para \"");
                push_str(&mut m, query.as_str());
                push_str(&mut m, "\"");
                app.set_error(m);
            } else {
                app.set_search_results(animes, page, total_pages, query);
            }
        },
        AppEvent::EpisodesLoaded { anime, episodes } => {
            if episodes.len() == 0 {
                app.set_error(to_string("No se encontraron episodios para este anime"));
            } else {
                app.set_episodes(anime, episodes);
            }
        },
        AppEvent::SourcesLoaded { episode, sources } => {
            app.set_sources(episode, sources);
        },
        AppEvent::Error(msg) => {
            app.set_error(msg);
        },
    }
}

// ————————————————————————————————————————————————
// One turn of the event loop
// ————————————————————————————————————————————————

/// A key can be handled without a panic (see `search_key_ok`).
pub open spec fn key_ok(a: AppView, key: Key, ctrl: bool) -> bool {
    (a.error_message is None && a.loading == LoadingState::Idle && a.screen == Screen::Search) ==> search_key_ok(
        a,
        key,
        ctrl,
    )
}

/// A key press: with an error on display it only clears the error; while
/// work is in progress it is ignored; otherwise the screen on display
/// handles it (any key closes Help, returning to the screen it covers).
/// Then `?`, unless it closed Help, opens Help, which remembers the screen
/// it covers.
pub open spec fn on_key_spec(a: AppView, prev: Screen, key: Key, ctrl: bool) -> (AppView, Screen, CommandView) {
    if a.error_message is Some {
        (AppView { error_message: None, ..a }, prev, CommandView::Nothing)
    } else if a.loading != LoadingState::Idle {
        (a, prev, CommandView::Nothing)
    } else {
        let (b, c) = match a.screen {
            Screen::Search => on_search_key(a, key, ctrl),
            Screen::Results => on_results_key(a, key),
            Screen::Episodes => on_episodes_key(a, key),
            Screen::Sources => on_sources_key(a, key),
            Screen::Help => (AppView { screen: prev, ..a }, CommandView::Nothing),
        };
        if key == Key::Char('?') && a.screen != Screen::Help && b.screen != Screen::Help {
            (AppView { screen: Screen::Help, ..b }, b.screen, c)
        } else {
            (b, prev, c)
        }
    }
}

/// Handles a key press (see `on_key_spec`); `prev_screen` is the screen
/// that Help covers.
pub fn on_key(app: &mut App, prev_screen: &mut Screen, key: Key, ctrl: bool) -> (c: Command)
    requires
        old(app).wf(),
        key_ok(old(app)@, key, ctrl),
    ensures
        final(app).wf(),
        (final(app)@, *final(prev_screen), c@) == on_key_spec(old(app)@, *old(prev_screen), key, ctrl),
{
    if app.error_message.is_some() {
        app.error_message = None;
        assert(app@ =~= AppView { error_message: None, ..old(app)@ });
        return Command::Nothing;
    }
    if app.loading.is_loading() {
        return Command::Nothing;
    }
    let on_help = app.screen == Screen::Help;
    let c = match app.screen {
        Screen::Search => handle_search_input(app, key, ctrl),
        Screen::Results => handle_results_input(app, key),
        Screen::Episodes => handle_episodes_input(app, key),
        Screen::Sources => handle_sources_input(app, key),
        Screen::Help => {
            app.screen = *prev_screen;
            assert(app@ =~= AppView { screen: *old(prev_screen), ..old(app)@ });
            Command::Nothing
        },
    };
    if key == Key::Char('?') && !on_help && app.screen != Screen::Help {
        let ghost b = app@;
        *prev_screen = app.screen;
        app.screen = Screen::Help;
        assert(app@ =~= AppView { screen: Screen::Help, ..b });
    }
    c
}

/// The loop's idle turn: the spinner moves while work is in progress.
pub fn on_tick(app: &mut App)
    requires
        old(app).loading != LoadingState::Idle ==> old(app).spinner_frame < 255,
    ensures
        final(app)@ == if old(app).loading != LoadingState::Idle {
            after_tick(old(app)@)
        } else {
            old(app)@
        },
{
    if app.loading.is_loading() {
        app.tick_spinner();
    }
}

// ————————————————————————————————————————————————
// Laws
// ————————————————————————————————————————————————

/// With an error on display, any key only clears it.
pub proof fn law_key_clears_error(a: AppView, prev: Screen, key: Key, ctrl: bool)
    requires
        a.error_message is Some,
    ensures
        on_key_spec(a, prev, key, ctrl) == (AppView { error_message: None, ..a }, prev, CommandView::Nothing),
{
}

/// While work is in progress (and no error is shown) every key is ignored.
pub proof fn law_keys_ignored_while_loading(a: AppView, prev: Screen, key: Key, ctrl: bool)
    requires
        a.error_message is None,
        a.loading != LoadingState::Idle,
    ensures
        on_key_spec(a, prev, key, ctrl) == (a, prev, CommandView::Nothing),
{
}

/// On a list screen, `?` opens Help over it and changes nothing else; the
/// next key, whatever it is (`?` included), closes Help and returns to that
/// screen as it was.
pub proof fn law_help_round_trip(a: AppView, prev: Screen, ctrl: bool, key: Key, ctrl2: bool)
    requires
        a.error_message is None,
        a.loading == LoadingState::Idle,
        a.screen == Screen::Results || a.screen == Screen::Episodes || a.screen == Screen::Sources,
    ensures
        ({
            let (b, p, c) = on_key_spec(a, prev, Key::Char('?'), ctrl);
            &&& b == AppView { screen: Screen::Help, ..a }
            &&& p == a.screen
            &&& c == CommandView::Nothing
            &&& on_key_spec(b, p, key, ctrl2) == (a, p, CommandView::Nothing)
        }),
{
    let (b, p, c) = on_key_spec(a, prev, Key::Char('?'), ctrl);
    assert(b =~= AppView { screen: Screen::Help, ..a });
    assert(on_key_spec(b, p, key, ctrl2).0 =~= a);
}

/// Paging through the results never leaves the pages that exist: a page
/// asked for from the results screen is between 1 and the number of pages.
pub proof fn law_paging_stays_in_range(a: AppView, key: Key)
    requires
        1 <= a.results_page <= a.results_total_pages,
    ensures
        on_results_key(a, key).1 matches CommandView::Search { page, .. } ==> 1 <= page
            <= a.results_total_pages,
{
}

proof fn lemma_trim_start_first(s: Seq<char>)
    ensures
        trim_start(s).len() > 0 ==> !unicode_whitespace(trim_start(s)[0]),
    decreases s.len(),
{
    if s.len() > 0 && unicode_whitespace(s[0]) {
        lemma_trim_start_first(s.drop_first());
    }
}

proof fn lemma_trim_end_prefix(s: Seq<char>)
    ensures
        trim_end(s).len() <= s.len(),
        forall|i: int| 0 <= i < trim_end(s).len() ==> #[trigger] trim_end(s)[i] == s[i],
    decreases s.len(),
{
    if s.len() > 0 && unicode_whitespace(s.last()) {
        lemma_trim_end_prefix(s.drop_last());
    }
}

/// Enter never searches a blank field: the query it sends is the field
/// trimmed, and it starts with a character that is not white space, so it
/// passes the blank test of `validate_search_query`.
pub proof fn law_searched_query_is_not_blank(a: AppView, ctrl: bool)
    ensures
        on_search_key(a, Key::Enter, ctrl).1 matches CommandView::Search { query, .. } ==> query
            == trimmed(a.search_input) && query.len() > 0 && !unicode_whitespace(query[0])
            && !crate::security::blank(query),
{
    let t = trim_start(a.search_input);
    lemma_trim_start_first(a.search_input);
    lemma_trim_end_prefix(t);
    if trimmed(a.search_input).len() > 0 {
        assert(trim_end(t)[0] == t[0]);
    }
}

proof fn lemma_up_times_first(b: AppView, n: nat)
    requires
        n > 0,
    ensures
        list_up_times(b, n) == list_up_times(after_list_up(b), (n - 1) as nat),
    decreases n,
{
    reveal_with_fuel(list_up_times, 2);
    if n > 1 {
        lemma_up_times_first(b, (n - 1) as nat);
        assert(list_up_times(b, n) == after_list_up(list_up_times(b, (n - 1) as nat)));
        assert(list_up_times(after_list_up(b), (n - 1) as nat) == after_list_up(
            list_up_times(after_list_up(b), (n - 2) as nat),
        ));
    }
}

proof fn lemma_down_times_first(b: AppView, n: nat)
    requires
        n > 0,
    ensures
        list_down_times(b, n) == list_down_times(after_list_down(b), (n - 1) as nat),
    decreases n,
{
    reveal_with_fuel(list_down_times, 2);
    if n > 1 {
        lemma_down_times_first(b, (n - 1) as nat);
        assert(list_down_times(b, n) == after_list_down(list_down_times(b, (n - 1) as nat)));
        assert(list_down_times(after_list_down(b), (n - 1) as nat) == after_list_down(
            list_down_times(after_list_down(b), (n - 2) as nat),
        ));
    }
}

proof fn lemma_times_stay_in_list(a: AppView, n: nat)
    requires
        shown_selection(a) matches Some(i) && i < shown_list_len(a),
        shown_list_len(a) <= usize::MAX,
    ensures
        shown_list_len(list_down_times(a, n)) == shown_list_len(a),
        shown_selection(list_down_times(a, n)) matches Some(j) && j < shown_list_len(a),
        shown_list_len(list_up_times(a, n)) == shown_list_len(a),
        shown_selection(list_up_times(a, n)) matches Some(j) && j < shown_list_len(a),
    decreases n,
{
    if n > 0 {
        lemma_times_stay_in_list(a, (n - 1) as nat);
        lemma_moves_stay_in_list(list_down_times(a, (n - 1) as nat));
        lemma_moves_stay_in_list(list_up_times(a, (n - 1) as nat));
    }
}

/// In a list, moving down `n` times and then up `n` times (PageDown then
/// PageUp), or up and then down, comes back to the item selected.
pub proof fn law_pages_restore(a: AppView, n: nat)
    requires
        shown_selection(a) matches Some(i) && i < shown_list_len(a),
        shown_list_len(a) <= usize::MAX,
    ensures
        list_up_times(list_down_times(a, n), n) == a,
        list_down_times(list_up_times(a, n), n) == a,
    decreases n,
{
    if n > 0 {
        let m = (n - 1) as nat;
        let d = list_down_times(a, m);
        let u = list_up_times(a, m);
        lemma_times_stay_in_list(a, m);
        lemma_up_times_first(after_list_down(d), n);
        lemma_down_times_first(after_list_up(u), n);
        law_down_up_restores(d);
        law_down_up_restores(u);
        law_pages_restore(a, m);
    }
}

} // verus!
