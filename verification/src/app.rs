//! The state of the terminal interface and how it changes.
//!
//! The screens follow Search → Results → Episodes → Sources, with Help as
//! an overlay. All the mutable state is one `App`; rendering reads it, key
//! presses and the results of background work change it.

use vstd::prelude::*;

use crate::player::PlayerInfo;
use crate::structs::{Anime, AudioType, Episode, EpisodeSources, VideoSource};
use crate::text::{
    byte_prefix, byte_suffix, char_utf8_len, chars_of, is_byte_boundary, lemma_boundary_concat, lemma_encode_concat, lemma_split_at_boundary, lemma_take_utf8_monotone, lemma_utf8_len_step, opt_chars, push_char, push_str, str_byte_len, str_byte_prefix, str_byte_suffix, string_of, to_string, utf8_len,
};

verus! {

// ————————————————————————————————————————————————
// Screens and loading
// ————————————————————————————————————————————————

/// The screen on display.
#[derive(Debug, Clone, Copy, PartialEq, Eq, Structural)]
pub enum Screen {
    /// Search input
    Search,
    /// Search results
    Results,
    /// Episodes of the selected anime
    Episodes,
    /// Video servers of the selected episode
    Sources,
    /// Help overlay
    Help,
}

/// Background work in progress.
#[derive(Debug, Clone, Copy, PartialEq, Eq, Structural)]
pub enum LoadingState {
    /// Nothing in progress
    Idle,
    /// Searching
    SearchingAnime,
    /// Loading the episodes
    LoadingEpisodes,
    /// Loading the video sources
    LoadingSources,
}

impl LoadingState {
    /// The message shown while loading.
    pub fn message(&self) -> (r: Option<&'static str>)
        ensures
            match self {
                LoadingState::Idle => r is None,
                LoadingState::SearchingAnime => r matches Some(m) && m@ == "Buscando anime..."@,
                LoadingState::LoadingEpisodes => r matches Some(m) && m@ == "Cargando episodios..."@,
                LoadingState::LoadingSources => r matches Some(m) && m@ == "Cargando fuentes de video..."@,
            },
    {
        match self {
            LoadingState::Idle => None,
            LoadingState::SearchingAnime => Some("Buscando anime..."),
            LoadingState::LoadingEpisodes => Some("Cargando episodios..."),
            LoadingState::LoadingSources => Some("Cargando fuentes de video..."),
        }
    }

    /// Whether some work is in progress.
    pub fn is_loading(&self) -> (r: bool)
        ensures
            r == (*self != LoadingState::Idle),
    {
        *self != LoadingState::Idle
    }
}

// ————————————————————————————————————————————————
// List selection
// ————————————————————————————————————————————————

/// The selected item of a list, if any.
#[derive(Debug, Clone, Copy, PartialEq, Eq, Structural)]
pub struct ListState {
    pub selected: Option<usize>,
}

impl ListState {
    /// The selection as a value.
    pub open spec fn sel(&self) -> Option<usize> {
        self.selected
    }

    /// No selection.
    pub fn new() -> (r: ListState)
        ensures
            r.sel() is None,
    {
        ListState { selected: None }
    }

    /// The selected index.
    pub fn selected(&self) -> (r: Option<usize>)
        ensures
            r == self.sel(),
    {
        self.selected
    }

    /// Selects an index (or nothing).
    pub fn select(&mut self, index: Option<usize>)
        ensures
            final(self).sel() == index,
    {
        self.selected = index;
    }
}

impl Default for ListState {
    fn default() -> (r: ListState)
        ensures
            r.sel() is None,
    {
        ListState { selected: None }
    }
}

/// The selection after moving up in a list of `len` items: from the top (or
/// from no selection) to the last item, otherwise one up.
pub open spec fn moved_up(sel: Option<usize>, len: nat) -> Option<usize> {
    let i = match sel {
        Some(i) => i as int,
        None => 0,
    };
    if i == 0 {
        Some((if len == 0 { 0 } else { len - 1 }) as usize)
    } else {
        Some((i - 1) as usize)
    }
}

/// The selection after moving down in a list of `len` items: one down,
/// from the last to the first; nothing changes in an empty list.
pub open spec fn moved_down(sel: Option<usize>, len: nat) -> Option<usize> {
    if len == 0 {
        sel
    } else {
        let i = match sel {
            Some(i) => i as int,
            None => 0,
        };
        Some(((i + 1) % (len as int)) as usize)
    }
}

fn move_up(state: &mut ListState, len: usize)
    ensures
        final(state).sel() == moved_up(old(state).sel(), len as nat),
{
    let i = match state.selected() {
        Some(i) => i,
        None => 0,
    };
    let new = if i == 0 {
        if len == 0 { 0 } else { len - 1 }
    } else {
        i - 1
    };
    state.select(Some(new));
}

fn move_down(state: &mut ListState, len: usize)
    requires
        old(state).sel() matches Some(i) ==> i < usize::MAX,
    ensures
        final(state).sel() == moved_down(old(state).sel(), len as nat),
{
    if len == 0 {
        return;
    }
    let i = match state.selected() {
        Some(i) => i,
        None => 0,
    };
    state.select(Some((i + 1) % len));
}

// ————————————————————————————————————————————————
// The application state
// ————————————————————————————————————————————————

/// The whole state of the terminal interface.
pub struct App {
    /// Screen on display
    pub screen: Screen,
    /// The application ends at the next turn of the loop
    pub should_quit: bool,
    /// Text typed in the search field
    pub search_input: String,
    /// Cursor in the search field, in bytes
    pub cursor_position: usize,
    /// The last query searched
    pub last_query: Option<String>,
    /// The animes found
    pub search_results: Vec<Anime>,
    /// Selection in the results
    pub results_state: ListState,
    /// Current page of results (from 1)
    pub results_page: u32,
    /// Number of pages of results
    pub results_total_pages: u32,
    /// The anime chosen
    pub selected_anime: Option<Anime>,
    /// Its episodes
    pub episodes: Vec<Episode>,
    /// Selection in the episodes
    pub episodes_state: ListState,
    /// The episode chosen
    pub selected_episode: Option<Episode>,
    /// Its video sources
    pub sources: EpisodeSources,
    /// The audio shown (SUB/DUB)
    pub selected_audio: AudioType,
    /// Selection in the sources
    pub sources_state: ListState,
    /// Background work in progress
    pub loading: LoadingState,
    /// Error shown to the user
    pub error_message: Option<String>,
    /// Information shown to the user
    pub info_message: Option<String>,
    /// What the system offers to play videos
    pub player_info: PlayerInfo,
    /// Frame of the loading spinner (0-7)
    pub spinner_frame: u8,
}

/// The state of the interface as values: strings as characters, lists as
/// sequences, selections as optional indices.
#[verifier::ext_equal]
pub struct AppView {
    pub screen: Screen,
    pub should_quit: bool,
    pub search_input: Seq<char>,
    pub cursor_position: usize,
    pub last_query: Option<Seq<char>>,
    pub search_results: Seq<Anime>,
    pub results_selected: Option<usize>,
    pub results_page: u32,
    pub results_total_pages: u32,
    pub selected_anime: Option<Anime>,
    pub episodes: Seq<Episode>,
    pub episodes_selected: Option<usize>,
    pub selected_episode: Option<Episode>,
    pub sources_sub: Seq<VideoSource>,
    pub sources_dub: Seq<VideoSource>,
    pub selected_audio: AudioType,
    pub sources_selected: Option<usize>,
    pub loading: LoadingState,
    pub error_message: Option<Seq<char>>,
    pub info_message: Option<Seq<char>>,
    pub player_info: PlayerInfo,
    pub spinner_frame: u8,
}

impl View for App {
    type V = AppView;

    open spec fn view(&self) -> AppView {
        AppView {
            screen: self.screen,
            should_quit: self.should_quit,
            search_input: self.search_input@,
            cursor_position: self.cursor_position,
            last_query: opt_chars(self.last_query),
            search_results: self.search_results@,
            results_selected: self.results_state.selected,
            results_page: self.results_page,
            results_total_pages: self.results_total_pages,
            selected_anime: self.selected_anime,
            episodes: self.episodes@,
            episodes_selected: self.episodes_state.selected,
            selected_episode: self.selected_episode,
            sources_sub: self.sources.sub@,
            sources_dub: self.sources.dub@,
            selected_audio: self.selected_audio,
            sources_selected: self.sources_state.selected,
            loading: self.loading,
            error_message: opt_chars(self.error_message),
            info_message: opt_chars(self.info_message),
            player_info: self.player_info,
            spinner_frame: self.spinner_frame,
        }
    }
}

/// The frames of the loading spinner.
pub open spec fn spinner_frames() -> Seq<char> {
    seq!['⠋', '⠙', '⠹', '⠸', '⠼', '⠴', '⠦', '⠧']
}

/// The sources with the audio on display.
pub open spec fn shown_sources(a: AppView) -> Seq<VideoSource> {
    match a.selected_audio {
        AudioType::Sub => a.sources_sub,
        AudioType::Dub => a.sources_dub,
    }
}

/// The number of items of the list on display (none off the list screens).
pub open spec fn shown_list_len(a: AppView) -> nat {
    match a.screen {
        Screen::Results => a.search_results.len(),
        Screen::Episodes => a.episodes.len(),
        Screen::Sources => shown_sources(a).len(),
        _ => 0,
    }
}

/// The selection of the list on display (none off the list screens).
pub open spec fn shown_selection(a: AppView) -> Option<usize> {
    match a.screen {
        Screen::Results => a.results_selected,
        Screen::Episodes => a.episodes_selected,
        Screen::Sources => a.sources_selected,
        _ => None,
    }
}

/// `a` with the selection of the list on display set to `sel` (nothing
/// changes off the list screens).
pub open spec fn with_shown_selection(a: AppView, sel: Option<usize>) -> AppView {
    match a.screen {
        Screen::Results => AppView { results_selected: sel, ..a },
        Screen::Episodes => AppView { episodes_selected: sel, ..a },
        Screen::Sources => AppView { sources_selected: sel, ..a },
        _ => a,
    }
}

/// Selecting the first item of the list on display, when it has any.
pub open spec fn after_select_first(a: AppView) -> AppView {
    if shown_list_len(a) > 0 {
        with_shown_selection(a, Some(0))
    } else {
        a
    }
}

/// Selecting the last item of the list on display, when it has any.
pub open spec fn after_select_last(a: AppView) -> AppView {
    if shown_list_len(a) > 0 {
        with_shown_selection(a, Some((shown_list_len(a) - 1) as usize))
    } else {
        a
    }
}

/// The sources with the given audio.
pub open spec fn sources_with(a: AppView, audio: AudioType) -> Seq<VideoSource> {
    match audio {
        AudioType::Sub => a.sources_sub,
        AudioType::Dub => a.sources_dub,
    }
}

/// A selection that can move down without overflow.
pub open spec fn sel_ok(sel: Option<usize>) -> bool {
    sel matches Some(i) ==> i < usize::MAX
}

/// The state's own bounds: every selection can move down.
pub open spec fn app_wf(a: AppView) -> bool {
    &&& sel_ok(a.results_selected)
    &&& sel_ok(a.episodes_selected)
    &&& sel_ok(a.sources_selected)
}

/// The cursor stands where a character can be inserted: between two
/// characters of the field, or at one of its ends (`String::insert` panics
/// elsewhere).
pub open spec fn can_insert(a: AppView) -> bool {
    is_byte_boundary(a.search_input, a.cursor_position as int)
}

/// Backspace can delete: the cursor stands between two characters of the
/// field, or at one of its ends (slicing the field panics elsewhere).
pub open spec fn can_delete(a: AppView) -> bool {
    is_byte_boundary(a.search_input, a.cursor_position as int)
}

/// Going back one screen; see `App::go_back`.
pub open spec fn after_go_back(a: AppView) -> AppView {
    let a = AppView { error_message: None, info_message: None, ..a };
    match a.screen {
        Screen::Sources => AppView { screen: Screen::Episodes, ..a },
        Screen::Episodes => AppView { screen: Screen::Results, ..a },
        Screen::Results => AppView {
            screen: Screen::Search,
            search_results: Seq::empty(),
            results_selected: None,
            ..a
        },
        Screen::Search => if a.search_input.len() == 0 {
            AppView { should_quit: true, ..a }
        } else {
            AppView { search_input: Seq::empty(), cursor_position: 0, ..a }
        },
        Screen::Help => AppView { screen: Screen::Search, ..a },
    }
}

/// Typing `c` at the cursor; see `App::input_char`.
pub open spec fn after_input_char(a: AppView, c: char) -> AppView {
    AppView {
        search_input: byte_prefix(a.search_input, a.cursor_position as int) + seq![c] + byte_suffix(
            a.search_input,
            a.cursor_position as int,
        ),
        cursor_position: (a.cursor_position + char_utf8_len(c)) as usize,
        ..a
    }
}

/// Backspace; see `App::delete_char`. The character before the cursor goes
/// and the cursor moves to where that character started; at the start of
/// the field nothing changes.
pub open spec fn after_delete_char(a: AppView) -> AppView {
    let p = a.cursor_position as int;
    if p == 0 {
        a
    } else {
        let before = byte_prefix(a.search_input, p);
        AppView {
            search_input: before.drop_last() + byte_suffix(a.search_input, p),
            cursor_position: utf8_len(before.drop_last()) as usize,
            ..a
        }
    }
}

/// Moving the selection of the list on display up.
pub open spec fn after_list_up(a: AppView) -> AppView {
    match a.screen {
        Screen::Results => AppView {
            results_selected: moved_up(a.results_selected, a.search_results.len()),
            ..a
        },
        Screen::Episodes => AppView { episodes_selected: moved_up(a.episodes_selected, a.episodes.len()), ..a },
        Screen::Sources => AppView {
            sources_selected: moved_up(a.sources_selected, shown_sources(a).len()),
            ..a
        },
        _ => a,
    }
}

/// Moving the selection of the list on display down.
pub open spec fn after_list_down(a: AppView) -> AppView {
    match a.screen {
        Screen::Results => AppView {
            results_selected: moved_down(a.results_selected, a.search_results.len()),
            ..a
        },
        Screen::Episodes => AppView {
            episodes_selected: moved_down(a.episodes_selected, a.episodes.len()),
            ..a
        },
        Screen::Sources => AppView {
            sources_selected: moved_down(a.sources_selected, shown_sources(a).len()),
            ..a
        },
        _ => a,
    }
}

/// Receiving search results; see `App::set_search_results`.
pub open spec fn after_search_results(
    a: AppView,
    animes: Seq<Anime>,
    page: u32,
    total_pages: u32,
    query: Seq<char>,
) -> AppView {
    let b = AppView {
        search_results: animes,
        results_page: page,
        results_total_pages: total_pages,
        last_query: Some(query),
        loading: LoadingState::Idle,
        error_message: None,
        info_message: None,
        ..a
    };
    if animes.len() > 0 {
        AppView { results_selected: Some(0), screen: Screen::Results, ..b }
    } else {
        b
    }
}

/// Receiving the episodes of an anime; see `App::set_episodes`.
pub open spec fn after_episodes(a: AppView, anime: Anime, episodes: Seq<Episode>) -> AppView {
    let b = AppView {
        selected_anime: Some(anime),
        episodes: episodes,
        loading: LoadingState::Idle,
        error_message: None,
        info_message: None,
        ..a
    };
    if episodes.len() > 0 {
        AppView { episodes_selected: Some(0), screen: Screen::Episodes, ..b }
    } else {
        b
    }
}

/// Receiving the sources of an episode; see `App::set_sources`.
pub open spec fn after_sources(
    a: AppView,
    episode: Episode,
    sub: Seq<VideoSource>,
    dub: Seq<VideoSource>,
) -> AppView {
    AppView {
        selected_episode: Some(episode),
        sources_sub: sub,
        sources_dub: dub,
        loading: LoadingState::Idle,
        error_message: None,
        info_message: None,
        selected_audio: AudioType::Sub,
        sources_selected: if sub.len() > 0 {
            Some(0)
        } else {
            a.sources_selected
        },
        screen: Screen::Sources,
        ..a
    }
}

/// Showing an error; see `App::set_error`.
pub open spec fn after_error(a: AppView, msg: Seq<char>) -> AppView {
    AppView { error_message: Some(msg), loading: LoadingState::Idle, ..a }
}

/// The other audio.
pub open spec fn other_audio(audio: AudioType) -> AudioType {
    match audio {
        AudioType::Sub => AudioType::Dub,
        AudioType::Dub => AudioType::Sub,
    }
}

/// Switching between SUB and DUB; see `App::toggle_audio`.
pub open spec fn after_toggle_audio(a: AppView) -> AppView {
    let audio = other_audio(a.selected_audio);
    AppView {
        selected_audio: audio,
        sources_selected: if sources_with(a, audio).len() > 0 {
            Some(0)
        } else {
            None
        },
        ..a
    }
}

/// The spinner's next frame; see `App::tick_spinner`.
pub open spec fn after_tick(a: AppView) -> AppView {
    AppView { spinner_frame: ((a.spinner_frame + 1) % 8) as u8, ..a }
}

impl App {
    /// The state's own bounds (see `app_wf`).
    pub open spec fn wf(&self) -> bool {
        app_wf(self@)
    }

    /// The initial state: the empty search screen.
    pub fn new(player_info: PlayerInfo) -> (r: App)
        ensures
            r.wf(),
            r@ == (AppView {
                screen: Screen::Search,
                should_quit: false,
                search_input: Seq::empty(),
                cursor_position: 0,
                last_query: None,
                search_results: Seq::empty(),
                results_selected: None,
                results_page: 1,
                results_total_pages: 1,
                selected_anime: None,
                episodes: Seq::empty(),
                episodes_selected: None,
                selected_episode: None,
                sources_sub: Seq::empty(),
                sources_dub: Seq::empty(),
                selected_audio: AudioType::Sub,
                sources_selected: None,
                loading: LoadingState::Idle,
                error_message: None,
                info_message: None,
                player_info: player_info,
                spinner_frame: 0,
            }),
    {
        let r = App {
            screen: Screen::Search,
            should_quit: false,
            search_input: String::new(),
            cursor_position: 0,
            last_query: None,
            search_results: Vec::new(),
            results_state: ListState::new(),
            results_page: 1,
            results_total_pages: 1,
            selected_anime: None,
            episodes: Vec::new(),
            episodes_state: ListState::new(),
            selected_episode: None,
            sources: EpisodeSources::default(),
            selected_audio: AudioType::Sub,
            sources_state: ListState::new(),
            loading: LoadingState::Idle,
            error_message: None,
            info_message: None,
            player_info,
            spinner_frame: 0,
        };
        assert(r@ =~= AppView {
            screen: Screen::Search,
            should_quit: false,
            search_input: Seq::empty(),
            cursor_position: 0,
            last_query: None,
            search_results: Seq::empty(),
            results_selected: None,
            results_page: 1,
            results_total_pages: 1,
            selected_anime: None,
            episodes: Seq::empty(),
            episodes_selected: None,
            selected_episode: None,
            sources_sub: Seq::empty(),
            sources_dub: Seq::empty(),
            selected_audio: AudioType::Sub,
            sources_selected: None,
            loading: LoadingState::Idle,
            error_message: None,
            info_message: None,
            player_info: player_info,
            spinner_frame: 0,
        });
        r
    }

    // ————————————————————————————————————————
    // Navigation
    // ————————————————————————————————————————

    /// Goes back one screen (Sources → Episodes → Results → Search), clearing
    /// the messages. Leaving the results forgets them. On the search screen
    /// an empty field quits and a filled one is cleared. Help returns to Search.
    pub fn go_back(&mut self)
        ensures
            final(self)@ == after_go_back(old(self)@),
            old(self).wf() ==> final(self).wf(),
    {
        self.error_message = None;
        self.info_message = None;
        match self.screen {
            Screen::Sources => self.screen = Screen::Episodes,
            Screen::Episodes => self.screen = Screen::Results,
            Screen::Results => {
                self.screen = Screen::Search;
                self.search_results.clear();
                self.results_state = ListState::default();
            },
            Screen::Search => {
                if self.search_input.as_str().is_empty() {
                    self.should_quit = true;
                } else {
                    self.search_input = String::new();
                    self.cursor_position = 0;
                }
            },
            Screen::Help => {
                self.screen = Screen::Search;
            },
        }
        assert(self@ =~= after_go_back(old(self)@));
    }

    // ————————————————————————————————————————
    // Text input
    // ————————————————————————————————————————

    /// Inserts a character at the cursor (a byte position) and moves the
    /// cursor right after it, on by the bytes of its UTF-8 encoding.
    pub fn input_char(&mut self, c: char)
        requires
            can_insert(old(self)@),
        ensures
            final(self)@ == after_input_char(old(self)@, c),
    {
        let ghost p0 = byte_prefix(self.search_input@, self.cursor_position as int);
        proof {
            lemma_split_at_boundary(self.search_input@, self.cursor_position as int);
        }
        let mut s = to_string(str_byte_prefix(self.search_input.as_str(), self.cursor_position));
        push_char(&mut s, c);
        let at = str_byte_len(s.as_str());
        proof {
            let t = p0 + seq![c];
            assert(s@ =~= t);
            assert(t.take(p0.len() as int + 1) =~= t);
            assert(t.take(p0.len() as int) =~= p0);
            lemma_utf8_len_step(t, p0.len() as int);
            assert(t[p0.len() as int] == c);
            assert(at == self.cursor_position + char_utf8_len(c));
        }
        push_str(&mut s, str_byte_suffix(self.search_input.as_str(), self.cursor_position));
        self.search_input = s;
        self.cursor_position = at;
        assert(self@ =~= after_input_char(old(self)@, c));
    }

    /// Deletes a character before the cursor (Backspace): see
    /// `after_delete_char`.
    pub fn delete_char(&mut self)
        requires
            can_delete(old(self)@),
        ensures
            final(self)@ == after_delete_char(old(self)@),
    {
        if self.cursor_position > 0 {
            let p = self.cursor_position;
            let before = chars_of(str_byte_prefix(self.search_input.as_str(), p));
            proof {
                lemma_split_at_boundary(self.search_input@, p as int);
                if before@.len() == 0 {
                    assert(vstd::utf8::encode_utf8(before@).len() == 0);
                }
            }
            let mut s = string_of(&before, 0, before.len() - 1);
            assert(before@.subrange(0, before@.len() - 1) =~= before@.drop_last());
            let at = str_byte_len(s.as_str());
            proof {
                lemma_take_utf8_monotone(before@, before@.len() - 1);
                assert(before@.take(before@.len() - 1) =~= before@.drop_last());
            }
            push_str(&mut s, str_byte_suffix(self.search_input.as_str(), p));
            self.search_input = s;
            self.cursor_position = at;
        }
        assert(self@ =~= after_delete_char(old(self)@));
    }

    /// Moves the cursor to the start of the field.
    pub fn cursor_home(&mut self)
        ensures
            final(self)@ == (AppView { cursor_position: 0, ..old(self)@ }),
    {
        self.cursor_position = 0;
        assert(self@ =~= AppView { cursor_position: 0, ..old(self)@ });
    }

    /// Moves the cursor to the end of the field (its length in bytes).
    pub fn cursor_end(&mut self)
        ensures
            final(self)@ == (AppView { cursor_position: utf8_len(old(self).search_input@) as usize, ..old(self)@ }),
    {
        self.cursor_position = str_byte_len(self.search_input.as_str());
        assert(self@ =~= AppView { cursor_position: utf8_len(old(self).search_input@) as usize, ..old(self)@ });
    }

    /// Empties the search field (Ctrl+U).
    pub fn clear_input(&mut self)
        ensures
            final(self)@ == (AppView { search_input: Seq::empty(), cursor_position: 0, ..old(self)@ }),
    {
        self.search_input = String::new();
        self.cursor_position = 0;
        assert(self@ =~= AppView { search_input: Seq::empty(), cursor_position: 0, ..old(self)@ });
    }

    // ————————————————————————————————————————
    // Lists
    // ————————————————————————————————————————

    /// Moves the selection of the list on display up (see `moved_up`).
    pub fn list_up(&mut self)
        ensures
            final(self)@ == after_list_up(old(self)@),
            old(self).wf() ==> final(self).wf(),
    {
        match self.screen {
            Screen::Results => {
                let len = self.search_results.len();
                move_up(&mut self.results_state, len);
            },
            Screen::Episodes => {
                let len = self.episodes.len();
                move_up(&mut self.episodes_state, len);
            },
            Screen::Sources => {
                let len = self.sources.get(&self.selected_audio).len();
                move_up(&mut self.sources_state, len);
            },
            _ => {},
        }
        assert(self@ =~= after_list_up(old(self)@));
    }

    /// Moves the selection of the list on display down (see `moved_down`).
    pub fn list_down(&mut self)
        requires
            old(self).wf(),
        ensures
            final(self).wf(),
            final(self)@ == after_list_down(old(self)@),
    {
        match self.screen {
            Screen::Results => {
                let len = self.search_results.len();
                move_down(&mut self.results_state, len);
            },
            Screen::Episodes => {
                let len = self.episodes.len();
                move_down(&mut self.episodes_state, len);
            },
            Screen::Sources => {
                let len = self.sources.get(&self.selected_audio).len();
                move_down(&mut self.sources_state, len);
            },
            _ => {},
        }
        assert(self@ =~= after_list_down(old(self)@));
    }

    /// The number of items of the list on display (0 off the list screens).
    fn shown_len(&self) -> (r: usize)
        ensures
            r == shown_list_len(self@),
    {
        match self.screen {
            Screen::Results => self.search_results.len(),
            Screen::Episodes => self.episodes.len(),
            Screen::Sources => self.sources.get(&self.selected_audio).len(),
            _ => 0,
        }
    }

    /// Sets the selection of the list on display.
    fn set_shown_selection(&mut self, sel: Option<usize>)
        ensures
            final(self)@ == with_shown_selection(old(self)@, sel),
    {
        match self.screen {
            Screen::Results => self.results_state.select(sel),
            Screen::Episodes => self.episodes_state.select(sel),
            Screen::Sources => self.sources_state.select(sel),
            _ => {},
        }
        assert(self@ =~= with_shown_selection(old(self)@, sel));
    }

    /// Selects the first item of the list on display (Home).
    pub fn select_first(&mut self)
        ensures
            final(self)@ == after_select_first(old(self)@),
            old(self).wf() ==> final(self).wf(),
    {
        if self.shown_len() > 0 {
            self.set_shown_selection(Some(0));
        }
    }

    /// Selects the last item of the list on display (End).
    pub fn select_last(&mut self)
        ensures
            final(self)@ == after_select_last(old(self)@),
            old(self).wf() ==> final(self).wf(),
    {
        let len = self.shown_len();
        if len > 0 {
            self.set_shown_selection(Some(len - 1));
        }
    }

    // ————————————————————————————————————————
    // Results of background work
    // ————————————————————————————————————————

    /// Shows the animes found: the work ends, the messages are cleared, and
    /// when there are results the first one is selected and the results
    /// screen shown.
    pub fn set_search_results(&mut self, animes: Vec<Anime>, page: u32, total_pages: u32, query: String)
        ensures
            final(self)@ == after_search_results(old(self)@, animes@, page, total_pages, query@),
    {
        let ghost a = animes@;
        let ghost q = query@;
        self.search_results = animes;
        self.results_page = page;
        self.results_total_pages = total_pages;
        self.last_query = Some(query);
        self.loading = LoadingState::Idle;
        self.error_message = None;
        self.info_message = None;
        if self.search_results.len() > 0 {
            self.results_state.select(Some(0));
            self.screen = Screen::Results;
        }
        assert(self@ =~= after_search_results(old(self)@, a, page, total_pages, q));
    }

    /// Shows the episodes of the chosen anime: the work ends, the messages
    /// are cleared, and when there are episodes the first one is selected
    /// and the episodes screen shown.
    pub fn set_episodes(&mut self, anime: Anime, episodes: Vec<Episode>)
        ensures
            final(self)@ == after_episodes(old(self)@, anime, episodes@),
    {
        let ghost e = episodes@;
        self.selected_anime = Some(anime);
        self.episodes = episodes;
        self.loading = LoadingState::Idle;
        self.error_message = None;
        self.info_message = None;
        if self.episodes.len() > 0 {
            self.episodes_state.select(Some(0));
            self.screen = Screen::Episodes;
        }
        assert(self@ =~= after_episodes(old(self)@, anime, e));
    }

    /// Shows the sources of the chosen episode on the sources screen, with
    /// SUB audio; the first SUB source is selected when there is one.
    pub fn set_sources(&mut self, episode: Episode, sources: EpisodeSources)
        ensures
            final(self)@ == after_sources(old(self)@, episode, sources.sub@, sources.dub@),
    {
        let ghost sub = sources.sub@;
        let ghost dub = sources.dub@;
        self.selected_episode = Some(episode);
        self.sources = sources;
        self.loading = LoadingState::Idle;
        self.error_message = None;
        self.info_message = None;
        self.selected_audio = AudioType::Sub;
        if self.sources.sub.len() > 0 {
            self.sources_state.select(Some(0));
        }
        self.screen = Screen::Sources;
        assert(self@ =~= after_sources(old(self)@, episode, sub, dub));
    }

    /// Shows an error; any work in progress is over.
    pub fn set_error(&mut self, msg: String)
        ensures
            final(self)@ == after_error(old(self)@, msg@),
    {
        let ghost m = msg@;
        self.error_message = Some(msg);
        self.loading = LoadingState::Idle;
        assert(self@ =~= after_error(old(self)@, m));
    }

    /// Shows an information message.
    pub fn set_info(&mut self, msg: String)
        ensures
            final(self)@ == (AppView { info_message: Some(msg@), ..old(self)@ }),
    {
        let ghost m = msg@;
        self.info_message = Some(msg);
        assert(self@ =~= AppView { info_message: Some(m), ..old(self)@ });
    }

    /// Switches between SUB and DUB; the first source of the new audio is
    /// selected, or nothing when it has none.
    pub fn toggle_audio(&mut self)
        ensures
            final(self)@ == after_toggle_audio(old(self)@),
    {
        self.selected_audio = match self.selected_audio {
            AudioType::Sub => AudioType::Dub,
            AudioType::Dub => AudioType::Sub,
        };
        let len = self.sources.get(&self.selected_audio).len();
        if len > 0 {
            self.sources_state.select(Some(0));
        } else {
            self.sources_state.select(None);
        }
        assert(self@ =~= after_toggle_audio(old(self)@));
    }

    /// Moves the spinner to its next frame, after the eighth back to the first.
    pub fn tick_spinner(&mut self)
        requires
            old(self).spinner_frame < 255,
        ensures
            final(self)@ == after_tick(old(self)@),
    {
        self.spinner_frame = (self.spinner_frame + 1) % 8;
        assert(self@ =~= after_tick(old(self)@));
    }

    /// The character of the current spinner frame.
    pub fn spinner_char(&self) -> (r: char)
        requires
            self.spinner_frame < 8,
        ensures
            r == spinner_frames()[self.spinner_frame as int],
    {
        let frames: [char; 8] = ['⠋', '⠙', '⠹', '⠸', '⠼', '⠴', '⠦', '⠧'];
        assert(frames@ == spinner_frames());
        frames[self.spinner_frame as usize]
    }
}

// ————————————————————————————————————————————————
// Laws
// ————————————————————————————————————————————————

/// Backspace right after typing a character removes exactly that
/// character: the field and the cursor are back where they were.
pub proof fn law_delete_undoes_input(a: AppView, c: char)
    requires
        can_insert(a),
        utf8_len(a.search_input) + char_utf8_len(c) <= usize::MAX,
    ensures
        can_delete(after_input_char(a, c)),
        after_delete_char(after_input_char(a, c)) == a,
{
    let s = a.search_input;
    let n = a.cursor_position as int;
    let p = byte_prefix(s, n);
    let q = byte_suffix(s, n);
    lemma_split_at_boundary(s, n);
    let pc = p + seq![c];
    let t = pc + q;
    assert(t =~= p + seq![c] + q);
    assert(pc.take(p.len() as int + 1) =~= pc);
    assert(pc.take(p.len() as int) =~= p);
    lemma_utf8_len_step(pc, p.len() as int);
    let m = utf8_len(pc) as int;
    assert(m == n + char_utf8_len(c));
    lemma_encode_concat(pc, q);
    lemma_boundary_concat(pc, q);
    let bt = vstd::utf8::encode_utf8(t);
    assert(bt.subrange(0, m) =~= vstd::utf8::encode_utf8(pc));
    assert(bt.subrange(m, bt.len() as int) =~= vstd::utf8::encode_utf8(q));
    vstd::utf8::encode_utf8_decode_utf8(pc);
    vstd::utf8::encode_utf8_decode_utf8(q);
    assert(byte_prefix(t, m) == pc);
    assert(byte_suffix(t, m) == q);
    assert(pc.drop_last() =~= p);
    let b = after_input_char(a, c);
    assert(b.search_input == t);
    assert(b.cursor_position == m);
    assert(after_delete_char(b) =~= a);
}

proof fn lemma_step_back(i: int, n: int)
    requires
        0 <= i < n,
    ensures
        (i + 1) % n == (if i + 1 < n { i + 1 } else { 0 }),
        (if i == 0 { n - 1 } else { i - 1 }) + 1 == (if i == 0 { n } else { i }),
        n % n == 0,
        i % n == i,
{
    if i + 1 < n {
        vstd::arithmetic::div_mod::lemma_small_mod((i + 1) as nat, n as nat);
    }
    vstd::arithmetic::div_mod::lemma_mod_self_0(n);
    vstd::arithmetic::div_mod::lemma_small_mod(i as nat, n as nat);
}

/// In a list, moving down and then up, or up and then down, comes back to
/// the item selected.
pub proof fn law_down_up_restores(a: AppView)
    requires
        shown_selection(a) matches Some(i) && i < shown_list_len(a),
        shown_list_len(a) <= usize::MAX,
    ensures
        after_list_up(after_list_down(a)) == a,
        after_list_down(after_list_up(a)) == a,
{
    let i = shown_selection(a).unwrap() as int;
    let n = shown_list_len(a) as int;
    lemma_step_back(i, n);
    assert(after_list_up(after_list_down(a)) =~= a);
    assert(after_list_down(after_list_up(a)) =~= a);
}

/// Moving up or down in a list keeps a selection within it, and the list
/// itself.
pub proof fn lemma_moves_stay_in_list(a: AppView)
    requires
        shown_selection(a) matches Some(i) && i < shown_list_len(a),
        shown_list_len(a) <= usize::MAX,
    ensures
        shown_list_len(after_list_down(a)) == shown_list_len(a),
        shown_selection(after_list_down(a)) matches Some(j) && j < shown_list_len(a),
        shown_list_len(after_list_up(a)) == shown_list_len(a),
        shown_selection(after_list_up(a)) matches Some(j) && j < shown_list_len(a),
{
    let i = shown_selection(a).unwrap() as int;
    lemma_step_back(i, shown_list_len(a) as int);
}

/// Switching the audio twice comes back to the audio shown, with its first
/// source selected (nothing when it has none).
pub proof fn law_toggle_audio_twice(a: AppView)
    ensures
        after_toggle_audio(after_toggle_audio(a)) == (AppView {
            sources_selected: if shown_sources(a).len() > 0 {
                Some(0)
            } else {
                None
            },
            ..a
        }),
{
    assert(other_audio(other_audio(a.selected_audio)) == a.selected_audio);
    assert(after_toggle_audio(after_toggle_audio(a)) =~= AppView {
        sources_selected: if shown_sources(a).len() > 0 {
            Some(0)
        } else {
            None
        },
        ..a
    });
}

/// The spinner after `n` frames.
pub open spec fn after_ticks(a: AppView, n: nat) -> AppView
    decreases n,
{
    if n == 0 {
        a
    } else {
        after_tick(after_ticks(a, (n - 1) as nat))
    }
}

/// The spinner stays among its eight frames, and eight frames bring it
/// back to where it was.
pub proof fn law_spinner_cycles(a: AppView)
    requires
        a.spinner_frame < 8,
    ensures
        after_tick(a).spinner_frame < 8,
        after_ticks(a, 8) == a,
{
    reveal_with_fuel(after_ticks, 9);
    assert(after_ticks(a, 8) =~= a);
}

/// Esc walks back from the sources to the search field: Sources, Episodes,
/// Results, Search; the search results are forgotten on the way, and the
/// messages cleared; nothing else changes.
pub proof fn law_back_to_search(a: AppView)
    requires
        a.screen == Screen::Sources,
    ensures
        after_go_back(after_go_back(after_go_back(a))) == (AppView {
            screen: Screen::Search,
            search_results: Seq::empty(),
            results_selected: None,
            error_message: None,
            info_message: None,
            ..a
        }),
{
    assert(after_go_back(after_go_back(after_go_back(a))) =~= AppView {
        screen: Screen::Search,
        search_results: Seq::empty(),
        results_selected: None,
        error_message: None,
        info_message: None,
        ..a
    });
}

} // verus!
