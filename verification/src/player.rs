//! Choosing how to play a video source: mpv when the server suits it and
//! mpv is installed, the system browser otherwise or when mpv fails.
//!
//! Launching mpv, asking whether it is installed and opening the browser
//! are done by the caller; this module decides, one step at a time, what to
//! do next (`PlayStep`) from what the last action gave (`PlayEvent`).

use vstd::prelude::*;

use crate::structs::{
    best_source, first_with_server, find_server, law_first_with_server, law_source_prefers_hls, law_source_then_first, law_source_then_pdrain, mpv_compatible_server, AudioType, EpisodeSources,
    VideoSource,
};
use crate::text::{lemma_first_where, starts_with, str_starts_with, to_string};

verus! {

/// The outcome of trying to play a source.
#[derive(Debug, Clone)]
pub enum PlayResult {
    /// mpv was launched
    LaunchedMpv,
    /// The system browser was opened
    LaunchedBrowser,
    /// No source of the requested audio
    NoSources,
    /// Playing failed
    Error(String),
}

/// What the playback players of the system allow.
#[derive(Debug, Clone, Copy, PartialEq, Eq, Structural)]
pub struct PlayerInfo {
    /// Whether `mpv` is installed
    pub mpv_available: bool,
}

/// The player information for a system where `mpv` is or is not installed
/// (the caller asks the system).
pub fn player_info(mpv_available: bool) -> (r: PlayerInfo)
    ensures
        r.mpv_available == mpv_available,
{
    PlayerInfo { mpv_available }
}

impl PlayerInfo {
    /// One line on the player, for the terminal.
    pub fn status_line(&self) -> (r: String)
        ensures
            self.mpv_available ==> r@ == "🎬 mpv disponible — reproducción directa sin anuncios"@,
            !self.mpv_available ==> r@ == "⚠️  mpv no encontrado — se usará el navegador del sistema"@,
    {
        if self.mpv_available {
            to_string("🎬 mpv disponible — reproducción directa sin anuncios")
        } else {
            to_string("⚠️  mpv no encontrado — se usará el navegador del sistema")
        }
    }
}

// ————————————————————————————————————————————————
// The playing procedure
// ————————————————————————————————————————————————

/// The next thing to do to play a URL.
#[derive(Debug, Clone)]
pub enum PlayStep {
    /// Ask whether mpv is installed, then report `PlayEvent::MpvAvailable`.
    CheckMpv { url: String },
    /// Launch mpv on `url`, then report `PlayEvent::MpvLaunched`.
    LaunchMpv { url: String },
    /// Open `url` in the browser, then report `PlayEvent::BrowserOpened`.
    OpenBrowser { url: String },
    /// Finished.
    Done(PlayResult),
}

/// What the last action of a `PlayStep` gave.
#[derive(Debug, Clone, Copy, PartialEq, Eq, Structural)]
pub enum PlayEvent {
    /// Whether mpv is installed
    MpvAvailable(bool),
    /// Whether mpv started
    MpvLaunched(bool),
    /// Whether the browser opened
    BrowserOpened(bool),
}

/// `PlayResult` with its message as characters.
pub enum PlayResultView {
    LaunchedMpv,
    LaunchedBrowser,
    NoSources,
    Error(Seq<char>),
}

impl View for PlayResult {
    type V = PlayResultView;

    open spec fn view(&self) -> PlayResultView {
        match self {
            PlayResult::LaunchedMpv => PlayResultView::LaunchedMpv,
            PlayResult::LaunchedBrowser => PlayResultView::LaunchedBrowser,
            PlayResult::NoSources => PlayResultView::NoSources,
            PlayResult::Error(m) => PlayResultView::Error(m@),
        }
    }
}

/// `PlayStep` with its strings as characters.
pub enum PlayStepView {
    CheckMpv(Seq<char>),
    LaunchMpv(Seq<char>),
    OpenBrowser(Seq<char>),
    Done(PlayResultView),
}

impl View for PlayStep {
    type V = PlayStepView;

    open spec fn view(&self) -> PlayStepView {
        match self {
            PlayStep::CheckMpv { url } => PlayStepView::CheckMpv(url@),
            PlayStep::LaunchMpv { url } => PlayStepView::LaunchMpv(url@),
            PlayStep::OpenBrowser { url } => PlayStepView::OpenBrowser(url@),
            PlayStep::Done(r) => PlayStepView::Done(r@),
        }
    }
}

/// The message of a failure to open the browser.
pub open spec fn browser_error_message() -> Seq<char> {
    "Error al abrir el navegador del sistema"@
}

/// The step that follows `step` when its action gave `event`; an event that
/// does not answer the step leaves it as it is.
pub open spec fn next_play_spec(step: PlayStepView, event: PlayEvent) -> PlayStepView {
    match (step, event) {
        (PlayStepView::CheckMpv(url), PlayEvent::MpvAvailable(true)) => PlayStepView::LaunchMpv(url),
        (PlayStepView::CheckMpv(url), PlayEvent::MpvAvailable(false)) => PlayStepView::OpenBrowser(url),
        (PlayStepView::LaunchMpv(_), PlayEvent::MpvLaunched(true)) => PlayStepView::Done(PlayResultView::LaunchedMpv),
        (PlayStepView::LaunchMpv(url), PlayEvent::MpvLaunched(false)) => PlayStepView::OpenBrowser(url),
        (PlayStepView::OpenBrowser(_), PlayEvent::BrowserOpened(true)) => PlayStepView::Done(
            PlayResultView::LaunchedBrowser,
        ),
        (PlayStepView::OpenBrowser(_), PlayEvent::BrowserOpened(false)) => PlayStepView::Done(
            PlayResultView::Error(browser_error_message()),
        ),
        (s, _) => s,
    }
}

/// The step that follows `step` when its action gave `event`.
pub fn next_play_step(step: PlayStep, event: PlayEvent) -> (r: PlayStep)
    ensures
        r@ == next_play_spec(step@, event),
{
    match (step, event) {
        (PlayStep::CheckMpv { url }, PlayEvent::MpvAvailable(true)) => PlayStep::LaunchMpv { url },
        (PlayStep::CheckMpv { url }, PlayEvent::MpvAvailable(false)) => PlayStep::OpenBrowser { url },
        (PlayStep::LaunchMpv { url }, PlayEvent::MpvLaunched(true)) => PlayStep::Done(PlayResult::LaunchedMpv),
        (PlayStep::LaunchMpv { url }, PlayEvent::MpvLaunched(false)) => PlayStep::OpenBrowser { url },
        (PlayStep::OpenBrowser { url }, PlayEvent::BrowserOpened(true)) => PlayStep::Done(PlayResult::LaunchedBrowser),
        (PlayStep::OpenBrowser { url }, PlayEvent::BrowserOpened(false)) => PlayStep::Done(
            PlayResult::Error(to_string("Error al abrir el navegador del sistema")),
        ),
        (s, _) => s,
    }
}

/// The message of a URL refused because it is not an http or https one.
pub open spec fn scheme_error_message() -> Seq<char> {
    "URL con esquema no permitido (solo http/https)"@
}

/// `url` is an http or https URL, the only ones handed to a player.
pub open spec fn is_http_url(url: Seq<char>) -> bool {
    starts_with(url, "https://"@) || starts_with(url, "http://"@)
}

/// The first step to play `url`: refuse it unless it is an http or https
/// URL; else ask for mpv when `try_mpv`, else open the browser.
pub open spec fn open_url_spec(url: Seq<char>, try_mpv: bool) -> PlayStepView {
    if !is_http_url(url) {
        PlayStepView::Done(PlayResultView::Error(scheme_error_message()))
    } else if try_mpv {
        PlayStepView::CheckMpv(url)
    } else {
        PlayStepView::OpenBrowser(url)
    }
}

/// Starts playing a URL: only an http or https URL is played (any other is
/// refused, so that no `javascript:` or `file:` URL reaches a player); with
/// mpv first when `try_mpv` (if it is installed and starts), else, or when
/// mpv fails, in the browser.
pub fn open_url(url: &str, try_mpv: bool) -> (r: PlayStep)
    ensures
        r@ == open_url_spec(url@, try_mpv),
{
    if !str_starts_with(url, "https://") && !str_starts_with(url, "http://") {
        PlayStep::Done(PlayResult::Error(to_string("URL con esquema no permitido (solo http/https)")))
    } else if try_mpv {
        PlayStep::CheckMpv { url: to_string(url) }
    } else {
        PlayStep::OpenBrowser { url: to_string(url) }
    }
}

/// Starts playing a source: mpv is tried only for the servers it plays
/// directly (HLS, PDrain).
pub fn play_source(source: &VideoSource) -> (r: PlayStep)
    ensures
        r@ == open_url_spec(source.url@, mpv_compatible_server(source.server@)),
{
    open_url(source.url.as_str(), source.is_mpv_compatible())
}

/// The source `play_episode` picks: the first with the preferred server
/// name when one is given; otherwise the first HLS, else the first PDrain,
/// else the first source.
pub open spec fn episode_choice(srcs: Seq<VideoSource>, preferred: Option<Seq<char>>) -> Option<int> {
    match preferred {
        Some(name) => first_with_server(srcs, name),
        None => best_source(srcs),
    }
}

/// Starts playing an episode with the given audio: picks a source (see
/// `episode_choice`) and plays it; with no source of that audio, or no
/// source of the preferred server, the result is `NoSources`.
pub fn play_episode(sources: &EpisodeSources, audio: &AudioType, preferred_server: Option<&str>) -> (r: PlayStep)
    ensures
        ({
            let srcs = sources.get_spec(*audio);
            let pref = match preferred_server {
                Some(p) => Some(p@),
                None => None,
            };
            match episode_choice(srcs, pref) {
                Some(i) => r@ == open_url_spec(srcs[i].url@, mpv_compatible_server(srcs[i].server@)),
                None => r@ == PlayStepView::Done(PlayResultView::NoSources),
            }
        }),
{
    let available = sources.get(audio);
    if available.len() == 0 {
        proof {
            lemma_first_where(|i: int| 0 <= i < available@.len() && available@[i].server@ == "HLS"@, 0, 0);
            lemma_first_where(|i: int| 0 <= i < available@.len() && available@[i].server@ == "PDrain"@, 0, 0);
            if let Some(p) = preferred_server {
                lemma_first_where(|i: int| 0 <= i < available@.len() && available@[i].server@ == p@, 0, 0);
            }
        }
        return PlayStep::Done(PlayResult::NoSources);
    }
    let choice = match preferred_server {
        Some(name) => find_server(available, name),
        None => match find_server(available, "HLS") {
            Some(i) => Some(i),
            None => match find_server(available, "PDrain") {
                Some(i) => Some(i),
                None => Some(0),
            },
        },
    };
    match choice {
        Some(i) => {
            proof {
                match preferred_server {
                    Some(p) => {
                        lemma_first_where(|i: int| 0 <= i < available@.len() && available@[i].server@ == p@, 0, available@.len() as int);
                    },
                    None => {
                        lemma_first_where(|i: int| 0 <= i < available@.len() && available@[i].server@ == "HLS"@, 0, available@.len() as int);
                        lemma_first_where(|i: int| 0 <= i < available@.len() && available@[i].server@ == "PDrain"@, 0, available@.len() as int);
                    },
                }
            }
            play_source(&available[i])
        },
        None => PlayStep::Done(PlayResult::NoSources),
    }
}

// ————————————————————————————————————————————————
// The whole procedure
// ————————————————————————————————————————————————

/// What playing a URL gives, when mpv is tried only if `try_mpv`, the
/// system has mpv or not, mpv starts or not, and the browser opens or not.
pub open spec fn play_outcome(try_mpv: bool, mpv_available: bool, mpv_starts: bool, browser_opens: bool) -> PlayResultView {
    if try_mpv && mpv_available && mpv_starts {
        PlayResultView::LaunchedMpv
    } else if browser_opens {
        PlayResultView::LaunchedBrowser
    } else {
        PlayResultView::Error(browser_error_message())
    }
}

/// Runs the procedure from `s`, answering each step as the system would.
pub open spec fn run_play(s: PlayStepView, mpv_available: bool, mpv_starts: bool, browser_opens: bool, fuel: nat) -> PlayStepView
    decreases fuel,
{
    if fuel == 0 {
        s
    } else {
        let event = match s {
            PlayStepView::CheckMpv(_) => PlayEvent::MpvAvailable(mpv_available),
            PlayStepView::LaunchMpv(_) => PlayEvent::MpvLaunched(mpv_starts),
            _ => PlayEvent::BrowserOpened(browser_opens),
        };
        match s {
            PlayStepView::Done(_) => s,
            _ => run_play(next_play_spec(s, event), mpv_available, mpv_starts, browser_opens, (fuel - 1) as nat),
        }
    }
}

/// Playing a URL always ends within three actions. An http or https URL
/// plays with mpv exactly when mpv was to be tried, is installed and starts;
/// otherwise in the browser, or with the browser's error when it does not
/// open. Any other URL is refused before any player is asked.
pub proof fn law_play_ends_in_three_steps(
    url: Seq<char>,
    try_mpv: bool,
    mpv_available: bool,
    mpv_starts: bool,
    browser_opens: bool,
)
    ensures
        run_play(open_url_spec(url, try_mpv), mpv_available, mpv_starts, browser_opens, 3) == PlayStepView::Done(
            if is_http_url(url) {
                play_outcome(try_mpv, mpv_available, mpv_starts, browser_opens)
            } else {
                PlayResultView::Error(scheme_error_message())
            },
        ),
{
    reveal_with_fuel(run_play, 4);
}


/// The source `play_episode` plays for a preferred server: the first
/// source of that server, and none when the list has none.
pub proof fn law_episode_choice_preferred(srcs: Seq<VideoSource>, name: &str)
    ensures
        forall|i: int|
            0 <= i < srcs.len() && (#[trigger] srcs[i]).server@ == name@ && (forall|j: int|
                0 <= j < i ==> srcs[j].server@ != name@) ==> episode_choice(srcs, Some(name@)) == Some(i),
        (forall|j: int| 0 <= j < srcs.len() ==> srcs[j].server@ != name@) ==> episode_choice(srcs, Some(name@))
            is None,
{
    law_first_with_server(srcs, name);
}

/// Without a preferred server, `play_episode` plays the first HLS source.
pub proof fn law_episode_choice_hls(srcs: Seq<VideoSource>)
    ensures
        forall|i: int|
            0 <= i < srcs.len() && (#[trigger] srcs[i]).server@ == "HLS"@ && (forall|j: int|
                0 <= j < i ==> srcs[j].server@ != "HLS"@) ==> episode_choice(srcs, None) == Some(i),
{
    law_source_prefers_hls(srcs);
}

/// Without a preferred server and with no HLS source, `play_episode` plays
/// the first PDrain source.
pub proof fn law_episode_choice_pdrain(srcs: Seq<VideoSource>)
    ensures
        (forall|j: int| 0 <= j < srcs.len() ==> srcs[j].server@ != "HLS"@) ==> forall|i: int|
            0 <= i < srcs.len() && (#[trigger] srcs[i]).server@ == "PDrain"@ && (forall|j: int|
                0 <= j < i ==> srcs[j].server@ != "PDrain"@) ==> episode_choice(srcs, None) == Some(i),
{
    law_source_then_pdrain(srcs);
}

/// Without a preferred server and with neither an HLS nor a PDrain source,
/// `play_episode` plays the first source; it has none to play only when the
/// list is empty.
pub proof fn law_episode_choice_first(srcs: Seq<VideoSource>)
    ensures
        (forall|j: int| 0 <= j < srcs.len() ==> srcs[j].server@ != "HLS"@ && srcs[j].server@ != "PDrain"@)
            ==> episode_choice(srcs, None) == (if srcs.len() > 0 { Some(0int) } else { None }),
        srcs.len() == 0 ==> episode_choice(srcs, None) is None,
{
    law_source_then_first(srcs);
}

} // verus!
