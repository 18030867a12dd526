use ani_tui::player::{next_play_step, open_url, play_episode, play_source, player_info, PlayEvent, PlayResult, PlayStep};
use ani_tui::structs::{AudioType, EpisodeSources, VideoSource};

fn source(server: &str, audio: AudioType) -> VideoSource {
    VideoSource { server: server.to_string(), url: format!("https://x/{}", server), audio, quality: None }
}

fn url_of(step: &PlayStep) -> Option<&str> {
    match step {
        PlayStep::CheckMpv { url } | PlayStep::LaunchMpv { url } | PlayStep::OpenBrowser { url } => Some(url),
        PlayStep::Done(_) => None,
    }
}

fn run(mut step: PlayStep, mpv: bool, starts: bool, opens: bool) -> PlayResult {
    for _ in 0..3 {
        let event = match step {
            PlayStep::CheckMpv { .. } => PlayEvent::MpvAvailable(mpv),
            PlayStep::LaunchMpv { .. } => PlayEvent::MpvLaunched(starts),
            PlayStep::OpenBrowser { .. } => PlayEvent::BrowserOpened(opens),
            PlayStep::Done(r) => return r,
        };
        step = next_play_step(step, event);
    }
    match step {
        PlayStep::Done(r) => r,
        _ => panic!("playing did not end in three steps"),
    }
}

#[test]
fn status_lines() {
    assert_eq!(player_info(true).status_line(), "🎬 mpv disponible — reproducción directa sin anuncios");
    assert_eq!(player_info(false).status_line(), "⚠️  mpv no encontrado — se usará el navegador del sistema");
}

#[test]
fn playing_a_url() {
    assert!(matches!(run(open_url("https://a", true), true, true, true), PlayResult::LaunchedMpv));
    assert!(matches!(run(open_url("https://a", true), true, false, true), PlayResult::LaunchedBrowser));
    assert!(matches!(run(open_url("https://a", true), false, true, true), PlayResult::LaunchedBrowser));
    assert!(matches!(run(open_url("https://a", false), true, true, true), PlayResult::LaunchedBrowser));
    match run(open_url("https://a", false), true, true, false) {
        PlayResult::Error(e) => assert_eq!(e, "Error al abrir el navegador del sistema"),
        other => panic!("unexpected {:?}", other),
    }
}

#[test]
fn steps_keep_the_url() {
    let s = open_url("https://a/b", true);
    assert!(matches!(s, PlayStep::CheckMpv { .. }));
    assert_eq!(url_of(&s), Some("https://a/b"));
    let s = next_play_step(s, PlayEvent::MpvAvailable(true));
    assert!(matches!(s, PlayStep::LaunchMpv { .. }));
    assert_eq!(url_of(&s), Some("https://a/b"));
    // an event that does not answer the step leaves it as it is
    let s = next_play_step(s, PlayEvent::BrowserOpened(true));
    assert!(matches!(s, PlayStep::LaunchMpv { .. }));
}

#[test]
fn sources_try_mpv_only_when_it_can_play_them() {
    assert!(matches!(play_source(&source("HLS", AudioType::Sub)), PlayStep::CheckMpv { .. }));
    assert!(matches!(play_source(&source("PDrain", AudioType::Sub)), PlayStep::CheckMpv { .. }));
    assert!(matches!(play_source(&source("Mega", AudioType::Sub)), PlayStep::OpenBrowser { .. }));
}

#[test]
fn choosing_the_source_of_an_episode() {
    let s = EpisodeSources {
        sub: vec![source("Mega", AudioType::Sub), source("PDrain", AudioType::Sub), source("HLS", AudioType::Sub)],
        dub: vec![source("Mega", AudioType::Dub)],
    };
    assert_eq!(url_of(&play_episode(&s, &AudioType::Sub, None)), Some("https://x/HLS"));
    assert_eq!(url_of(&play_episode(&s, &AudioType::Sub, Some("Mega"))), Some("https://x/Mega"));
    assert!(matches!(play_episode(&s, &AudioType::Sub, Some("Otro")), PlayStep::Done(PlayResult::NoSources)));
    assert!(matches!(play_episode(&s, &AudioType::Dub, None), PlayStep::OpenBrowser { .. }));
    let empty = EpisodeSources::default();
    assert!(matches!(play_episode(&empty, &AudioType::Sub, None), PlayStep::Done(PlayResult::NoSources)));
}

#[test]
fn only_http_urls_are_played() {
    for url in ["javascript:alert(1)", "file:///etc/passwd", "ftp://x/v.mp4"] {
        match open_url(url, true) {
            PlayStep::Done(PlayResult::Error(e)) => assert_eq!(e, "URL con esquema no permitido (solo http/https)"),
            other => panic!("unexpected {:?}", other),
        }
    }
    let bad = VideoSource { server: "HLS".to_string(), url: "javascript:x".to_string(), audio: AudioType::Sub, quality: None };
    assert!(matches!(play_source(&bad), PlayStep::Done(PlayResult::Error(_))));
}
