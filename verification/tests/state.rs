use std::path::PathBuf;
use tui_gpu::config::{
    bytes_to_samples, has_gpu_demo, sanitize_compute, select_runner, tui_runner, uses_input_feed, AppMode, ComputeMode,
    DemoKind, Runner,
};
use tui_gpu::fps::FpsLogger;
use tui_gpu::input::{
    InputFocus, LogicalKey, NamedKey, PhysicalKey, TuiInputState, WindowInputState, WindowKey,
};
use tui_gpu::keys::{DOOM_KEY_LEFT, DOOM_KEY_RIGHT, DOOM_KEY_UP};
use tui_gpu::mouse::{MouseTurnState, TurnInput};
use tui_gpu::term_keys::{TermKey, TermKeyCode, TermKeyKind, TermModifiers};
use tui_gpu::text::chars_of;
use tui_gpu::youtube::{
    direct_url_from_output, parse_bool, parse_u32, plan_media, video_width, MediaPlan,
    YoutubeEnv, YoutubeSettings,
};

fn key(code: TermKeyCode, kind: TermKeyKind) -> TermKey {
    TermKey {
        code,
        kind,
        modifiers: TermModifiers {
            shift: false,
            control: false,
            alt: false,
            super_key: false,
            hyper: false,
            meta: false,
        },
    }
}

#[test]
fn mouse_turns_hold_and_release() {
    let mut m = MouseTurnState::new();
    assert_eq!(m.process_delta(TurnInput::Right), vec![(true, DOOM_KEY_RIGHT)]);
    assert_eq!(m.process_delta(TurnInput::Right), vec![]);
    assert_eq!(m.tick(), Vec::<u8>::new());
    assert_eq!(m.tick(), vec![DOOM_KEY_RIGHT]);
    assert_eq!(m.tick(), Vec::<u8>::new());
    assert_eq!(m.process_delta(TurnInput::Still), vec![]);
}

#[test]
fn mouse_turn_reverses_and_resets() {
    let mut m = MouseTurnState::new();
    m.process_delta(TurnInput::Left);
    assert_eq!(
        m.process_delta(TurnInput::Right),
        vec![(true, DOOM_KEY_RIGHT), (false, DOOM_KEY_LEFT)]
    );
    assert_eq!(m.reset(), vec![DOOM_KEY_RIGHT]);
    assert_eq!(m.reset(), Vec::<u8>::new());
}

#[test]
fn mouse_turn_presses_and_releases_alternate() {
    let mut m = MouseTurnState::new();
    let mut held = [false, false];
    let slot = |k: u8| if k == DOOM_KEY_LEFT { 0 } else { 1 };
    let inputs = [
        TurnInput::Right,
        TurnInput::Left,
        TurnInput::Left,
        TurnInput::Still,
        TurnInput::Right,
        TurnInput::Right,
        TurnInput::Left,
    ];
    for (step, input) in inputs.iter().enumerate() {
        for (press, key) in m.process_delta(*input) {
            assert_ne!(held[slot(key)], press, "step {step}");
            held[slot(key)] = press;
        }
        assert!(!(held[0] && held[1]));
        let released = if step % 3 == 2 { m.reset() } else { m.tick() };
        for key in released {
            assert!(held[slot(key)], "step {step}");
            held[slot(key)] = false;
        }
    }
    for key in m.reset() {
        assert!(held[slot(key)]);
        held[slot(key)] = false;
    }
    assert_eq!(held, [false, false]);
}

#[test]
fn terminal_renderer_loop_choice() {
    assert_eq!(tui_runner(DemoKind::Terminal, ComputeMode::Gpu), Runner::TuiTerminal);
    assert_eq!(tui_runner(DemoKind::Terminal, ComputeMode::Cpu), Runner::TuiTerminal);
    assert_eq!(tui_runner(DemoKind::Plasma, ComputeMode::Cpu), Runner::TuiCpu);
    assert_eq!(tui_runner(DemoKind::Ray, ComputeMode::Gpu), Runner::TuiGpu);
    assert_eq!(tui_runner(DemoKind::Doom, ComputeMode::Gpu), Runner::TuiGpu);
    assert!(has_gpu_demo(DemoKind::Plasma));
    assert!(has_gpu_demo(DemoKind::Ray));
    assert!(!has_gpu_demo(DemoKind::Doom));
    assert!(!has_gpu_demo(DemoKind::Youtube));
    assert!(!has_gpu_demo(DemoKind::Terminal));
}

#[test]
fn doom_starts_with_the_feed_focused_and_f9_toggles() {
    let mut s = TuiInputState::new(DemoKind::Doom, true);
    assert_eq!(s.focus(), InputFocus::Feed);
    let w = s.handle_key(key(TermKeyCode::Char('w'), TermKeyKind::Press));
    assert!(w.consumed);
    assert_eq!(w.feed_event, Some(vec![1, DOOM_KEY_UP]));
    let up = s.handle_key(key(TermKeyCode::Char('w'), TermKeyKind::Release));
    assert_eq!(up.feed_event, Some(vec![0, DOOM_KEY_UP]));
    let f9 = s.handle_key(key(TermKeyCode::F(9), TermKeyKind::Press));
    assert!(f9.consumed && f9.feed_event.is_none());
    assert_eq!(s.focus(), InputFocus::Terminal);
    let t = s.handle_key(key(TermKeyCode::Char('w'), TermKeyKind::Press));
    assert!(!t.consumed && t.feed_event.is_none());
    s.handle_key(key(TermKeyCode::F(9), TermKeyKind::Press));
    assert_eq!(s.focus(), InputFocus::Feed);
}

#[test]
fn without_a_feed_keys_stay_with_the_terminal() {
    let mut s = TuiInputState::new(DemoKind::Doom, false);
    assert_eq!(s.focus(), InputFocus::Terminal);
    assert!(!s.toggle());
    let f9 = s.handle_key(key(TermKeyCode::F(9), TermKeyKind::Press));
    assert!(!f9.consumed);
    assert_eq!(s.focus(), InputFocus::Terminal);
    let plasma = TuiInputState::new(DemoKind::Plasma, true);
    assert_eq!(plasma.focus(), InputFocus::Terminal);
}

#[test]
fn feed_gets_terminal_bytes_outside_doom() {
    let mut s = TuiInputState::new(DemoKind::Plasma, true);
    assert!(s.toggle());
    let r = s.handle_key(key(TermKeyCode::Left, TermKeyKind::Press));
    assert_eq!(r.feed_event, Some(b"\x1b[D".to_vec()));
    let rel = s.handle_key(key(TermKeyCode::Left, TermKeyKind::Release));
    assert!(!rel.consumed && rel.feed_event.is_none());
}

fn wkey(logical: LogicalKey, physical: PhysicalKey, pressed: bool, text: Option<&str>) -> WindowKey {
    WindowKey { logical, physical, pressed, text: text.map(|t| t.to_string()) }
}

#[test]
fn window_keys_route_to_shell_or_feed() {
    let mut s = WindowInputState::new(DemoKind::Terminal, true);
    assert_eq!(s.focus(), InputFocus::Terminal);
    let a = s.handle_key(&wkey(LogicalKey::Character("é".into()), PhysicalKey::Other, true, Some("é")));
    assert_eq!(a.terminal_write, Some("é".as_bytes().to_vec()));
    let esc = s.handle_key(&wkey(LogicalKey::Named(NamedKey::Escape), PhysicalKey::Escape, true, None));
    assert!(esc.exit);
    assert_eq!(esc.terminal_write, Some(vec![0x1b]));
    let f9 = s.handle_key(&wkey(LogicalKey::Named(NamedKey::F9), PhysicalKey::Other, true, None));
    assert!(!f9.exit && f9.terminal_write.is_none());
    assert_eq!(s.focus(), InputFocus::Feed);
    let up = s.handle_key(&wkey(LogicalKey::Named(NamedKey::ArrowUp), PhysicalKey::ArrowUp, true, None));
    assert_eq!(up.feed_event, Some(b"\x1b[A".to_vec()));
    assert!(s.toggle_input_focus());
    assert_eq!(s.focus(), InputFocus::Terminal);
}

#[test]
fn compute_and_runner_selection() {
    assert_eq!(sanitize_compute(DemoKind::Plasma, ComputeMode::Gpu), ComputeMode::Gpu);
    assert_eq!(sanitize_compute(DemoKind::Doom, ComputeMode::Gpu), ComputeMode::Cpu);
    assert_eq!(select_runner(DemoKind::Ray, ComputeMode::Gpu, AppMode::Tui), Runner::TuiGpu);
    assert_eq!(select_runner(DemoKind::Youtube, ComputeMode::Gpu, AppMode::Tui), Runner::TuiCpu);
    assert_eq!(select_runner(DemoKind::Terminal, ComputeMode::Gpu, AppMode::Tui), Runner::TuiTerminal);
    assert_eq!(select_runner(DemoKind::Doom, ComputeMode::Cpu, AppMode::Gui), Runner::Gui);
    assert!(uses_input_feed(DemoKind::Doom));
    assert!(!uses_input_feed(DemoKind::Ray));
}

#[test]
fn pcm_bytes_to_samples() {
    assert_eq!(bytes_to_samples(&[0x01, 0x00, 0xff, 0xff, 0x00, 0x80, 0x07]), vec![1, -1, i16::MIN]);
    assert_eq!(bytes_to_samples(&[]), Vec::<i16>::new());
}

#[test]
fn fps_counter_reports_after_the_interval() {
    let mut f = FpsLogger::new("tui".to_string(), 1_000_000_000);
    assert_eq!(f.tick(10), None);
    assert_eq!(f.tick(999_999_999), None);
    assert_eq!(f.tick(1_000_000_000), Some(3));
    assert_eq!(f.frames(), 0);
    assert_eq!(f.tick(5), None);
    assert_eq!(f.label(), "tui");
}

#[test]
fn numbers_parse_like_str_parse() {
    for s in ["0", "+7", "4294967295", "00012", "", "+", "-1", "4294967296", " 1", "1a"] {
        assert_eq!(parse_u32(s), s.parse::<u32>().ok(), "{s:?}");
    }
    for s in ["true", "false", "True", "", "1", "false "] {
        assert_eq!(parse_bool(s), s.parse::<bool>().ok(), "{s:?}");
    }
}

fn env() -> YoutubeEnv {
    YoutubeEnv {
        url: None,
        input: None,
        width: None,
        height: None,
        fps: None,
        yt_dlp: None,
        ffmpeg: None,
        video_format: None,
        audio_format: None,
        audio_rate: None,
        audio: None,
    }
}

#[test]
fn youtube_settings_defaults_and_overrides() {
    let d = YoutubeSettings::from_vars(env(), None);
    assert_eq!((d.width, d.height, d.fps, d.audio_sample_rate), (320, None, 24, 44100));
    assert_eq!(d.yt_dlp, "yt-dlp");
    assert_eq!(d.ffmpeg, "ffmpeg");
    assert_eq!(d.audio_format, "bestaudio/best");
    assert!(d.audio_enabled);
    let mut e = env();
    e.width = Some("640".into());
    e.height = Some("x".into());
    e.fps = Some("-3".into());
    e.audio = Some("false".into());
    e.ffmpeg = Some("/usr/bin/ffmpeg".into());
    e.input = Some(PathBuf::from("/tmp/video.mp4"));
    let s = YoutubeSettings::from_vars(e, None);
    assert_eq!((s.width, s.height, s.fps), (640, None, 24));
    assert!(!s.audio_enabled);
    assert_eq!(s.ffmpeg, "/usr/bin/ffmpeg");
    assert!(matches!(plan_media(&s), MediaPlan::File { audio: false }));
    let mut e = env();
    e.audio = Some("false".into());
    let s = YoutubeSettings::from_vars(e, Some(true));
    assert!(s.audio_enabled);
    match plan_media(&s) {
        MediaPlan::Url { page, audio } => {
            assert_eq!(page, "https://www.youtube.com/watch?v=dQw4w9WgXcQ");
            assert!(audio);
        }
        _ => panic!("expected a URL plan"),
    }
    let mut z = YoutubeSettings::from_vars(env(), None);
    z.width = 0;
    assert_eq!(video_width(&z), 1);
}

#[test]
fn direct_url_is_the_first_trimmed_line() {
    assert_eq!(
        direct_url_from_output("  https://a/b  \r\nhttps://c\n").as_deref(),
        Some("https://a/b")
    );
    assert_eq!(direct_url_from_output(""), None);
    assert_eq!(direct_url_from_output("\n").as_deref(), Some(""));
}

#[test]
fn characters_of_a_string() {
    assert_eq!(chars_of("aé€"), vec!['a', 'é', '€']);
}
