//! Settings of the YouTube demo: how the environment's values are read into
//! them, where the video and audio come from, and how the direct media URL is
//! read from the output of `yt-dlp`.

use vstd::prelude::*;
use std::path::PathBuf;
use crate::config::{RGB_DEMO_WIDTH};
use crate::template::{all_digits, digits_value, is_digit, lemma_decimal_digits, lemma_digits_value_grows};
use crate::text::{chars_of, decimal, lines_of, split_lines, string_of, trim, trim_chars};

verus! {

/// The video played when no URL is configured.
pub const DEFAULT_URL: &'static str = "https://www.youtube.com/watch?v=dQw4w9WgXcQ";
/// The `yt-dlp` format of the video stream.
pub const DEFAULT_VIDEO_FORMAT: &'static str = "bestvideo[ext=mp4][vcodec^=avc1]/bestvideo[ext=mp4]/bestvideo";
/// The `yt-dlp` format of the audio stream.
pub const DEFAULT_AUDIO_FORMAT: &'static str = "bestaudio/best";
/// The `ffmpeg` program.
pub const DEFAULT_FFMPEG: &'static str = "ffmpeg";
/// The `yt-dlp` program.
pub const DEFAULT_YTDLP: &'static str = "yt-dlp";
/// The audio sample rate in Hz.
pub const DEFAULT_AUDIO_RATE: u32 = 44100;
/// The frame rate of the decoded video.
pub const DEFAULT_FPS: u32 = 24;

/// Settings of the YouTube demo.
#[derive(Clone)]
pub struct YoutubeSettings {
    pub url: Option<String>,
    pub input: Option<PathBuf>,
    pub width: u32,
    pub height: Option<u32>,
    pub fps: u32,
    pub yt_dlp: String,
    pub ffmpeg: String,
    pub video_format: String,
    pub audio_format: String,
    pub audio_sample_rate: u32,
    pub audio_enabled: bool,
}

/// The demo's environment variables, each as read (absent when unset or not
/// Unicode): `TUI_GPU_YOUTUBE_URL`, `_INPUT`, `_WIDTH`, `_HEIGHT`, `_FPS`,
/// `_YTDLP`, `_FFMPEG`, `_FORMAT`, `_AUDIO_FORMAT`, `_AUDIO_RATE` and
/// `_AUDIO`.
pub struct YoutubeEnv {
    pub url: Option<String>,
    pub input: Option<PathBuf>,
    pub width: Option<String>,
    pub height: Option<String>,
    pub fps: Option<String>,
    pub yt_dlp: Option<String>,
    pub ffmpeg: Option<String>,
    pub video_format: Option<String>,
    pub audio_format: Option<String>,
    pub audio_rate: Option<String>,
    pub audio: Option<String>,
}

/// The `u32` that `str::parse` reads from `s`: an optional `+`, then one or
/// more ASCII digits, with a value that fits.
pub open spec fn parse_u32_spec(s: Seq<char>) -> Option<u32> {
    let digits = if s.len() > 0 && s[0] == '+' {
        s.skip(1)
    } else {
        s
    };
    if digits.len() == 0 || !all_digits(digits) || digits_value(digits) > u32::MAX {
        None
    } else {
        Some(digits_value(digits) as u32)
    }
}

/// Numbers read back what decimal writes: the digits of any `u32`, with or
/// without a leading `+`, read as that number; a larger value, a minus sign,
/// empty text or text ending in something other than a digit read as none.
pub proof fn law_parse_u32_reads_decimal(n: nat, s: Seq<char>)
    ensures
        n <= u32::MAX ==> parse_u32_spec(decimal(n)) == Some(n as u32),
        n <= u32::MAX ==> parse_u32_spec(seq!['+'] + decimal(n)) == Some(n as u32),
        n > u32::MAX ==> parse_u32_spec(decimal(n)) is None,
        parse_u32_spec(seq!['-'] + decimal(n)) is None,
        s.len() > 0 && !is_digit(s.last()) ==> parse_u32_spec(s) is None,
        parse_u32_spec(Seq::<char>::empty()) is None,
{
    lemma_decimal_digits(n);
    let d = decimal(n);
    assert((seq!['+'] + d).skip(1) =~= d);
    assert(d[0] != '+');
    assert((seq!['-'] + d)[0] == '-');
    assert(!is_digit('-'));
    if s.len() > 0 && !is_digit(s.last()) {
        let digits = if s[0] == '+' {
            s.skip(1)
        } else {
            s
        };
        if digits.len() > 0 {
            assert(digits[digits.len() - 1] == s.last());
        }
    }
}

/// Reads a `u32` as `str::parse` does.
pub fn parse_u32(s: &str) -> (r: Option<u32>)
    ensures
        r == parse_u32_spec(s@),
{
    let v = chars_of(s);
    let n = v.len();
    let start: usize = if n > 0 && v[0] == '+' {
        1
    } else {
        0
    };
    let ghost digits = v@.skip(start as int);
    assert(start == 0 ==> digits =~= v@);
    if start >= n {
        return None;
    }
    let mut k = start;
    while k < n
        invariant
            start <= k <= n,
            n == v@.len(),
            v@ == s@,
            digits == v@.skip(start as int),
            digits == (if v@.len() > 0 && v@[0] == '+' {
                v@.skip(1)
            } else {
                v@
            }),
            forall|j: int| 0 <= j < k - start ==> is_digit(#[trigger] digits[j]),
        decreases n - k,
    {
        if !('0' <= v[k] && v[k] <= '9') {
            assert(!is_digit(digits[k - start]));
            return None;
        }
        k = k + 1;
    }
    assert(all_digits(digits));
    let mut acc: u64 = 0;
    let mut i = start;
    while i < n
        invariant
            start <= i <= n,
            n == v@.len(),
            v@ == s@,
            digits == v@.skip(start as int),
            digits == (if v@.len() > 0 && v@[0] == '+' {
                v@.skip(1)
            } else {
                v@
            }),
            all_digits(digits),
            acc <= u32::MAX,
            acc == digits_value(digits.take(i - start)),
        decreases n - i,
    {
        let ghost t = digits.take(i - start);
        let ghost t1 = digits.take(i - start + 1);
        proof {
            assert(t1.drop_last() =~= t);
            assert(t1.last() == v@[i as int]);
            assert(digits_value(t1) == digits_value(t) * 10 + (v@[i as int] as int - 48));
            lemma_digits_value_grows(digits, i - start + 1);
            lemma_digits_value_grows(digits, i - start);
        }
        let d = (v[i] as u32 - 48) as u64;
        let next = acc * 10 + d;
        if next > 0xffff_ffff {
            proof {
                assert(digits_value(t1) == next);
                lemma_digits_value_grows(digits, i - start + 1);
            }
            return None;
        }
        acc = next;
        i = i + 1;
    }
    assert(digits.take(n - start) =~= digits);
    Some(acc as u32)
}

/// The `bool` that `str::parse` reads from `s`: `true` or `false` exactly.
pub open spec fn parse_bool_spec(s: Seq<char>) -> Option<bool> {
    if s == seq!['t', 'r', 'u', 'e'] {
        Some(true)
    } else if s == seq!['f', 'a', 'l', 's', 'e'] {
        Some(false)
    } else {
        None
    }
}

fn chars_are(v: &Vec<char>, expected: &[char]) -> (r: bool)
    ensures
        r == (v@ == expected@),
{
    if v.len() != expected.len() {
        return false;
    }
    let mut i: usize = 0;
    while i < v.len()
        invariant
            i <= v@.len(),
            v@.len() == expected@.len(),
            forall|j: int| 0 <= j < i ==> v@[j] == expected@[j],
        decreases v@.len() - i,
    {
        if v[i] != expected[i] {
            return false;
        }
        i = i + 1;
    }
    assert(v@ =~= expected@);
    true
}

/// Reads a `bool` as `str::parse` does.
pub fn parse_bool(s: &str) -> (r: Option<bool>)
    ensures
        r == parse_bool_spec(s@),
{
    let v = chars_of(s);
    let t = ['t', 'r', 'u', 'e'];
    let f = ['f', 'a', 'l', 's', 'e'];
    assert(t@ =~= seq!['t', 'r', 'u', 'e']);
    assert(f@ =~= seq!['f', 'a', 'l', 's', 'e']);
    if chars_are(&v, t.as_slice()) {
        Some(true)
    } else if chars_are(&v, f.as_slice()) {
        Some(false)
    } else {
        None
    }
}

/// A number read from a variable, or `default` when it is unset or does not
/// parse.
pub open spec fn number_or(v: Option<String>, default: u32) -> u32 {
    match v {
        Some(s) => match parse_u32_spec(s@) {
            Some(n) => n,
            None => default,
        },
        None => default,
    }
}

/// A number read from a variable, if it is set and parses.
pub open spec fn number_opt(v: Option<String>) -> Option<u32> {
    match v {
        Some(s) => parse_u32_spec(s@),
        None => None,
    }
}

/// A text variable's value, or `default` when it is unset.
pub open spec fn text_or(v: Option<String>, default: Seq<char>) -> Seq<char> {
    match v {
        Some(s) => s@,
        None => default,
    }
}

/// Whether the demo plays audio: the caller's choice, else the variable's
/// value when it is `true` or `false`, else yes.
pub open spec fn audio_enabled_spec(over: Option<bool>, var: Option<String>) -> bool {
    match over {
        Some(b) => b,
        None => match var {
            Some(s) => match parse_bool_spec(s@) {
                Some(b) => b,
                None => true,
            },
            None => true,
        },
    }
}

fn read_number(v: &Option<String>) -> (r: Option<u32>)
    ensures
        r == number_opt(*v),
{
    match v {
        Some(s) => parse_u32(s.as_str()),
        None => None,
    }
}

fn text_or_default(v: Option<String>, default: &str) -> (r: String)
    ensures
        r@ == text_or(v, default@),
{
    match v {
        Some(s) => s,
        None => default.to_owned(),
    }
}

impl YoutubeSettings {
    /// The settings the environment gives, with `audio_override` deciding
    /// audio when present. Numbers that are unset or do not parse take their
    /// defaults (width 320, 24 frames per second, 44100 Hz); so do the
    /// programs and formats when unset.
    pub fn from_vars(vars: YoutubeEnv, audio_override: Option<bool>) -> (r: Self)
        ensures
            r.url == vars.url,
            r.input == vars.input,
            r.width == number_or(vars.width, RGB_DEMO_WIDTH),
            r.height == number_opt(vars.height),
            r.fps == number_or(vars.fps, DEFAULT_FPS),
            r.yt_dlp@ == text_or(vars.yt_dlp, DEFAULT_YTDLP@),
            r.ffmpeg@ == text_or(vars.ffmpeg, DEFAULT_FFMPEG@),
            r.video_format@ == text_or(vars.video_format, DEFAULT_VIDEO_FORMAT@),
            r.audio_format@ == text_or(vars.audio_format, DEFAULT_AUDIO_FORMAT@),
            r.audio_sample_rate == number_or(vars.audio_rate, DEFAULT_AUDIO_RATE),
            r.audio_enabled == audio_enabled_spec(audio_override, vars.audio),
    {
        let width = match read_number(&vars.width) {
            Some(n) => n,
            None => RGB_DEMO_WIDTH,
        };
        let height = read_number(&vars.height);
        let fps = match read_number(&vars.fps) {
            Some(n) => n,
            None => DEFAULT_FPS,
        };
        let audio_sample_rate = match read_number(&vars.audio_rate) {
            Some(n) => n,
            None => DEFAULT_AUDIO_RATE,
        };
        let audio_enabled = match audio_override {
            Some(b) => b,
            None => match &vars.audio {
                Some(s) => match parse_bool(s.as_str()) {
                    Some(b) => b,
                    None => true,
                },
                None => true,
            },
        };
        YoutubeSettings {
            url: vars.url,
            input: vars.input,
            width,
            height,
            fps,
            yt_dlp: text_or_default(vars.yt_dlp, DEFAULT_YTDLP),
            ffmpeg: text_or_default(vars.ffmpeg, DEFAULT_FFMPEG),
            video_format: text_or_default(vars.video_format, DEFAULT_VIDEO_FORMAT),
            audio_format: text_or_default(vars.audio_format, DEFAULT_AUDIO_FORMAT),
            audio_sample_rate,
            audio_enabled,
        }
    }
}

/// The audio switch: an explicit choice wins; otherwise the variable turns
/// audio off only when it reads exactly `false`, and on for `true`, for any
/// other text and when it is not set.
pub proof fn law_audio_switch(over: Option<bool>, var: Option<String>)
    ensures
        over matches Some(b) ==> audio_enabled_spec(over, var) == b,
        over is None ==> (!audio_enabled_spec(over, var) <==> (var matches Some(t) && t@ == seq![
            'f',
            'a',
            'l',
            's',
            'e',
        ])),
{
}

/// Where the demo's media comes from.
pub enum MediaPlan {
    /// The local file of the settings, for the video and, if enabled, the
    /// audio.
    File { audio: bool },
    /// The direct stream URLs that `yt-dlp` gives for this page URL, for the
    /// video and, if enabled, the audio.
    Url { page: String, audio: bool },
}

/// Where the demo's media comes from: a configured local file wins over a
/// URL, and the URL defaults to the demo video.
pub fn plan_media(settings: &YoutubeSettings) -> (r: MediaPlan)
    ensures
        settings.input is Some ==> r == (MediaPlan::File { audio: settings.audio_enabled }),
        settings.input is None ==> (r matches MediaPlan::Url { page, audio } && audio
            == settings.audio_enabled && page@ == text_or(settings.url, DEFAULT_URL@)),
{
    if settings.input.is_some() {
        return MediaPlan::File { audio: settings.audio_enabled };
    }
    let page = match &settings.url {
        Some(u) => u.clone(),
        None => DEFAULT_URL.to_owned(),
    };
    MediaPlan::Url { page, audio: settings.audio_enabled }
}

/// The width of the decoded video: the configured width, at least one pixel.
pub fn video_width(settings: &YoutubeSettings) -> (r: u32)
    ensures
        r == if settings.width == 0 {
            1
        } else {
            settings.width
        },
{
    if settings.width == 0 {
        1
    } else {
        settings.width
    }
}

/// The direct URL in the output of `yt-dlp --get-url`: its first line with
/// surrounding white space removed; `None` when the output has no line.
pub fn direct_url_from_output(output: &str) -> (r: Option<String>)
    ensures
        lines_of(output@).len() == 0 ==> r is None,
        lines_of(output@).len() > 0 ==> (r matches Some(u) && u@ == trim(lines_of(output@)[0])),
{
    let chars = chars_of(output);
    let lines = split_lines(&chars);
    if lines.len() == 0 {
        return None;
    }
    assert(lines@.map_values(|l: Vec<char>| l@)[0] == lines@[0]@);
    let first = trim_chars(&lines[0]);
    Some(string_of(first.as_slice()))
}

} // verus!
