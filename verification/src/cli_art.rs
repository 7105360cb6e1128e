//! CLI art, banners and the progress lines of the dubbing pipeline. Each
//! reporting function returns the lines to log, in order.
use vstd::prelude::*;
use crate::strings::{cat, cat3, contains_seq, contains_str, decimal, owned, repeat, repeat_char,
    str_eq, two_digits, u64_to_decimal, usize_to_decimal, zero_padded};
use crate::task::{EmbedVideoType, StepParam, SubtitleResultType};

verus! {

/// The startup banner.
pub const BANNER: &'static str = r#"
    ┏━━━━━━━━━━━━━━━━━━━━━━━━━━━━━━━━━┓
    ┃                                   ┃
    ┃   ██╗   ██╗██████╗ ██╗   ██╗██████╗  ┃
    ┃   ██║   ██║██╔══██╗██║   ██║██╔══██╗ ┃
    ┃   ██║   ██║██║  ██║██║   ██║██████╔╝ ┃
    ┃   ╚██╗ ██╔╝██║  ██║██║   ██║██╔══██╗ ┃
    ┃    ╚████╔╝ ██████╔╝╚██████╔╝██████╔╝ ┃
    ┃     ╚═══╝  ╚═════╝  ╚═════╝ ╚═════╝  ┃
    ┃                                   ┃
    ┃      🎬  Video Dubbing Engine  🎬     ┃
    ┃         ⚡ Rust + MLX ⚡              ┃
    ┃                                   ┃
    ┗━━━━━━━━━━━━━━━━━━━━━━━━━━━━━━━━━┛
"#;

/// The startup art shown by the command line tools (a sugar skull drawn with
/// ANSI colours).
pub const STARTUP_ART: &'static str = "\x1b[38;5;213m         .-\"\"\"\"\"\"-.         \x1b[0m\n\x1b[38;5;213m       .'  \x1b[38;5;51m@\x1b[38;5;213m    \x1b[38;5;51m@\x1b[38;5;213m  '.       \x1b[0m\n\x1b[38;5;220m      /   \x1b[38;5;196m(o)  (o)\x1b[38;5;220m   \\      \x1b[0m\n\x1b[38;5;220m    |        /\\        |    \x1b[0m\n\x1b[38;5;46m     \\   \\\\||||||//   /     \x1b[0m\n\x1b[38;5;46m      '.  ''''''''  .'      \x1b[0m\n\x1b[38;5;213m        '-.______.-'        \x1b[0m\n";

/// Lines of the startup banner: the art, then the server address, the task
/// directory and the configuration file.
pub fn banner_lines(host: &str, port: u16) -> (r: Vec<String>)
    ensures
        r@.len() == 5,
        r@[0]@ == BANNER@,
        r@[1]@ == "    🌐 Server: http://"@ + host@ + ":"@ + decimal(port as nat),
        r@[2]@ == "    📁 Tasks:  ./tasks/"@,
        r@[3]@ == "    ⚙️  Config: ./config/config.toml"@,
        r@[4]@.len() == 0,
{
    let mut r = Vec::new();
    r.push(owned(BANNER));
    let mut l = cat3("    🌐 Server: http://", host, ":");
    let p = u64_to_decimal(port as u64);
    l.append(p.as_str());
    r.push(l);
    r.push(owned("    📁 Tasks:  ./tasks/"));
    r.push(owned("    ⚙️  Config: ./config/config.toml"));
    r.push(String::new());
    r
}

/// Display name of a language code (the code itself when unknown).
pub open spec fn display_name(code: Seq<char>) -> Seq<char> {
    if code == "en"@ {
        "English"@
    } else if code == "ru"@ {
        "Russian"@
    } else if code == "zh_cn"@ {
        "Chinese (Simplified)"@
    } else if code == "zh_tw"@ {
        "Chinese (Traditional)"@
    } else if code == "ja"@ {
        "Japanese"@
    } else if code == "ko"@ {
        "Korean"@
    } else if code == "fr"@ {
        "French"@
    } else if code == "de"@ {
        "German"@
    } else if code == "es"@ {
        "Spanish"@
    } else if code == "pt"@ {
        "Portuguese"@
    } else if code == "it"@ {
        "Italian"@
    } else if code == "uk"@ {
        "Ukrainian"@
    } else if code == "ar"@ {
        "Arabic"@
    } else if code == "hi"@ {
        "Hindi"@
    } else if code == "th"@ {
        "Thai"@
    } else if code == "vi"@ {
        "Vietnamese"@
    } else if code == "tr"@ {
        "Turkish"@
    } else {
        code
    }
}

/// Get the display name for a language code.
pub fn lang_display_name<'a>(code: &'a str) -> (r: &'a str)
    ensures
        r@ == display_name(code@),
{
    if str_eq(code, "en") {
        "English"
    } else if str_eq(code, "ru") {
        "Russian"
    } else if str_eq(code, "zh_cn") {
        "Chinese (Simplified)"
    } else if str_eq(code, "zh_tw") {
        "Chinese (Traditional)"
    } else if str_eq(code, "ja") {
        "Japanese"
    } else if str_eq(code, "ko") {
        "Korean"
    } else if str_eq(code, "fr") {
        "French"
    } else if str_eq(code, "de") {
        "German"
    } else if str_eq(code, "es") {
        "Spanish"
    } else if str_eq(code, "pt") {
        "Portuguese"
    } else if str_eq(code, "it") {
        "Italian"
    } else if str_eq(code, "uk") {
        "Ukrainian"
    } else if str_eq(code, "ar") {
        "Arabic"
    } else if str_eq(code, "hi") {
        "Hindi"
    } else if str_eq(code, "th") {
        "Thai"
    } else if str_eq(code, "vi") {
        "Vietnamese"
    } else if str_eq(code, "tr") {
        "Turkish"
    } else {
        code
    }
}

/// ISO 639-2/T code for an ISO 639-1 code (the code itself when unknown).
pub open spec fn iso639_2(code: Seq<char>) -> Seq<char> {
    if code == "en"@ {
        "eng"@
    } else if code == "ru"@ {
        "rus"@
    } else if code == "zh_cn"@ || code == "zh_tw"@ || code == "zh"@ {
        "zho"@
    } else if code == "ja"@ {
        "jpn"@
    } else if code == "ko"@ {
        "kor"@
    } else if code == "fr"@ {
        "fra"@
    } else if code == "de"@ {
        "deu"@
    } else if code == "es"@ {
        "spa"@
    } else if code == "pt"@ {
        "por"@
    } else if code == "it"@ {
        "ita"@
    } else if code == "nl"@ {
        "nld"@
    } else if code == "pl"@ {
        "pol"@
    } else if code == "tr"@ {
        "tur"@
    } else if code == "ar"@ {
        "ara"@
    } else if code == "th"@ {
        "tha"@
    } else if code == "vi"@ {
        "vie"@
    } else if code == "id"@ {
        "ind"@
    } else if code == "hi"@ {
        "hin"@
    } else if code == "uk"@ {
        "ukr"@
    } else if code == "sv"@ {
        "swe"@
    } else if code == "da"@ {
        "dan"@
    } else if code == "fi"@ {
        "fin"@
    } else if code == "no"@ {
        "nor"@
    } else if code == "el"@ {
        "ell"@
    } else if code == "cs"@ {
        "ces"@
    } else if code == "ro"@ {
        "ron"@
    } else if code == "hu"@ {
        "hun"@
    } else if code == "he"@ {
        "heb"@
    } else if code == "fa"@ {
        "fas"@
    } else if code == "bn"@ {
        "ben"@
    } else if code == "ta"@ {
        "tam"@
    } else if code == "ka"@ {
        "kat"@
    } else {
        code
    }
}

/// ISO 639-1 (2-letter) to ISO 639-2/T (3-letter) for ffmpeg metadata.
pub fn lang_to_iso639_2<'a>(code: &'a str) -> (r: &'a str)
    ensures
        r@ == iso639_2(code@),
{
    if str_eq(code, "en") {
        "eng"
    } else if str_eq(code, "ru") {
        "rus"
    } else if str_eq(code, "zh_cn") || str_eq(code, "zh_tw") || str_eq(code, "zh") {
        "zho"
    } else if str_eq(code, "ja") {
        "jpn"
    } else if str_eq(code, "ko") {
        "kor"
    } else if str_eq(code, "fr") {
        "fra"
    } else if str_eq(code, "de") {
        "deu"
    } else if str_eq(code, "es") {
        "spa"
    } else if str_eq(code, "pt") {
        "por"
    } else if str_eq(code, "it") {
        "ita"
    } else if str_eq(code, "nl") {
        "nld"
    } else if str_eq(code, "pl") {
        "pol"
    } else if str_eq(code, "tr") {
        "tur"
    } else if str_eq(code, "ar") {
        "ara"
    } else if str_eq(code, "th") {
        "tha"
    } else if str_eq(code, "vi") {
        "vie"
    } else if str_eq(code, "id") {
        "ind"
    } else if str_eq(code, "hi") {
        "hin"
    } else if str_eq(code, "uk") {
        "ukr"
    } else if str_eq(code, "sv") {
        "swe"
    } else if str_eq(code, "da") {
        "dan"
    } else if str_eq(code, "fi") {
        "fin"
    } else if str_eq(code, "no") {
        "nor"
    } else if str_eq(code, "el") {
        "ell"
    } else if str_eq(code, "cs") {
        "ces"
    } else if str_eq(code, "ro") {
        "ron"
    } else if str_eq(code, "hu") {
        "hun"
    } else if str_eq(code, "he") {
        "heb"
    } else if str_eq(code, "fa") {
        "fas"
    } else if str_eq(code, "bn") {
        "ben"
    } else if str_eq(code, "ta") {
        "tam"
    } else if str_eq(code, "ka") {
        "kat"
    } else {
        code
    }
}

/// The target language chosen for a detected source: English and Russian
/// swap, anything else goes to English.
pub open spec fn auto_target(detected: Seq<char>) -> Seq<char> {
    if detected == "en"@ || detected == "english"@ {
        "ru"@
    } else {
        "en"@
    }
}

/// Determine the target language from the detected source language:
/// English ↔ Russian, other languages → English.
pub fn auto_target_language(detected: &str) -> (r: &'static str)
    ensures
        r@ == auto_target(detected@),
{
    if str_eq(detected, "en") || str_eq(detected, "english") {
        "ru"
    } else if str_eq(detected, "ru") || str_eq(detected, "russian") {
        "en"
    } else {
        "en"
    }
}

/// The automatic target is never the detected language itself when that is
/// English or Russian, and always English or Russian.
pub proof fn auto_target_swaps(detected: Seq<char>)
    ensures
        auto_target(detected) == "ru"@ || auto_target(detected) == "en"@,
        detected == "en"@ ==> auto_target(detected) == "ru"@,
        detected == "ru"@ ==> auto_target(detected) == "en"@,
{
    reveal_strlit("en");
    reveal_strlit("ru");
    reveal_strlit("english");
    assert("ru"@.len() == 2);
    assert("english"@.len() == 7);
}

/// The remaining-time suffix of a progress line for `secs` seconds.
pub open spec fn eta_text(secs: nat) -> Seq<char> {
    let h = secs / 3600;
    let m = (secs % 3600) / 60;
    let s = secs % 60;
    if h > 0 {
        " ETA "@ + decimal(h) + "h"@ + zero_padded(m, 2) + "m"@ + zero_padded(s, 2) + "s"@
    } else if m > 0 {
        " ETA "@ + decimal(m) + "m"@ + zero_padded(s, 2) + "s"@
    } else {
        " ETA "@ + decimal(s) + "s"@
    }
}

/// Format an optional remaining time (in whole seconds) for progress lines.
pub fn format_eta(eta_secs: Option<u64>) -> (r: String)
    ensures
        r@ == match eta_secs {
            Some(s) => eta_text(s as nat),
            None => Seq::<char>::empty(),
        },
{
    match eta_secs {
        Some(secs) => {
            let h = secs / 3600;
            let m = (secs % 3600) / 60;
            let s = secs % 60;
            if h > 0 {
                let mut r = owned(" ETA ");
                r.append(u64_to_decimal(h).as_str());
                r.append("h");
                r.append(two_digits(m).as_str());
                r.append("m");
                r.append(two_digits(s).as_str());
                r.append("s");
                r
            } else if m > 0 {
                let mut r = owned(" ETA ");
                r.append(u64_to_decimal(m).as_str());
                r.append("m");
                r.append(two_digits(s).as_str());
                r.append("s");
                r
            } else {
                let mut r = owned(" ETA ");
                r.append(u64_to_decimal(s).as_str());
                r.append("s");
                r
            }
        },
        None => String::new(),
    }
}

/// The progress bar of `width` cells for `done` of `total`: with nothing to
/// do, `width` empty cells; else, with `filled = done * width / total`, one
/// full cell, `filled - 1` more full cells (none when `filled` is 0), one
/// empty cell, and `width - filled` more empty cells.
pub open spec fn bar_text(done: nat, total: nat, width: nat) -> Seq<char> {
    if total == 0 {
        repeat('░', width)
    } else {
        let filled = (done * width) / total;
        seq!['█'] + repeat('█', if filled >= 1 { (filled - 1) as nat } else { 0 }) + seq!['░']
            + repeat('░', (width - filled) as nat)
    }
}

/// A text progress bar: one full cell, then the other filled cells, then one
/// empty cell and the other empty ones.
pub fn progress_bar(done: usize, total: usize, width: usize) -> (r: String)
    requires
        total > 0 ==> done * width <= usize::MAX && (done * width) / (total as int) <= width,
    ensures
        r@ == bar_text(done as nat, total as nat, width as nat),
{
    if total == 0 {
        return repeat_char('░', width);
    }
    let filled = (done * width) / total;
    let empty = width - filled;
    proof {
        reveal_strlit("█");
        reveal_strlit("░");
    }
    let mut r = owned("█");
    let full = if filled >= 1 { filled - 1 } else { 0 };
    r.append(repeat_char('█', full).as_str());
    r.append("░");
    r.append(repeat_char('░', empty).as_str());
    r
}

/// The bar of a finished job of any positive size shows all of its `width`
/// cells full, followed by the one empty cell that every bar of a job
/// with work to do ends its full run with.
pub proof fn progress_bar_full(total: nat, width: nat)
    requires
        total > 0,
        width > 0,
    ensures
        bar_text(total, total, width) == repeat('█', width) + seq!['░'],
{
    assert(total * width / total == width) by (nonlinear_arith)
        requires
            total > 0,
    ;
    assert(bar_text(total, total, width) =~= repeat('█', width) + seq!['░']);
}

/// The lines of the pipeline plan for `param`.
pub open spec fn plan_lines(param: StepParam, transcribe: Seq<char>, tts: Seq<char>) -> Seq<
    Seq<char>,
> {
    let from = if param.origin_language@ == "auto"@ {
        "auto-detect"@
    } else {
        display_name(param.origin_language@)
    };
    let to = if param.target_language@ == "auto"@ {
        "auto-select"@
    } else {
        display_name(param.target_language@)
    };
    let sub_type = match param.subtitle_result_type {
        SubtitleResultType::BilingualTranslationOnTop => "bilingual"@,
        SubtitleResultType::BilingualTranslationOnBottom => "bilingual"@,
        SubtitleResultType::TargetOnly => "target language only"@,
        SubtitleResultType::OriginOnly => "original language only"@,
    };
    let embed = match param.embed_subtitle_video_type {
        EmbedVideoType::Horizontal => "horizontal"@,
        EmbedVideoType::Vertical => "vertical"@,
        EmbedVideoType::All => "horizontal + vertical"@,
        EmbedVideoType::NoEmbed => "disabled"@,
    };
    let head = seq![
        "🎯 ═══════════════════════════════════════════════"@,
        "🎯  Pipeline Plan"@,
        "🎯 ═══════════════════════════════════════════════"@,
        "   🌍 Language:   "@ + from + " → "@ + to,
        "   📝 Subtitles:  "@ + sub_type,
        "   🧠 ASR:        "@ + transcribe,
    ];
    let audio = if param.enable_tts {
        seq![
            "   🔊 TTS:        "@ + tts + " (voice: "@ + param.tts_voice_code@ + ")"@,
            if param.multi_track_audio {
                "   🎵 Audio:      dual-track (original + dubbed)"@
            } else {
                "   🎵 Audio:      single-track (dubbed replaces original)"@
            },
        ]
    } else {
        seq!["   🔊 TTS:        disabled"@]
    };
    head + audio + seq![
        "   🎞️  Embed:      "@ + embed,
        "   📁 Output:     "@ + param.task_base_path@ + "/output"@,
        "🎯 ═══════════════════════════════════════════════"@,
    ]
}

fn push_line(lines: &mut Vec<String>, s: String)
    ensures
        final(lines)@.map_values(|x: String| x@) == old(lines)@.map_values(|x: String| x@).push(
            s@,
        ),
{
    lines.push(s);
    assert(final(lines)@.map_values(|x: String| x@) =~= old(lines)@.map_values(|x: String| x@).push(
        s@,
    ));
}

/// The lines that summarize the pipeline plan.
pub fn pipeline_plan(param: &StepParam, transcribe_provider: &str, tts_provider: &str) -> (r: Vec<
    String,
>)
    ensures
        r@.map_values(|x: String| x@) == plan_lines(*param, transcribe_provider@, tts_provider@),
{
    let mut r: Vec<String> = Vec::new();
    let from: &str = if str_eq(param.origin_language.as_str(), "auto") {
        "auto-detect"
    } else {
        lang_display_name(param.origin_language.as_str())
    };
    let to: &str = if str_eq(param.target_language.as_str(), "auto") {
        "auto-select"
    } else {
        lang_display_name(param.target_language.as_str())
    };
    push_line(&mut r, owned("🎯 ═══════════════════════════════════════════════"));
    push_line(&mut r, owned("🎯  Pipeline Plan"));
    push_line(&mut r, owned("🎯 ═══════════════════════════════════════════════"));
    let mut l = cat3("   🌍 Language:   ", from, " → ");
    l.append(to);
    push_line(&mut r, l);
    let sub_type: &str = match param.subtitle_result_type {
        SubtitleResultType::BilingualTranslationOnTop => "bilingual",
        SubtitleResultType::BilingualTranslationOnBottom => "bilingual",
        SubtitleResultType::TargetOnly => "target language only",
        SubtitleResultType::OriginOnly => "original language only",
    };
    push_line(&mut r, cat("   📝 Subtitles:  ", sub_type));
    push_line(&mut r, cat("   🧠 ASR:        ", transcribe_provider));
    if param.enable_tts {
        let mut l = cat3("   🔊 TTS:        ", tts_provider, " (voice: ");
        l.append(param.tts_voice_code.as_str());
        l.append(")");
        push_line(&mut r, l);
        if param.multi_track_audio {
            push_line(&mut r, owned("   🎵 Audio:      dual-track (original + dubbed)"));
        } else {
            push_line(&mut r, owned("   🎵 Audio:      single-track (dubbed replaces original)"));
        }
    } else {
        push_line(&mut r, owned("   🔊 TTS:        disabled"));
    }
    let embed: &str = match param.embed_subtitle_video_type {
        EmbedVideoType::Horizontal => "horizontal",
        EmbedVideoType::Vertical => "vertical",
        EmbedVideoType::All => "horizontal + vertical",
        EmbedVideoType::NoEmbed => "disabled",
    };
    push_line(&mut r, cat("   🎞️  Embed:      ", embed));
    push_line(&mut r, cat3("   📁 Output:     ", param.task_base_path.as_str(), "/output"));
    push_line(&mut r, owned("🎯 ═══════════════════════════════════════════════"));
    r
}

/// Lines for the start of the download step.
pub fn step_download_start(url: &str) -> (r: Vec<String>)
    ensures
        r@.len() == 2,
        r@[0]@ == "📥 ─── Step 1/5: Downloading ────────────────────"@,
        r@[1]@ == "   🔗 Source: "@ + url@,
{
    let mut r = Vec::new();
    r.push(owned("📥 ─── Step 1/5: Downloading ────────────────────"));
    r.push(cat("   🔗 Source: ", url));
    r
}

/// Line for the end of the download step.
pub fn step_download_done() -> (r: Vec<String>)
    ensures
        r@.len() == 1,
        r@[0]@ == "   ✅ Download complete"@,
{
    let mut r = Vec::new();
    r.push(owned("   ✅ Download complete"));
    r
}

/// Lines for the start of the transcription step; an empty or `"auto"`
/// language is shown as automatic detection.
pub fn step_transcribe_start(provider: &str, lang: &str) -> (r: Vec<String>)
    ensures
        r@.len() == 3,
        r@[0]@ == "🎙️ ─── Step 2/5: Transcribe & Translate ────────"@,
        r@[1]@ == "   🧠 ASR: "@ + provider@,
        r@[2]@ == "   🌍 Language: "@ + (if lang@.len() == 0 || lang@ == "auto"@ {
            "🔍 auto-detect"@
        } else {
            lang@
        }),
{
    let mut r = Vec::new();
    r.push(owned("🎙️ ─── Step 2/5: Transcribe & Translate ────────"));
    r.push(cat("   🧠 ASR: ", provider));
    let shown: &str = if lang.is_empty() || str_eq(lang, "auto") {
        "🔍 auto-detect"
    } else {
        lang
    };
    r.push(cat("   🌍 Language: ", shown));
    r
}

/// A progress line: `prefix`, `done/total`, `middle`, the 20-cell bar and
/// the remaining time.
pub open spec fn progress_line(prefix: Seq<char>, middle: Seq<char>, done: nat, total: nat, eta:
    Option<u64>) -> Seq<char> {
    prefix + decimal(done) + "/"@ + decimal(total) + middle + bar_text(done, total, 20) + match eta {
        Some(s) => eta_text(s as nat),
        None => Seq::<char>::empty(),
    }
}

fn progress_text(prefix: &str, middle: &str, done: usize, total: usize, eta_secs: Option<u64>) -> (r:
    String)
    requires
        total > 0 ==> done <= total && done <= usize::MAX / 20,
    ensures
        r@ == progress_line(prefix@, middle@, done as nat, total as nat, eta_secs),
{
    proof {
        if total > 0 {
            assert((done * 20) / (total as int) <= 20) by (nonlinear_arith)
                requires
                    done <= total,
                    total > 0,
            ;
            assert(done * 20 <= usize::MAX) by (nonlinear_arith)
                requires
                    done <= usize::MAX / 20,
            ;
        }
    }
    let mut r = owned(prefix);
    r.append(usize_to_decimal(done).as_str());
    r.append("/");
    r.append(usize_to_decimal(total).as_str());
    r.append(middle);
    r.append(progress_bar(done, total, 20).as_str());
    r.append(format_eta(eta_secs).as_str());
    r
}

/// Line for a transcribed segment.
pub fn step_transcribe_segment(done: usize, total: usize, eta_secs: Option<u64>) -> (r: Vec<String>)
    requires
        total > 0 ==> done <= total && done <= usize::MAX / 20,
    ensures
        r@.len() == 1,
        r@[0]@ == progress_line("   📝 Transcribed "@, " "@, done as nat, total as nat, eta_secs),
{
    let mut r = Vec::new();
    r.push(progress_text("   📝 Transcribed ", " ", done, total, eta_secs));
    r
}

/// Line for the language that speech recognition detected.
pub fn step_transcribe_lang_detected(lang: &str) -> (r: Vec<String>)
    ensures
        r@.len() == 1,
        r@[0]@ == "   🎯 Detected language: "@ + lang@,
{
    let mut r = Vec::new();
    r.push(cat("   🎯 Detected language: ", lang));
    r
}

/// Line for the start of translation.
pub fn step_translate_start(from: &str, to: &str) -> (r: Vec<String>)
    ensures
        r@.len() == 1,
        r@[0]@ == "   🔄 Translating: "@ + from@ + " → "@ + to@,
{
    let mut r = Vec::new();
    let mut l = cat3("   🔄 Translating: ", from, " → ");
    l.append(to);
    r.push(l);
    r
}

/// Line for translation progress.
pub fn step_translate_progress(done: usize, total: usize, eta_secs: Option<u64>) -> (r: Vec<String>)
    requires
        total > 0 ==> done <= total && done <= usize::MAX / 20,
    ensures
        r@.len() == 1,
        r@[0]@ == progress_line("   🔄 Translated "@, " segments "@, done as nat, total as nat, eta_secs),
{
    let mut r = Vec::new();
    r.push(progress_text("   🔄 Translated ", " segments ", done, total, eta_secs));
    r
}

/// Line for the end of transcription.
pub fn step_transcribe_done(blocks: usize) -> (r: Vec<String>)
    ensures
        r@.len() == 1,
        r@[0]@ == "   ✅ "@ + decimal(blocks as nat) + " subtitle blocks generated"@,
{
    let mut r = Vec::new();
    let mut l = owned("   ✅ ");
    l.append(usize_to_decimal(blocks).as_str());
    l.append(" subtitle blocks generated");
    r.push(l);
    r
}

/// Lines for the start of speech synthesis.
pub fn step_tts_start(provider: &str, voice: &str) -> (r: Vec<String>)
    ensures
        r@.len() == 3,
        r@[0]@ == "🔊 ─── Step 3/5: Text-to-Speech ────────────────"@,
        r@[1]@ == "   🎤 TTS: "@ + provider@,
        r@[2]@ == "   🗣️  Voice: "@ + voice@,
{
    let mut r = Vec::new();
    r.push(owned("🔊 ─── Step 3/5: Text-to-Speech ────────────────"));
    r.push(cat("   🎤 TTS: ", provider));
    r.push(cat("   🗣️  Voice: ", voice));
    r
}

/// Line for speech synthesis progress.
pub fn step_tts_progress(done: usize, total: usize, eta_secs: Option<u64>) -> (r: Vec<String>)
    requires
        total > 0 ==> done <= total && done <= usize::MAX / 20,
    ensures
        r@.len() == 1,
        r@[0]@ == progress_line("   🎵 TTS progress: "@, " "@, done as nat, total as nat, eta_secs),
{
    let mut r = Vec::new();
    r.push(progress_text("   🎵 TTS progress: ", " ", done, total, eta_secs));
    r
}

/// Line for the end of speech synthesis.
pub fn step_tts_done() -> (r: Vec<String>)
    ensures
        r@.len() == 1,
        r@[0]@ == "   ✅ TTS audio generated"@,
{
    let mut r = Vec::new();
    r.push(owned("   ✅ TTS audio generated"));
    r
}

/// Lines for the start of subtitle embedding.
pub fn step_embed_start(video_type: &str) -> (r: Vec<String>)
    ensures
        r@.len() == 2,
        r@[0]@ == "🎞️ ─── Step 4/5: Embed Subtitles ────────────────"@,
        r@[1]@ == "   📐 Format: "@ + video_type@,
{
    let mut r = Vec::new();
    r.push(owned("🎞️ ─── Step 4/5: Embed Subtitles ────────────────"));
    r.push(cat("   📐 Format: ", video_type));
    r
}

/// Line for the end of subtitle embedding.
pub fn step_embed_done() -> (r: Vec<String>)
    ensures
        r@.len() == 1,
        r@[0]@ == "   ✅ Subtitles embedded"@,
{
    let mut r = Vec::new();
    r.push(owned("   ✅ Subtitles embedded"));
    r
}

/// Line for the start of the final step.
pub fn step_finalize_start() -> (r: Vec<String>)
    ensures
        r@.len() == 1,
        r@[0]@ == "📦 ─── Step 5/5: Finalize ──────────────────────"@,
{
    let mut r = Vec::new();
    r.push(owned("📦 ─── Step 5/5: Finalize ──────────────────────"));
    r
}

/// Line for the end of the final step.
pub fn step_finalize_done(file_count: usize) -> (r: Vec<String>)
    ensures
        r@.len() == 1,
        r@[0]@ == "   ✅ "@ + decimal(file_count as nat) + " output files ready"@,
{
    let mut r = Vec::new();
    let mut l = owned("   ✅ ");
    l.append(usize_to_decimal(file_count).as_str());
    l.append(" output files ready");
    r.push(l);
    r
}

/// Lines announcing a finished pipeline.
pub fn pipeline_success(task_id: &str) -> (r: Vec<String>)
    ensures
        r@.len() == 3,
        r@[0]@ == "🎉 ═══════════════════════════════════════════════"@,
        r@[1]@ == "🎉  Pipeline complete: "@ + task_id@,
        r@[2]@ == "🎉 ═══════════════════════════════════════════════"@,
{
    let mut r = Vec::new();
    r.push(owned("🎉 ═══════════════════════════════════════════════"));
    r.push(cat("🎉  Pipeline complete: ", task_id));
    r.push(owned("🎉 ═══════════════════════════════════════════════"));
    r
}

/// Lines (for the error log) announcing a failed pipeline.
pub fn pipeline_failed(task_id: &str, err: &str) -> (r: Vec<String>)
    ensures
        r@.len() == 4,
        r@[0]@ == "💥 ═══════════════════════════════════════════════"@,
        r@[1]@ == "💥  Pipeline FAILED: "@ + task_id@,
        r@[2]@ == "💥  Error: "@ + err@,
        r@[3]@ == "💥 ═══════════════════════════════════════════════"@,
{
    let mut r = Vec::new();
    r.push(owned("💥 ═══════════════════════════════════════════════"));
    r.push(cat("💥  Pipeline FAILED: ", task_id));
    r.push(cat("💥  Error: ", err));
    r.push(owned("💥 ═══════════════════════════════════════════════"));
    r
}

/// The icon shown for a detected tool.
pub open spec fn tool_icon(name: Seq<char>) -> Seq<char> {
    if name == "ffmpeg"@ || name == "ffprobe"@ {
        "🎬"@
    } else if name == "yt-dlp"@ {
        "📺"@
    } else if name == "edge-tts"@ {
        "🗣️"@
    } else if name == "mlx_whisper"@ {
        "🧠"@
    } else if name == "mlx-audio"@ {
        "🎵"@
    } else if contains_seq(name, "whisper"@) {
        "🎙️"@
    } else {
        "🔧"@
    }
}

/// Line reporting a tool found at `path`.
pub fn tool_detected(name: &str, path: &str) -> (r: Vec<String>)
    ensures
        r@.len() == 1,
        r@[0]@ == "   "@ + tool_icon(name@) + " "@ + name@ + ": "@ + path@,
{
    let icon: &str = if str_eq(name, "ffmpeg") || str_eq(name, "ffprobe") {
        "🎬"
    } else if str_eq(name, "yt-dlp") {
        "📺"
    } else if str_eq(name, "edge-tts") {
        "🗣️"
    } else if str_eq(name, "mlx_whisper") {
        "🧠"
    } else if str_eq(name, "mlx-audio") {
        "🎵"
    } else if contains_str(name, "whisper") {
        "🎙️"
    } else {
        "🔧"
    };
    let mut l = cat3("   ", icon, " ");
    l.append(name);
    l.append(": ");
    l.append(path);
    let mut r = Vec::new();
    r.push(l);
    r
}

/// Line (for the warning log) reporting a missing tool.
pub fn tool_missing(name: &str) -> (r: Vec<String>)
    ensures
        r@.len() == 1,
        r@[0]@ == "   ⚠️  "@ + name@ + ": not found"@,
{
    let mut r = Vec::new();
    r.push(cat3("   ⚠️  ", name, ": not found"));
    r
}

/// Line announcing the tool scan.
pub fn print_tool_scan() -> (r: Vec<String>)
    ensures
        r@.len() == 1,
        r@[0]@ == "🔍 Scanning for external tools..."@,
{
    let mut r = Vec::new();
    r.push(owned("🔍 Scanning for external tools..."));
    r
}

/// Line reporting the languages chosen in automatic mode.
pub fn auto_lang_info(detected: &str, target: &str) -> (r: Vec<String>)
    ensures
        r@.len() == 1,
        r@[0]@ == "   🤖 Auto mode: "@ + detected@ + " → "@ + target@,
{
    let mut r = Vec::new();
    let mut l = cat3("   🤖 Auto mode: ", detected, " → ");
    l.append(target);
    r.push(l);
    r
}

} // verus!
