use regex::Regex;
use vdub::cli_art::{
    auto_target_language, banner_lines, format_eta, lang_display_name, lang_to_iso639_2,
    progress_bar, step_transcribe_segment, step_translate_progress, tool_detected, BANNER,
    STARTUP_ART,
};

#[test]
fn startup_art_is_not_empty() {
    assert!(!STARTUP_ART.is_empty(), "STARTUP_ART must not be empty");
}

#[test]
fn startup_art_has_leading_spaces() {
    let ansi_re = Regex::new(r"\x1b\[[0-9;]*m").unwrap();
    for (i, line) in STARTUP_ART.lines().enumerate() {
        let visible = ansi_re.replace_all(line, "");
        if visible.trim().is_empty() {
            continue;
        }
        let leading = visible.len() - visible.trim_start().len();
        assert!(
            leading > 0,
            "Line {i} has no leading spaces: visible = {:?}",
            &visible[..visible.len().min(40)]
        );
    }
}

#[test]
fn startup_art_contains_ansi_escapes() {
    assert!(
        STARTUP_ART.contains('\x1b'),
        "STARTUP_ART must contain ANSI escape sequences"
    );
}

#[test]
fn startup_art_lines_are_consistent_width() {
    let ansi_re = Regex::new(r"\x1b\[[0-9;]*m").unwrap();
    let widths: Vec<usize> = STARTUP_ART
        .lines()
        .map(|line| ansi_re.replace_all(line, "").chars().count())
        .collect();
    let non_empty: Vec<usize> = widths.iter().copied().filter(|&w| w > 0).collect();
    if let Some(&expected) = non_empty.first() {
        for (i, &w) in non_empty.iter().enumerate() {
            assert_eq!(w, expected, "Line {i} has visible width {w}, expected {expected}");
        }
    }
}

#[test]
fn banner_is_valid() {
    assert!(!BANNER.is_empty(), "BANNER must not be empty");
    assert!(BANNER.contains("VDUB") || BANNER.contains("██"), "BANNER must contain VDUB text");
}

#[test]
fn banner_lines_name_server_and_paths() {
    let lines = banner_lines("127.0.0.1", 8888);
    assert_eq!(lines[0], BANNER);
    assert_eq!(lines[1], "    🌐 Server: http://127.0.0.1:8888");
    assert_eq!(lines[2], "    📁 Tasks:  ./tasks/");
    assert_eq!(lines[3], "    ⚙️  Config: ./config/config.toml");
}

#[test]
fn eta_formats_hours_minutes_seconds() {
    assert_eq!(format_eta(None), "");
    assert_eq!(format_eta(Some(5)), " ETA 5s");
    assert_eq!(format_eta(Some(65)), " ETA 1m05s");
    assert_eq!(format_eta(Some(3600 + 2 * 60 + 3)), " ETA 1h02m03s");
}

#[test]
fn progress_bar_cells() {
    assert_eq!(progress_bar(0, 0, 4), "░░░░");
    assert_eq!(progress_bar(5, 10, 4), "██░░░");
    // A finished bar keeps its closing empty cell.
    assert_eq!(progress_bar(10, 10, 4), "████░");
    // Nothing done still shows the leading full cell.
    assert_eq!(progress_bar(0, 10, 4), "█░░░░░");
    assert_eq!(progress_bar(7, 0, 3), "░░░");
}

#[test]
fn progress_lines_for_steps() {
    assert_eq!(
        step_transcribe_segment(3, 0, None),
        vec!["   📝 Transcribed 3/0 ░░░░░░░░░░░░░░░░░░░░".to_string()]
    );
    assert_eq!(
        step_transcribe_segment(1, 2, None),
        vec!["   📝 Transcribed 1/2 ██████████░░░░░░░░░░░".to_string()]
    );
    assert_eq!(
        step_translate_progress(2, 2, Some(61)),
        vec!["   🔄 Translated 2/2 segments ████████████████████░ ETA 1m01s".to_string()]
    );
}

#[test]
fn language_names_and_codes() {
    assert_eq!(lang_display_name("ru"), "Russian");
    assert_eq!(lang_display_name("zh_cn"), "Chinese (Simplified)");
    assert_eq!(lang_display_name("xx"), "xx");
    assert_eq!(lang_to_iso639_2("en"), "eng");
    assert_eq!(lang_to_iso639_2("zh_tw"), "zho");
    assert_eq!(lang_to_iso639_2("ka"), "kat");
    assert_eq!(lang_to_iso639_2("qq"), "qq");
}

#[test]
fn auto_target_swaps_english_and_russian() {
    assert_eq!(auto_target_language("en"), "ru");
    assert_eq!(auto_target_language("english"), "ru");
    assert_eq!(auto_target_language("ru"), "en");
    assert_eq!(auto_target_language("ja"), "en");
}

#[test]
fn tool_lines_carry_icons() {
    assert_eq!(tool_detected("ffmpeg", "/usr/bin/ffmpeg"), vec!["   🎬 ffmpeg: /usr/bin/ffmpeg".to_string()]);
    assert_eq!(tool_detected("whisper-cpp", "w"), vec!["   🎙️ whisper-cpp: w".to_string()]);
    assert_eq!(tool_detected("other", "o"), vec!["   🔧 other: o".to_string()]);
}
