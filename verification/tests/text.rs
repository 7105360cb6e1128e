use vdub::text::{
    clean_punctuation, count_effective_chars, get_bilibili_id, get_youtube_id, is_asian_language,
    is_cjk, rand_string, sanitize_path_name,
};

#[test]
fn sanitize_replaces_forbidden_and_trims_dots() {
    assert_eq!(sanitize_path_name("a<b>c:d\"e/f\\g|h?i*j"), "a_b_c_d_e_f_g_h_i_j");
    assert_eq!(sanitize_path_name("..name.."), "name");
    assert_eq!(sanitize_path_name("tab\there"), "tab_here");
    assert_eq!(sanitize_path_name("plain"), "plain");
}

#[test]
fn sanitized_name_has_no_forbidden_character() {
    let s = sanitize_path_name(".x:y?z.");
    assert_eq!(s, "x_y_z");
    assert!(!s.chars().any(|c| "<>:\"/\\|?*".contains(c) || (c as u32) < 0x20));
    assert!(!s.starts_with('.') && !s.ends_with('.'));
}

#[test]
fn rand_string_has_length_and_charset() {
    let s = rand_string(32);
    assert_eq!(s.chars().count(), 32);
    assert!(s.chars().all(|c| c.is_ascii_alphanumeric() && c != '0'));
    assert_eq!(rand_string(0), "");
}

#[test]
fn clean_punctuation_keeps_letters_apostrophes_hyphens() {
    assert_eq!(clean_punctuation("don't-stop!"), "don't-stop");
    assert_eq!(clean_punctuation("¡Hola, señor!"), "Holaseñor");
    assert_eq!(clean_punctuation(clean_punctuation("a.b,c").as_str()), "abc");
}

#[test]
fn youtube_ids() {
    assert_eq!(
        get_youtube_id("https://www.youtube.com/watch?v=dQw4w9WgXcQ&t=1"),
        Some("dQw4w9WgXcQ".to_string())
    );
    assert_eq!(get_youtube_id("https://youtu.be/abcdefghijk"), Some("abcdefghijk".to_string()));
    assert_eq!(
        get_youtube_id("https://youtube.com/shorts/ABC_def-123xyz"),
        Some("ABC_def-123".to_string())
    );
    assert_eq!(get_youtube_id("https://youtu.be/short"), None);
    assert_eq!(get_youtube_id("https://example.com/"), None);
}

#[test]
fn bilibili_ids() {
    assert_eq!(
        get_bilibili_id("https://www.bilibili.com/video/BV1xx411c7mD?p=2"),
        Some("BV1xx411c7mD".to_string())
    );
    assert_eq!(get_bilibili_id("https://www.bilibili.com/video/av170001"), None);
}

#[test]
fn cjk_and_asian_languages() {
    assert!(is_cjk('中'));
    assert!(is_cjk('ひ'));
    assert!(is_cjk('カ'));
    assert!(is_cjk('한'));
    assert!(!is_cjk('a'));
    assert!(is_asian_language("ja"));
    assert!(is_asian_language("lo"));
    assert!(!is_asian_language("en"));
}

#[test]
fn effective_chars_count_alphanumerics() {
    assert_eq!(count_effective_chars("Hi, there! 42"), 9);
    assert_eq!(count_effective_chars("日本語です。"), 5);
    assert_eq!(count_effective_chars(""), 0);
}

#[test]
fn sanitizing_twice_changes_nothing() {
    for name in ["..a/b:c?.", "plain", "...", "x\u{1}y", ". a .", ""] {
        let once = sanitize_path_name(name);
        assert_eq!(sanitize_path_name(&once), once);
    }
    assert_eq!(sanitize_path_name("..a/b:c?."), "a_b_c_");
}

#[test]
fn ascii_text_counts_letters_and_digits() {
    assert_eq!(count_effective_chars("..."), 0);
    assert_eq!(count_effective_chars("a-b_c 1"), 4);
    assert_eq!(clean_punctuation("..."), "");
    assert_eq!(clean_punctuation("it's_a-test?"), "it'sa-test");
}
