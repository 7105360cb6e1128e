use vdub::align::{clean_for_match, find_from, locate_byte, plan_matches, MatchStep};
use vdub::energy::quietest_sample;
use vdub::sentences::split_into_sentences;

fn samples(v: &[i16]) -> Vec<u8> {
    v.iter().flat_map(|s| s.to_le_bytes()).collect()
}

#[test]
fn sentences_split_at_delimiters() {
    assert_eq!(
        split_into_sentences("Hello world. How are you? Fine", 100),
        vec!["Hello world.", "How are you?", "Fine"]
    );
    assert_eq!(split_into_sentences("你好。再见！", 100), vec!["你好。", "再见！"]);
}

#[test]
fn sentences_split_at_byte_limit() {
    assert_eq!(split_into_sentences("abcdefgh", 5), vec!["abcde", "fgh"]);
    assert_eq!(split_into_sentences("   ", 5), Vec::<String>::new());
    assert_eq!(split_into_sentences("", 5), Vec::<String>::new());
}

#[test]
fn sentences_keep_the_text() {
    let text = "One. Two!  Three? Four";
    let parts = split_into_sentences(text, 100);
    let joined: String = parts.concat();
    let squeezed: String = text.chars().filter(|c| !c.is_whitespace()).collect();
    let rejoined: String = joined.chars().filter(|c| !c.is_whitespace()).collect();
    assert_eq!(rejoined, squeezed);
    assert!(parts.iter().all(|p| !p.is_empty() && p.trim() == p));
}

#[test]
fn quietest_window_is_found() {
    // Loud, loud, quiet, quiet, loud with a window of two samples.
    let b = samples(&[1000, 1000, 1, -1, 1000]);
    // First window is reported at its middle; later ones w/2 before their end.
    assert_eq!(quietest_sample(&b, 2), Some(2));
    let first = samples(&[0, 0, 100, 100]);
    assert_eq!(quietest_sample(&first, 2), Some(1));
}

#[test]
fn quietest_needs_enough_samples() {
    assert_eq!(quietest_sample(&[1, 2, 3], 1), None);
    assert_eq!(quietest_sample(&samples(&[1, 2, 3]), 4), None);
}

#[test]
fn clean_for_match_lowercases_alphanumerics() {
    assert_eq!(clean_for_match("Hello, World! 42"), "helloworld42");
    assert_eq!(clean_for_match("ÉTÉ"), "été");
}

#[test]
fn find_from_searches_bytes() {
    assert_eq!(find_from(b"abcabc", b"bc", 0), Some(1));
    assert_eq!(find_from(b"abcabc", b"bc", 2), Some(4));
    assert_eq!(find_from(b"abcabc", b"zz", 0), None);
}

#[test]
fn plan_matches_moves_through_the_text() {
    let hay = b"helloworldagain";
    let needles = vec![b"hello".to_vec(), Vec::new(), b"again".to_vec(), b"world".to_vec()];
    let plan = plan_matches(hay, &needles);
    assert_eq!(plan.len(), 4);
    assert!(matches!(plan[0], MatchStep::Found { start: 0, end: 5 }));
    assert!(matches!(plan[1], MatchStep::Skipped));
    assert!(matches!(plan[2], MatchStep::Found { start: 10, end: 15 }));
    assert!(matches!(plan[3], MatchStep::Missing));
}

#[test]
fn locate_byte_finds_word() {
    let lens = [5usize, 5, 3];
    assert_eq!(locate_byte(&lens, 0), Some((0, 0)));
    assert_eq!(locate_byte(&lens, 7), Some((1, 2)));
    assert_eq!(locate_byte(&lens, 12), Some((2, 2)));
    assert_eq!(locate_byte(&lens, 13), None);
}

#[test]
fn ascii_sentences_fit_the_limit() {
    let text = "aaaa bbbb cccc dddd eeee. ffff gggg hhhh iiii jjjj kkkk";
    for max in [1usize, 3, 7, 10, 70] {
        for s in split_into_sentences(text, max) {
            assert!(s.len() <= max, "{s:?} longer than {max}");
        }
    }
    for s in split_into_sentences("ééééé ééé", 3) {
        assert!(s.len() <= 3 + 3);
    }
}
