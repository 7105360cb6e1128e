use vdub::ass::format_ass_time;
use vdub::srt::{format_srt_time, format_time_range, parse_srt, parse_timestamp};
use vdub::task::SubtitleResultType;
use vdub::transcript::{srt_text, SrtBlock, SrtSide};

fn block(index: usize, start: u64, end: u64, origin: &str, target: &str) -> SrtBlock {
    SrtBlock {
        index,
        timestamp: format_time_range(start, end),
        origin_language_sentence: origin.to_string(),
        target_language_sentence: target.to_string(),
    }
}

#[test]
fn srt_time_stamps_are_padded() {
    assert_eq!(format_srt_time(3_723_004), "01:02:03,004");
    assert_eq!(format_srt_time(0), "00:00:00,000");
    assert_eq!(format_srt_time(360_000_000), "100:00:00,000");
    assert_eq!(format_time_range(1_500, 62_250), "00:00:01,500 --> 00:01:02,250");
}

#[test]
fn srt_time_stamps_read_back() {
    for ms in [0u64, 1, 999, 1_000, 59_999, 3_723_004, 86_399_999, 360_000_000] {
        assert_eq!(parse_timestamp(&format_srt_time(ms)), Some(ms));
    }
    assert_eq!(parse_timestamp(" 00:00:02.500 "), Some(2_500));
    assert_eq!(parse_timestamp("00:01:02,025"), Some(62_025));
    assert_eq!(parse_timestamp("12:34"), None);
    assert_eq!(parse_timestamp("aa:00:00,000"), None);
}

#[test]
fn ass_time_stamps_use_hundredths() {
    assert_eq!(format_ass_time(372_300), "1:02:03.00");
    assert_eq!(format_ass_time(0), "0:00:00.00");
    assert_eq!(format_ass_time(6_150), "0:01:01.50");
}

#[test]
fn srt_blocks_are_read() {
    let doc = "1\n00:00:00,000 --> 00:00:01,500\nHello\n\n2\r\n00:00:01,500 --> 00:00:03,000\r\nfirst\r\nsecond\r\n\r\n3\njust a line\n\n";
    let entries = parse_srt(doc);
    assert_eq!(entries.len(), 2);
    assert_eq!(entries[0].start, "00:00:00,000");
    assert_eq!(entries[0].end, "00:00:01,500");
    assert_eq!(entries[0].text, "Hello");
    assert_eq!(entries[1].start, "00:00:01,500");
    assert_eq!(entries[1].end, "00:00:03,000");
    assert_eq!(entries[1].text, "first\nsecond");
    assert!(parse_srt("").is_empty());
    assert!(parse_srt("1\n00:00:00,000 -> 00:00:01,000\nNo arrow\n").is_empty());
}

#[test]
fn written_srt_reads_back() {
    let blocks = vec![
        block(1, 0, 1_200, "Good morning", "Доброе утро"),
        block(2, 1_200, 3_725_040, "How are you", "Как дела"),
    ];
    for side in [
        SrtSide::Origin,
        SrtSide::Target,
        SrtSide::Bilingual(SubtitleResultType::BilingualTranslationOnTop),
        SrtSide::Bilingual(SubtitleResultType::BilingualTranslationOnBottom),
    ] {
        let doc = srt_text(&blocks, side);
        let entries = parse_srt(&doc);
        assert_eq!(entries.len(), 2);
        assert_eq!(parse_timestamp(&entries[0].start), Some(0));
        assert_eq!(parse_timestamp(&entries[0].end), Some(1_200));
        assert_eq!(parse_timestamp(&entries[1].start), Some(1_200));
        assert_eq!(parse_timestamp(&entries[1].end), Some(3_725_040));
    }
    let top = parse_srt(&srt_text(
        &blocks,
        SrtSide::Bilingual(SubtitleResultType::BilingualTranslationOnTop),
    ));
    assert_eq!(top[1].text, "Как дела\nHow are you");
    let target = parse_srt(&srt_text(&blocks, SrtSide::Target));
    assert_eq!(target[0].text, "Доброе утро");
}
