//! The ffmpeg and ffprobe command lines of the pipeline, what their answers
//! mean, and the decisions of the speech step around them.
use vstd::prelude::*;
use crate::ass::{find_first, parse_u32, parse_u32_spec};
use crate::cli_art::{display_name, lang_display_name};
use crate::link::{push_arg, views};
use crate::providers::{join_path, path_join};
use crate::strings::{cat, cat3, chars_of, decimal, owned, trim, trim_str, usize_to_decimal};

verus! {

/// ffmpeg arguments that put `audio` in place of the sound of `video`.
pub fn replace_audio_args(video: &str, audio: &str, output: &str) -> (r: Vec<String>)
    ensures
        views(r@) == seq!["-y"@, "-i"@, video@, "-i"@, audio@, "-c:v"@, "copy"@, "-map"@,
            "0:v:0"@, "-map"@, "1:a:0"@, output@],
{
    let mut r: Vec<String> = Vec::new();
    push_arg(&mut r, "-y");
    push_arg(&mut r, "-i");
    push_arg(&mut r, video);
    push_arg(&mut r, "-i");
    push_arg(&mut r, audio);
    push_arg(&mut r, "-c:v");
    push_arg(&mut r, "copy");
    push_arg(&mut r, "-map");
    push_arg(&mut r, "0:v:0");
    push_arg(&mut r, "-map");
    push_arg(&mut r, "1:a:0");
    push_arg(&mut r, output);
    assert(views(r@) =~= seq!["-y"@, "-i"@, video@, "-i"@, audio@, "-c:v"@, "copy"@, "-map"@,
        "0:v:0"@, "-map"@, "1:a:0"@, output@]);
    r
}

/// ffmpeg arguments that keep the sound of `video` as the first (default)
/// track and add `dubbed_audio` as a second one, each tagged with its
/// language and titled with the language's name.
pub fn add_audio_track_args(
    video: &str,
    dubbed_audio: &str,
    output: &str,
    original_lang: &str,
    target_lang: &str,
) -> (r: Vec<String>)
    ensures
        views(r@) == seq!["-y"@, "-i"@, video@, "-i"@, dubbed_audio@, "-map"@, "0:v"@, "-map"@,
            "0:a"@, "-map"@, "1:a"@, "-c:v"@, "copy"@, "-c:a:0"@, "copy"@, "-c:a:1"@, "aac"@,
            "-b:a:1"@, "192k"@, "-metadata:s:a:0"@, "language="@ + original_lang@,
            "-metadata:s:a:1"@, "language="@ + target_lang@, "-metadata:s:a:0"@, "title="@
            + display_name(original_lang@), "-metadata:s:a:1"@, "title="@ + display_name(
            target_lang@,
        ) + " Dub"@, "-disposition:a:0"@, "default"@, "-disposition:a:1"@, "0"@, output@],
{
    let orig_lang_meta = cat("language=", original_lang);
    let target_lang_meta = cat("language=", target_lang);
    let orig_title = cat("title=", lang_display_name(original_lang));
    let target_title = cat3("title=", lang_display_name(target_lang), " Dub");
    let mut r: Vec<String> = Vec::new();
    push_arg(&mut r, "-y");
    push_arg(&mut r, "-i");
    push_arg(&mut r, video);
    push_arg(&mut r, "-i");
    push_arg(&mut r, dubbed_audio);
    push_arg(&mut r, "-map");
    push_arg(&mut r, "0:v");
    push_arg(&mut r, "-map");
    push_arg(&mut r, "0:a");
    push_arg(&mut r, "-map");
    push_arg(&mut r, "1:a");
    push_arg(&mut r, "-c:v");
    push_arg(&mut r, "copy");
    push_arg(&mut r, "-c:a:0");
    push_arg(&mut r, "copy");
    push_arg(&mut r, "-c:a:1");
    push_arg(&mut r, "aac");
    push_arg(&mut r, "-b:a:1");
    push_arg(&mut r, "192k");
    push_arg(&mut r, "-metadata:s:a:0");
    push_arg(&mut r, orig_lang_meta.as_str());
    push_arg(&mut r, "-metadata:s:a:1");
    push_arg(&mut r, target_lang_meta.as_str());
    push_arg(&mut r, "-metadata:s:a:0");
    push_arg(&mut r, orig_title.as_str());
    push_arg(&mut r, "-metadata:s:a:1");
    push_arg(&mut r, target_title.as_str());
    push_arg(&mut r, "-disposition:a:0");
    push_arg(&mut r, "default");
    push_arg(&mut r, "-disposition:a:1");
    push_arg(&mut r, "0");
    push_arg(&mut r, output);
    assert(views(r@) =~= seq!["-y"@, "-i"@, video@, "-i"@, dubbed_audio@, "-map"@, "0:v"@,
        "-map"@, "0:a"@, "-map"@, "1:a"@, "-c:v"@, "copy"@, "-c:a:0"@, "copy"@, "-c:a:1"@, "aac"@,
        "-b:a:1"@, "192k"@, "-metadata:s:a:0"@, "language="@ + original_lang@, "-metadata:s:a:1"@,
        "language="@ + target_lang@, "-metadata:s:a:0"@, "title="@ + display_name(original_lang@),
        "-metadata:s:a:1"@, "title="@ + display_name(target_lang@) + " Dub"@,
        "-disposition:a:0"@, "default"@, "-disposition:a:1"@, "0"@, output@]);
    r
}

/// ffprobe arguments that print the duration of `input` in seconds.
pub fn duration_args(input: &str) -> (r: Vec<String>)
    ensures
        views(r@) == seq!["-i"@, input@, "-show_entries"@, "format=duration"@, "-v"@, "quiet"@,
            "-of"@, "csv=p=0"@],
{
    let mut r: Vec<String> = Vec::new();
    push_arg(&mut r, "-i");
    push_arg(&mut r, input);
    push_arg(&mut r, "-show_entries");
    push_arg(&mut r, "format=duration");
    push_arg(&mut r, "-v");
    push_arg(&mut r, "quiet");
    push_arg(&mut r, "-of");
    push_arg(&mut r, "csv=p=0");
    assert(views(r@) =~= seq!["-i"@, input@, "-show_entries"@, "format=duration"@, "-v"@,
        "quiet"@, "-of"@, "csv=p=0"@]);
    r
}

/// Where the mono 16 kHz copy of an audio file goes: beside it, named after
/// its stem with `_mono_16K.mp3`.
pub fn mono_output_path(parent: &str, stem: &str) -> (r: String)
    ensures
        r@ == path_join(parent@, stem@ + "_mono_16K.mp3"@),
{
    let name = cat(stem, "_mono_16K.mp3");
    join_path(parent, name.as_str())
}

/// ffmpeg arguments that make a mono, 16 kHz, 192 kbit/s copy of `input`.
pub fn process_audio_args(input: &str, output: &str) -> (r: Vec<String>)
    ensures
        views(r@) == seq!["-y"@, "-i"@, input@, "-ac"@, "1"@, "-ar"@, "16000"@, "-b:a"@,
            "192k"@, output@],
{
    let mut r: Vec<String> = Vec::new();
    push_arg(&mut r, "-y");
    push_arg(&mut r, "-i");
    push_arg(&mut r, input);
    push_arg(&mut r, "-ac");
    push_arg(&mut r, "1");
    push_arg(&mut r, "-ar");
    push_arg(&mut r, "16000");
    push_arg(&mut r, "-b:a");
    push_arg(&mut r, "192k");
    push_arg(&mut r, output);
    assert(views(r@) =~= seq!["-y"@, "-i"@, input@, "-ac"@, "1"@, "-ar"@, "16000"@, "-b:a"@,
        "192k"@, output@]);
    r
}

/// ffprobe arguments that print the first video stream's size as `WxH`.
pub fn resolution_args(video: &str) -> (r: Vec<String>)
    ensures
        views(r@) == seq!["-v"@, "error"@, "-select_streams"@, "v:0"@, "-show_entries"@,
            "stream=width,height"@, "-of"@, "csv=p=0:s=x"@, video@],
{
    let mut r: Vec<String> = Vec::new();
    push_arg(&mut r, "-v");
    push_arg(&mut r, "error");
    push_arg(&mut r, "-select_streams");
    push_arg(&mut r, "v:0");
    push_arg(&mut r, "-show_entries");
    push_arg(&mut r, "stream=width,height");
    push_arg(&mut r, "-of");
    push_arg(&mut r, "csv=p=0:s=x");
    push_arg(&mut r, video);
    assert(views(r@) =~= seq!["-v"@, "error"@, "-select_streams"@, "v:0"@, "-show_entries"@,
        "stream=width,height"@, "-of"@, "csv=p=0:s=x"@, video@]);
    r
}

/// Why ffprobe's answer is not a resolution.
#[derive(Debug, Clone, Copy, PartialEq, Eq)]
pub enum ResolutionError {
    /// The answer is not two parts around one `x`.
    Shape,
    /// A part is not a 32-bit number.
    Number,
}

/// What ffprobe's answer `out` says: its trimmed text must be two parts
/// around exactly one `x`, each a 32-bit number (width, then height).
pub open spec fn resolution_of(out: Seq<char>) -> Result<(u32, u32), ResolutionError> {
    let s = trim(out);
    match find_first(s, 'x') {
        None => Err(ResolutionError::Shape),
        Some(k) => if find_first(s.skip(k as int + 1), 'x') is Some {
            Err(ResolutionError::Shape)
        } else {
            match (parse_u32_spec(s.take(k as int)), parse_u32_spec(s.skip(k as int + 1))) {
                (Some(w), Some(h)) => Ok((w, h)),
                _ => Err(ResolutionError::Number),
            }
        },
    }
}

/// Read the width and height out of ffprobe's answer.
pub fn parse_resolution(out: &str) -> (r: Result<(u32, u32), ResolutionError>)
    ensures
        r == resolution_of(out@),
{
    let t = trim_str(out);
    let v = chars_of(t.as_str());
    match crate::ass::find_char_in(&v, 'x') {
        None => Err(ResolutionError::Shape),
        Some(k) => {
            let rest = crate::ass::slice_vec(&v, k + 1, v.len());
            assert(rest@ =~= v@.skip(k + 1));
            match crate::ass::find_char_in(&rest, 'x') {
                Some(_) => Err(ResolutionError::Shape),
                None => {
                    let head = crate::ass::slice_vec(&v, 0, k);
                    assert(head@ =~= v@.take(k as int));
                    let w = parse_u32(head.as_slice());
                    let h = parse_u32(rest.as_slice());
                    match (w, h) {
                        (Some(w), Some(h)) => Ok((w, h)),
                        _ => Err(ResolutionError::Number),
                    }
                },
            }
        },
    }
}


/// Where the speech of subtitle `i` is written: `<base>/subtitle_<i>.wav`.
pub fn subtitle_audio_path(task_base_path: &str, i: usize) -> (r: String)
    ensures
        r@ == task_base_path@ + "/subtitle_"@ + decimal(i as nat) + ".wav"@,
{
    let n = usize_to_decimal(i);
    let mut r = cat3(task_base_path, "/subtitle_", n.as_str());
    r.append(".wav");
    r
}

/// The silence file number `index` in `dir`.
pub fn silence_path(dir: &str, index: usize) -> (r: String)
    ensures
        r@ == path_join(dir@, "silence_"@ + decimal(index as nat) + ".wav"@),
{
    let n = usize_to_decimal(index);
    let mut name = cat("silence_", n.as_str());
    name.append(".wav");
    join_path(dir, name.as_str())
}

/// The silence before subtitle `i` in `dir` (before the first one, or since
/// the previous one ended).
pub fn gap_path(dir: &str, i: usize) -> (r: String)
    ensures
        r@ == path_join(dir@, "gap_"@ + decimal(i as nat) + ".wav"@),
{
    let n = usize_to_decimal(i);
    let mut name = cat("gap_", n.as_str());
    name.append(".wav");
    join_path(dir, name.as_str())
}

/// The sped-up copy of the speech of subtitle `i` in `dir`.
pub fn adjusted_path(dir: &str, i: usize) -> (r: String)
    ensures
        r@ == path_join(dir@, "subtitle_"@ + decimal(i as nat) + "_adjusted.wav"@),
{
    let n = usize_to_decimal(i);
    let mut name = cat("subtitle_", n.as_str());
    name.append("_adjusted.wav");
    join_path(dir, name.as_str())
}

/// The number of the silence file that pads subtitle `i`: this base plus
/// `i`.
pub const PADDING_SILENCE_BASE: usize = 8000;

/// ffmpeg arguments that write `duration` seconds of stereo 44.1 kHz silence
/// to `path`.
pub fn silence_args(path: &str, duration: &str) -> (r: Vec<String>)
    ensures
        views(r@) == seq!["-y"@, "-f"@, "lavfi"@, "-i"@, "anullsrc=r=44100:cl=stereo"@, "-t"@,
            duration@, "-q:a"@, "9"@, path@],
{
    let mut r: Vec<String> = Vec::new();
    push_arg(&mut r, "-y");
    push_arg(&mut r, "-f");
    push_arg(&mut r, "lavfi");
    push_arg(&mut r, "-i");
    push_arg(&mut r, "anullsrc=r=44100:cl=stereo");
    push_arg(&mut r, "-t");
    push_arg(&mut r, duration);
    push_arg(&mut r, "-q:a");
    push_arg(&mut r, "9");
    push_arg(&mut r, path);
    assert(views(r@) =~= seq!["-y"@, "-f"@, "lavfi"@, "-i"@, "anullsrc=r=44100:cl=stereo"@,
        "-t"@, duration@, "-q:a"@, "9"@, path@]);
    r
}

/// ffmpeg arguments that apply the audio filter `filter` (an `atempo=`
/// speed-up) to `input`.
pub fn atempo_args(input: &str, filter: &str, output: &str) -> (r: Vec<String>)
    ensures
        views(r@) == seq!["-y"@, "-i"@, input@, "-af"@, filter@, output@],
{
    let mut r: Vec<String> = Vec::new();
    push_arg(&mut r, "-y");
    push_arg(&mut r, "-i");
    push_arg(&mut r, input);
    push_arg(&mut r, "-af");
    push_arg(&mut r, filter);
    push_arg(&mut r, output);
    assert(views(r@) =~= seq!["-y"@, "-i"@, input@, "-af"@, filter@, output@]);
    r
}

/// ffmpeg arguments that join the files listed in `list` into `output`.
pub fn concat_args(list: &str, output: &str) -> (r: Vec<String>)
    ensures
        views(r@) == seq!["-y"@, "-f"@, "concat"@, "-safe"@, "0"@, "-i"@, list@, "-c"@, "copy"@,
            output@],
{
    let mut r: Vec<String> = Vec::new();
    push_arg(&mut r, "-y");
    push_arg(&mut r, "-f");
    push_arg(&mut r, "concat");
    push_arg(&mut r, "-safe");
    push_arg(&mut r, "0");
    push_arg(&mut r, "-i");
    push_arg(&mut r, list);
    push_arg(&mut r, "-c");
    push_arg(&mut r, "copy");
    push_arg(&mut r, output);
    assert(views(r@) =~= seq!["-y"@, "-f"@, "concat"@, "-safe"@, "0"@, "-i"@, list@, "-c"@,
        "copy"@, output@]);
    r
}

/// The line of an ffmpeg concat list that names `path`.
pub fn concat_line(path: &str) -> (r: String)
    ensures
        r@ == "file '"@ + path@ + "'\n"@,
{
    cat3("file '", path, "'\n")
}

/// ffmpeg arguments that cut `input` from `start` to `end` (seconds) into
/// `output`.
pub fn clip_args(start: &str, end: &str, input: &str, output: &str) -> (r: Vec<String>)
    ensures
        views(r@) == seq!["-y"@, "-ss"@, start@, "-to"@, end@, "-i"@, input@, output@],
{
    let mut r: Vec<String> = Vec::new();
    push_arg(&mut r, "-y");
    push_arg(&mut r, "-ss");
    push_arg(&mut r, start);
    push_arg(&mut r, "-to");
    push_arg(&mut r, end);
    push_arg(&mut r, "-i");
    push_arg(&mut r, input);
    push_arg(&mut r, output);
    assert(views(r@) =~= seq!["-y"@, "-ss"@, start@, "-to"@, end@, "-i"@, input@, output@]);
    r
}

/// The sample rate of the audio analysed for quiet points.
pub const ENERGY_SAMPLE_RATE: u32 = 3000;

/// ffmpeg arguments that print, as raw 16-bit little-endian mono samples at
/// 3 kHz, the band from 300 Hz to 3 kHz of `audio` between `start` and `end`.
pub fn energy_samples_args(start: &str, end: &str, audio: &str) -> (r: Vec<String>)
    ensures
        views(r@) == seq!["-y"@, "-ss"@, start@, "-to"@, end@, "-i"@, audio@, "-f"@, "s16le"@,
            "-ar"@, "3000"@, "-ac"@, "1"@, "-af"@, "lowpass=f=3000,highpass=f=300"@, "pipe:1"@],
{
    let mut r: Vec<String> = Vec::new();
    push_arg(&mut r, "-y");
    push_arg(&mut r, "-ss");
    push_arg(&mut r, start);
    push_arg(&mut r, "-to");
    push_arg(&mut r, end);
    push_arg(&mut r, "-i");
    push_arg(&mut r, audio);
    push_arg(&mut r, "-f");
    push_arg(&mut r, "s16le");
    push_arg(&mut r, "-ar");
    push_arg(&mut r, "3000");
    push_arg(&mut r, "-ac");
    push_arg(&mut r, "1");
    push_arg(&mut r, "-af");
    push_arg(&mut r, "lowpass=f=3000,highpass=f=300");
    push_arg(&mut r, "pipe:1");
    assert(views(r@) =~= seq!["-y"@, "-ss"@, start@, "-to"@, end@, "-i"@, audio@, "-f"@,
        "s16le"@, "-ar"@, "3000"@, "-ac"@, "1"@, "-af"@, "lowpass=f=3000,highpass=f=300"@,
        "pipe:1"@]);
    r
}

/// Too many subtitles failed to speak: more than half of them.
pub fn too_many_tts_failures(failed: usize, total: usize) -> (r: bool)
    ensures
        r == (total > 0 && 2 * failed > total),
{
    total > 0 && (failed >= total || failed > total - failed)
}

/// Whether the progress of the speech step is reported after `done` of
/// `total` subtitles: every fifth, and the last.
pub fn report_tts_progress(done: usize, total: usize) -> (r: bool)
    ensures
        r == (done % 5 == 0 || done == total),
{
    done % 5 == 0 || done == total
}

/// What becomes of the finished speech.
#[derive(Debug, Clone, Copy, PartialEq, Eq)]
pub enum TtsMerge {
    /// Added to the video as a second sound track.
    AddTrack,
    /// Put in place of the video's sound.
    Replace,
    /// Kept as audio only: there is no video.
    AudioOnly,
}

/// What becomes of the speech: with a video, a second track when several
/// tracks are asked for, else a replacement.
pub fn tts_merge(input_video_path: &str, input_exists: bool, multi_track: bool) -> (r: TtsMerge)
    ensures
        r == if input_video_path@.len() > 0 && input_exists {
            if multi_track {
                TtsMerge::AddTrack
            } else {
                TtsMerge::Replace
            }
        } else {
            TtsMerge::AudioOnly
        },
{
    if !input_video_path.is_empty() && input_exists {
        if multi_track {
            TtsMerge::AddTrack
        } else {
            TtsMerge::Replace
        }
    } else {
        TtsMerge::AudioOnly
    }
}


/// The decimal text of a number is ASCII digits, and reads back as the
/// number.
pub proof fn lemma_decimal_reads_back(n: nat)
    ensures
        decimal(n).len() >= 1,
        forall|k: int| 0 <= k < decimal(n).len() ==> '0' <= #[trigger] decimal(n)[k] <= '9',
        crate::ass::digits_value(decimal(n)) == n,
    decreases n,
{
    let d = decimal(n);
    let m = n % 10;
    assert(crate::strings::digit_char(m) as u32 == 48 + m);
    if n >= 10 {
        lemma_decimal_reads_back(n / 10);
        let p = decimal(n / 10);
        assert(d == p.push(crate::strings::digit_char(n % 10)));
        assert(d.drop_last() =~= p);
        assert forall|k: int| 0 <= k < d.len() implies '0' <= #[trigger] d[k] <= '9' by {
            if k < p.len() {
                assert(d[k] == p[k]);
            }
        }
        assert(d.last() == crate::strings::digit_char(m));
        assert(crate::ass::digits_value(d) == crate::ass::digits_value(p) * 10 + m);
        assert((n / 10) * 10 + m == n);
    } else {
        assert(d.drop_last() =~= Seq::<char>::empty());
        assert(m == n);
        assert(d.last() == crate::strings::digit_char(n));
        assert(crate::ass::digits_value(d.drop_last()) == 0);
        assert(crate::ass::digits_value(d) == m);
    }
}

/// What ffprobe prints for a frame `w` wide and `h` high, `WxH`, reads back
/// as that size.
pub proof fn resolution_round_trip(w: u32, h: u32)
    ensures
        resolution_of(decimal(w as nat) + "x"@ + decimal(h as nat)) == Ok::<
            (u32, u32),
            ResolutionError,
        >((w, h)),
{
    reveal_strlit("x");
    let dw = decimal(w as nat);
    let dh = decimal(h as nat);
    let s = dw + "x"@ + dh;
    lemma_decimal_reads_back(w as nat);
    lemma_decimal_reads_back(h as nat);
    let ws = crate::strings::TrimSet::Whitespace;
    assert(s[0] == dw[0]);
    crate::strings::lemma_lead_count(s, ws, 0);
    assert(s.skip(0) =~= s);
    assert(s[s.len() - 1] == dh[dh.len() - 1]);
    crate::strings::lemma_trail_count(s, ws, s.len() as int);
    assert(trim(s) =~= s);
    let k = dw.len() as int;
    assert forall|i: int| 0 <= i < k implies s[i] != 'x' by {
        assert(s[i] == dw[i]);
    }
    crate::ass::lemma_find_first(s, 'x', k);
    assert(s.skip(k + 1) =~= dh);
    assert(s.take(k) =~= dw);
    assert forall|i: int| 0 <= i < dh.len() implies dh[i] != 'x' by {
        assert('0' <= dh[i] <= '9');
    }
    crate::ass::lemma_find_first(dh, 'x', dh.len() as int);
    assert(crate::ass::digit_part(dw) == dw);
    assert(crate::ass::digit_part(dh) == dh);
}

} // verus!
