//! HTTP API payloads and the decisions behind the task endpoints.
use vstd::prelude::*;
use crate::strings::{cat, chars_of, is_alphanumeric, alphanumeric, owned, str_eq, string_from_chars};
use crate::task::{EmbedVideoType, StepParam, SubtitleInfo, SubtitleResultType, SubtitleTask};

verus! {

/// The envelope of every API answer: `error` is 0 on success and -1 on
/// failure.
#[derive(Debug)]
pub struct ApiResponse<T> {
    pub error: i32,
    pub msg: String,
    pub data: Option<T>,
}

impl<T> ApiResponse<T> {
    /// A successful answer carrying `data`.
    pub fn success(data: T) -> (r: Self)
        ensures
            r.error == 0,
            r.msg@ == "success"@,
            r.data == Some(data),
    {
        ApiResponse { error: 0, msg: owned("success"), data: Some(data) }
    }

    /// A successful answer with its own message.
    pub fn success_msg(msg: &str, data: T) -> (r: Self)
        ensures
            r.error == 0,
            r.msg@ == msg@,
            r.data == Some(data),
    {
        ApiResponse { error: 0, msg: owned(msg), data: Some(data) }
    }
}

impl ApiResponse<()> {
    /// A failed answer with a message and no data.
    pub fn error(msg: &str) -> (r: Self)
        ensures
            r.error == -1,
            r.msg@ == msg@,
            r.data is None,
    {
        ApiResponse { error: -1, msg: owned(msg), data: None }
    }

    /// A successful answer without data.
    pub fn ok() -> (r: Self)
        ensures
            r.error == 0,
            r.msg@ == "success"@,
            r.data is None,
    {
        ApiResponse { error: 0, msg: owned("success"), data: None }
    }
}

/// A request to start a dubbing task.
#[derive(Debug)]
pub struct StartTaskRequest {
    pub url: String,
    pub origin_language: String,
    pub target_lang: String,
    pub bilingual: u8,
    pub translation_subtitle_pos: u8,
    pub modal_filter: u8,
    pub tts: u8,
    pub tts_voice_code: String,
    pub tts_voice_clone_src_file_url: String,
    pub replace: Vec<String>,
    pub language: String,
    pub embed_subtitle_video_type: String,
    pub vertical_major_title: String,
    pub vertical_minor_title: String,
    pub origin_language_word_one_line: usize,
    /// When true, add dubbed audio as a second track instead of replacing
    pub multi_track: bool,
}

/// The answer to a started task.
#[derive(Debug)]
pub struct StartTaskResponse {
    pub task_id: String,
}

/// A request for a task's state.
#[derive(Debug)]
pub struct GetTaskRequest {
    pub task_id: String,
}

/// Video details of a task.
#[derive(Debug)]
pub struct VideoInfo {
    pub title: String,
    pub description: String,
    pub translated_title: String,
    pub translated_description: String,
    pub language: String,
}

/// A downloadable output as the API shows it.
#[derive(Debug)]
pub struct SubtitleInfoDto {
    pub name: String,
    pub download_url: String,
}

/// The state of a task as the API shows it.
#[derive(Debug)]
pub struct GetTaskResponse {
    pub task_id: String,
    pub process_percent: u8,
    pub video_info: Option<VideoInfo>,
    pub subtitle_info: Vec<SubtitleInfoDto>,
    pub target_language: String,
    pub speech_download_url: String,
}

/// The answer to an upload.
#[derive(Debug)]
pub struct UploadFileResponse {
    pub file_path: Vec<String>,
}

/// What a task id keeps of a URL: characters that are alphanumeric, `_` or
/// `-`, at most 50 of them.
pub open spec fn id_char(c: char) -> bool {
    alphanumeric(c) || c == '_' || c == '-'
}

pub open spec fn id_part(s: Seq<char>) -> Seq<char> {
    let f = s.filter(|c: char| id_char(c));
    if f.len() <= 50 {
        f
    } else {
        f.take(50)
    }
}

/// Keep the characters of `s` that may stand in a task id, at most 50.
pub fn sanitize_for_id(s: &str) -> (r: String)
    ensures
        r@ == id_part(s@),
{
    let v = chars_of(s);
    let mut out: Vec<char> = Vec::new();
    let mut i: usize = 0;
    while i < v.len() && out.len() < 50
        invariant
            i <= v@.len(),
            v@ == s@,
            out@ == v@.take(i as int).filter(|c: char| id_char(c)),
            out@.len() <= 50,
        decreases v@.len() - i,
    {
        let c = v[i];
        proof {
            assert(v@.take(i + 1).drop_last() == v@.take(i as int));
            reveal_with_fuel(Seq::filter, 1);
        }
        if is_alphanumeric(c) || c == '_' || c == '-' {
            out.push(c);
        }
        i = i + 1;
    }
    proof {
        let f = s@.filter(|c: char| id_char(c));
        assert(s@ =~= v@.take(i as int) + v@.skip(i as int));
        Seq::filter_distributes_over_add(v@.take(i as int), v@.skip(i as int), |c: char| id_char(c));
        if i < v@.len() {
            assert(out@.len() == 50);
            assert(f.take(50) =~= out@);
        } else {
            assert(v@.take(i as int) =~= v@);
            assert(v@.skip(i as int).filter(|c: char| id_char(c)) =~= Seq::<char>::empty()) by {
                reveal_with_fuel(Seq::filter, 1);
            }
            assert(f =~= out@);
        }
    }
    string_from_chars(out.as_slice())
}

/// Whether `c` is a lowercase hexadecimal digit.
pub open spec fn lower_hex(c: char) -> bool {
    ('0' <= c <= '9') || ('a' <= c <= 'f')
}

/// The text of a UUID: 36 characters, `-` at 8, 13, 18 and 23 and
/// lowercase hexadecimal digits elsewhere.
pub open spec fn uuid_text(s: Seq<char>) -> bool {
    &&& s.len() == 36
    &&& forall|i: int|
        0 <= i < 36 ==> if i == 8 || i == 13 || i == 18 || i == 23 {
            #[trigger] s[i] == '-'
        } else {
            lower_hex(s[i])
        }
}

/// uuid `Uuid::new_v4().to_string()`. Claimed: the hyphenated lowercase
/// form, 36 characters with `-` at 8, 13, 18 and 23 and hexadecimal digits
/// elsewhere. The value itself is random and not stated.
#[verifier::external_body]
pub(crate) fn new_uuid() -> (r: String)
    ensures
        r@.len() == 36,
        forall|i: int|
            0 <= i < 36 ==> if i == 8 || i == 13 || i == 18 || i == 23 {
                #[trigger] r@[i] == '-'
            } else {
                lower_hex(r@[i])
            },
{
    uuid::Uuid::new_v4().to_string()
}

/// The id of a task for `url`: its id characters, `_`, then the first
/// eight characters of `uuid`.
pub fn task_id_from(url: &str, uuid: &str) -> (r: String)
    requires
        uuid@.len() >= 8,
    ensures
        r@ == id_part(url@) + "_"@ + uuid@.take(8),
{
    let id = sanitize_for_id(url);
    let u = chars_of(uuid);
    let head = crate::ass::slice_vec(&u, 0, 8);
    assert(head@ =~= uuid@.take(8));
    let h = string_from_chars(head.as_slice());
    let mut r = cat(id.as_str(), "_");
    r.append(h.as_str());
    r
}

/// A fresh id for a task on `url`: the URL's id characters, `_`, and eight
/// random hexadecimal digits.
pub fn new_task_id(url: &str) -> (r: String)
    ensures
        exists|u: Seq<char>|
            u.len() == 8 && (forall|i: int| 0 <= i < 8 ==> lower_hex(#[trigger] u[i])) && r@
                == id_part(url@) + "_"@ + u,
{
    let u = new_uuid();
    let r = task_id_from(url, u.as_str());
    assert(forall|i: int| 0 <= i < 8 ==> lower_hex(#[trigger] u@.take(8)[i])) by {
        assert forall|i: int| 0 <= i < 8 implies lower_hex(#[trigger] u@.take(8)[i]) by {
            assert(u@.take(8)[i] == u@[i]);
            assert(i != 8 && i != 13 && i != 18 && i != 23);
        }
    }
    r
}

/// The subtitle layout a request asks for.
pub open spec fn result_type_for(bilingual: u8, pos: u8, target: Seq<char>) -> SubtitleResultType {
    if bilingual == 1 && pos == 1 {
        SubtitleResultType::BilingualTranslationOnTop
    } else if bilingual == 1 {
        SubtitleResultType::BilingualTranslationOnBottom
    } else if target.len() > 0 {
        SubtitleResultType::TargetOnly
    } else {
        SubtitleResultType::OriginOnly
    }
}

/// Determine the subtitle layout: bilingual with the translation on top or
/// below, else the target language when one is set, else the source.
pub fn subtitle_result_type_for(bilingual: u8, translation_subtitle_pos: u8, target_lang: &str) -> (r:
    SubtitleResultType)
    ensures
        r == result_type_for(bilingual, translation_subtitle_pos, target_lang@),
{
    if bilingual == 1 && translation_subtitle_pos == 1 {
        SubtitleResultType::BilingualTranslationOnTop
    } else if bilingual == 1 {
        SubtitleResultType::BilingualTranslationOnBottom
    } else if !target_lang.is_empty() {
        SubtitleResultType::TargetOnly
    } else {
        SubtitleResultType::OriginOnly
    }
}

/// The replacements that the entries `"from|to"` of `entries` ask for, in
/// order, a later entry for the same word overriding an earlier one; entries
/// without `|` are ignored.
pub open spec fn replacement_map(entries: Seq<Seq<char>>) -> Map<Seq<char>, Seq<char>>
    decreases entries.len(),
{
    if entries.len() == 0 {
        Map::empty()
    } else {
        let m = replacement_map(entries.drop_last());
        let e = entries.last();
        match crate::ass::find_first(e, '|') {
            Some(i) => m.insert(e.take(i as int), e.skip(i as int + 1)),
            None => m,
        }
    }
}

/// The map that a list of pairs stands for.
pub open spec fn pairs_map(pairs: Seq<(String, String)>) -> Map<Seq<char>, Seq<char>>
    decreases pairs.len(),
{
    if pairs.len() == 0 {
        Map::empty()
    } else {
        pairs_map(pairs.drop_last()).insert(pairs.last().0@, pairs.last().1@)
    }
}

/// No word occurs twice among the pairs.
pub open spec fn distinct_keys(pairs: Seq<(String, String)>) -> bool {
    forall|i: int, j: int| 0 <= i < j < pairs.len() ==> (#[trigger] pairs[i]).0@ != (
    #[trigger] pairs[j]).0@
}

proof fn lemma_pairs_map_dom(pairs: Seq<(String, String)>, k: Seq<char>)
    ensures
        pairs_map(pairs).contains_key(k) <==> exists|i: int|
            0 <= i < pairs.len() && (#[trigger] pairs[i]).0@ == k,
    decreases pairs.len(),
{
    if pairs.len() > 0 {
        lemma_pairs_map_dom(pairs.drop_last(), k);
        if pairs_map(pairs.drop_last()).contains_key(k) {
            let i = choose|i: int| 0 <= i < pairs.drop_last().len() && (#[trigger] pairs.drop_last()[i]).0@ == k;
            assert(pairs[i] == pairs.drop_last()[i]);
        }
        if exists|i: int| 0 <= i < pairs.len() && (#[trigger] pairs[i]).0@ == k {
            let i = choose|i: int| 0 <= i < pairs.len() && (#[trigger] pairs[i]).0@ == k;
            if i < pairs.len() - 1 {
                assert(pairs.drop_last()[i] == pairs[i]);
            }
        }
    }
}

proof fn lemma_pairs_map_update(pairs: Seq<(String, String)>, j: int, v: (String, String))
    requires
        distinct_keys(pairs),
        0 <= j < pairs.len(),
        pairs[j].0@ == v.0@,
    ensures
        pairs_map(pairs.update(j, v)) == pairs_map(pairs).insert(v.0@, v.1@),
        distinct_keys(pairs.update(j, v)),
    decreases pairs.len(),
{
    let u = pairs.update(j, v);
    if j == pairs.len() - 1 {
        assert(u.drop_last() =~= pairs.drop_last());
        assert(pairs_map(u) =~= pairs_map(pairs).insert(v.0@, v.1@));
    } else {
        let p = pairs.drop_last();
        assert forall|a: int, b: int| 0 <= a < b < p.len() implies (#[trigger] p[a]).0@ != (
        #[trigger] p[b]).0@ by {
            assert(p[a] == pairs[a] && p[b] == pairs[b]);
        }
        lemma_pairs_map_update(p, j, v);
        assert(u.drop_last() =~= p.update(j, v));
        assert(u.last() == pairs.last());
        assert(pairs.last().0@ != v.0@) by {
            assert(pairs[j].0@ != pairs[pairs.len() - 1].0@);
        }
        assert(pairs_map(u) =~= pairs_map(pairs).insert(v.0@, v.1@));
    }
    assert forall|a: int, b: int| 0 <= a < b < u.len() implies (#[trigger] u[a]).0@ != (
    #[trigger] u[b]).0@ by {
        assert(pairs[a].0@ != pairs[b].0@);
    }
}

fn split_at_bar(e: &str) -> (r: Option<(String, String)>)
    ensures
        match crate::ass::find_first(e@, '|') {
            Some(i) => r matches Some(p) && p.0@ == e@.take(i as int) && p.1@ == e@.skip(i as int + 1),
            None => r is None,
        },
{
    let v = chars_of(e);
    match crate::ass::find_char_in(&v, '|') {
        Some(i) => {
            assert(i < v.len());
            let a = crate::ass::slice_vec(&v, 0, i);
            let b = crate::ass::slice_vec(&v, i + 1, v.len());
            assert(a@ =~= e@.take(i as int));
            assert(b@ =~= e@.skip(i as int + 1));
            Some((string_from_chars(a.as_slice()), string_from_chars(b.as_slice())))
        },
        None => None,
    }
}

/// The word replacements of a request: each entry `"from|to"` (split at its
/// first `|`) maps `from` to `to`; later entries override earlier ones and
/// entries without `|` are ignored. Each word appears once in the result.
pub fn parse_replace_words(replace: &Vec<String>) -> (r: Vec<(String, String)>)
    ensures
        distinct_keys(r@),
        pairs_map(r@) == replacement_map(replace@.map_values(|s: String| s@)),
{
    let ghost entries = replace@.map_values(|s: String| s@);
    let mut r: Vec<(String, String)> = Vec::new();
    let mut i: usize = 0;
    while i < replace.len()
        invariant
            i <= replace@.len(),
            entries == replace@.map_values(|s: String| s@),
            distinct_keys(r@),
            pairs_map(r@) == replacement_map(entries.take(i as int)),
        decreases replace@.len() - i,
    {
        assert(entries.take(i + 1).drop_last() =~= entries.take(i as int));
        assert(entries.take(i + 1).last() == replace@[i as int]@);
        match split_at_bar(replace[i].as_str()) {
            None => {},
            Some(p) => {
                let mut j: usize = 0;
                let mut found = false;
                while j < r.len() && !found
                    invariant
                        j <= r@.len(),
                        found ==> j < r@.len() && r@[j as int].0@ == p.0@,
                        !found ==> forall|k: int| 0 <= k < j ==> (#[trigger] r@[k]).0@ != p.0@,
                    decreases r@.len() - j + (if found { 0int } else { 1int }),
                {
                    if str_eq(r[j].0.as_str(), p.0.as_str()) {
                        found = true;
                    } else {
                        j = j + 1;
                    }
                }
                if found {
                    proof {
                        lemma_pairs_map_update(r@, j as int, p);
                    }
                    r.set(j, p);
                } else {
                    let ghost before = r@;
                    r.push(p);
                    proof {
                        assert(r@.drop_last() =~= before);
                        assert forall|a: int, b: int| 0 <= a < b < r@.len() implies (
                        #[trigger] r@[a]).0@ != (#[trigger] r@[b]).0@ by {
                            if b == r@.len() - 1 {
                                assert(r@[a] == before[a]);
                            } else {
                                assert(r@[a] == before[a] && r@[b] == before[b]);
                            }
                        }
                    }
                }
            },
        }
        i = i + 1;
    }
    assert(entries.take(replace@.len() as int) =~= entries);
    r
}

/// The words per subtitle line: the request's value when positive, else 12.
pub fn max_words_per_line(requested: usize) -> (r: usize)
    ensures
        r == if requested > 0 { requested } else { 12 },
{
    if requested > 0 {
        requested
    } else {
        12
    }
}

/// The working directory of a task.
pub fn task_base_path(task_id: &str) -> (r: String)
    ensures
        r@ == "./tasks/"@ + task_id@,
{
    cat("./tasks/", task_id)
}

/// A language field of a request: empty means `"auto"` (detect the source,
/// or pick the target from it).
pub open spec fn auto_if_empty(lang: Seq<char>) -> Seq<char> {
    if lang.len() == 0 {
        "auto"@
    } else {
        lang
    }
}

/// The language named by a request field, `"auto"` when it is empty.
pub fn or_auto(lang: String) -> (r: String)
    ensures
        r@ == auto_if_empty(lang@),
{
    if lang.as_str().is_empty() {
        owned("auto")
    } else {
        lang
    }
}

/// The pipeline parameters for a started task, before any step ran.
pub fn build_step_param(req: StartTaskRequest, task_id: &str) -> (r: StepParam)
    ensures
        r.task_id@ == task_id@,
        r.task_base_path@ == "./tasks/"@ + task_id@,
        r.link == req.url,
        r.audio_file_path@.len() == 0,
        r.input_video_path@.len() == 0,
        r.video_with_tts_file_path@.len() == 0,
        r.subtitle_result_type == result_type_for(
            req.bilingual,
            req.translation_subtitle_pos,
            req.target_lang@,
        ),
        r.enable_modal_filter == (req.modal_filter == 1),
        r.enable_tts == (req.tts == 1),
        r.tts_voice_code == req.tts_voice_code,
        r.voice_clone_audio_url == req.tts_voice_clone_src_file_url,
        r.origin_language@ == auto_if_empty(req.origin_language@),
        r.target_language@ == auto_if_empty(req.target_lang@),
        r.user_ui_language == req.language,
        distinct_keys(r.replace_words_map@),
        pairs_map(r.replace_words_map@) == replacement_map(req.replace@.map_values(|s: String| s@)),
        r.bilingual_srt_file_path@.len() == 0,
        r.short_origin_mixed_srt_file_path@.len() == 0,
        r.tts_source_file_path@.len() == 0,
        r.tts_result_file_path@.len() == 0,
        r.embed_subtitle_video_type == crate::task::embed_type_named(req.embed_subtitle_video_type@),
        r.vertical_video_major_title == req.vertical_major_title,
        r.vertical_video_minor_title == req.vertical_minor_title,
        r.max_word_one_line == if req.origin_language_word_one_line > 0 {
            req.origin_language_word_one_line
        } else {
            12
        },
        r.subtitle_infos@.len() == 0,
        r.multi_track_audio == req.multi_track,
        r.detected_language@.len() == 0,
{
    let result_type = subtitle_result_type_for(
        req.bilingual,
        req.translation_subtitle_pos,
        req.target_lang.as_str(),
    );
    let replace_words_map = parse_replace_words(&req.replace);
    let embed = EmbedVideoType::from(req.embed_subtitle_video_type.as_str());
    let max_word = max_words_per_line(req.origin_language_word_one_line);
    StepParam {
        task_id: owned(task_id),
        task_base_path: task_base_path(task_id),
        link: req.url,
        audio_file_path: String::new(),
        input_video_path: String::new(),
        video_with_tts_file_path: String::new(),
        subtitle_result_type: result_type,
        enable_modal_filter: req.modal_filter == 1,
        enable_tts: req.tts == 1,
        tts_voice_code: req.tts_voice_code,
        voice_clone_audio_url: req.tts_voice_clone_src_file_url,
        origin_language: or_auto(req.origin_language),
        target_language: or_auto(req.target_lang),
        user_ui_language: req.language,
        replace_words_map,
        bilingual_srt_file_path: String::new(),
        short_origin_mixed_srt_file_path: String::new(),
        tts_source_file_path: String::new(),
        tts_result_file_path: String::new(),
        embed_subtitle_video_type: embed,
        vertical_video_major_title: req.vertical_major_title,
        vertical_video_minor_title: req.vertical_minor_title,
        max_word_one_line: max_word,
        subtitle_infos: Vec::new(),
        multi_track_audio: req.multi_track,
        detected_language: String::new(),
    }
}

fn copy(s: &String) -> (r: String)
    ensures
        r@ == s@,
{
    s.clone()
}

/// The API view of a task: video details only when a title or description
/// is known, and each output with its name and address.
pub fn task_response(task: &SubtitleTask) -> (r: GetTaskResponse)
    ensures
        r.task_id@ == task.task_id@,
        r.process_percent == task.process_pct,
        r.target_language@ == task.target_language@,
        r.speech_download_url@ == task.speech_download_url@,
        (r.video_info is Some) == (task.title@.len() > 0 || task.description@.len() > 0),
        r.video_info matches Some(v) ==> v.title@ == task.title@ && v.description@
            == task.description@ && v.translated_title@ == task.translated_title@
            && v.translated_description@ == task.translated_description@ && v.language@
            == task.origin_language@,
        r.subtitle_info@.len() == task.subtitle_infos@.len(),
        forall|i: int|
            0 <= i < r.subtitle_info@.len() ==> (#[trigger] r.subtitle_info@[i]).name@
                == task.subtitle_infos@[i].name@ && r.subtitle_info@[i].download_url@
                == task.subtitle_infos@[i].download_url@,
{
    let video_info = if !task.title.as_str().is_empty() || !task.description.as_str().is_empty() {
        Some(
            VideoInfo {
                title: copy(&task.title),
                description: copy(&task.description),
                translated_title: copy(&task.translated_title),
                translated_description: copy(&task.translated_description),
                language: copy(&task.origin_language),
            },
        )
    } else {
        None
    };
    let mut infos: Vec<SubtitleInfoDto> = Vec::new();
    let mut i: usize = 0;
    while i < task.subtitle_infos.len()
        invariant
            i <= task.subtitle_infos@.len(),
            infos@.len() == i,
            forall|k: int|
                0 <= k < i ==> (#[trigger] infos@[k]).name@ == task.subtitle_infos@[k].name@
                    && infos@[k].download_url@ == task.subtitle_infos@[k].download_url@,
        decreases task.subtitle_infos@.len() - i,
    {
        let s: &SubtitleInfo = &task.subtitle_infos[i];
        infos.push(SubtitleInfoDto { name: copy(&s.name), download_url: copy(&s.download_url) });
        i = i + 1;
    }
    GetTaskResponse {
        task_id: copy(&task.task_id),
        process_percent: task.process_pct,
        video_info,
        subtitle_info: infos,
        target_language: copy(&task.target_language),
        speech_download_url: copy(&task.speech_download_url),
    }
}

} // verus!
