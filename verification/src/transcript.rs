//! From transcription to subtitle files: language choice, translation
//! requests and the SRT documents.
use vstd::prelude::*;
use crate::cli_art::{auto_target, auto_target_language};
use crate::strings::{cat, cat3, decimal, owned, replace_str, replaced, str_eq, trim, trim_str,
    usize_to_decimal};
use crate::task::SubtitleResultType;

verus! {

/// A sentence with its translation.
#[derive(Debug, Clone)]
pub struct TranslatedItem {
    pub origin_text: String,
    pub translated_text: String,
}

/// One numbered subtitle block with its time range.
#[derive(Debug, Clone)]
pub struct SrtBlock {
    pub index: usize,
    pub timestamp: String,
    pub origin_language_sentence: String,
    pub target_language_sentence: String,
}

/// The language handed to speech recognition: empty (detect it) for `"auto"`.
pub fn asr_language(origin_language: &str) -> (r: String)
    ensures
        r@ == if origin_language@ == "auto"@ {
            Seq::<char>::empty()
        } else {
            origin_language@
        },
{
    if str_eq(origin_language, "auto") {
        String::new()
    } else {
        owned(origin_language)
    }
}

/// Source, target and detected language after recognition.
pub struct Languages {
    pub origin: String,
    pub target: String,
    pub detected: String,
}

/// The languages after recognition in automatic mode: the detected language
/// becomes the source, and an automatic target follows it (English ↔
/// Russian); without a detection the source is English and an automatic
/// target Russian. `detected` is `None` when nothing was transcribed; outside
/// automatic mode nothing changes.
pub open spec fn languages_after(origin: Seq<char>, target: Seq<char>, detected_before: Seq<char>,
    detected: Option<Seq<char>>) -> (Seq<char>, Seq<char>, Seq<char>) {
    if origin == "auto"@ && detected is Some {
        let d = detected->0;
        if d.len() > 0 {
            (d, if target == "auto"@ { auto_target(d) } else { target }, d)
        } else {
            ("en"@, if target == "auto"@ { "ru"@ } else { target }, detected_before)
        }
    } else {
        (origin, target, detected_before)
    }
}

/// Settle the source and target languages once the first segment's
/// detected language (`detected`) is known.
pub fn resolve_languages(origin: &str, target: &str, detected_before: &str, detected: Option<&str>) -> (r:
    Languages)
    ensures
        (r.origin@, r.target@, r.detected@) == languages_after(
            origin@,
            target@,
            detected_before@,
            match detected {
                Some(d) => Some(d@),
                None => None,
            },
        ),
{
    match detected {
        Some(d) if str_eq(origin, "auto") => {
            if !d.is_empty() {
                let t = if str_eq(target, "auto") {
                    owned(auto_target_language(d))
                } else {
                    owned(target)
                };
                Languages { origin: owned(d), target: t, detected: owned(d) }
            } else {
                let t = if str_eq(target, "auto") {
                    owned("ru")
                } else {
                    owned(target)
                };
                Languages { origin: owned("en"), target: t, detected: owned(detected_before) }
            }
        },
        _ => Languages { origin: owned(origin), target: owned(target), detected: owned(detected_before) },
    }
}

/// Whether the sentences go through translation: the subtitles show the
/// target language, a target is set, and it differs from the source.
pub fn needs_translation(result_type: SubtitleResultType, origin: &str, target: &str) -> (r: bool)
    ensures
        r == (result_type != SubtitleResultType::OriginOnly && target@.len() > 0 && origin@
            != target@),
{
    result_type != SubtitleResultType::OriginOnly && !target.is_empty() && !str_eq(origin, target)
}

/// The sentences around sentence `i`: up to three before it and up to three
/// after it.
pub fn context_window(sentences: &Vec<String>, i: usize) -> (r: (Vec<String>, Vec<String>))
    requires
        i < sentences@.len(),
    ensures
        r.0@.map_values(|s: String| s@) == sentences@.map_values(|s: String| s@).subrange(
            if i >= 3 { i - 3 } else { 0 },
            i as int,
        ),
        r.1@.map_values(|s: String| s@) == sentences@.map_values(|s: String| s@).subrange(
            i + 1,
            if i + 4 <= sentences@.len() { i + 4 } else { sentences@.len() as int },
        ),
{
    let ghost all = sentences@.map_values(|s: String| s@);
    let start = if i >= 3 { i - 3 } else { 0 };
    let mut prev: Vec<String> = Vec::new();
    let mut k = start;
    while k < i
        invariant
            start <= k <= i < sentences@.len(),
            all == sentences@.map_values(|s: String| s@),
            prev@.map_values(|s: String| s@) == all.subrange(start as int, k as int),
        decreases i - k,
    {
        let ghost before = prev@.map_values(|s: String| s@);
        prev.push(owned(sentences[k].as_str()));
        assert(prev@.map_values(|s: String| s@) =~= before.push(all[k as int]));
        k = k + 1;
        assert(all.subrange(start as int, k as int) =~= all.subrange(start as int, k - 1).push(
            all[k - 1],
        ));
    }
    let end = if sentences.len() - i >= 4 { i + 4 } else { sentences.len() };
    let mut next: Vec<String> = Vec::new();
    let mut k = i + 1;
    while k < end
        invariant
            i + 1 <= k <= end <= sentences@.len(),
            all == sentences@.map_values(|s: String| s@),
            next@.map_values(|s: String| s@) == all.subrange(i + 1, k as int),
        decreases end - k,
    {
        let ghost before = next@.map_values(|s: String| s@);
        next.push(owned(sentences[k].as_str()));
        assert(next@.map_values(|s: String| s@) =~= before.push(all[k as int]));
        k = k + 1;
        assert(all.subrange(i + 1, k as int) =~= all.subrange(i + 1, k - 1).push(all[k - 1]));
    }
    (prev, next)
}

/// The lines of `ls` joined with `"\n"`.
pub open spec fn joined_lines(ls: Seq<Seq<char>>) -> Seq<char>
    decreases ls.len(),
{
    if ls.len() == 0 {
        Seq::empty()
    } else if ls.len() == 1 {
        ls[0]
    } else {
        joined_lines(ls.drop_last()) + "\n"@ + ls.last()
    }
}

/// The strings of `v` joined with newlines (`join("\n")`).
pub fn join_lines(v: &Vec<String>) -> (r: String)
    ensures
        r@ == joined_lines(v@.map_values(|s: String| s@)),
{
    let ghost all = v@.map_values(|s: String| s@);
    let mut r = String::new();
    let mut i: usize = 0;
    while i < v.len()
        invariant
            i <= v@.len(),
            all == v@.map_values(|s: String| s@),
            r@ == joined_lines(all.take(i as int)),
        decreases v@.len() - i,
    {
        assert(all.take(i + 1).drop_last() =~= all.take(i as int));
        if i > 0 {
            r.append("\n");
        }
        r.append(v[i].as_str());
        i = i + 1;
        if i == 1 {
            assert(r@ =~= joined_lines(all.take(1)));
        }
    }
    assert(all.take(v@.len() as int) =~= all);
    r
}

/// The translation request for `text`: the template's `{origin_lang}`,
/// `{target_lang}`, `{prev_context}`, `{text}` and `{next_context}` filled in,
/// in that order.
pub open spec fn prompt_text(template: Seq<char>, origin: Seq<char>, target: Seq<char>, prev: Seq<
    Seq<char>,
>, text: Seq<char>, next: Seq<Seq<char>>) -> Seq<char> {
    replaced(
        replaced(
            replaced(
                replaced(replaced(template, "{origin_lang}"@, origin), "{target_lang}"@, target),
                "{prev_context}"@,
                joined_lines(prev),
            ),
            "{text}"@,
            text,
        ),
        "{next_context}"@,
        joined_lines(next),
    )
}

/// Fill in the translation prompt for one sentence with its context.
pub fn build_translation_prompt(template: &str, origin_lang: &str, target_lang: &str, prev: &Vec<
    String,
>, text: &str, next: &Vec<String>) -> (r: String)
    ensures
        r@ == prompt_text(
            template@,
            origin_lang@,
            target_lang@,
            prev@.map_values(|s: String| s@),
            text@,
            next@.map_values(|s: String| s@),
        ),
{
    let a = replace_str(template, "{origin_lang}", origin_lang);
    let b = replace_str(a.as_str(), "{target_lang}", target_lang);
    let p = join_lines(prev);
    let c = replace_str(b.as_str(), "{prev_context}", p.as_str());
    let d = replace_str(c.as_str(), "{text}", text);
    let n = join_lines(next);
    replace_str(d.as_str(), "{next_context}", n.as_str())
}

/// The item for `sentence`: the trimmed reply of the language model, or the
/// sentence itself when every attempt failed (`reply` is `None`).
pub fn translated_item(sentence: &str, reply: Option<&str>) -> (r: TranslatedItem)
    ensures
        r.origin_text@ == sentence@,
        r.translated_text@ == match reply {
            Some(t) => trim(t@),
            None => sentence@,
        },
{
    match reply {
        Some(t) => TranslatedItem { origin_text: owned(sentence), translated_text: trim_str(t) },
        None => TranslatedItem { origin_text: owned(sentence), translated_text: owned(sentence) },
    }
}

/// Items for sentences that need no translation: each is its own
/// translation.
pub fn untranslated_items(sentences: &Vec<String>) -> (r: Vec<TranslatedItem>)
    ensures
        r@.len() == sentences@.len(),
        forall|i: int|
            0 <= i < r@.len() ==> (#[trigger] r@[i]).origin_text@ == sentences@[i]@
                && r@[i].translated_text@ == sentences@[i]@,
{
    let mut r: Vec<TranslatedItem> = Vec::new();
    let mut i: usize = 0;
    while i < sentences.len()
        invariant
            i <= sentences@.len(),
            r@.len() == i,
            forall|k: int|
                0 <= k < i ==> (#[trigger] r@[k]).origin_text@ == sentences@[k]@
                    && r@[k].translated_text@ == sentences@[k]@,
        decreases sentences@.len() - i,
    {
        r.push(
            TranslatedItem {
                origin_text: owned(sentences[i].as_str()),
                translated_text: owned(sentences[i].as_str()),
            },
        );
        i = i + 1;
    }
    r
}

/// Number the blocks from 1 in order, keeping everything else.
pub fn renumber_blocks(blocks: &mut Vec<SrtBlock>)
    ensures
        final(blocks)@.len() == old(blocks)@.len(),
        forall|i: int|
            0 <= i < final(blocks)@.len() ==> (#[trigger] final(blocks)@[i]).index == i + 1
                && final(blocks)@[i].timestamp == old(blocks)@[i].timestamp
                && final(blocks)@[i].origin_language_sentence == old(
                blocks,
            )@[i].origin_language_sentence && final(blocks)@[i].target_language_sentence == old(
                blocks,
            )@[i].target_language_sentence,
{
    let n = blocks.len();
    let mut i: usize = 0;
    while i < n
        invariant
            i <= n,
            n == blocks@.len(),
            n == old(blocks)@.len(),
            forall|k: int|
                0 <= k < n ==> (#[trigger] blocks@[k]).timestamp == old(blocks)@[k].timestamp
                    && blocks@[k].origin_language_sentence == old(blocks)@[k].origin_language_sentence
                    && blocks@[k].target_language_sentence == old(
                    blocks,
                )@[k].target_language_sentence,
            forall|k: int| 0 <= k < i ==> (#[trigger] blocks@[k]).index == k + 1,
        decreases n - i,
    {
        let b = SrtBlock {
            index: i + 1,
            timestamp: blocks[i].timestamp.clone(),
            origin_language_sentence: blocks[i].origin_language_sentence.clone(),
            target_language_sentence: blocks[i].target_language_sentence.clone(),
        };
        blocks.set(i, b);
        i = i + 1;
    }
}

/// Which text an SRT document shows.
#[derive(Debug, Clone, Copy, PartialEq, Eq, Structural)]
pub enum SrtSide {
    /// The bilingual document, laid out by the result type.
    Bilingual(SubtitleResultType),
    /// The source language only.
    Origin,
    /// The target language only.
    Target,
}

/// The text of block `b` in a document of `side`.
pub open spec fn block_text(b: SrtBlock, side: SrtSide) -> Seq<char> {
    match side {
        SrtSide::Bilingual(SubtitleResultType::BilingualTranslationOnTop) =>
            b.target_language_sentence@ + "\n"@ + b.origin_language_sentence@,
        SrtSide::Bilingual(SubtitleResultType::BilingualTranslationOnBottom) =>
            b.origin_language_sentence@ + "\n"@ + b.target_language_sentence@,
        SrtSide::Bilingual(_) => b.origin_language_sentence@,
        SrtSide::Origin => b.origin_language_sentence@,
        SrtSide::Target => b.target_language_sentence@,
    }
}

/// The SRT document of `blocks`: each block's number, time range and text
/// on their own lines, then an empty line.
pub open spec fn srt_document(blocks: Seq<SrtBlock>, side: SrtSide) -> Seq<char>
    decreases blocks.len(),
{
    if blocks.len() == 0 {
        Seq::empty()
    } else {
        let b = blocks.last();
        srt_document(blocks.drop_last(), side) + decimal(b.index as nat) + "\n"@ + b.timestamp@
            + "\n"@ + block_text(b, side) + "\n\n"@
    }
}

fn text_of(b: &SrtBlock, side: SrtSide) -> (r: String)
    ensures
        r@ == block_text(*b, side),
{
    match side {
        SrtSide::Bilingual(SubtitleResultType::BilingualTranslationOnTop) => cat3(
            b.target_language_sentence.as_str(),
            "\n",
            b.origin_language_sentence.as_str(),
        ),
        SrtSide::Bilingual(SubtitleResultType::BilingualTranslationOnBottom) => cat3(
            b.origin_language_sentence.as_str(),
            "\n",
            b.target_language_sentence.as_str(),
        ),
        SrtSide::Bilingual(_) => owned(b.origin_language_sentence.as_str()),
        SrtSide::Origin => owned(b.origin_language_sentence.as_str()),
        SrtSide::Target => owned(b.target_language_sentence.as_str()),
    }
}

/// Write `blocks` as an SRT document showing `side`.
pub fn srt_text(blocks: &Vec<SrtBlock>, side: SrtSide) -> (r: String)
    ensures
        r@ == srt_document(blocks@, side),
{
    let mut r = String::new();
    let mut i: usize = 0;
    while i < blocks.len()
        invariant
            i <= blocks@.len(),
            r@ == srt_document(blocks@.take(i as int), side),
        decreases blocks@.len() - i,
    {
        let b = &blocks[i];
        assert(blocks@.take(i + 1).drop_last() =~= blocks@.take(i as int));
        r.append(usize_to_decimal(b.index).as_str());
        r.append("\n");
        r.append(b.timestamp.as_str());
        r.append("\n");
        r.append(text_of(b, side).as_str());
        r.append("\n\n");
        i = i + 1;
    }
    assert(blocks@.take(blocks@.len() as int) =~= blocks@);
    r
}

/// Whether speech is synthesized from the target language document (else
/// from the source language one).
pub fn tts_reads_target(result_type: SubtitleResultType) -> (r: bool)
    ensures
        r == (result_type != SubtitleResultType::OriginOnly),
{
    match result_type {
        SubtitleResultType::OriginOnly => false,
        _ => true,
    }
}


/// `base/<prefix><i, three digits or more><suffix>`.
fn numbered_file(base: &str, prefix: &str, i: usize, suffix: &str) -> (r: String)
    ensures
        r@ == base@ + "/"@ + prefix@ + crate::strings::zero_padded(i as nat, 3) + suffix@,
{
    let n = crate::strings::zero_pad(i as u64, 3);
    let mut r = crate::strings::cat3(base, "/", prefix);
    r.append(n.as_str());
    r.append(suffix);
    r
}

/// The audio of segment `i`: `split_audio_<iii>.mp3` in the task directory.
pub fn segment_audio_path(base: &str, i: usize) -> (r: String)
    ensures
        r@ == base@ + "/"@ + "split_audio_"@ + crate::strings::zero_padded(i as nat, 3) + ".mp3"@,
{
    numbered_file(base, "split_audio_", i, ".mp3")
}

/// The saved transcription of segment `i`.
pub fn transcription_data_path(base: &str, i: usize) -> (r: String)
    ensures
        r@ == base@ + "/"@ + "audio_transcription_data_"@ + crate::strings::zero_padded(i as nat, 3)
            + ".json"@,
{
    numbered_file(base, "audio_transcription_data_", i, ".json")
}

/// The saved translation of segment `i`.
pub fn translation_data_path(base: &str, i: usize) -> (r: String)
    ensures
        r@ == base@ + "/"@ + "translation_data_"@ + crate::strings::zero_padded(i as nat, 3)
            + ".json"@,
{
    numbered_file(base, "translation_data_", i, ".json")
}

/// How many times a transcription or translation is tried: as configured,
/// but at least once.
pub fn attempts(configured: u32) -> (r: u32)
    ensures
        r == if configured == 0 {
            1
        } else {
            configured
        },
        r >= 1,
{
    if configured == 0 {
        1
    } else {
        configured
    }
}


/// A translation in progress. The sentences are asked for one at a time,
/// each with up to three sentences of context on either side; a sentence is
/// tried up to the allowed number of times, and keeps its own text when every
/// attempt fails. The language model is called by the owner, who hands each
/// reply (or failure) back.
pub struct Translation {
    sentences: Vec<String>,
    template: String,
    origin_lang: String,
    target_lang: String,
    max_attempts: u32,
    next: usize,
    failures: u32,
    items: Vec<TranslatedItem>,
}

impl Translation {
    /// The sentences to translate.
    pub closed spec fn sentence_views(&self) -> Seq<Seq<char>> {
        self.sentences@.map_values(|s: String| s@)
    }

    /// The items translated so far, one per sentence already done, in order.
    pub closed spec fn item_views(&self) -> Seq<TranslatedItem> {
        self.items@
    }

    /// The number of the sentence being asked for.
    pub closed spec fn position(&self) -> nat {
        self.next as nat
    }

    /// The failed attempts of the sentence being asked for.
    pub closed spec fn failed_attempts(&self) -> nat {
        self.failures as nat
    }

    /// How many attempts a sentence gets.
    pub closed spec fn allowed_attempts(&self) -> nat {
        self.max_attempts as nat
    }

    /// The settings of the requests.
    pub closed spec fn settings(&self) -> (Seq<char>, Seq<char>, Seq<char>) {
        (self.template@, self.origin_lang@, self.target_lang@)
    }

    /// Every sentence is done.
    pub open spec fn done(&self) -> bool {
        self.position() >= self.sentence_views().len()
    }

    /// An upper bound on the replies still needed before the run is done.
    pub open spec fn steps_left(&self) -> int {
        (self.sentence_views().len() - self.position()) * self.allowed_attempts()
            - self.failed_attempts()
    }

    /// The state is consistent: one item per finished sentence, each for
    /// that sentence, and the current sentence has attempts left.
    pub open spec fn wf(&self) -> bool {
        &&& self.position() <= self.sentence_views().len()
        &&& self.item_views().len() == self.position()
        &&& self.allowed_attempts() >= 1
        &&& self.failed_attempts() < self.allowed_attempts()
        &&& forall|k: int|
            0 <= k < self.position() ==> (#[trigger] self.item_views()[k]).origin_text@
                == self.sentence_views()[k]
    }

    /// Start translating `sentences` with the prompt `template`, each
    /// sentence tried `max_attempts` times (at least once).
    pub fn new(
        sentences: Vec<String>,
        template: &str,
        origin_lang: &str,
        target_lang: &str,
        max_attempts: u32,
    ) -> (r: Self)
        ensures
            r.wf(),
            r.sentence_views() == sentences@.map_values(|s: String| s@),
            r.position() == 0,
            r.failed_attempts() == 0,
            r.allowed_attempts() == attempts_spec(max_attempts),
            r.settings() == (template@, origin_lang@, target_lang@),
    {
        Translation {
            sentences,
            template: owned(template),
            origin_lang: owned(origin_lang),
            target_lang: owned(target_lang),
            max_attempts: attempts(max_attempts),
            next: 0,
            failures: 0,
            items: Vec::new(),
        }
    }

    /// The request for the current sentence, or `None` when every sentence
    /// is done.
    pub fn request(&self) -> (r: Option<String>)
        requires
            self.wf(),
        ensures
            self.done() ==> r is None,
            !self.done() ==> (r matches Some(p) && p@ == prompt_text(
                self.settings().0,
                self.settings().1,
                self.settings().2,
                self.sentence_views().subrange(
                    if self.position() >= 3 { self.position() - 3 } else { 0 },
                    self.position() as int,
                ),
                self.sentence_views()[self.position() as int],
                self.sentence_views().subrange(
                    self.position() as int + 1,
                    if self.position() + 4 <= self.sentence_views().len() {
                        self.position() as int + 4
                    } else {
                        self.sentence_views().len() as int
                    },
                ),
            )),
    {
        if self.next >= self.sentences.len() {
            return None;
        }
        let (prev, next) = context_window(&self.sentences, self.next);
        Some(
            build_translation_prompt(
                self.template.as_str(),
                self.origin_lang.as_str(),
                self.target_lang.as_str(),
                &prev,
                self.sentences[self.next].as_str(),
                &next,
            ),
        )
    }

    /// Take the language model's answer for the current sentence: a reply
    /// finishes the sentence with the trimmed reply; a failure uses up an
    /// attempt, and the last failure finishes it with its own text.
    pub fn on_reply(&mut self, reply: Option<&str>)
        requires
            old(self).wf(),
            !old(self).done(),
        ensures
            final(self).wf(),
            final(self).sentence_views() == old(self).sentence_views(),
            final(self).settings() == old(self).settings(),
            final(self).allowed_attempts() == old(self).allowed_attempts(),
            final(self).steps_left() < old(self).steps_left(),
            match reply {
                Some(t) => final(self).position() == old(self).position() + 1
                    && final(self).failed_attempts() == 0 && final(self).item_views().drop_last()
                    == old(self).item_views() && final(self).item_views().last().translated_text@
                    == trim(t@),
                None => if old(self).failed_attempts() + 1 < old(self).allowed_attempts() {
                    final(self).position() == old(self).position() && final(self).failed_attempts()
                        == old(self).failed_attempts() + 1 && final(self).item_views()
                        == old(self).item_views()
                } else {
                    final(self).position() == old(self).position() + 1
                        && final(self).failed_attempts() == 0 && final(self).item_views().drop_last()
                        == old(self).item_views() && final(self).item_views().last().translated_text@
                        == old(self).sentence_views()[old(self).position() as int]
                },
            },
    {
        let ghost old_steps = self.steps_left();
        let ghost n = self.sentence_views().len();
        let ghost m = self.allowed_attempts();
        let i = self.next;
        let count = self.sentences.len();
        assert(i < count);
        let finished = match reply {
            Some(_) => true,
            None => self.failures + 1 >= self.max_attempts,
        };
        if finished {
            let item = translated_item(self.sentences[i].as_str(), reply);
            let ghost before = self.items@;
            self.items.push(item);
            self.next = i + 1;
            self.failures = 0;
            proof {
                assert(self.items@.drop_last() =~= before);
                assert forall|k: int| 0 <= k < self.position() implies (
                #[trigger] self.item_views()[k]).origin_text@ == self.sentence_views()[k] by {
                    if k < i {
                        assert(self.items@[k] == before[k]);
                    }
                }
                let f = old(self).failed_attempts();
                assert((n - i) * m - f > (n - i - 1) * m) by (nonlinear_arith)
                    requires
                        f < m,
                        i < n,
                ;
            }
        } else {
            self.failures = self.failures + 1;
        }
    }

    /// The items, one per sentence in order, once every sentence is done.
    pub fn into_items(self) -> (r: Vec<TranslatedItem>)
        requires
            self.wf(),
            self.done(),
        ensures
            r@ == self.item_views(),
            r@.len() == self.sentence_views().len(),
    {
        self.items
    }
}

/// A finished translation has one item per sentence, in order, each for its
/// sentence.
pub proof fn translation_covers_every_sentence(t: Translation)
    requires
        t.wf(),
        t.done(),
    ensures
        t.item_views().len() == t.sentence_views().len(),
        forall|k: int|
            0 <= k < t.sentence_views().len() ==> (#[trigger] t.item_views()[k]).origin_text@
                == t.sentence_views()[k],
{
}

/// The attempts a setting allows: itself, but at least one.
pub open spec fn attempts_spec(configured: u32) -> nat {
    if configured == 0 {
        1
    } else {
        configured as nat
    }
}

/// The attempts at one transcription: how many failed so far, and how
/// many are allowed.
#[derive(Debug, Clone, Copy)]
pub struct Retry {
    pub failed: u32,
    pub allowed: u32,
}

impl Retry {
    /// At least one attempt is allowed, and no more fail than are allowed.
    pub open spec fn wf(&self) -> bool {
        1 <= self.allowed && self.failed <= self.allowed
    }

    /// No attempt made yet, with the configured number allowed (at least
    /// one).
    pub fn new(configured: u32) -> (r: Self)
        ensures
            r.wf(),
            r.failed == 0,
            r.allowed == attempts_spec(configured),
            r.failed < r.allowed,
    {
        Retry { failed: 0, allowed: attempts(configured) }
    }

    /// Whether another attempt is due: while fewer than the allowed ones
    /// failed.
    pub fn should_try(&self) -> (r: bool)
        ensures
            r == (self.failed < self.allowed),
    {
        self.failed < self.allowed
    }

    /// The number, from 1, of the attempt being made.
    pub fn attempt_number(&self) -> (r: u32)
        requires
            self.failed < self.allowed,
        ensures
            r == self.failed + 1,
    {
        self.failed + 1
    }

    /// Record that the attempt being made failed; the attempts left shrink
    /// by one.
    pub fn record_failure(&mut self)
        requires
            old(self).wf(),
            old(self).failed < old(self).allowed,
        ensures
            final(self).wf(),
            final(self).failed == old(self).failed + 1,
            final(self).allowed == old(self).allowed,
    {
        self.failed = self.failed + 1;
    }
}

} // verus!
