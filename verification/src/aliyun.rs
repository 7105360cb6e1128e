//! Aliyun's speech services: the signed token request, object storage
//! uploads, and the decisions of the recognition and synthesis sessions.
use vstd::prelude::*;
use vstd::utf8::encode_utf8;
use crate::strings::{cat, cat3, owned, string_from_chars};
use hmac::Mac;

verus! {

/// Bytes that stand for themselves in a percent-encoded string: ASCII
/// letters and digits and `-`, `_`, `.`, `~`.
pub open spec fn unreserved(b: u8) -> bool {
    (65 <= b <= 90) || (97 <= b <= 122) || (48 <= b <= 57) || b == 45 || b == 95 || b == 46
        || b == 126
}

/// The upper-case hexadecimal digit of `n` (below 16).
pub open spec fn hex_upper(n: int) -> char {
    if n < 10 {
        (48 + n) as char
    } else {
        (55 + n) as char
    }
}

/// One byte, percent-encoded: itself when unreserved, else `%` and two
/// upper-case hexadecimal digits.
pub open spec fn pct_byte(b: u8) -> Seq<char> {
    if unreserved(b) {
        seq![b as char]
    } else {
        seq!['%', hex_upper((b / 16) as int), hex_upper((b % 16) as int)]
    }
}

/// The bytes `bytes`, percent-encoded one after another.
pub open spec fn pct_encoded(bytes: Seq<u8>) -> Seq<char>
    decreases bytes.len(),
{
    if bytes.len() == 0 {
        seq![]
    } else {
        pct_encoded(bytes.drop_last()) + pct_byte(bytes.last())
    }
}

/// The percent-encoding of the UTF-8 bytes of `s`.
pub open spec fn pct(s: Seq<char>) -> Seq<char> {
    pct_encoded(encode_utf8(s))
}

/// A character that may stand in a percent-encoded text: an unreserved
/// ASCII character, `%`, or an upper-case hexadecimal digit.
pub open spec fn url_safe(c: char) -> bool {
    ('A' <= c <= 'Z') || ('a' <= c <= 'z') || ('0' <= c <= '9') || c == '-' || c == '_' || c == '.'
        || c == '~' || c == '%'
}

proof fn lemma_pct_encoded_safe(bytes: Seq<u8>)
    ensures
        forall|i: int| 0 <= i < pct_encoded(bytes).len() ==> url_safe(#[trigger] pct_encoded(bytes)[i]),
    decreases bytes.len(),
{
    if bytes.len() > 0 {
        lemma_pct_encoded_safe(bytes.drop_last());
        let p = pct_encoded(bytes.drop_last());
        let b = bytes.last();
        let q = pct_byte(b);
        assert forall|i: int| 0 <= i < q.len() implies url_safe(#[trigger] q[i]) by {
            if !unreserved(b) && i > 0 {
                let n: int = if i == 1 { (b / 16) as int } else { (b % 16) as int };
                assert(0 <= n < 16);
                assert(q[i] == hex_upper(n));
            }
        }
        assert forall|i: int| 0 <= i < pct_encoded(bytes).len() implies url_safe(
            #[trigger] pct_encoded(bytes)[i],
        ) by {
            if i < p.len() {
                assert(pct_encoded(bytes)[i] == p[i]);
            } else {
                assert(pct_encoded(bytes)[i] == q[i - p.len()]);
            }
        }
    }
}

/// Percent-encoding leaves only characters that are safe in a URL: the
/// unreserved ones, `%`, and the hexadecimal digits of the escapes.
pub proof fn percent_encoding_is_url_safe(s: Seq<char>)
    ensures
        forall|i: int| 0 <= i < pct(s).len() ==> url_safe(#[trigger] pct(s)[i]),
{
    lemma_pct_encoded_safe(encode_utf8(s));
}

fn hex_digit(n: u8) -> (c: char)
    requires
        n < 16,
    ensures
        c == hex_upper(n as int),
{
    if n < 10 {
        (48 + n) as char
    } else {
        (55 + n) as char
    }
}

/// `s` percent-encoded byte by byte (RFC 3986 unreserved bytes kept).
pub fn percent_encode(s: &str) -> (r: String)
    ensures
        r@ == pct(s@),
{
    let bytes = s.as_bytes();
    let ghost all = encode_utf8(s@);
    let mut out: Vec<char> = Vec::new();
    let mut i: usize = 0;
    while i < bytes.len()
        invariant
            i <= bytes@.len(),
            bytes@ == all,
            all == encode_utf8(s@),
            out@ == pct_encoded(all.take(i as int)),
        decreases bytes@.len() - i,
    {
        let b = bytes[i];
        assert(all.take(i + 1).drop_last() =~= all.take(i as int));
        assert(all.take(i + 1).last() == b);
        if (65 <= b && b <= 90) || (97 <= b && b <= 122) || (48 <= b && b <= 57) || b == 45 || b
            == 95 || b == 46 || b == 126 {
            out.push(b as char);
        } else {
            out.push('%');
            out.push(hex_digit(b / 16));
            out.push(hex_digit(b % 16));
        }
        assert(out@ =~= pct_encoded(all.take(i + 1)));
        i = i + 1;
    }
    assert(all.take(bytes@.len() as int) =~= all);
    string_from_chars(out.as_slice())
}


/// The name of HMAC-SHA1 over `msg` with `key` (RFC 2104 with SHA-1).
pub uninterp spec fn hmac_sha1_of(key: Seq<u8>, msg: Seq<u8>) -> Seq<u8>;

/// hmac `Hmac::<Sha1>::new_from_slice(key)`, `update(msg)`, `finalize()`.
/// Claimed: the 20-byte HMAC-SHA1 of `msg` under `key`, named
/// `hmac_sha1_of`; a key of any length is accepted.
#[verifier::external_body]
fn hmac_sha1(key: &[u8], msg: &[u8]) -> (r: Vec<u8>)
    ensures
        r@ == hmac_sha1_of(key@, msg@),
        r@.len() == 20,
{
    let mut mac = hmac::Hmac::<sha1::Sha1>::new_from_slice(key).expect("any key length");
    mac.update(msg);
    mac.finalize().into_bytes().to_vec()
}

/// The base64 digit of `n` (below 64) in the standard alphabet.
pub open spec fn b64_digit(n: int) -> char {
    if n < 26 {
        (65 + n) as char
    } else if n < 52 {
        (97 + n - 26) as char
    } else if n < 62 {
        (48 + n - 52) as char
    } else if n == 62 {
        '+'
    } else {
        '/'
    }
}

/// Standard base64 with `=` padding (RFC 4648, section 4).
pub open spec fn base64_std(b: Seq<u8>) -> Seq<char>
    decreases b.len(),
{
    let b0 = b[0] as int;
    let b1 = b[1] as int;
    let b2 = b[2] as int;
    if b.len() == 0 {
        seq![]
    } else if b.len() == 1 {
        seq![b64_digit(b0 / 4), b64_digit((b0 % 4) * 16), '=', '=']
    } else if b.len() == 2 {
        seq![b64_digit(b0 / 4), b64_digit((b0 % 4) * 16 + b1 / 16), b64_digit((b1 % 16) * 4), '=']
    } else {
        seq![
            b64_digit(b0 / 4),
            b64_digit((b0 % 4) * 16 + b1 / 16),
            b64_digit((b1 % 16) * 4 + b2 / 64),
            b64_digit(b2 % 64),
        ] + base64_std(b.skip(3))
    }
}

/// base64 `Engine::encode` with `general_purpose::STANDARD`. Claimed: the
/// standard alphabet with `=` padding, as `base64_std` states; the length
/// bound keeps the output size from overflowing, where the crate panics.
#[verifier::external_body]
fn base64_encode(bytes: &[u8]) -> (r: String)
    requires
        bytes@.len() <= usize::MAX / 2,
    ensures
        r@ == base64_std(bytes@),
{
    base64::Engine::encode(&base64::engine::general_purpose::STANDARD, bytes)
}

/// The signature Aliyun asks for: base64 of HMAC-SHA1 of the UTF-8 bytes of
/// `msg` under those of `key`.
pub open spec fn signature(key: Seq<char>, msg: Seq<char>) -> Seq<char> {
    base64_std(hmac_sha1_of(encode_utf8(key), encode_utf8(msg)))
}

/// Sign `msg` with `key` (HMAC-SHA1, base64).
pub fn sign(key: &str, msg: &str) -> (r: String)
    ensures
        r@ == signature(key@, msg@),
{
    let mac = hmac_sha1(key.as_bytes(), msg.as_bytes());
    base64_encode(mac.as_slice())
}

/// The strftime pattern of the token request's time stamp.
pub const TOKEN_TIME_FORMAT: &'static str = "%Y-%m-%dT%H:%M:%SZ";

/// The strftime pattern of an HTTP `Date` header.
pub const HTTP_DATE_FORMAT: &'static str = "%a, %d %b %Y %H:%M:%S GMT";

/// `c` is an ASCII digit.
pub open spec fn digit(c: char) -> bool {
    '0' <= c <= '9'
}

/// The shape of a time written with `%Y-%m-%dT%H:%M:%SZ`: the year (four
/// digits, or a sign and at least four digits outside the years 0 to 9999),
/// then `-MM-DDTHH:MM:SSZ` with two digits for each field.
pub open spec fn utc_stamp_shape(t: Seq<char>) -> bool {
    let n = t.len() as int;
    let y = t.take(n - 16);
    let z = t.skip(n - 16);
    &&& n >= 20
    &&& ((y.len() == 4 && forall|k: int| 0 <= k < 4 ==> digit(#[trigger] y[k])) || (y.len() >= 5
        && (y[0] == '+' || y[0] == '-') && forall|k: int|
        1 <= k < y.len() ==> digit(#[trigger] y[k])))
    &&& z[0] == '-' && digit(z[1]) && digit(z[2]) && z[3] == '-' && digit(z[4]) && digit(z[5])
    &&& z[6] == 'T' && digit(z[7]) && digit(z[8]) && z[9] == ':' && digit(z[10]) && digit(z[11])
    &&& z[12] == ':' && digit(z[13]) && digit(z[14]) && z[15] == 'Z'
}

/// chrono `Utc::now().format(fmt).to_string()`: the current UTC time in one
/// of the two patterns above. Claimed: with the token pattern, the text has
/// the shape of such a time (chrono writes `%Y` as four digits, or a sign
/// and at least four digits outside the years 0 to 9999, and each other
/// field as two digits). Which time it is depends on the clock and is not
/// stated; nothing is claimed of the HTTP date pattern's text.
#[verifier::external_body]
fn utc_now_formatted(fmt: &str) -> (r: String)
    requires
        fmt@ == TOKEN_TIME_FORMAT@ || fmt@ == HTTP_DATE_FORMAT@,
    ensures
        fmt@ == TOKEN_TIME_FORMAT@ ==> utc_stamp_shape(r@),
{
    chrono::Utc::now().format(fmt).to_string()
}

/// The parameters of a token request, in the byte order of their names.
pub open spec fn token_params(access_key_id: Seq<char>, nonce: Seq<char>, timestamp: Seq<char>) -> Seq<
    (Seq<char>, Seq<char>),
> {
    seq![
        ("AccessKeyId"@, access_key_id),
        ("Action"@, "CreateToken"@),
        ("Format"@, "JSON"@),
        ("RegionId"@, "cn-shanghai"@),
        ("SignatureMethod"@, "HMAC-SHA1"@),
        ("SignatureNonce"@, nonce),
        ("SignatureVersion"@, "1.0"@),
        ("Timestamp"@, timestamp),
        ("Version"@, "2019-02-28"@),
    ]
}

/// `key=value`, both percent-encoded.
pub open spec fn query_pair(p: (Seq<char>, Seq<char>)) -> Seq<char> {
    pct(p.0) + "="@ + pct(p.1)
}

/// The pairs of `params` joined by `&`.
pub open spec fn query_of(params: Seq<(Seq<char>, Seq<char>)>) -> Seq<char>
    decreases params.len(),
{
    if params.len() == 0 {
        seq![]
    } else if params.len() == 1 {
        query_pair(params[0])
    } else {
        query_of(params.drop_last()) + "&"@ + query_pair(params.last())
    }
}

/// The query of a token request.
pub fn token_query(access_key_id: &str, nonce: &str, timestamp: &str) -> (r: String)
    ensures
        r@ == query_of(token_params(access_key_id@, nonce@, timestamp@)),
{
    let keys = ["AccessKeyId", "Action", "Format", "RegionId", "SignatureMethod",
        "SignatureNonce", "SignatureVersion", "Timestamp", "Version"];
    let values = [access_key_id, "CreateToken", "JSON", "cn-shanghai", "HMAC-SHA1", nonce, "1.0",
        timestamp, "2019-02-28"];
    let ghost all = token_params(access_key_id@, nonce@, timestamp@);
    proof {
        assert forall|k: int| 0 <= k < 9 implies (#[trigger] all[k]) == (keys@[k]@, values@[k]@) by {
        }
    }
    let mut r = String::new();
    let mut i: usize = 0;
    while i < 9
        invariant
            i <= 9,
            keys@.len() == 9,
            values@.len() == 9,
            all.len() == 9,
            forall|k: int| 0 <= k < 9 ==> (#[trigger] all[k]) == (keys@[k]@, values@[k]@),
            r@ == query_of(all.take(i as int)),
        decreases 9 - i,
    {
        assert(all.take(i + 1).drop_last() =~= all.take(i as int));
        assert(all.take(i + 1).last() == all[i as int]);
        if i > 0 {
            r.append("&");
        }
        let k = percent_encode(keys[i]);
        let v = percent_encode(values[i]);
        r.append(k.as_str());
        r.append("=");
        r.append(v.as_str());
        proof {
            reveal_strlit("&");
            reveal_strlit("=");
            if i == 0 {
                assert(all.take(1) =~= seq![all[0]]);
            }
        }
        assert(r@ =~= query_of(all.take(i + 1)));
        i = i + 1;
    }
    assert(all.take(9) =~= all);
    r
}

/// The address of a signed token request.
pub open spec fn token_url_spec(
    access_key_id: Seq<char>,
    access_key_secret: Seq<char>,
    nonce: Seq<char>,
    timestamp: Seq<char>,
) -> Seq<char> {
    let q = query_of(token_params(access_key_id, nonce, timestamp));
    let sig = signature(access_key_secret + "&"@, "GET&%2F&"@ + pct(q));
    "https://nls-meta.cn-shanghai.aliyuncs.com/?Signature="@ + pct(sig) + "&"@ + q
}

/// The signed address that asks Aliyun for a token, for a given nonce and
/// time stamp.
pub fn token_url(access_key_id: &str, access_key_secret: &str, nonce: &str, timestamp: &str) -> (r:
    String)
    ensures
        r@ == token_url_spec(access_key_id@, access_key_secret@, nonce@, timestamp@),
{
    let query = token_query(access_key_id, nonce, timestamp);
    let encoded_query = percent_encode(query.as_str());
    let string_to_sign = cat("GET&%2F&", encoded_query.as_str());
    let sign_key = cat(access_key_secret, "&");
    let sig = sign(sign_key.as_str(), string_to_sign.as_str());
    let mut url = cat("https://nls-meta.cn-shanghai.aliyuncs.com/?Signature=", percent_encode(sig.as_str()).as_str());
    url.append("&");
    url.append(query.as_str());
    url
}

/// The signed address that asks Aliyun for a token now, with a fresh nonce:
/// a random UUID's text, and the current UTC time as
/// `%Y-%m-%dT%H:%M:%SZ`.
pub fn create_token_url(access_key_id: &str, access_key_secret: &str) -> (r: String)
    ensures
        exists|nonce: Seq<char>, timestamp: Seq<char>|
            crate::api::uuid_text(nonce) && utc_stamp_shape(timestamp) && r@ == token_url_spec(
                access_key_id@,
                access_key_secret@,
                nonce,
                timestamp,
            ),
{
    let timestamp = utc_now_formatted(TOKEN_TIME_FORMAT);
    let nonce = crate::api::new_uuid();
    token_url(access_key_id, access_key_secret, nonce.as_str(), timestamp.as_str())
}


/// The address of object `key` in the OSS bucket `bucket`.
pub open spec fn oss_url_spec(bucket: Seq<char>, key: Seq<char>) -> Seq<char> {
    "https://"@ + bucket + ".oss-cn-shanghai.aliyuncs.com/"@ + key
}

/// The address of object `key` in the OSS bucket `bucket`.
pub fn oss_object_url(bucket: &str, key: &str) -> (r: String)
    ensures
        r@ == oss_url_spec(bucket@, key@),
{
    let mut r = cat3("https://", bucket, ".oss-cn-shanghai.aliyuncs.com/");
    r.append(key);
    r
}

/// What an OSS upload signs.
pub open spec fn oss_string_to_sign(date: Seq<char>, bucket: Seq<char>, key: Seq<char>) -> Seq<
    char,
> {
    "PUT\n\napplication/octet-stream\n"@ + date + "\n/"@ + bucket + "/"@ + key
}

/// The signed parts of an OSS upload request.
#[derive(Debug)]
pub struct OssPut {
    pub url: String,
    pub date: String,
    pub authorization: String,
}

/// The upload request for `key` in `bucket` dated `date`.
pub fn oss_put_for(
    access_key_id: &str,
    access_key_secret: &str,
    bucket: &str,
    key: &str,
    date: &str,
) -> (r: OssPut)
    ensures
        r.url@ == oss_url_spec(bucket@, key@),
        r.date@ == date@,
        r.authorization@ == "OSS "@ + access_key_id@ + ":"@ + signature(
            access_key_secret@,
            oss_string_to_sign(date@, bucket@, key@),
        ),
{
    let mut sts = cat("PUT\n\napplication/octet-stream\n", date);
    sts.append("\n/");
    sts.append(bucket);
    sts.append("/");
    sts.append(key);
    let sig = sign(access_key_secret, sts.as_str());
    let mut auth = cat3("OSS ", access_key_id, ":");
    auth.append(sig.as_str());
    OssPut { url: oss_object_url(bucket, key), date: owned(date), authorization: auth }
}

/// The upload request for `key` in `bucket`, dated now.
pub fn oss_put(access_key_id: &str, access_key_secret: &str, bucket: &str, key: &str) -> (r:
    OssPut)
    ensures
        r.url@ == oss_url_spec(bucket@, key@),
        r.authorization@ == "OSS "@ + access_key_id@ + ":"@ + signature(
            access_key_secret@,
            oss_string_to_sign(r.date@, bucket@, key@),
        ),
{
    let date = utc_now_formatted(HTTP_DATE_FORMAT);
    oss_put_for(access_key_id, access_key_secret, bucket, key, date.as_str())
}

/// Speech recognition through Aliyun: the audio goes to OSS, then to the
/// file transcription service.
#[derive(Debug, Clone)]
pub struct AliyunAsrClient {
    pub access_key_id: String,
    pub access_key_secret: String,
    pub app_key: String,
    pub oss_bucket: String,
    pub oss_ak_id: String,
    pub oss_ak_secret: String,
}

impl AliyunAsrClient {
    pub fn new(
        access_key_id: &str,
        access_key_secret: &str,
        app_key: &str,
        oss_bucket: &str,
        oss_ak_id: &str,
        oss_ak_secret: &str,
    ) -> (r: Self)
        ensures
            r.access_key_id@ == access_key_id@,
            r.access_key_secret@ == access_key_secret@,
            r.app_key@ == app_key@,
            r.oss_bucket@ == oss_bucket@,
            r.oss_ak_id@ == oss_ak_id@,
            r.oss_ak_secret@ == oss_ak_secret@,
    {
        AliyunAsrClient {
            access_key_id: owned(access_key_id),
            access_key_secret: owned(access_key_secret),
            app_key: owned(app_key),
            oss_bucket: owned(oss_bucket),
            oss_ak_id: owned(oss_ak_id),
            oss_ak_secret: owned(oss_ak_secret),
        }
    }

    /// Where the uploaded audio file `file_name` is kept: `krillin/<name>`.
    pub fn file_key(file_name: &str) -> (r: String)
        ensures
            r@ == "krillin/"@ + file_name@,
    {
        cat("krillin/", file_name)
    }

    /// The address the transcription service reads the audio from.
    pub fn file_link(&self, file_key: &str) -> (r: String)
        ensures
            r@ == oss_url_spec(self.oss_bucket@, file_key@),
    {
        oss_object_url(self.oss_bucket.as_str(), file_key)
    }
}

/// How many times a recognition task is polled.
pub const ASR_MAX_POLLS: u32 = 60;

/// The seconds between two polls.
pub const ASR_POLL_SECONDS: u64 = 10;

/// What to do after a poll of a recognition task.
#[derive(Debug, Clone, Copy, PartialEq, Eq)]
pub enum AsrPoll {
    /// The result is ready.
    Done,
    /// The task failed.
    Failed,
    /// Poll again after the interval.
    Wait,
    /// No poll is left.
    TimedOut,
}

/// The decision after poll number `poll` (from 0) answered `status`.
pub fn asr_poll_step(poll: u32, status: &str) -> (r: AsrPoll)
    requires
        poll < ASR_MAX_POLLS,
    ensures
        r == if status@ == "SUCCESS"@ {
            AsrPoll::Done
        } else if status@ == "FAILED"@ {
            AsrPoll::Failed
        } else if poll + 1 < ASR_MAX_POLLS {
            AsrPoll::Wait
        } else {
            AsrPoll::TimedOut
        },
{
    if crate::strings::str_eq(status, "SUCCESS") {
        AsrPoll::Done
    } else if crate::strings::str_eq(status, "FAILED") {
        AsrPoll::Failed
    } else if poll + 1 < ASR_MAX_POLLS {
        AsrPoll::Wait
    } else {
        AsrPoll::TimedOut
    }
}

/// Sentences joined by a space, as the recognition result is read: a space
/// is put before a sentence only when some text came before it.
pub open spec fn spaced_join(texts: Seq<Seq<char>>) -> Seq<char>
    decreases texts.len(),
{
    if texts.len() == 0 {
        seq![]
    } else {
        let prev = spaced_join(texts.drop_last());
        if prev.len() == 0 {
            texts.last()
        } else {
            prev + " "@ + texts.last()
        }
    }
}

/// The text of a recognition result from its sentences.
pub fn join_sentences(texts: &Vec<String>) -> (r: String)
    ensures
        r@ == spaced_join(crate::link::views(texts@)),
{
    let ghost all = crate::link::views(texts@);
    let mut r = String::new();
    let mut i: usize = 0;
    while i < texts.len()
        invariant
            i <= texts@.len(),
            all == crate::link::views(texts@),
            r@ == spaced_join(all.take(i as int)),
        decreases texts@.len() - i,
    {
        assert(all.take(i + 1).drop_last() =~= all.take(i as int));
        if !r.as_str().is_empty() {
            r.append(" ");
        }
        r.append(texts[i].as_str());
        proof {
            reveal_strlit(" ");
        }
        assert(r@ =~= spaced_join(all.take(i + 1)));
        i = i + 1;
    }
    assert(all.take(texts@.len() as int) =~= all);
    r
}

/// Speech synthesis through Aliyun's streaming service.
#[derive(Debug, Clone)]
pub struct AliyunTtsClient {
    pub access_key_id: String,
    pub access_key_secret: String,
    pub app_key: String,
}

impl AliyunTtsClient {
    pub fn new(ak_id: &str, ak_secret: &str, app_key: &str) -> (r: Self)
        ensures
            r.access_key_id@ == ak_id@,
            r.access_key_secret@ == ak_secret@,
            r.app_key@ == app_key@,
    {
        AliyunTtsClient {
            access_key_id: owned(ak_id),
            access_key_secret: owned(ak_secret),
            app_key: owned(app_key),
        }
    }

    /// The websocket address of a synthesis session.
    pub fn socket_url(token: &str) -> (r: String)
        ensures
            r@ == "wss://nls-gateway-cn-beijing.aliyuncs.com/ws/v1?token="@ + token@,
    {
        cat("wss://nls-gateway-cn-beijing.aliyuncs.com/ws/v1?token=", token)
    }
}

/// `s` without its `-` characters.
pub fn without_hyphens(s: &str) -> (r: String)
    ensures
        r@ == s@.filter(|c: char| c != '-'),
{
    let v = crate::strings::chars_of(s);
    let mut out: Vec<char> = Vec::new();
    let mut i: usize = 0;
    while i < v.len()
        invariant
            i <= v@.len(),
            v@ == s@,
            out@ == v@.take(i as int).filter(|c: char| c != '-'),
        decreases v@.len() - i,
    {
        proof {
            assert(v@.take(i + 1).drop_last() =~= v@.take(i as int));
            reveal_with_fuel(Seq::filter, 1);
        }
        if v[i] != '-' {
            out.push(v[i]);
        }
        i = i + 1;
    }
    assert(v@.take(v@.len() as int) =~= v@);
    string_from_chars(out.as_slice())
}

/// How many of the hyphens of a UUID's text stand before index `k`.
pub open spec fn uuid_hyphens_before(k: int) -> int {
    (if k > 8 { 1int } else { 0int }) + (if k > 13 { 1int } else { 0int }) + (if k > 18 {
        1int
    } else {
        0int
    }) + (if k > 23 { 1int } else { 0int })
}

/// The first `k` characters of a UUID's text lose their hyphens and keep
/// the rest.
proof fn lemma_uuid_digits_len(u: Seq<char>, k: int)
    requires
        u.len() == 36,
        0 <= k <= 36,
        forall|i: int|
            0 <= i < 36 ==> if i == 8 || i == 13 || i == 18 || i == 23 {
                #[trigger] u[i] == '-'
            } else {
                crate::api::lower_hex(u[i])
            },
    ensures
        u.take(k).filter(|c: char| c != '-').len() == k - uuid_hyphens_before(k),
    decreases k,
{
    reveal_with_fuel(Seq::filter, 1);
    if k == 0 {
        assert(u.take(0) =~= Seq::<char>::empty());
    } else {
        lemma_uuid_digits_len(u, k - 1);
        assert(u.take(k).drop_last() =~= u.take(k - 1));
        assert(u.take(k).last() == u[k - 1]);
        let c = u[k - 1];
        if k - 1 == 8 || k - 1 == 13 || k - 1 == 18 || k - 1 == 23 {
            assert(c == '-');
        } else {
            assert(crate::api::lower_hex(c));
            assert(c != '-');
        }
    }
}

/// A fresh id for a synthesis session or message: a random UUID's
/// hexadecimal digits, 32 of them.
pub fn hex_id() -> (r: String)
    ensures
        r@.len() == 32,
        forall|i: int| 0 <= i < r@.len() ==> crate::api::lower_hex(#[trigger] r@[i]),
{
    let u = crate::api::new_uuid();
    let r = without_hyphens(u.as_str());
    proof {
        lemma_uuid_digits_len(u@, 36);
        assert(u@.take(36) =~= u@);
        let p = |c: char| c != '-';
        let f = u@.filter(p);
        assert forall|i: int| 0 <= i < f.len() implies crate::api::lower_hex(#[trigger] f[i]) by {
            u@.lemma_filter_pred(p, i);
            assert(f.contains(f[i]));
            u@.lemma_filter_contains_rev(p, f[i]);
            let k = choose|k: int| 0 <= k < u@.len() && u@[k] == f[i];
            assert(u@[k] == f[i]);
        }
    }
    r
}

/// What arrived on a synthesis websocket.
#[derive(Debug)]
pub enum WsEvent {
    /// Audio data.
    Binary,
    /// A text message, with its `header.name` when it is JSON that has one.
    Text(Option<String>),
    /// The connection failed.
    Error,
    /// The connection closed.
    Closed,
    /// Anything else (pings and the like).
    Other,
}

/// What to do with an event while the audio is received.
#[derive(Debug, Clone, Copy, PartialEq, Eq)]
pub enum SynthesisStep {
    /// Append the audio data to the output file.
    Write,
    /// The synthesis is complete (or the connection closed): stop.
    Finish,
    /// Give up with a websocket error.
    Fail,
    /// Wait for the next event.
    Continue,
}

/// The decision on an event while receiving audio.
pub fn synthesis_step(e: &WsEvent) -> (r: SynthesisStep)
    ensures
        r == match e {
            WsEvent::Binary => SynthesisStep::Write,
            WsEvent::Text(Some(name)) => if name@ == "SynthesisCompleted"@ {
                SynthesisStep::Finish
            } else {
                SynthesisStep::Continue
            },
            WsEvent::Text(None) => SynthesisStep::Continue,
            WsEvent::Error => SynthesisStep::Fail,
            WsEvent::Closed => SynthesisStep::Finish,
            WsEvent::Other => SynthesisStep::Continue,
        },
{
    match e {
        WsEvent::Binary => SynthesisStep::Write,
        WsEvent::Text(Some(name)) => if crate::strings::str_eq(name.as_str(), "SynthesisCompleted") {
            SynthesisStep::Finish
        } else {
            SynthesisStep::Continue
        },
        WsEvent::Text(None) => SynthesisStep::Continue,
        WsEvent::Error => SynthesisStep::Fail,
        WsEvent::Closed => SynthesisStep::Finish,
        WsEvent::Other => SynthesisStep::Continue,
    }
}

/// What to do with an event while waiting for a named one.
#[derive(Debug, Clone, Copy, PartialEq, Eq)]
pub enum WaitStep {
    /// The awaited event came.
    Found,
    /// Give up with a websocket error.
    Fail,
    /// The connection closed before the event came.
    Closed,
    /// Wait for the next event.
    Continue,
}

/// The decision on an event while waiting for the event `wanted`.
pub fn wait_step(e: &WsEvent, wanted: &str) -> (r: WaitStep)
    ensures
        r == match e {
            WsEvent::Text(Some(name)) => if name@ == wanted@ {
                WaitStep::Found
            } else {
                WaitStep::Continue
            },
            WsEvent::Error => WaitStep::Fail,
            WsEvent::Closed => WaitStep::Closed,
            _ => WaitStep::Continue,
        },
{
    match e {
        WsEvent::Text(Some(name)) => if crate::strings::str_eq(name.as_str(), wanted) {
            WaitStep::Found
        } else {
            WaitStep::Continue
        },
        WsEvent::Error => WaitStep::Fail,
        WsEvent::Closed => WaitStep::Closed,
        _ => WaitStep::Continue,
    }
}

/// The lower-case hexadecimal digit of `n` (below 16).
pub open spec fn hex_lower(n: int) -> char {
    if n < 10 {
        (48 + n) as char
    } else {
        (87 + n) as char
    }
}

/// One character inside a JSON string, escaped as `serde_json` writes it:
/// `"` and `\` behind a backslash, the short escapes for backspace, form
/// feed, line feed, carriage return and tab, `\u00XX` for the other control
/// characters, and every other character as itself.
pub open spec fn json_char(c: char) -> Seq<char> {
    if c == '"' {
        seq!['\\', '"']
    } else if c == '\\' {
        seq!['\\', '\\']
    } else if c == '\n' {
        seq!['\\', 'n']
    } else if c == '\r' {
        seq!['\\', 'r']
    } else if c == '\t' {
        seq!['\\', 't']
    } else if (c as u32) == 8 {
        seq!['\\', 'b']
    } else if (c as u32) == 12 {
        seq!['\\', 'f']
    } else if (c as u32) < 32 {
        seq!['\\', 'u', '0', '0', hex_lower(((c as u32) / 16) as int), hex_lower(((c as u32) % 16) as int)]
    } else {
        seq![c]
    }
}

/// The characters of `s`, each escaped for a JSON string.
pub open spec fn json_escaped(s: Seq<char>) -> Seq<char>
    decreases s.len(),
{
    if s.len() == 0 {
        seq![]
    } else {
        json_escaped(s.drop_last()) + json_char(s.last())
    }
}

/// `s` as a JSON string literal.
pub open spec fn json_text(s: Seq<char>) -> Seq<char> {
    seq!['"'] + json_escaped(s) + seq!['"']
}

fn hex_lower_digit(n: u8) -> (c: char)
    requires
        n < 16,
    ensures
        c == hex_lower(n as int),
{
    if n < 10 {
        (48 + n) as char
    } else {
        (87 + n) as char
    }
}

/// `s` as a JSON string literal, escaped as `serde_json` writes it.
pub fn json_string(s: &str) -> (r: String)
    ensures
        r@ == json_text(s@),
{
    let v = crate::strings::chars_of(s);
    let mut out: Vec<char> = Vec::new();
    out.push('"');
    let mut i: usize = 0;
    while i < v.len()
        invariant
            i <= v@.len(),
            v@ == s@,
            out@ == seq!['"'] + json_escaped(v@.take(i as int)),
        decreases v@.len() - i,
    {
        let c = v[i];
        assert(v@.take(i + 1).drop_last() =~= v@.take(i as int));
        assert(v@.take(i + 1).last() == c);
        let ghost before = out@;
        let u = c as u32;
        if c == '"' {
            out.push('\\');
            out.push('"');
        } else if c == '\\' {
            out.push('\\');
            out.push('\\');
        } else if c == '\n' {
            out.push('\\');
            out.push('n');
        } else if c == '\r' {
            out.push('\\');
            out.push('r');
        } else if c == '\t' {
            out.push('\\');
            out.push('t');
        } else if u == 8 {
            out.push('\\');
            out.push('b');
        } else if u == 12 {
            out.push('\\');
            out.push('f');
        } else if u < 32 {
            let b = u as u8;
            out.push('\\');
            out.push('u');
            out.push('0');
            out.push('0');
            out.push(hex_lower_digit(b / 16));
            out.push(hex_lower_digit(b % 16));
        } else {
            out.push(c);
        }
        assert(out@ =~= before + json_char(c));
        i = i + 1;
    }
    out.push('"');
    assert(v@.take(v@.len() as int) =~= v@);
    string_from_chars(out.as_slice())
}

/// The header of a synthesis frame, with the keys in the order in which
/// `serde_json` writes an object; `name` is one of the frame names, which
/// need no escaping.
pub open spec fn synthesis_header(app_key: Seq<char>, message_id: Seq<char>, task_id: Seq<char>, name:
    Seq<char>) -> Seq<char> {
    "{\"appkey\":"@ + json_text(app_key) + ",\"message_id\":"@ + json_text(message_id)
        + ",\"name\":\""@ + name + "\",\"namespace\":\"FlowingSpeechSynthesizer\",\"task_id\":"@
        + json_text(task_id) + "}"@
}

fn header_text(app_key: &str, message_id: &str, task_id: &str, name: &str) -> (r: String)
    ensures
        r@ == synthesis_header(app_key@, message_id@, task_id@, name@),
{
    let mut r = owned("{\"appkey\":");
    r.append(json_string(app_key).as_str());
    r.append(",\"message_id\":");
    r.append(json_string(message_id).as_str());
    r.append(",\"name\":\"");
    r.append(name);
    r.append("\",\"namespace\":\"FlowingSpeechSynthesizer\",\"task_id\":");
    r.append(json_string(task_id).as_str());
    r.append("}");
    r
}

/// The frame that opens a synthesis session: its header, and the voice and
/// the audio format (44.1 kHz WAV, middle volume, normal rate and pitch).
pub open spec fn start_frame_text(app_key: Seq<char>, message_id: Seq<char>, task_id: Seq<char>,
    voice: Seq<char>) -> Seq<char> {
    "{\"header\":"@ + synthesis_header(app_key, message_id, task_id, "StartSynthesis"@)
        + ",\"payload\":{\"format\":\"wav\",\"pitch_rate\":0,\"sample_rate\":44100,\"speech_rate\":0,\"voice\":"@
        + json_text(voice) + ",\"volume\":50}}"@
}

/// The frame that hands the session its text.
pub open spec fn run_frame_text(app_key: Seq<char>, message_id: Seq<char>, task_id: Seq<char>, text:
    Seq<char>) -> Seq<char> {
    "{\"header\":"@ + synthesis_header(app_key, message_id, task_id, "RunSynthesis"@)
        + ",\"payload\":{\"text\":"@ + json_text(text) + "}}"@
}

/// The frame that closes the session's input.
pub open spec fn stop_frame_text(app_key: Seq<char>, message_id: Seq<char>, task_id: Seq<char>) -> Seq<
    char,
> {
    "{\"header\":"@ + synthesis_header(app_key, message_id, task_id, "StopSynthesis"@) + "}"@
}

impl AliyunTtsClient {
    /// The `StartSynthesis` frame of session `task_id` for `voice`.
    pub fn start_frame(&self, message_id: &str, task_id: &str, voice: &str) -> (r: String)
        ensures
            r@ == start_frame_text(self.app_key@, message_id@, task_id@, voice@),
    {
        let mut r = owned("{\"header\":");
        r.append(header_text(self.app_key.as_str(), message_id, task_id, "StartSynthesis").as_str());
        r.append(
            ",\"payload\":{\"format\":\"wav\",\"pitch_rate\":0,\"sample_rate\":44100,\"speech_rate\":0,\"voice\":",
        );
        r.append(json_string(voice).as_str());
        r.append(",\"volume\":50}}");
        r
    }

    /// The `RunSynthesis` frame of session `task_id` carrying `text`.
    pub fn run_frame(&self, message_id: &str, task_id: &str, text: &str) -> (r: String)
        ensures
            r@ == run_frame_text(self.app_key@, message_id@, task_id@, text@),
    {
        let mut r = owned("{\"header\":");
        r.append(header_text(self.app_key.as_str(), message_id, task_id, "RunSynthesis").as_str());
        r.append(",\"payload\":{\"text\":");
        r.append(json_string(text).as_str());
        r.append("}}");
        r
    }

    /// The `StopSynthesis` frame of session `task_id`.
    pub fn stop_frame(&self, message_id: &str, task_id: &str) -> (r: String)
        ensures
            r@ == stop_frame_text(self.app_key@, message_id@, task_id@),
    {
        let mut r = owned("{\"header\":");
        r.append(header_text(self.app_key.as_str(), message_id, task_id, "StopSynthesis").as_str());
        r.append("}");
        r
    }
}

} // verus!
