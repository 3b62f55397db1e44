//! The decisions of the HTTP (OpenAI-style) transcription backend: endpoint
//! URLs, batching of audio into chunks, the stream clock, and which replies
//! become segments. The requests themselves are made by the caller.
use crate::text::{chars_of, is_blank_str, lemma_blank_iff_trims_to_empty, trim};
use crate::TranscriptionSegment;
use vstd::prelude::*;

verus! {

broadcast use vstd::string::group_string_axioms;

/// Samples per second of the audio sent to the API.
pub const SAMPLE_RATE: u32 = 16000;

/// A buffer holding more than this many samples (five seconds) is sent at
/// once.
pub const MAX_BUFFERED_SAMPLES: usize = 80000;

/// A buffer needs at least this many samples (a tenth of a second) to be
/// sent on the periodic flush.
pub const MIN_FLUSH_SAMPLES: usize = 1600;

/// Milliseconds after the previous send at which the periodic flush is due.
pub const FLUSH_PERIOD_MS: u64 = 5000;

/// The default API base URL.
pub open spec fn default_base_url() -> Seq<char> {
    "https://api.openai.com/v1"@
}

/// The default transcription model.
pub open spec fn default_model_name() -> Seq<char> {
    "whisper-1"@
}

/// `suf` ends `s`.
pub open spec fn has_suffix(s: Seq<char>, suf: Seq<char>) -> bool {
    suf.len() <= s.len() && s.subrange(s.len() - suf.len(), s.len() as int) == suf
}

/// `s` with every trailing repetition of a non-empty `suf` removed (the
/// behavior of `str::trim_end_matches`).
pub open spec fn strip_suffixes(s: Seq<char>, suf: Seq<char>) -> Seq<char>
    decreases s.len(),
{
    if suf.len() > 0 && has_suffix(s, suf) {
        strip_suffixes(s.subrange(0, s.len() - suf.len()), suf)
    } else {
        s
    }
}

/// The base URL in use: the given one or the default, with a trailing
/// "/models" (repeated or not) removed.
pub open spec fn base_url_spec(base_url: Option<Seq<char>>) -> Seq<char> {
    let url = match base_url {
        Some(u) => u,
        None => default_base_url(),
    };
    if has_suffix(url, "/models"@) {
        strip_suffixes(url, "/models"@)
    } else {
        url
    }
}

/// The transcription endpoint under a base URL: trailing slashes removed,
/// then "/audio/transcriptions".
pub open spec fn transcription_url_spec(base_url: Seq<char>) -> Seq<char> {
    strip_suffixes(base_url, seq!['/']) + "/audio/transcriptions"@
}

/// Milliseconds of audio in `n` samples at 16 kHz, rounded down.
pub open spec fn duration_ms_spec(n: nat) -> nat {
    n * 1000 / 16000
}

/// The length that is left of `cs` once every trailing repetition of `suf` is
/// removed.
fn stripped_len(cs: &Vec<char>, suf: &Vec<char>) -> (k: usize)
    ensures
        k <= cs@.len(),
        strip_suffixes(cs@, suf@) == cs@.subrange(0, k as int),
{
    let m = suf.len();
    let mut k = cs.len();
    proof {
        assert(cs@.subrange(0, k as int) =~= cs@);
    }
    if m == 0 {
        return k;
    }
    loop
        invariant
            m == suf@.len(),
            m > 0,
            k <= cs@.len(),
            strip_suffixes(cs@, suf@) == strip_suffixes(cs@.subrange(0, k as int), suf@),
        decreases k,
    {
        let ghost t = cs@.subrange(0, k as int);
        if k < m {
            return k;
        }
        let base = k - m;
        let mut j: usize = 0;
        let mut matches = true;
        while j < m
            invariant
                m == suf@.len(),
                base + m == k,
                k <= cs@.len(),
                j <= m,
                matches == (forall|x: int| 0 <= x < j ==> cs@[base + x] == suf@[x]),
            decreases m - j,
        {
            if cs[base + j] != suf[j] {
                matches = false;
            }
            j = j + 1;
        }
        proof {
            let tail = t.subrange(t.len() - m, t.len() as int);
            if matches {
                assert(tail =~= suf@);
            } else {
                let x = choose|x: int| 0 <= x < m && cs@[base + x] != suf@[x];
                assert(tail[x] == cs@[base + x]);
            }
            assert(has_suffix(t, suf@) == matches);
        }
        if !matches {
            return k;
        }
        proof {
            assert(t.subrange(0, t.len() - m) =~= cs@.subrange(0, base as int));
        }
        k = base;
    }
}

/// The base URL to use: the given one or the default, with a trailing
/// "/models" removed.
pub fn normalize_base_url(base_url: Option<String>) -> (r: String)
    ensures
        r@ == base_url_spec(
            match base_url {
                Some(u) => Some(u@),
                None => None,
            },
        ),
{
    let url: String = match base_url {
        Some(u) => u,
        None => "https://api.openai.com/v1".to_owned(),
    };
    let cs = chars_of(url.as_str());
    let suffix = chars_of("/models");
    let k = stripped_len(&cs, &suffix);
    // `k` is less than the length exactly when "/models" ends the URL.
    if k < cs.len() {
        url.as_str().substring_char(0, k).to_owned()
    } else {
        proof {
            assert(cs@.subrange(0, k as int) =~= cs@);
            if has_suffix(url@, "/models"@) {
                assert(suffix@.len() > 0) by {
                    reveal_strlit("/models");
                }
                assert(strip_suffixes(url@, "/models"@) == strip_suffixes(
                    url@.subrange(0, url@.len() - suffix@.len()),
                    "/models"@,
                ));
                lemma_strip_suffixes_len(
                    url@.subrange(0, url@.len() - suffix@.len()),
                    "/models"@,
                );
            }
        }
        url
    }
}

/// Stripping suffixes never lengthens a sequence.
proof fn lemma_strip_suffixes_len(s: Seq<char>, suf: Seq<char>)
    ensures
        strip_suffixes(s, suf).len() <= s.len(),
    decreases s.len(),
{
    if suf.len() > 0 && has_suffix(s, suf) {
        lemma_strip_suffixes_len(s.subrange(0, s.len() - suf.len()), suf);
    }
}

/// The model to use: the given one or "whisper-1".
pub fn model_or_default(model: Option<String>) -> (r: String)
    ensures
        r@ == match model {
            Some(m) => m@,
            None => default_model_name(),
        },
{
    match model {
        Some(m) => m,
        None => "whisper-1".to_owned(),
    }
}

/// The transcription endpoint under `base_url`.
pub fn transcription_url(base_url: &str) -> (r: String)
    ensures
        r@ == transcription_url_spec(base_url@),
{
    let cs = chars_of(base_url);
    let slash = chars_of("/");
    proof {
        reveal_strlit("/");
        assert(slash@ =~= seq!['/']);
    }
    let k = stripped_len(&cs, &slash);
    let mut url = base_url.substring_char(0, k).to_owned();
    url.append("/audio/transcriptions");
    url
}

/// Milliseconds of audio in `n` samples at 16 kHz, rounded down.
pub fn chunk_duration_ms(n: usize) -> (r: u64)
    requires
        n * 1000 <= u64::MAX,
    ensures
        r == duration_ms_spec(n as nat),
{
    (n as u64) * 1000 / (SAMPLE_RATE as u64)
}

/// A chunk of audio taken from the buffer, with its place on the stream
/// clock.
pub struct AudioChunk {
    pub samples: Vec<i16>,
    pub start_ms: u64,
    pub end_ms: u64,
}

/// Audio waiting to be sent, and the stream clock: the milliseconds of audio
/// already taken in chunks.
pub struct ChunkBuffer {
    buffer: Vec<i16>,
    stream_time_ms: u64,
}

impl ChunkBuffer {
    /// The samples waiting.
    pub closed spec fn pending(&self) -> Seq<i16> {
        self.buffer@
    }

    /// The stream clock.
    pub closed spec fn clock(&self) -> u64 {
        self.stream_time_ms
    }

    /// An empty buffer at stream time zero.
    pub fn new() -> (r: Self)
        ensures
            r.pending() == Seq::<i16>::empty(),
            r.clock() == 0,
    {
        ChunkBuffer { buffer: Vec::new(), stream_time_ms: 0 }
    }

    /// Number of samples waiting.
    pub fn len(&self) -> (r: usize)
        ensures
            r == self.pending().len(),
    {
        self.buffer.len()
    }

    /// Append samples.
    pub fn push(&mut self, data: &[i16])
        ensures
            final(self).pending() == old(self).pending() + data@,
            final(self).clock() == old(self).clock(),
    {
        self.buffer.extend_from_slice(data);
    }

    /// The buffer holds more than five seconds: it is sent right away.
    pub fn over_limit(&self) -> (r: bool)
        ensures
            r == (self.pending().len() > MAX_BUFFERED_SAMPLES),
    {
        self.buffer.len() > MAX_BUFFERED_SAMPLES
    }

    /// A send is due: the buffer is over the limit, or it holds at least a
    /// tenth of a second and five seconds have passed since the last send.
    pub fn flush_due(&self, elapsed_ms: u64) -> (r: bool)
        ensures
            r == (self.pending().len() > MAX_BUFFERED_SAMPLES || (self.pending().len()
                >= MIN_FLUSH_SAMPLES && elapsed_ms >= FLUSH_PERIOD_MS)),
    {
        self.buffer.len() > MAX_BUFFERED_SAMPLES || (self.buffer.len() >= MIN_FLUSH_SAMPLES
            && elapsed_ms >= FLUSH_PERIOD_MS)
    }

    /// The waiting samples can be taken as a chunk without the stream clock
    /// overflowing.
    pub fn clock_fits(&self) -> (r: bool)
        ensures
            r == (self.pending().len() * 1000 <= u64::MAX && self.clock() + duration_ms_spec(
                self.pending().len(),
            ) <= u64::MAX),
    {
        let n = self.buffer.len() as u64;
        match n.checked_mul(1000) {
            None => false,
            Some(ms_times_rate) => {
                let duration = ms_times_rate / (SAMPLE_RATE as u64);
                self.stream_time_ms.checked_add(duration).is_some()
            },
        }
    }

    /// Take everything waiting as one chunk: it starts at the stream clock and
    /// lasts as long as its samples; the clock moves on by that much.
    pub fn take_chunk(&mut self) -> (r: AudioChunk)
        requires
            old(self).pending().len() * 1000 <= u64::MAX,
            old(self).clock() + duration_ms_spec(old(self).pending().len()) <= u64::MAX,
        ensures
            r.samples@ == old(self).pending(),
            r.start_ms == old(self).clock(),
            r.end_ms == old(self).clock() + duration_ms_spec(old(self).pending().len()),
            final(self).pending() == Seq::<i16>::empty(),
            final(self).clock() == r.end_ms,
    {
        let mut samples: Vec<i16> = Vec::new();
        std::mem::swap(&mut samples, &mut self.buffer);
        let duration_ms = chunk_duration_ms(samples.len());
        let start_ms = self.stream_time_ms;
        self.stream_time_ms = start_ms + duration_ms;
        AudioChunk { samples, start_ms, end_ms: start_ms + duration_ms }
    }

    /// One turn of the sending loop: when a send is due, the chunk to send.
    pub fn poll_chunk(&mut self, elapsed_ms: u64) -> (r: Option<AudioChunk>)
        requires
            old(self).pending().len() * 1000 <= u64::MAX,
            old(self).clock() + duration_ms_spec(old(self).pending().len()) <= u64::MAX,
        ensures
            r is Some == (old(self).pending().len() > MAX_BUFFERED_SAMPLES || (
            old(self).pending().len() >= MIN_FLUSH_SAMPLES && elapsed_ms >= FLUSH_PERIOD_MS)),
            r is None ==> *final(self) == *old(self),
            r matches Some(c) ==> (c.samples@ == old(self).pending() && c.start_ms == old(
                self,
            ).clock() && c.end_ms == old(self).clock() + duration_ms_spec(
                old(self).pending().len(),
            ) && final(self).pending() == Seq::<i16>::empty() && final(self).clock()
                == c.end_ms),
    {
        if self.flush_due(elapsed_ms) {
            Some(self.take_chunk())
        } else {
            None
        }
    }
}

/// `k` copies of `suf` one after another.
pub open spec fn repeated(suf: Seq<char>, k: nat) -> Seq<char>
    decreases k,
{
    if k == 0 {
        Seq::empty()
    } else {
        repeated(suf, (k - 1) as nat) + suf
    }
}

/// Removing the trailing repetitions of a non-empty `suf` leaves a text that
/// no longer ends with `suf`, and the removed part is `k` copies of `suf`.
pub proof fn lemma_strip_suffixes(s: Seq<char>, suf: Seq<char>) -> (k: nat)
    requires
        suf.len() > 0,
    ensures
        s == strip_suffixes(s, suf) + repeated(suf, k),
        !(suf.len() <= strip_suffixes(s, suf).len() && strip_suffixes(s, suf).subrange(
            strip_suffixes(s, suf).len() - suf.len(),
            strip_suffixes(s, suf).len() as int,
        ) == suf),
    decreases s.len(),
{
    if has_suffix(s, suf) {
        let p = s.subrange(0, s.len() - suf.len());
        let k1 = lemma_strip_suffixes(p, suf);
        let r = strip_suffixes(s, suf);
        assert(r == strip_suffixes(p, suf));
        assert(s =~= p + suf);
        assert(r + repeated(suf, k1 + 1) =~= (r + repeated(suf, k1)) + suf);
        k1 + 1
    } else {
        assert(strip_suffixes(s, suf) + repeated(suf, 0) =~= s);
        0
    }
}

/// The base URL in use is the given one (or "https://api.openai.com/v1"
/// when none is given) without its trailing "/models" repetitions: the URL is
/// the base followed by `k` copies of "/models", and the base does not end
/// with "/models".
pub proof fn lemma_base_url(base_url: Option<Seq<char>>) -> (k: nat)
    ensures
        ({
            let url = match base_url {
                Some(u) => u,
                None => "https://api.openai.com/v1"@,
            };
            let b = base_url_spec(base_url);
            &&& url == b + repeated("/models"@, k)
            &&& !(7 <= b.len() && b.subrange(b.len() - 7, b.len() as int) == "/models"@)
        }),
{
    reveal_strlit("/models");
    let url = match base_url {
        Some(u) => u,
        None => default_base_url(),
    };
    let k = lemma_strip_suffixes(url, "/models"@);
    if !has_suffix(url, "/models"@) {
        assert(strip_suffixes(url, "/models"@) == url);
    }
    k
}

/// The transcription endpoint is the base URL without its trailing slashes,
/// followed by "/audio/transcriptions": the returned base is what is left of
/// `base_url` once its `k` trailing slashes are removed, and it does not end
/// with a slash.
pub proof fn lemma_transcription_url(base_url: Seq<char>) -> (r: (Seq<char>, nat))
    ensures
        transcription_url_spec(base_url) == r.0 + "/audio/transcriptions"@,
        base_url == r.0 + repeated(seq!['/'], r.1),
        r.0.len() == 0 || r.0.last() != '/',
{
    let p = strip_suffixes(base_url, seq!['/']);
    let k = lemma_strip_suffixes(base_url, seq!['/']);
    if p.len() > 0 && p.last() == '/' {
        assert(p.subrange(p.len() - 1, p.len() as int) =~= seq!['/']);
    }
    (p, k)
}

/// Audio of `n` samples at 16 kHz lasts `duration_ms_spec(n)` whole
/// milliseconds: 16 samples to the millisecond, the rest dropped.
pub proof fn lemma_duration_ms(n: nat)
    ensures
        16 * duration_ms_spec(n) <= n < 16 * duration_ms_spec(n) + 16,
{
    let d = duration_ms_spec(n);
    assert(16000 * d <= n * 1000 < 16000 * d + 16000) by (nonlinear_arith)
        requires
            d == n * 1000 / 16000,
    ;
}

/// The string field `key` of a JSON document, as `serde_json` reads it:
/// `None` when `body` is not a JSON document, `Some(None)` when the document
/// is not an object, has no field `key`, or that field is not a string, else
/// `Some(Some(s))` with the field's string.
pub uninterp spec fn json_string_field(body: Seq<u8>, key: Seq<char>) -> Option<
    Option<Seq<char>>,
>;

/// Calls `serde_json::from_slice::<serde_json::Value>` on `body`, then
/// indexes the value by `key` and takes `Value::as_str`. The contract claims
/// only that the result is what `json_string_field` names for these
/// arguments; the parse is not proved.
#[verifier::external_body]
fn json_string_field_of(body: &[u8], key: &str) -> (r: Result<Option<String>, ()>)
    ensures
        match json_string_field(body@, key@) {
            None => r is Err,
            Some(None) => r == Ok::<Option<String>, ()>(None),
            Some(Some(t)) => r matches Ok(Some(s)) && s@ == t,
        },
{
    match serde_json::from_slice::<serde_json::Value>(body) {
        Ok(value) => Ok(value[key].as_str().map(|s| s.to_string())),
        Err(_) => Err(()),
    }
}

/// The transcribed text of an API reply body: its string field "text", or
/// the empty text when there is none; `None` when the body is not JSON.
pub fn reply_text(body: &[u8]) -> (r: Option<String>)
    ensures
        match json_string_field(body@, "text"@) {
            None => r is None,
            Some(None) => r matches Some(s) && s@ == Seq::<char>::empty(),
            Some(Some(t)) => r matches Some(s) && s@ == t,
        },
{
    match json_string_field_of(body, "text") {
        Err(()) => None,
        Ok(None) => Some(String::new()),
        Ok(Some(text)) => Some(text),
    }
}

/// The segment for an API reply to a chunk: `None` when the text trims to
/// nothing.
pub fn reply_segment(start_ms: u64, end_ms: u64, text: String) -> (r: Option<
    TranscriptionSegment,
>)
    ensures
        trim(text@).len() == 0 ==> r is None,
        trim(text@).len() > 0 ==> (r matches Some(s) && s.start_ms == start_ms && s.end_ms == end_ms
            && s.text@ == text@),
{
    proof {
        lemma_blank_iff_trims_to_empty(text@);
    }
    if is_blank_str(text.as_str()) {
        None
    } else {
        Some(TranscriptionSegment { start_ms, end_ms, text })
    }
}

} // verus!
