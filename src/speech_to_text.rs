//! Recording sessions: the sample buffer that the capture side fills and the
//! finishing side takes over, and what finishing hands to the transcription engine.
use vstd::prelude::*;
use vstd::arithmetic::div_mod::lemma_fundamental_div_mod;
use vstd::arithmetic::power2::{lemma2_to64, lemma_pow2_pos, lemma_pow2_unfold, pow2};
use vstd::string::StrSliceExecFns;
use std::time::Instant;

verus! {

#[verifier::external_type_specification]
#[verifier::external_body]
pub struct ExInstant(Instant);

/// Relies on Instant::now: a reading of the monotonic clock; nothing is promised of it.
pub assume_specification[ Instant::now ]() -> Instant;

/// What finishing a session asks of the transcription engine.
pub struct StreamFinishProperties<'a> {
    /// Prefix each segment with its start and end time.
    pub verbose: bool,
    /// Hint handed to the engine before decoding.
    pub initial_prompt: &'a str,
    /// How many times the samples are folded from stereo to mono.
    pub halver_count: u16,
}

/// What is left to do once a session is finished.
pub enum FinishStep<T> {
    /// Nothing to transcribe: this is the session's text.
    Done(String),
    /// These samples go to the engine after `folds` stereo-to-mono folds.
    Transcribe { samples: Vec<T>, folds: u16 },
}

/// The samples of one recording session, in delivery order, and when they last grew.
pub struct SttStreamingState<T> {
    stream_data: Vec<T>,
    last_access: Instant,
}

impl<T> View for SttStreamingState<T> {
    type V = Seq<T>;

    closed spec fn view(&self) -> Seq<T> {
        self.stream_data@
    }
}

impl<T> Default for SttStreamingState<T> {
    fn default() -> (r: Self)
        ensures
            r@ == Seq::<T>::empty(),
    {
        Self::new()
    }
}

impl<T> SttStreamingState<T> {
    /// An empty buffer.
    pub fn new() -> (r: Self)
        ensures
            r@ == Seq::<T>::empty(),
    {
        SttStreamingState { stream_data: Vec::new(), last_access: Instant::now() }
    }

    /// Appends a chunk of samples after those already held.
    pub fn feed_audio(&mut self, audio: Vec<T>)
        ensures
            final(self)@ == old(self)@ + audio@,
    {
        let mut audio = audio;
        self.stream_data.append(&mut audio);
        self.update_last_access();
    }

    fn update_last_access(&mut self)
        ensures
            final(self)@ == old(self)@,
    {
        self.last_access = Instant::now();
    }

    /// Takes the buffer over. An empty capture finishes at once with empty text and
    /// is never handed to the engine; otherwise exactly the samples fed go on.
    pub fn finish_stream(self, properties: &StreamFinishProperties) -> (r: FinishStep<T>)
        ensures
            self@.len() == 0 ==> (r matches FinishStep::Done(s) && s@.len() == 0),
            self@.len() > 0 ==> (r matches FinishStep::Transcribe { samples, folds } && samples@
                == self@ && folds == properties.halver_count),
    {
        let SttStreamingState { stream_data, last_access: _ } = self;
        if stream_data.len() == 0 {
            FinishStep::Done(String::new())
        } else {
            FinishStep::Transcribe { samples: stream_data, folds: properties.halver_count }
        }
    }
}

/// All samples of a series of chunks, in order.
pub open spec fn all_samples<T>(chunks: Seq<Seq<T>>) -> Seq<T>
    decreases chunks.len(),
{
    if chunks.len() == 0 {
        Seq::empty()
    } else {
        all_samples(chunks.drop_last()) + chunks.last()
    }
}

/// The buffer after each chunk is fed in turn, starting from `start`.
pub open spec fn after_feeds<T>(start: Seq<T>, chunks: Seq<Seq<T>>) -> Seq<T>
    decreases chunks.len(),
{
    if chunks.len() == 0 {
        start
    } else {
        after_feeds(start, chunks.drop_last()) + chunks.last()
    }
}

/// Feeding chunks into a new session and finishing it hands on exactly the samples
/// fed, in order: none lost, none repeated.
pub proof fn lemma_feeds_then_finish<T>(chunks: Seq<Seq<T>>)
    ensures
        after_feeds(Seq::<T>::empty(), chunks) == all_samples(chunks),
    decreases chunks.len(),
{
    if chunks.len() > 0 {
        lemma_feeds_then_finish(chunks.drop_last());
    }
}

/// Folding `k` times from stereo to mono: each fold needs an even count and halves
/// it. `None` when some fold would meet an odd count.
pub open spec fn folded_len(n: nat, k: nat) -> Option<nat>
    decreases k,
{
    if k == 0 {
        Some(n)
    } else if n % 2 != 0 {
        None
    } else {
        folded_len(n / 2, (k - 1) as nat)
    }
}

/// The sample count after `folds` stereo-to-mono folds of `len` samples, or `None`
/// when one of them would meet an odd count.
pub fn fold_lengths(len: usize, folds: u16) -> (r: Option<usize>)
    ensures
        r matches Some(m) ==> folded_len(len as nat, folds as nat) == Some(m as nat),
        r is None ==> folded_len(len as nat, folds as nat) is None,
{
    let mut n = len;
    let mut k: u16 = folds;
    while k > 0
        invariant
            folded_len(len as nat, folds as nat) == folded_len(n as nat, k as nat),
        decreases k,
    {
        if n % 2 != 0 {
            return None;
        }
        n = n / 2;
        k = k - 1;
    }
    Some(n)
}

/// The fold count that brings `channels` interleaved channels down to one.
pub fn fold_count(channels: u16) -> (r: u16)
    ensures
        r as int == if channels == 0 { 0 } else { channels - 1 },
{
    if channels == 0 {
        0
    } else {
        channels - 1
    }
}

/// Folding a buffer of one or two interleaved channels `channels - 1` times leaves
/// one sample per frame.
pub proof fn lemma_fold_to_mono(frames: nat, channels: nat)
    requires
        1 <= channels <= 2,
    ensures
        folded_len(frames * channels, (channels - 1) as nat) == Some(frames),
{
    if channels == 2 {
        assert((frames * 2) % 2 == 0 && (frames * 2) / 2 == frames) by (nonlinear_arith);
        assert(folded_len(frames, 0) == Some(frames));
    } else {
        assert(frames * 1 == frames);
    }
}

/// Folding `frames * 2^k` samples `k` times leaves `frames` samples.
pub proof fn lemma_fold_power_of_two(frames: nat, k: nat)
    ensures
        folded_len(frames * pow2(k), k) == Some(frames),
    decreases k,
{
    if k == 0 {
        lemma2_to64();
        assert(frames * 1 == frames);
    } else {
        lemma_pow2_unfold(k);
        let p = pow2((k - 1) as nat);
        let n = frames * pow2(k);
        assert(n == (frames * p) * 2 && n % 2 == 0 && n / 2 == frames * p) by (nonlinear_arith)
            requires
                n == frames * pow2(k),
                pow2(k) == 2 * p,
        ;
        lemma_fold_power_of_two(frames, (k - 1) as nat);
    }
}

/// Folding `n` samples `k` times, where `2^k` divides `n`, leaves `n / 2^k` samples;
/// for a stereo stream folded once, one sample per frame.
pub proof fn lemma_fold_count_length(n: nat, k: nat)
    requires
        n % pow2(k) == 0,
    ensures
        folded_len(n, k) == Some(n / pow2(k)),
{
    lemma_pow2_pos(k);
    lemma_fundamental_div_mod(n as int, pow2(k) as int);
    let frames = n / pow2(k);
    assert(n == frames * pow2(k)) by (nonlinear_arith)
        requires
            n == pow2(k) * (n / pow2(k)) + n % pow2(k),
            n % pow2(k) == 0,
            frames == n / pow2(k),
    ;
    lemma_fold_power_of_two(frames, k);
}

/// One decoded segment with its start and end time (in the engine's ticks).
#[derive(Clone, Debug)]
pub struct Segment {
    pub text: String,
    pub t0: i64,
    pub t1: i64,
}

/// The decimal digit for `d`, `d < 10`.
pub open spec fn digit_char(d: nat) -> char {
    if d == 0 { '0' } else if d == 1 { '1' } else if d == 2 { '2' } else if d == 3 { '3' }
    else if d == 4 { '4' } else if d == 5 { '5' } else if d == 6 { '6' } else if d == 7 { '7' }
    else if d == 8 { '8' } else { '9' }
}

/// `n` in decimal, without leading zeros.
pub open spec fn decimal(n: nat) -> Seq<char>
    decreases n,
{
    if n < 10 {
        seq![digit_char(n)]
    } else {
        decimal(n / 10).push(digit_char(n % 10))
    }
}

/// `x` in decimal, with a leading `-` when negative.
pub open spec fn int_text(x: int) -> Seq<char> {
    if x < 0 {
        seq!['-'] + decimal((-x) as nat)
    } else {
        decimal(x as nat)
    }
}

/// A verbose transcript line: `[t0 - t1]: text` and a line feed.
pub open spec fn timed_line(t0: i64, t1: i64, text: Seq<char>) -> Seq<char> {
    seq!['['] + int_text(t0 as int) + seq![' ', '-', ' '] + int_text(t1 as int) + seq![']', ':', ' ']
        + text + seq!['\n']
}

fn digit_text(d: u64) -> (r: String)
    requires
        d < 10,
    ensures
        r@ == seq![digit_char(d as nat)],
{
    let digits = "0123456789";
    proof {
        reveal_strlit("0123456789");
    }
    digits.substring_char(d as usize, d as usize + 1).to_owned()
}

fn decimal_text(n: u64) -> (r: String)
    ensures
        r@ == decimal(n as nat),
{
    let mut out = digit_text(n % 10);
    let mut m: u64 = n / 10;
    while m > 0
        invariant
            m > 0 ==> decimal(n as nat) == decimal(m as nat) + out@,
            m == 0 ==> decimal(n as nat) == out@,
        decreases m,
    {
        let mut d = digit_text(m % 10);
        d.append(out.as_str());
        out = d;
        m = m / 10;
    }
    out
}

fn int_text_of(x: i64) -> (r: String)
    ensures
        r@ == int_text(x as int),
{
    if x < 0 {
        let magnitude: u64 = (-(x as i128)) as u64;
        let mut out = "-".to_owned();
        proof {
            reveal_strlit("-");
        }
        let digits = decimal_text(magnitude);
        out.append(digits.as_str());
        out
    } else {
        decimal_text(x as u64)
    }
}

fn timed_line_text(t0: i64, t1: i64, text: &str) -> (r: String)
    ensures
        r@ == timed_line(t0, t1, text@),
{
    let mut out = "[".to_owned();
    out.append(int_text_of(t0).as_str());
    out.append(" - ");
    out.append(int_text_of(t1).as_str());
    out.append("]: ");
    out.append(text);
    out.append("\n");
    proof {
        reveal_strlit("[");
        reveal_strlit(" - ");
        reveal_strlit("]: ");
        reveal_strlit("\n");
        assert(out@ == timed_line(t0, t1, text@));
    }
    out
}

/// The transcript of a series of segments: their texts separated by line feeds, or,
/// when `verbose`, one timed line per segment.
pub open spec fn joined_segments(segs: Seq<Segment>, verbose: bool) -> Seq<char>
    decreases segs.len(),
{
    if segs.len() == 0 {
        Seq::empty()
    } else {
        let p = joined_segments(segs.drop_last(), verbose);
        let s = segs.last();
        if verbose {
            p + timed_line(s.t0, s.t1, s.text@)
        } else if segs.len() == 1 {
            s.text@
        } else {
            p + seq!['\n'] + s.text@
        }
    }
}

/// Assembles the engine's segments into the session's text.
pub fn join_segments(segments: &Vec<Segment>, verbose: bool) -> (r: String)
    ensures
        r@ == joined_segments(segments@, verbose),
{
    let mut out = String::new();
    let mut i: usize = 0;
    while i < segments.len()
        invariant
            i <= segments@.len(),
            out@ == joined_segments(segments@.subrange(0, i as int), verbose),
        decreases segments@.len() - i,
    {
        let seg = &segments[i];
        let ghost before = out@;
        if verbose {
            let line = timed_line_text(seg.t0, seg.t1, seg.text.as_str());
            out.append(line.as_str());
        } else {
            if i > 0 {
                out.append("\n");
                proof {
                    reveal_strlit("\n");
                }
                assert(out@ == before + seq!['\n']);
            }
            out.append(seg.text.as_str());
        }
        assert(segments@.subrange(0, i + 1).drop_last() == segments@.subrange(0, i as int));
        i = i + 1;
    }
    assert(segments@.subrange(0, segments@.len() as int) == segments@);
    out
}

} // verus!
