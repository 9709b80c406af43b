//! The Magic Size Targeter: a twelve-round bisection over encoder quality
//! that keeps the last encoding that fits the byte target.
//!
//! Quality runs from 1 to 100 and is held in fixed point, in units of
//! 1/4096: after twelve halvings of the range 99 every bound and midpoint is
//! a multiple of 99/4096, so these integers are exactly the values the
//! bisection reaches.

use crate::pixels::{drop_alpha, rgb_of};
use vstd::prelude::*;

verus! {

/// The width of the quality range before round `r`: 99 units halved `r` times.
pub open spec fn span(r: int) -> int
    decreases 12 - r,
{
    if r >= 12 {
        99
    } else {
        2 * span(r + 1)
    }
}

proof fn lemma_span_values()
    ensures
        span(0) == 405504,
        span(12) == 99,
{
    reveal_with_fuel(span, 13);
}

/// The state of a size-targeting search.
pub struct QualitySearch {
    /// Lower quality bound, in 1/4096 units.
    pub low: u32,
    /// Upper quality bound, in 1/4096 units.
    pub high: u32,
    /// Rounds done so far.
    pub round: u32,
    /// The byte target.
    pub target: usize,
    /// The round whose encoding is kept, if any.
    pub kept: Option<u32>,
    /// The length of the kept encoding (0 when none is kept).
    pub kept_len: usize,
}

impl QualitySearch {
    /// A search is consistent: its range has the width its round implies and
    /// lies within qualities 1 to 100.
    pub open spec fn wf(&self) -> bool {
        &&& self.round <= 12
        &&& self.high - self.low == span(self.round as int)
        &&& 4096 <= self.low
        &&& self.high <= 409600
        &&& (self.kept is None ==> self.kept_len == 0)
        &&& (self.kept matches Some(k) ==> k < self.round)
    }

    /// The quality probed next, in 1/4096 units: the middle of the range.
    pub open spec fn probe(&self) -> int {
        (self.low + self.high) / 2
    }

    /// Whether all rounds are done.
    pub open spec fn finished(&self) -> bool {
        self.round >= 12
    }

    /// The search after an encoding of `size` bytes at the probed quality:
    /// the encoding is kept when it fits the target or nothing non-empty is
    /// kept yet; the range moves down when it was too large and up otherwise.
    pub open spec fn after(&self, size: usize) -> (QualitySearch, bool) {
        let keep = size <= self.target || self.kept_len == 0;
        let mid = self.probe();
        (
            QualitySearch {
                low: if size > self.target { self.low } else { mid as u32 },
                high: if size > self.target { mid as u32 } else { self.high },
                round: (self.round + 1) as u32,
                target: self.target,
                kept: if keep { Some(self.round) } else { self.kept },
                kept_len: if keep { size } else { self.kept_len },
            },
            keep,
        )
    }

    /// The search before its first round: qualities 1 to 100, nothing kept.
    pub open spec fn start(target: usize) -> QualitySearch {
        QualitySearch { low: 4096, high: 409600, round: 0, target, kept: None, kept_len: 0 }
    }

    /// A fresh search for `target` bytes over qualities 1 to 100.
    pub fn new(target: usize) -> (s: QualitySearch)
        ensures
            s == QualitySearch::start(target),
            s.wf(),
            s.low == 4096,
            s.high == 409600,
            s.round == 0,
            s.target == target,
            s.kept is None,
    {
        proof {
            lemma_span_values();
        }
        QualitySearch { low: 4096, high: 409600, round: 0, target, kept: None, kept_len: 0 }
    }

    /// Whether all rounds are done.
    pub fn is_finished(&self) -> (r: bool)
        ensures
            r == self.finished(),
    {
        self.round >= 12
    }

    /// The quality to probe next, in 1/4096 units.
    pub fn probe_quality(&self) -> (q: u32)
        requires
            self.wf(),
            !self.finished(),
        ensures
            q == self.probe(),
            self.low < q < self.high,
            (self.low + self.high) % 2 == 0,
    {
        assert(span(self.round as int) == 2 * span(self.round + 1));
        assert(span(self.round + 1) >= 1) by {
            lemma_span_positive(self.round + 1);
        }
        self.low + (self.high - self.low) / 2
    }

    /// Records an encoding of `size` bytes at the probed quality; returns
    /// the next search and whether this encoding replaces the kept one.
    pub fn record(&self, size: usize) -> (r: (QualitySearch, bool))
        requires
            self.wf(),
            !self.finished(),
        ensures
            r == self.after(size),
            r.0.wf(),
    {
        let mid = self.probe_quality();
        let keep = size <= self.target || self.kept_len == 0;
        let next = QualitySearch {
            low: if size > self.target { self.low } else { mid },
            high: if size > self.target { mid } else { self.high },
            round: self.round + 1,
            target: self.target,
            kept: if keep { Some(self.round) } else { self.kept },
            kept_len: if keep { size } else { self.kept_len },
        };
        (next, keep)
    }
}

proof fn lemma_span_positive(r: int)
    ensures
        span(r) >= 99,
    decreases 12 - r,
{
    if r < 12 {
        lemma_span_positive(r + 1);
    }
}

/// JPEG quality for a fixed-point probe: the whole part, as the encoder's
/// `u8` quality.
pub open spec fn jpeg_quality(probe: int) -> int {
    probe / 4096
}

/// Every probe lies strictly inside quality 1 to 100, falls on a multiple of
/// 1/4096, and each round halves the range around it: a fitting encoding
/// moves the search up to the probe, a too-large one down to it.
pub proof fn law_bisection_halves(s: QualitySearch, size: usize)
    requires
        s.wf(),
        !s.finished(),
    ensures
        4096 < s.probe() < 409600,
        (s.low + s.high) % 2 == 0,
        1 <= jpeg_quality(s.probe()) <= 99,
        s.after(size).0.wf(),
        s.after(size).0.high - s.after(size).0.low == (s.high - s.low) / 2,
        size <= s.target ==> s.after(size).0.low == s.probe() && s.after(size).0.high == s.high,
        size > s.target ==> s.after(size).0.high == s.probe() && s.after(size).0.low == s.low,
{
    assert(span(s.round as int) == 2 * span(s.round + 1));
    lemma_span_positive(s.round + 1);
}

/// The search after recording the given encoding sizes, one per round.
pub open spec fn run(s: QualitySearch, sizes: Seq<usize>) -> QualitySearch
    decreases sizes.len(),
{
    if sizes.len() == 0 {
        s
    } else {
        run(s.after(sizes[0]).0, sizes.drop_first())
    }
}

/// The search run to its end when the encoding probed at fixed-point
/// quality `q` has `f(q)` bytes.
pub open spec fn search_with(s: QualitySearch, f: spec_fn(int) -> usize) -> QualitySearch
    decreases 12 - s.round,
{
    if s.round >= 12 {
        s
    } else {
        search_with(s.after(f(s.probe())).0, f)
    }
}

/// The fixed-point quality whose encoding that search keeps (`q` until one
/// is kept).
pub open spec fn kept_quality(s: QualitySearch, f: spec_fn(int) -> usize, q: int) -> int
    decreases 12 - s.round,
{
    if s.round >= 12 {
        q
    } else {
        let r = s.after(f(s.probe()));
        kept_quality(r.0, f, if r.1 { s.probe() } else { q })
    }
}

/// The kept encoding is the last one that fits the target, provided that
/// one is not empty: later too-large encodings never replace it.
pub proof fn law_keeps_last_fit(s: QualitySearch, sizes: Seq<usize>, j: int)
    requires
        s.wf(),
        s.round + sizes.len() <= 12,
        0 <= j < sizes.len(),
        0 < sizes[j] <= s.target,
        forall|k: int| j < k < sizes.len() ==> sizes[k] > s.target,
    ensures
        run(s, sizes).kept == Some((s.round + j) as u32),
        run(s, sizes).kept_len == sizes[j],
        run(s, sizes).kept_len <= s.target,
    decreases sizes.len(),
{
    let n = s.after(sizes[0]).0;
    let rest = sizes.drop_first();
    law_bisection_halves(s, sizes[0]);
    if j == 0 {
        lemma_run_keeps(n, rest);
    } else {
        assert forall|k: int| j - 1 < k < rest.len() implies rest[k] > n.target by {
            assert(rest[k] == sizes[k + 1]);
        }
        law_keeps_last_fit(n, rest, j - 1);
    }
}

/// With a non-empty kept encoding, encodings over the target change nothing that is kept.
proof fn lemma_run_keeps(s: QualitySearch, sizes: Seq<usize>)
    requires
        s.kept_len > 0,
        forall|k: int| 0 <= k < sizes.len() ==> sizes[k] > s.target,
    ensures
        run(s, sizes).kept == s.kept,
        run(s, sizes).kept_len == s.kept_len,
        run(s, sizes).target == s.target,
    decreases sizes.len(),
{
    if sizes.len() > 0 {
        let rest = sizes.drop_first();
        assert forall|k: int| 0 <= k < rest.len() implies rest[k] > s.target by {
            assert(rest[k] == sizes[k + 1]);
        }
        lemma_run_keeps(s.after(sizes[0]).0, rest);
    }
}

/// While a search runs on positive sizes, its lower bound is either the
/// bottom of the range or the quality it kept, which fitted the target, and
/// its upper bound is either the top of the range or a quality whose
/// encoding did not fit.
proof fn lemma_bounds_hold(s: QualitySearch, f: spec_fn(int) -> usize, q: int)
    requires
        s.wf(),
        forall|x: int| 4096 <= x <= 409600 ==> #[trigger] f(x) > 0,
        s.low == 4096 || (f(s.low as int) <= s.target && q == s.low && s.kept_len == f(s.low as int)),
        s.high == 409600 || f(s.high as int) > s.target,
    ensures
        search_with(s, f).wf(),
        search_with(s, f).round == 12,
        search_with(s, f).target == s.target,
        search_with(s, f).low == 4096 || (f(search_with(s, f).low as int) <= s.target && kept_quality(s, f, q)
            == search_with(s, f).low && search_with(s, f).kept_len == f(search_with(s, f).low as int)),
        search_with(s, f).high == 409600 || f(search_with(s, f).high as int) > s.target,
    decreases 12 - s.round,
{
    if s.round < 12 {
        let p = s.probe();
        let size = f(p);
        law_bisection_halves(s, size);
        assert(f(p) > 0);
        if s.low != 4096 {
            lemma_span_positive(s.round as int);
            assert(f(s.low as int) > 0);
        }
        let r = s.after(size);
        lemma_bounds_hold(r.0, f, if r.1 { p } else { q });
    }
}

/// The bisection lands within one final step of the best quality: when
/// encodings never shrink as quality rises and are never empty, and `best`
/// is the highest quality (in 1/4096 units, at least one final step above
/// quality 1) whose encoding fits the target, the search keeps an encoding
/// that fits, made at a quality at most `best` and less than 99/4096 below it.
pub proof fn law_quality_within_a_step(f: spec_fn(int) -> usize, target: usize, best: int)
    requires
        forall|a: int, b: int| 4096 <= a <= b <= 409600 ==> #[trigger] f(a) <= #[trigger] f(b),
        forall|x: int| 4096 <= x <= 409600 ==> #[trigger] f(x) > 0,
        4096 + 99 <= best <= 409600,
        f(best) <= target,
        forall|x: int| best < x <= 409600 ==> #[trigger] f(x) > target,
    ensures
        search_with(QualitySearch::start(target), f).kept is Some,
        search_with(QualitySearch::start(target), f).kept_len == f(
            kept_quality(QualitySearch::start(target), f, 4096),
        ),
        f(kept_quality(QualitySearch::start(target), f, 4096)) <= target,
        best - 99 <= kept_quality(QualitySearch::start(target), f, 4096) <= best,
{
    let s = QualitySearch::start(target);
    lemma_span_values();
    lemma_bounds_hold(s, f, 4096);
    let e = search_with(s, f);
    let k = kept_quality(s, f, 4096);
    assert(e.high - e.low == 99);
    assert(f(4195int) <= f(best));
    if e.low == 4096 {
        assert(f(e.high as int) > target);
        assert(false);
    }
    assert(f(e.low as int) > 0);
    if e.low > best {
        assert(f(e.low as int) > target);
    }
    if e.high != 409600 && e.high <= best {
        assert(f(e.high as int) <= f(best));
    }
}

/// The share of rounds done, in whole percent (rounded down).
pub fn progress_percent(done: u32) -> (p: u32)
    requires
        done <= 12,
    ensures
        p == done * 100 / 12,
{
    done * 100 / 12
}

/// What `image::codecs::jpeg::JpegEncoder` writes for `w` by `h` pixels of
/// RGB data at the given quality.
pub uninterp spec fn jpeg_encoded(rgb: Seq<u8>, w: u32, h: u32, quality: u8) -> Seq<u8>;

/// Encodes RGB pixels as JPEG at the given quality with
/// `image::codecs::jpeg::JpegEncoder::new_with_quality` and `encode`, into a
/// fresh byte vector; the result is named `jpeg_encoded` of the pixels, the
/// size and the quality. An encoder error (a side of 0 or above 65535 pixels)
/// is dropped with whatever was written.
#[verifier::external_body]
fn encode_jpeg_rgb(rgb: &Vec<u8>, w: u32, h: u32, quality: u8) -> (r: Vec<u8>)
    requires
        rgb@.len() == 3 * (w as int) * (h as int),
    ensures
        r@ == jpeg_encoded(rgb@, w, h, quality),
{
    let mut bytes: Vec<u8> = Vec::new();
    let mut cursor = std::io::Cursor::new(&mut bytes);
    let mut encoder = image::codecs::jpeg::JpegEncoder::new_with_quality(&mut cursor, quality);
    encoder.encode(rgb, w, h, image::ExtendedColorType::Rgb8).unwrap_or_default();
    bytes
}

/// The length of the JPEG encoding of `rgb` at a fixed-point probe quality.
pub open spec fn jpeg_size(rgb: Seq<u8>, w: u32, h: u32) -> spec_fn(int) -> usize {
    |q: int| jpeg_encoded(rgb, w, h, jpeg_quality(q) as u8).len() as usize
}

/// Searches JPEG quality for an encoding of at most `target` bytes and
/// returns the kept encoding. The pixels are RGBA; JPEG has no alpha, so
/// each pixel's alpha byte is dropped before encoding. Each round encodes at
/// the probed quality; the result is the encoding at the quality that the
/// search, run on those lengths, keeps.
pub fn target_jpeg(pixels: &Vec<u8>, w: u32, h: u32, target: usize) -> (r: Vec<u8>)
    requires
        pixels@.len() == 4 * (w as int) * (h as int),
    ensures
        r@ == jpeg_encoded(
            rgb_of(pixels@),
            w,
            h,
            jpeg_quality(
                kept_quality(QualitySearch::start(target), jpeg_size(rgb_of(pixels@), w, h), 4096),
            ) as u8,
        ),
        r@.len() == search_with(QualitySearch::start(target), jpeg_size(rgb_of(pixels@), w, h)).kept_len,
{
    let rgb = drop_alpha(pixels);
    assert(rgb@.len() == 3 * (w as int) * (h as int)) by (nonlinear_arith)
        requires
            rgb@.len() == pixels@.len() / 4 * 3,
            pixels@.len() == 4 * (w as int) * (h as int),
    ;
    let ghost f = jpeg_size(rgb@, w, h);
    let ghost first = QualitySearch::start(target);
    let mut search = QualitySearch::new(target);
    let mut best: Vec<u8> = Vec::new();
    let ghost mut kept_q: int = 4096;
    while !search.is_finished()
        invariant
            search.wf(),
            search.target == target,
            rgb@.len() == 3 * (w as int) * (h as int),
            f == jpeg_size(rgb@, w, h),
            search.round == 0 ==> search == first,
            search.round > 0 ==> best@ == jpeg_encoded(rgb@, w, h, jpeg_quality(kept_q) as u8),
            search.round > 0 ==> best@.len() == search.kept_len,
            kept_quality(search, f, kept_q) == kept_quality(first, f, 4096),
            search_with(search, f) == search_with(first, f),
        decreases 12 - search.round,
    {
        let q = search.probe_quality();
        proof {
            law_bisection_halves(search, 0);
        }
        let bytes = encode_jpeg_rgb(&rgb, w, h, (q / 4096) as u8);
        assert(bytes.len() == f(q as int));
        let (next, keep) = search.record(bytes.len());
        proof {
            if keep {
                kept_q = q as int;
            }
        }
        if keep {
            best = bytes;
        }
        search = next;
    }
    best
}

} // verus!
