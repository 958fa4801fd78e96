//! Position of the next sample in the interleaved output stream. Samples are
//! handed out channel by channel within a frame, frame by frame within a
//! buffer; a new buffer is rendered whenever the position comes back to the
//! first channel of the first frame.

use vstd::prelude::*;
use vstd::arithmetic::div_mod::{lemma_fundamental_div_mod_converse, lemma_mod_breakdown, lemma_mod_mod};

verus! {

/// What a cursor stands for: the channel and frame of the next sample, and
/// the shape of a buffer (channels per frame, frames per buffer).
pub struct CursorView {
    pub channel: nat,
    pub sample: nat,
    pub channels: nat,
    pub frames: nat,
}

impl CursorView {
    /// The position lies inside a buffer of a non-empty shape.
    pub open spec fn wf(self) -> bool {
        &&& 0 < self.channels
        &&& 0 < self.frames
        &&& self.channel < self.channels
        &&& self.sample < self.frames
    }

    /// Position of the next sample in the interleaved order of one buffer.
    pub open spec fn index(self) -> nat {
        self.sample * self.channels + self.channel
    }

    /// Number of interleaved samples in one buffer.
    pub open spec fn period(self) -> nat {
        self.channels * self.frames
    }

    /// The next sample is the first one of a buffer.
    pub open spec fn at_buffer_start(self) -> bool {
        self.channel == 0 && self.sample == 0
    }

    /// The position after handing out one sample.
    pub open spec fn advanced(self) -> CursorView {
        if self.channel + 1 >= self.channels {
            CursorView { channel: 0, sample: ((self.sample + 1) % self.frames) as nat, ..self }
        } else {
            CursorView { channel: self.channel + 1, ..self }
        }
    }

    /// The position after handing out `n` samples.
    pub open spec fn advanced_by(self, n: nat) -> CursorView
        decreases n,
    {
        if n == 0 {
            self
        } else {
            self.advanced_by((n - 1) as nat).advanced()
        }
    }

    /// The start of a buffer of the given shape.
    pub open spec fn start(channels: nat, frames: nat) -> CursorView {
        CursorView { channel: 0, sample: 0, channels, frames }
    }
}

/// The interleaved read position into the rendered output buffers.
pub struct SampleCursor {
    channel_index: usize,
    sample_index: usize,
    num_channels: usize,
    buffer_size: usize,
}

impl View for SampleCursor {
    type V = CursorView;

    closed spec fn view(&self) -> CursorView {
        CursorView {
            channel: self.channel_index as nat,
            sample: self.sample_index as nat,
            channels: self.num_channels as nat,
            frames: self.buffer_size as nat,
        }
    }
}

impl SampleCursor {
    #[verifier::type_invariant]
    closed spec fn inv(self) -> bool {
        self@.wf()
    }

    /// A cursor at the start of a buffer of `buffer_size` frames of
    /// `num_channels` channels.
    pub fn new(num_channels: usize, buffer_size: usize) -> (r: Self)
        requires
            0 < num_channels,
            0 < buffer_size,
        ensures
            r@ == CursorView::start(num_channels as nat, buffer_size as nat),
    {
        SampleCursor { channel_index: 0, sample_index: 0, num_channels, buffer_size }
    }

    /// Channel of the next sample.
    pub fn channel_index(&self) -> (r: usize)
        ensures
            r == self@.channel,
            r < self@.channels,
    {
        proof {
            use_type_invariant(self);
        }
        self.channel_index
    }

    /// Frame of the next sample within the buffer.
    pub fn sample_index(&self) -> (r: usize)
        ensures
            r == self@.sample,
            r < self@.frames,
    {
        proof {
            use_type_invariant(self);
        }
        self.sample_index
    }

    /// Channels per frame.
    pub fn num_channels(&self) -> (r: usize)
        ensures
            r == self@.channels,
            0 < r,
    {
        proof {
            use_type_invariant(self);
        }
        self.num_channels
    }

    /// Frames per buffer.
    pub fn buffer_size(&self) -> (r: usize)
        ensures
            r == self@.frames,
            0 < r,
    {
        proof {
            use_type_invariant(self);
        }
        self.buffer_size
    }

    /// Whether a new buffer must be rendered before the next sample is read.
    pub fn at_buffer_start(&self) -> (r: bool)
        ensures
            r == self@.at_buffer_start(),
    {
        self.channel_index == 0 && self.sample_index == 0
    }

    /// Move past one sample: to the next channel, or to the first channel of
    /// the next frame, wrapping round at the end of the buffer.
    pub fn advance(&mut self)
        ensures
            final(self)@ == old(self)@.advanced(),
    {
        proof {
            use_type_invariant(&*self);
        }
        if self.channel_index + 1 >= self.num_channels {
            self.channel_index = 0;
            self.sample_index = (self.sample_index + 1) % self.buffer_size;
        } else {
            self.channel_index = self.channel_index + 1;
        }
    }

    /// Hand out the position of the next sample: whether a buffer must be
    /// rendered first, the channel and the frame to read; then advance.
    pub fn step(&mut self) -> (r: (bool, usize, usize))
        ensures
            r.0 == old(self)@.at_buffer_start(),
            r.1 == old(self)@.channel,
            r.2 == old(self)@.sample,
            r.1 < old(self)@.channels,
            r.2 < old(self)@.frames,
            final(self)@ == old(self)@.advanced(),
    {
        proof {
            use_type_invariant(&*self);
        }
        let render = self.at_buffer_start();
        let channel = self.channel_index;
        let sample = self.sample_index;
        self.advance();
        (render, channel, sample)
    }
}

} // verus!

verus! {

/// Handing out one sample keeps the position inside the buffer and moves it
/// one place on in the interleaved order, wrapping round after the last
/// sample of the buffer.
pub proof fn lemma_advance_is_next_index(v: CursorView)
    requires
        v.wf(),
    ensures
        v.advanced().wf(),
        v.advanced().channels == v.channels,
        v.advanced().frames == v.frames,
        v.index() < v.period(),
        v.advanced().index() == ((v.index() as int) + 1) % (v.period() as int),
{
    let nc = v.channels as int;
    let bs = v.frames as int;
    let ch = v.channel as int;
    let s = v.sample as int;
    assert(s * nc + ch < nc * bs) by (nonlinear_arith)
        requires
            0 <= s < bs,
            0 <= ch < nc,
    ;
    if ch + 1 < nc {
        assert(s * nc + ch + 1 < nc * bs) by (nonlinear_arith)
            requires
                0 <= s < bs,
                0 <= ch + 1 < nc,
        ;
        assert((s * nc + ch + 1) % (nc * bs) == s * nc + ch + 1) by (nonlinear_arith)
            requires
                0 <= s * nc + ch + 1 < nc * bs,
        ;
        assert(v.period() == nc * bs);
            assert(v.advanced().index() == ((v.index() as int) + 1) % (v.period() as int));
    } else {
        assert(s * nc + ch + 1 == (s + 1) * nc) by (nonlinear_arith)
            requires
                ch + 1 == nc,
        ;
        if s + 1 < bs {
            assert((s + 1) * nc < nc * bs) by (nonlinear_arith)
                requires
                    0 <= s + 1 < bs,
                    0 < nc,
            ;
            assert(((s + 1) * nc) % (nc * bs) == (s + 1) * nc) by (nonlinear_arith)
                requires
                    0 <= (s + 1) * nc < nc * bs,
            ;
            assert((s + 1) % bs == s + 1) by (nonlinear_arith)
                requires
                    0 <= s + 1 < bs,
            ;
            assert(v.advanced().index() == (s + 1) * nc + 0);
            assert(v.period() == nc * bs);
            assert(v.advanced().index() == ((v.index() as int) + 1) % (v.period() as int));
        } else {
            assert((s + 1) * nc == nc * bs) by (nonlinear_arith)
                requires
                    s + 1 == bs,
            ;
            assert((nc * bs) % (nc * bs) == 0) by (nonlinear_arith)
                requires
                    0 < nc,
                    0 < bs,
            ;
            assert((s + 1) % bs == 0) by (nonlinear_arith)
                requires
                    s + 1 == bs,
                    0 < bs,
            ;
            assert(v.period() == nc * bs);
            assert(v.advanced().sample == 0);
            assert(v.advanced().channel == 0);
            assert(v.advanced().index() == 0);
            assert((v.index() as int) + 1 == nc * bs);
            assert(v.advanced().index() == ((v.index() as int) + 1) % (v.period() as int));
        }
    }
}

/// The interleaved index after `n` samples from the start of a buffer is
/// `n` modulo the buffer's sample count.
pub proof fn lemma_index_after(channels: nat, frames: nat, n: nat)
    requires
        0 < channels,
        0 < frames,
    ensures
        CursorView::start(channels, frames).advanced_by(n).wf(),
        CursorView::start(channels, frames).advanced_by(n).channels == channels,
        CursorView::start(channels, frames).advanced_by(n).frames == frames,
        CursorView::start(channels, frames).advanced_by(n).index() == (n as int) % ((channels * frames) as int),
    decreases n,
{
    let p = (channels * frames) as int;
    assert(p > 0) by (nonlinear_arith)
        requires
            0 < channels,
            0 < frames,
            p == channels * frames,
    ;
    if n == 0 {
        assert(0int % p == 0) by (nonlinear_arith)
            requires
                p > 0,
        ;
    } else {
        let m = (n - 1) as nat;
        lemma_index_after(channels, frames, m);
        let prev = CursorView::start(channels, frames).advanced_by(m);
        lemma_advance_is_next_index(prev);
        assert((((m as int) % p) + 1) % p == ((m as int) + 1) % p) by (nonlinear_arith)
            requires
                p > 0,
        ;
    }
}

/// Starting at the beginning of a buffer, the `n`-th sample handed out
/// (counting from 0) is channel `n % channels` of frame
/// `(n / channels) % frames`, and a buffer is rendered exactly when `n` is a
/// multiple of the buffer's sample count.
pub proof fn lemma_position_after(channels: nat, frames: nat, n: nat)
    requires
        0 < channels,
        0 < frames,
    ensures
        CursorView::start(channels, frames).advanced_by(n).channel == (n as int) % (channels as int),
        CursorView::start(channels, frames).advanced_by(n).sample == ((n as int) / (channels as int)) % (frames as int),
        CursorView::start(channels, frames).advanced_by(n).at_buffer_start() <==> (n as int) % ((channels * frames) as int) == 0,
{
    let v = CursorView::start(channels, frames).advanced_by(n);
    lemma_index_after(channels, frames, n);
    let ni = n as int;
    let nc = channels as int;
    let bs = frames as int;
    let k: int = ni % (nc * bs);
    let q: int = v.sample as int;
    let r: int = v.channel as int;
    assert(v.index() == k);
    assert(k == q * nc + r);
    lemma_fundamental_div_mod_converse(k, nc, q, r);
    lemma_mod_mod(ni, nc, bs);
    lemma_mod_breakdown(ni, nc, bs);
    let q2: int = (ni / nc) % bs;
    let r2: int = ni % nc;
    assert(k == q2 * nc + r2) by (nonlinear_arith)
        requires
            k == nc * q2 + r2,
    ;
    lemma_fundamental_div_mod_converse(k, nc, q2, r2);
    if k == 0 {
        assert(q == 0) by (nonlinear_arith)
            requires
                q * nc + r == 0,
                nc > 0,
                q >= 0,
                r >= 0,
        ;
    }
}

} // verus!

verus! {

/// From any position, the interleaved index after `n` more samples is the
/// current index plus `n`, modulo the buffer's sample count.
pub proof fn lemma_index_after_from(v: CursorView, n: nat)
    requires
        v.wf(),
    ensures
        v.advanced_by(n).wf(),
        v.advanced_by(n).channels == v.channels,
        v.advanced_by(n).frames == v.frames,
        v.advanced_by(n).index() == ((v.index() as int) + (n as int)) % (v.period() as int),
    decreases n,
{
    let p = v.period() as int;
    lemma_advance_is_next_index(v);
    if n == 0 {
        assert((v.index() as int) % p == v.index()) by (nonlinear_arith)
            requires
                0 <= v.index() < p,
        ;
    } else {
        let m = (n - 1) as nat;
        lemma_index_after_from(v, m);
        let prev = v.advanced_by(m);
        lemma_advance_is_next_index(prev);
        assert((((v.index() as int) + (m as int)) % p + 1) % p == ((v.index() as int) + (m as int) + 1) % p)
            by (nonlinear_arith)
            requires
                p > 0,
        ;
    }
}

/// A position inside a buffer is at the buffer's start exactly when its
/// interleaved index is 0.
proof fn lemma_start_iff_index_zero(v: CursorView)
    requires
        v.wf(),
    ensures
        v.at_buffer_start() <==> v.index() == 0,
{
    let nc = v.channels as int;
    let q = v.sample as int;
    let r = v.channel as int;
    assert(v.index() == q * nc + r);
    if v.index() == 0 {
        assert(q == 0 && r == 0) by (nonlinear_arith)
            requires
                q * nc + r == 0,
                nc > 0,
                q >= 0,
                r >= 0,
        ;
    }
    if v.at_buffer_start() {
        assert(q * nc + r == 0) by (nonlinear_arith)
            requires
                q == 0,
                r == 0,
        ;
    }
}

/// From any position, a new buffer is rendered within one buffer's worth of
/// samples: the next render comes after exactly
/// `(period - index) % period` more samples (0 when the position is a
/// buffer's start), and not before.
pub proof fn lemma_render_within_period(v: CursorView)
    requires
        v.wf(),
    ensures
        ({
            let wait = ((v.period() as int) - (v.index() as int)) % (v.period() as int);
            &&& 0 <= wait < v.period()
            &&& v.advanced_by(wait as nat).at_buffer_start()
            &&& forall|j: nat| j < wait ==> !(#[trigger] v.advanced_by(j)).at_buffer_start()
        }),
{
    let p = v.period() as int;
    let i = v.index() as int;
    lemma_advance_is_next_index(v);
    let wait = (p - i) % p;
    assert(0 <= wait < p && (i == 0 ==> wait == 0) && (i > 0 ==> wait == p - i)) by (nonlinear_arith)
        requires
            0 <= i < p,
            wait == (p - i) % p,
    ;
    lemma_index_after_from(v, wait as nat);
    assert((i + wait) % p == 0) by (nonlinear_arith)
        requires
            0 <= i < p,
            (i == 0 ==> wait == 0),
            (i > 0 ==> wait == p - i),
    ;
    lemma_start_iff_index_zero(v.advanced_by(wait as nat));
    assert forall|j: nat| j < wait implies !(#[trigger] v.advanced_by(j)).at_buffer_start() by {
        lemma_index_after_from(v, j);
        assert((i + j) % p == i + j) by (nonlinear_arith)
            requires
                0 <= i,
                i + j < p,
                0 <= j,
        ;
        lemma_start_iff_index_zero(v.advanced_by(j));
    }
}

} // verus!
