//! What one period of audio holds, and whether it can be transformed.

use vstd::prelude::*;

verus! {

/// The number of bytes of one sample, a 32-bit float.
pub const SAMPLE_BYTES: usize = 4;

/// The number of whole samples in a buffer of `bytes` bytes.
pub open spec fn samples_in(bytes: nat) -> nat {
    bytes / (SAMPLE_BYTES as nat)
}

/// The number of frames in `samples` interleaved samples of `channels`
/// channels: one for each full group of `channels` samples, and one more
/// for a shorter group at the end.
pub open spec fn frames_in(samples: nat, channels: nat) -> nat
    recommends
        channels > 0,
{
    ((samples + channels - 1) / (channels as int)) as nat
}

/// Whether a period of `samples` samples in `channels` channels can be
/// transformed at the size `size`: the channels can be mixed, and mixing
/// gives at least `size` mono samples.
pub open spec fn transformable(samples: nat, channels: nat, size: nat) -> bool {
    channels > 0 && frames_in(samples, channels) >= size
}

/// The number of whole samples in a buffer of `bytes` bytes.
pub fn sample_count(bytes: usize) -> (samples: usize)
    ensures
        samples == samples_in(bytes as nat),
{
    bytes / SAMPLE_BYTES
}

/// The number of mono samples that mixing gives, or `None` where no
/// channel count was reported and nothing can be mixed.
pub fn mono_frames(samples: usize, channels: u32) -> (frames: Option<usize>)
    ensures
        channels == 0 <==> frames is None,
        frames matches Some(n) ==> n == frames_in(samples as nat, channels as nat),
{
    if channels == 0 {
        return None;
    }
    let group = channels as usize;
    let full = samples / group;
    let left = samples % group;
    proof {
        lemma_frames_in(samples as nat, channels as nat);
    }
    if left == 0 {
        Some(full)
    } else {
        Some(full + 1)
    }
}

/// Whether the period is to be rendered. A period that is not is passed
/// over: the canvas is left as it is.
pub fn can_transform(samples: usize, channels: u32, size: usize) -> (ready: bool)
    ensures
        ready == transformable(samples as nat, channels as nat, size as nat),
{
    match mono_frames(samples, channels) {
        Some(frames) => frames >= size,
        None => false,
    }
}

/// The frames are the full groups, and one more where samples are left
/// over.
pub proof fn lemma_frames_in(samples: nat, channels: nat)
    requires
        channels > 0,
    ensures
        samples % channels == 0 ==> frames_in(samples, channels) == samples / channels,
        samples % channels != 0 ==> frames_in(samples, channels) == samples / channels + 1,
        frames_in(samples, channels) * channels >= samples,
        frames_in(samples, channels) <= samples,
{
    let c = channels as int;
    let s = samples as int;
    let q = s / c;
    let r = s % c;
    vstd::arithmetic::div_mod::lemma_fundamental_div_mod(s, c);
    vstd::arithmetic::div_mod::lemma_mod_bound(s, c);
    assert(q >= 0) by {
        vstd::arithmetic::div_mod::lemma_div_pos_is_pos(s, c);
    }
    if r == 0 {
        assert(s + c - 1 == q * c + (c - 1)) by (nonlinear_arith)
            requires
                s == c * q + r,
                r == 0,
        ;
        vstd::arithmetic::div_mod::lemma_fundamental_div_mod_converse(s + c - 1, c, q, c - 1);
    } else {
        assert(s + c - 1 == (q + 1) * c + (r - 1)) by (nonlinear_arith)
            requires
                s == c * q + r,
        ;
        vstd::arithmetic::div_mod::lemma_fundamental_div_mod_converse(s + c - 1, c, q + 1, r - 1);
    }
    let f = frames_in(samples, channels) as int;
    assert(f * c >= s && f <= s) by (nonlinear_arith)
        requires
            s == c * q + r,
            0 <= r < c,
            q >= 0,
            c >= 1,
            r == 0 ==> f == q,
            r != 0 ==> f == q + 1,
    ;
}

/// With two channels `2 * n` samples make `n` frames, and one sample
/// more makes one frame more.
pub proof fn lemma_stereo_frames(n: nat)
    ensures
        frames_in(2 * n, 2) == n,
        frames_in(2 * n + 1, 2) == n + 1,
{
    lemma_frames_in(2 * n, 2);
    lemma_frames_in(2 * n + 1, 2);
}

} // verus!
