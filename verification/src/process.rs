//! The buffer processor: one block of interleaved samples through the
//! limiter, by one of three signal paths or, bypassed, by none.

use crate::arithmetic::{total, Operation};
use crate::block::{
    copy_block, is_independent_block, is_linked_block, is_mono_block,
    lemma_independent_blocks_join, lemma_linked_blocks_join, lemma_mono_blocks_join,
    process_independent, process_linked, process_mono,
};
use crate::limiter::{Limiter, Settings, State};
use vstd::prelude::*;

verus! {

/// The way a block takes through the limiter.
#[derive(Clone, Copy, PartialEq, Eq, Structural, Debug)]
pub enum Path {
    /// The output is the input.
    Bypass,
    /// Two channels under one gain, driven by the louder of them.
    Linked,
    /// One channel under its own gain.
    Mono,
    /// Two channels, each under its own gain.
    Independent,
}

/// The channel count that is processed for a requested one: 1 or 2.
pub open spec fn spec_effective_channels(channel_count: usize) -> usize {
    if channel_count >= 2 {
        2
    } else {
        1
    }
}

/// Brings a channel count into {1, 2}.
#[verifier::when_used_as_spec(spec_effective_channels)]
pub fn effective_channels(channel_count: usize) -> (channels: usize)
    ensures
        channels == spec_effective_channels(channel_count),
{
    if channel_count >= 2 {
        2
    } else {
        1
    }
}

/// The samples in a block of `frames` frames, or the largest count there is
/// where the block has more.
pub open spec fn spec_sample_count(frames: usize, channel_count: usize) -> usize {
    let n = frames * spec_effective_channels(channel_count);
    if n > usize::MAX {
        usize::MAX
    } else {
        n as usize
    }
}

/// Counts the samples of a block, saturating.
#[verifier::when_used_as_spec(spec_sample_count)]
pub fn sample_count(frames: usize, channel_count: usize) -> (n: usize)
    ensures
        n == spec_sample_count(frames, channel_count),
{
    match frames.checked_mul(effective_channels(channel_count)) {
        Some(n) => n,
        None => usize::MAX,
    }
}

/// The path that a limiter in state `s` sends a block of `channel_count`
/// channels along.
pub open spec fn spec_path(s: State, channel_count: usize) -> Path {
    if s.bypass {
        Path::Bypass
    } else if spec_effective_channels(channel_count) == 1 {
        Path::Mono
    } else if s.stereo_link {
        Path::Linked
    } else {
        Path::Independent
    }
}

/// Chooses the path of a block.
pub fn path(l: &Limiter, channel_count: usize) -> (p: Path)
    ensures
        p == spec_path(l@, channel_count),
{
    if l.bypass() {
        Path::Bypass
    } else if effective_channels(channel_count) == 1 {
        Path::Mono
    } else if l.stereo_link() {
        Path::Linked
    } else {
        Path::Independent
    }
}

/// Whether both buffers hold exactly the samples of `frames` frames.
pub open spec fn buffers_fit(
    input: Seq<u32>,
    output: Seq<u32>,
    frames: usize,
    channel_count: usize,
) -> bool {
    &&& input.len() == frames * spec_effective_channels(channel_count)
    &&& output.len() == frames * spec_effective_channels(channel_count)
}

/// What processing one block does to the output buffer and to the limiter.
///
/// Buffers that do not fit the block leave both as they were. A bypassed
/// limiter copies the input and keeps its state. On each of the three signal
/// paths the output is the limited block, the gains of that path end where
/// the block left them, and everything else in the limiter stays, the gains
/// of the other paths too.
pub open spec fn is_processed<K: Fn(Operation) -> u32>(
    k: &K,
    before: State,
    after: State,
    input: Seq<u32>,
    output_before: Seq<u32>,
    output: Seq<u32>,
    frames: usize,
    channel_count: usize,
) -> bool {
    if !buffers_fit(input, output_before, frames, channel_count) {
        after == before && output == output_before
    } else {
        match spec_path(before, channel_count) {
            Path::Bypass => after == before && output == input,
            Path::Linked => {
                &&& after == (State { gain_linked: after.gain_linked, ..before })
                &&& is_linked_block(
                    k,
                    before.settings,
                    input,
                    output,
                    frames as int,
                    before.gain_linked,
                    after.gain_linked,
                )
            },
            Path::Mono => {
                &&& after == (State { gain_ch0: after.gain_ch0, ..before })
                &&& is_mono_block(
                    k,
                    before.settings,
                    input,
                    output,
                    before.gain_ch0,
                    after.gain_ch0,
                )
            },
            Path::Independent => {
                &&& after == (State {
                    gain_ch0: after.gain_ch0,
                    gain_ch1: after.gain_ch1,
                    ..before
                })
                &&& is_independent_block(
                    k,
                    before.settings,
                    input,
                    output,
                    frames as int,
                    (before.gain_ch0, before.gain_ch1),
                    (after.gain_ch0, after.gain_ch1),
                )
            },
        }
    }
}

/// Processes one block of interleaved samples. The channel count is brought
/// into {1, 2} first; buffers of any other length than the block's are left
/// alone, and so is the limiter.
pub fn limiter_process_interleaved<K: Fn(Operation) -> u32>(
    l: &mut Limiter,
    input: &[u32],
    output: &mut [u32],
    frames: usize,
    channels: usize,
    k: &K,
)
    requires
        total(k),
    ensures
        is_processed(
            k,
            old(l)@,
            final(l)@,
            input@,
            old(output)@,
            final(output)@,
            frames,
            channels,
        ),
        final(output).len() == old(output).len(),
        old(l)@.bypass ==> final(l)@ == old(l)@,
        old(l)@.bypass && buffers_fit(input@, old(output)@, frames, channels) ==> final(output)@
            == input@,
{
    let count: usize = effective_channels(channels);
    let n: usize = match frames.checked_mul(count) {
        Some(n) => n,
        None => {
            assert(input.len() < frames * count);
            return ;
        },
    };
    if input.len() != n || output.len() != n {
        return ;
    }
    let s: Settings = l.settings();
    match path(l, count) {
        Path::Bypass => {
            copy_block(input, output);
        },
        Path::Linked => {
            let end: u32 = process_linked(input, output, frames, l.gain_linked(), &s, k);
            l.store_linked(end);
        },
        Path::Mono => {
            let end: u32 = process_mono(input, output, l.gain_ch0(), &s, k);
            l.store_mono(end);
        },
        Path::Independent => {
            let end: (u32, u32) = process_independent(
                input,
                output,
                frames,
                l.gain_ch0(),
                l.gain_ch1(),
                &s,
                k,
            );
            l.store_independent(end.0, end.1);
        },
    }
}

/// A stream may be cut into blocks anywhere between two frames: processing
/// one block and then the next, the limiter carrying its state over, does
/// what processing both as one block does.
pub proof fn lemma_stream_may_be_cut<K: Fn(Operation) -> u32>(
    k: &K,
    first: State,
    between: State,
    last: State,
    input_a: Seq<u32>,
    before_a: Seq<u32>,
    output_a: Seq<u32>,
    frames_a: usize,
    input_b: Seq<u32>,
    before_b: Seq<u32>,
    output_b: Seq<u32>,
    frames_b: usize,
    channels: usize,
)
    requires
        frames_a + frames_b <= usize::MAX,
        buffers_fit(input_a, before_a, frames_a, channels),
        buffers_fit(input_b, before_b, frames_b, channels),
        is_processed(k, first, between, input_a, before_a, output_a, frames_a, channels),
        is_processed(k, between, last, input_b, before_b, output_b, frames_b, channels),
    ensures
        buffers_fit(
            input_a + input_b,
            before_a + before_b,
            (frames_a + frames_b) as usize,
            channels,
        ),
        is_processed(
            k,
            first,
            last,
            input_a + input_b,
            before_a + before_b,
            output_a + output_b,
            (frames_a + frames_b) as usize,
            channels,
        ),
{
    let s = first.settings;
    let count = spec_effective_channels(channels);
    let frames = (frames_a + frames_b) as usize;
    assert(frames * count == frames_a * count + frames_b * count) by (nonlinear_arith)
        requires
            frames == frames_a + frames_b,
    ;
    assert((input_a + input_b).len() == input_a.len() + input_b.len());
    assert((before_a + before_b).len() == before_a.len() + before_b.len());
    assert(between.settings == s);
    assert(spec_path(between, channels) == spec_path(first, channels));
    match spec_path(first, channels) {
        Path::Bypass => {},
        Path::Linked => {
            lemma_linked_blocks_join(
                k,
                s,
                input_a,
                output_a,
                frames_a as int,
                input_b,
                output_b,
                frames_b as int,
                first.gain_linked,
                between.gain_linked,
                last.gain_linked,
            );
        },
        Path::Mono => {
            lemma_mono_blocks_join(
                k,
                s,
                input_a,
                output_a,
                input_b,
                output_b,
                first.gain_ch0,
                between.gain_ch0,
                last.gain_ch0,
            );
        },
        Path::Independent => {
            lemma_independent_blocks_join(
                k,
                s,
                input_a,
                output_a,
                frames_a as int,
                input_b,
                output_b,
                frames_b as int,
                (first.gain_ch0, first.gain_ch1),
                (between.gain_ch0, between.gain_ch1),
                (last.gain_ch0, last.gain_ch1),
            );
        },
    }
}

/// A channel count matters only through the count it is brought to: zero
/// counts as one, and every count above two as two.
pub proof fn lemma_channel_count_is_clamped<K: Fn(Operation) -> u32>(
    k: &K,
    before: State,
    after: State,
    input: Seq<u32>,
    output_before: Seq<u32>,
    output: Seq<u32>,
    frames: usize,
    channels: usize,
)
    ensures
        channels <= 1 ==> spec_effective_channels(channels) == 1,
        channels >= 2 ==> spec_effective_channels(channels) == 2,
        spec_sample_count(frames, channels) == spec_sample_count(
            frames,
            spec_effective_channels(channels),
        ),
        spec_path(before, channels) == spec_path(before, spec_effective_channels(channels)),
        is_processed(k, before, after, input, output_before, output, frames, channels)
            == is_processed(
            k,
            before,
            after,
            input,
            output_before,
            output,
            frames,
            spec_effective_channels(channels),
        ),
{
}

} // verus!
