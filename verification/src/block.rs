//! One block through one signal path: frame after frame, each under the
//! gain that the frame before it left.

use crate::arithmetic::{total, Operation};
use crate::frame::{is_limited, is_linked, limit_linked, limit_sample};
use crate::limiter::Settings;
use vstd::prelude::*;

verus! {

/// Every frame of a mono block is limited under the gain that the frame
/// before it left: `gains[i]` is the gain before frame `i`.
pub open spec fn mono_frames<K: Fn(Operation) -> u32>(
    k: &K,
    s: Settings,
    input: Seq<u32>,
    output: Seq<u32>,
    gains: Seq<u32>,
    frames: int,
) -> bool {
    forall|i: int|
        0 <= i < frames ==> is_limited(
            k,
            s,
            input[i],
            #[trigger] gains[i],
            gains[i + 1],
            output[i],
        )
}

/// `output` is the mono block `input` limited from the gain `start` on, and
/// `end` is the gain after its last frame.
pub open spec fn is_mono_block<K: Fn(Operation) -> u32>(
    k: &K,
    s: Settings,
    input: Seq<u32>,
    output: Seq<u32>,
    start: u32,
    end: u32,
) -> bool {
    &&& output.len() == input.len()
    &&& exists|gains: Seq<u32>|
        {
            &&& gains.len() == input.len() + 1
            &&& gains[0] == start
            &&& gains[input.len() as int] == end
            &&& #[trigger] mono_frames(k, s, input, output, gains, input.len() as int)
        }
}

/// Limits a mono block, frame after frame, and returns the gain it ends with.
pub fn process_mono<K: Fn(Operation) -> u32>(
    input: &[u32],
    output: &mut [u32],
    gain: u32,
    s: &Settings,
    k: &K,
) -> (end: u32)
    requires
        total(k),
        input.len() == old(output).len(),
    ensures
        is_mono_block(k, *s, input@, final(output)@, gain, end),
{
    let frames: usize = input.len();
    let mut g: u32 = gain;
    let ghost mut gains: Seq<u32> = seq![gain];
    let mut i: usize = 0;
    while i < frames
        invariant
            total(k),
            frames == input.len(),
            output.len() == frames,
            i <= frames,
            gains.len() == i + 1,
            gains[0] == gain,
            gains[i as int] == g,
            mono_frames(k, *s, input@, output@, gains, i as int),
        decreases frames - i,
    {
        let (next, y) = limit_sample(input[i], g, s, k);
        output[i] = y;
        proof {
            gains = gains.push(next);
        }
        g = next;
        i += 1;
    }
    g
}

/// Every frame of a linked stereo block is limited under the gain that the
/// frame before it left: `gains[i]` is the gain before frame `i`.
pub open spec fn linked_frames<K: Fn(Operation) -> u32>(
    k: &K,
    s: Settings,
    input: Seq<u32>,
    output: Seq<u32>,
    gains: Seq<u32>,
    frames: int,
) -> bool {
    forall|i: int|
        0 <= i < frames ==> is_linked(
            k,
            s,
            input[2 * i],
            input[2 * i + 1],
            #[trigger] gains[i],
            gains[i + 1],
            output[2 * i],
            output[2 * i + 1],
        )
}

/// `output` is the stereo block `input` limited under one gain from `start`
/// on, and `end` is the gain after its last frame.
pub open spec fn is_linked_block<K: Fn(Operation) -> u32>(
    k: &K,
    s: Settings,
    input: Seq<u32>,
    output: Seq<u32>,
    frames: int,
    start: u32,
    end: u32,
) -> bool {
    &&& input.len() == 2 * frames
    &&& output.len() == input.len()
    &&& exists|gains: Seq<u32>|
        {
            &&& gains.len() == frames + 1
            &&& gains[0] == start
            &&& gains[frames] == end
            &&& #[trigger] linked_frames(k, s, input, output, gains, frames)
        }
}

/// Limits a stereo block under one gain and returns the gain it ends with.
pub fn process_linked<K: Fn(Operation) -> u32>(
    input: &[u32],
    output: &mut [u32],
    frames: usize,
    gain: u32,
    s: &Settings,
    k: &K,
) -> (end: u32)
    requires
        total(k),
        input.len() == 2 * frames,
        old(output).len() == 2 * frames,
    ensures
        is_linked_block(k, *s, input@, final(output)@, frames as int, gain, end),
{
    let mut g: u32 = gain;
    let ghost mut gains: Seq<u32> = seq![gain];
    let mut i: usize = 0;
    while i < frames
        invariant
            total(k),
            input.len() == 2 * frames,
            output.len() == 2 * frames,
            i <= frames,
            gains.len() == i + 1,
            gains[0] == gain,
            gains[i as int] == g,
            linked_frames(k, *s, input@, output@, gains, i as int),
        decreases frames - i,
    {
        let idx: usize = i * 2;
        let (next, out_left, out_right) = limit_linked(input[idx], input[idx + 1], g, s, k);
        output[idx] = out_left;
        output[idx + 1] = out_right;
        proof {
            gains = gains.push(next);
        }
        g = next;
        i += 1;
    }
    g
}

/// Every frame of an independent stereo block has each channel limited under
/// the gain that the same channel of the frame before it left.
pub open spec fn independent_frames<K: Fn(Operation) -> u32>(
    k: &K,
    s: Settings,
    input: Seq<u32>,
    output: Seq<u32>,
    gains0: Seq<u32>,
    gains1: Seq<u32>,
    frames: int,
) -> bool {
    forall|i: int|
        0 <= i < frames ==> {
            &&& is_limited(k, s, input[2 * i], #[trigger] gains0[i], gains0[i + 1], output[2 * i])
            &&& is_limited(k, s, input[2 * i + 1], gains1[i], gains1[i + 1], output[2 * i + 1])
        }
}

/// `output` is the stereo block `input` with each channel limited under its
/// own gain, from `start` on, and `end` holds the gains after its last frame.
pub open spec fn is_independent_block<K: Fn(Operation) -> u32>(
    k: &K,
    s: Settings,
    input: Seq<u32>,
    output: Seq<u32>,
    frames: int,
    start: (u32, u32),
    end: (u32, u32),
) -> bool {
    &&& input.len() == 2 * frames
    &&& output.len() == input.len()
    &&& exists|gains0: Seq<u32>, gains1: Seq<u32>|
        {
            &&& gains0.len() == frames + 1
            &&& gains1.len() == frames + 1
            &&& gains0[0] == start.0
            &&& gains1[0] == start.1
            &&& gains0[frames] == end.0
            &&& gains1[frames] == end.1
            &&& #[trigger] independent_frames(k, s, input, output, gains0, gains1, frames)
        }
}

/// Limits a stereo block, each channel under its own gain, and returns the
/// gains it ends with.
pub fn process_independent<K: Fn(Operation) -> u32>(
    input: &[u32],
    output: &mut [u32],
    frames: usize,
    gain0: u32,
    gain1: u32,
    s: &Settings,
    k: &K,
) -> (end: (u32, u32))
    requires
        total(k),
        input.len() == 2 * frames,
        old(output).len() == 2 * frames,
    ensures
        is_independent_block(
            k,
            *s,
            input@,
            final(output)@,
            frames as int,
            (gain0, gain1),
            end,
        ),
{
    let mut g0: u32 = gain0;
    let mut g1: u32 = gain1;
    let ghost mut gains0: Seq<u32> = seq![gain0];
    let ghost mut gains1: Seq<u32> = seq![gain1];
    let mut i: usize = 0;
    while i < frames
        invariant
            total(k),
            input.len() == 2 * frames,
            output.len() == 2 * frames,
            i <= frames,
            gains0.len() == i + 1,
            gains1.len() == i + 1,
            gains0[0] == gain0,
            gains1[0] == gain1,
            gains0[i as int] == g0,
            gains1[i as int] == g1,
            independent_frames(k, *s, input@, output@, gains0, gains1, i as int),
        decreases frames - i,
    {
        let idx: usize = i * 2;
        let (next0, out_left) = limit_sample(input[idx], g0, s, k);
        let (next1, out_right) = limit_sample(input[idx + 1], g1, s, k);
        output[idx] = out_left;
        output[idx + 1] = out_right;
        proof {
            gains0 = gains0.push(next0);
            gains1 = gains1.push(next1);
        }
        g0 = next0;
        g1 = next1;
        i += 1;
    }
    (g0, g1)
}

/// Copies a block unchanged.
pub fn copy_block(input: &[u32], output: &mut [u32])
    requires
        input.len() == old(output).len(),
    ensures
        final(output)@ == input@,
{
    let n: usize = input.len();
    let mut i: usize = 0;
    while i < n
        invariant
            n == input.len(),
            output.len() == n,
            i <= n,
            forall|j: int| 0 <= j < i ==> output[j] == input[j],
        decreases n - i,
    {
        output[i] = input[i];
        i += 1;
    }
    assert(output@ =~= input@);
}

/// Two mono blocks, the second limited from the gain that the first ended
/// with, are one block of both.
pub proof fn lemma_mono_blocks_join<K: Fn(Operation) -> u32>(
    k: &K,
    s: Settings,
    input_a: Seq<u32>,
    output_a: Seq<u32>,
    input_b: Seq<u32>,
    output_b: Seq<u32>,
    start: u32,
    middle: u32,
    end: u32,
)
    requires
        is_mono_block(k, s, input_a, output_a, start, middle),
        is_mono_block(k, s, input_b, output_b, middle, end),
    ensures
        is_mono_block(k, s, input_a + input_b, output_a + output_b, start, end),
{
    let n = input_a.len() as int;
    let m = input_b.len() as int;
    let ga = choose|gains: Seq<u32>|
        {
            &&& gains.len() == n + 1
            &&& gains[0] == start
            &&& gains[n] == middle
            &&& #[trigger] mono_frames(k, s, input_a, output_a, gains, n)
        };
    let gb = choose|gains: Seq<u32>|
        {
            &&& gains.len() == m + 1
            &&& gains[0] == middle
            &&& gains[m] == end
            &&& #[trigger] mono_frames(k, s, input_b, output_b, gains, m)
        };
    let g = ga + gb.drop_first();
    let input = input_a + input_b;
    let output = output_a + output_b;
    assert forall|i: int| 0 <= i < n + m implies is_limited(
        k,
        s,
        input[i],
        #[trigger] g[i],
        g[i + 1],
        output[i],
    ) by {
        if i < n {
            assert(is_limited(k, s, input_a[i], ga[i], ga[i + 1], output_a[i]));
        } else {
            let j = i - n;
            assert(is_limited(k, s, input_b[j], gb[j], gb[j + 1], output_b[j]));
        }
    }
    assert(input.len() == n + m && output.len() == n + m);
    assert(g.len() == n + m + 1 && g[0] == start && g[n + m] == end);
    assert(mono_frames(k, s, input, output, g, input.len() as int));
}

/// Two linked stereo blocks, the second limited from the gain that the first
/// ended with, are one block of both.
pub proof fn lemma_linked_blocks_join<K: Fn(Operation) -> u32>(
    k: &K,
    s: Settings,
    input_a: Seq<u32>,
    output_a: Seq<u32>,
    frames_a: int,
    input_b: Seq<u32>,
    output_b: Seq<u32>,
    frames_b: int,
    start: u32,
    middle: u32,
    end: u32,
)
    requires
        0 <= frames_a,
        0 <= frames_b,
        is_linked_block(k, s, input_a, output_a, frames_a, start, middle),
        is_linked_block(k, s, input_b, output_b, frames_b, middle, end),
    ensures
        is_linked_block(
            k,
            s,
            input_a + input_b,
            output_a + output_b,
            frames_a + frames_b,
            start,
            end,
        ),
{
    let n = frames_a;
    let m = frames_b;
    let ga = choose|gains: Seq<u32>|
        {
            &&& gains.len() == n + 1
            &&& gains[0] == start
            &&& gains[n] == middle
            &&& #[trigger] linked_frames(k, s, input_a, output_a, gains, n)
        };
    let gb = choose|gains: Seq<u32>|
        {
            &&& gains.len() == m + 1
            &&& gains[0] == middle
            &&& gains[m] == end
            &&& #[trigger] linked_frames(k, s, input_b, output_b, gains, m)
        };
    let g = ga + gb.drop_first();
    let input = input_a + input_b;
    let output = output_a + output_b;
    assert forall|i: int| 0 <= i < n + m implies is_linked(
        k,
        s,
        input[2 * i],
        input[2 * i + 1],
        #[trigger] g[i],
        g[i + 1],
        output[2 * i],
        output[2 * i + 1],
    ) by {
        if i < n {
            assert(is_linked(
                k,
                s,
                input_a[2 * i],
                input_a[2 * i + 1],
                ga[i],
                ga[i + 1],
                output_a[2 * i],
                output_a[2 * i + 1],
            ));
        } else {
            let j = i - n;
            assert(is_linked(
                k,
                s,
                input_b[2 * j],
                input_b[2 * j + 1],
                gb[j],
                gb[j + 1],
                output_b[2 * j],
                output_b[2 * j + 1],
            ));
        }
    }
    assert(linked_frames(k, s, input, output, g, n + m));
}

/// Two independent stereo blocks, the second limited from the gains that the
/// first ended with, are one block of both.
pub proof fn lemma_independent_blocks_join<K: Fn(Operation) -> u32>(
    k: &K,
    s: Settings,
    input_a: Seq<u32>,
    output_a: Seq<u32>,
    frames_a: int,
    input_b: Seq<u32>,
    output_b: Seq<u32>,
    frames_b: int,
    start: (u32, u32),
    middle: (u32, u32),
    end: (u32, u32),
)
    requires
        0 <= frames_a,
        0 <= frames_b,
        is_independent_block(k, s, input_a, output_a, frames_a, start, middle),
        is_independent_block(k, s, input_b, output_b, frames_b, middle, end),
    ensures
        is_independent_block(
            k,
            s,
            input_a + input_b,
            output_a + output_b,
            frames_a + frames_b,
            start,
            end,
        ),
{
    let n = frames_a;
    let m = frames_b;
    let (ga0, ga1) = choose|gains0: Seq<u32>, gains1: Seq<u32>|
        {
            &&& gains0.len() == n + 1
            &&& gains1.len() == n + 1
            &&& gains0[0] == start.0
            &&& gains1[0] == start.1
            &&& gains0[n] == middle.0
            &&& gains1[n] == middle.1
            &&& #[trigger] independent_frames(k, s, input_a, output_a, gains0, gains1, n)
        };
    let (gb0, gb1) = choose|gains0: Seq<u32>, gains1: Seq<u32>|
        {
            &&& gains0.len() == m + 1
            &&& gains1.len() == m + 1
            &&& gains0[0] == middle.0
            &&& gains1[0] == middle.1
            &&& gains0[m] == end.0
            &&& gains1[m] == end.1
            &&& #[trigger] independent_frames(k, s, input_b, output_b, gains0, gains1, m)
        };
    let g0 = ga0 + gb0.drop_first();
    let g1 = ga1 + gb1.drop_first();
    let input = input_a + input_b;
    let output = output_a + output_b;
    assert forall|i: int| 0 <= i < n + m implies {
        &&& is_limited(k, s, input[2 * i], #[trigger] g0[i], g0[i + 1], output[2 * i])
        &&& is_limited(k, s, input[2 * i + 1], g1[i], g1[i + 1], output[2 * i + 1])
    } by {
        if i < n {
            assert(is_limited(k, s, input_a[2 * i], ga0[i], ga0[i + 1], output_a[2 * i]));
        } else {
            let j = i - n;
            assert(is_limited(k, s, input_b[2 * j], gb0[j], gb0[j + 1], output_b[2 * j]));
        }
    }
    assert(independent_frames(k, s, input, output, g0, g1, n + m));
}

} // verus!
