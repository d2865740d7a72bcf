//! Splitting an interleaved buffer into channels, and joining it again.

use vstd::prelude::*;

verus! {

/// The samples of channel `channel` in an interleaved buffer: those at
/// `channel`, `channel + channel_count`, `channel + 2 * channel_count`, ...
pub open spec fn channel_of<T>(buffer: Seq<T>, channel_count: int, channel: int) -> Seq<T> {
    Seq::new(
        (buffer.len() as int / channel_count) as nat,
        |frame: int| buffer[frame * channel_count + channel],
    )
}

/// All channels of an interleaved buffer, in channel order.
pub open spec fn deinterleaved<T>(buffer: Seq<T>, channel_count: int) -> Seq<Seq<T>> {
    Seq::new(channel_count as nat, |channel: int| channel_of(buffer, channel_count, channel))
}

/// Whether `channels` is a non-empty list of sequences of one length.
pub open spec fn rectangular<T>(channels: Seq<Seq<T>>) -> bool {
    channels.len() > 0 && forall|c: int|
        0 <= c < channels.len() ==> (#[trigger] channels[c]).len() == channels[0].len()
}

/// The interleaved buffer that holds the given channels frame by frame.
pub open spec fn interleaved<T>(channels: Seq<Seq<T>>) -> Seq<T> {
    Seq::new(
        channels.len() * channels[0].len(),
        |i: int| channels[i % (channels.len() as int)][i / (channels.len() as int)],
    )
}

/// The views of the inner vectors.
pub open spec fn channel_views<T>(channels: Seq<Vec<T>>) -> Seq<Seq<T>> {
    Seq::new(channels.len(), |c: int| channels[c]@)
}

/// A frame index and a channel index address one slot of the buffer, and
/// the slot gives both back.
pub proof fn lemma_slot(frame: int, channel: int, channel_count: int, frames: int)
    requires
        0 <= channel < channel_count,
        0 <= frame < frames,
    ensures
        0 <= frame * channel_count + channel < frames * channel_count,
        (frame * channel_count + channel) % channel_count == channel,
        (frame * channel_count + channel) / channel_count == frame,
{
    assert(0 <= frame * channel_count) by (nonlinear_arith)
        requires
            0 <= frame,
            0 < channel_count,
    ;
    assert(frame * channel_count + channel_count <= frames * channel_count) by (nonlinear_arith)
        requires
            frame + 1 <= frames,
            0 < channel_count,
    ;
    vstd::arithmetic::div_mod::lemma_fundamental_div_mod_converse(
        frame * channel_count + channel,
        channel_count,
        frame,
        channel,
    );
}

/// Splitting leaves `channel_count` channels of `len / channel_count`
/// samples each.
pub proof fn lemma_deinterleaved_rectangular<T>(buffer: Seq<T>, channel_count: int)
    requires
        channel_count >= 1,
    ensures
        rectangular(deinterleaved(buffer, channel_count)),
        deinterleaved(buffer, channel_count).len() == channel_count,
        deinterleaved(buffer, channel_count)[0].len() == buffer.len() as int / channel_count,
{
    let parts = deinterleaved(buffer, channel_count);
    assert(0 <= buffer.len() as int / channel_count) by (nonlinear_arith)
        requires
            channel_count >= 1,
            buffer.len() >= 0,
    ;
    assert forall|c: int| 0 <= c < parts.len() implies (#[trigger] parts[c]).len()
        == parts[0].len() by {}
}

/// Splitting a buffer into channels and joining the channels again gives
/// the buffer back, for every channel count that divides its length.
pub proof fn lemma_deinterleave_then_interleave<T>(buffer: Seq<T>, channel_count: int)
    requires
        channel_count >= 1,
        buffer.len() as int % channel_count == 0,
    ensures
        interleaved(deinterleaved(buffer, channel_count)) == buffer,
{
    let parts = deinterleaved(buffer, channel_count);
    let frames = buffer.len() as int / channel_count;
    let joined = interleaved(parts);
    lemma_deinterleaved_rectangular(buffer, channel_count);
    vstd::arithmetic::div_mod::lemma_fundamental_div_mod(buffer.len() as int, channel_count);
    assert(channel_count * frames == frames * channel_count) by (nonlinear_arith);
    assert forall|i: int| 0 <= i < buffer.len() implies joined[i] == buffer[i] by {
        let c = i % channel_count;
        let f = i / channel_count;
        vstd::arithmetic::div_mod::lemma_fundamental_div_mod(i, channel_count);
        vstd::arithmetic::div_mod::lemma_mod_bound(i, channel_count);
        assert(0 <= f < frames) by (nonlinear_arith)
            requires
                0 <= i < frames * channel_count,
                i == channel_count * f + c,
                0 <= c < channel_count,
        ;
    }
}

/// Joining channels of one length and splitting the result gives the
/// channels back.
pub proof fn lemma_interleave_then_deinterleave<T>(channels: Seq<Seq<T>>)
    requires
        rectangular(channels),
    ensures
        deinterleaved(interleaved(channels), channels.len() as int) == channels,
{
    let count = channels.len() as int;
    let frames = channels[0].len() as int;
    let joined = interleaved(channels);
    let parts = deinterleaved(joined, count);
    vstd::arithmetic::div_mod::lemma_div_by_multiple(frames, count);
    assert forall|c: int| 0 <= c < count implies #[trigger] parts[c] == channels[c] by {
        assert forall|f: int| 0 <= f < frames implies parts[c][f] == channels[c][f] by {
            lemma_slot(f, c, count, frames);
        }
    }
}

/// Splits an interleaved buffer into its channels.
pub fn deinterleave<T: Copy>(buffer: &Vec<T>, channel_count: usize) -> (channels: Vec<Vec<T>>)
    requires
        channel_count > 0,
        buffer.len() % channel_count == 0,
    ensures
        channel_views(channels@) == deinterleaved(buffer@, channel_count as int),
        channels.len() == channel_count,
        forall|c: int|
            0 <= c < channel_count ==> (#[trigger] channels[c])@ == channel_of(
                buffer@,
                channel_count as int,
                c,
            ),
{
    let frames: usize = buffer.len() / channel_count;
    let mut channels: Vec<Vec<T>> = Vec::new();
    let mut channel: usize = 0;
    proof {
        vstd::arithmetic::div_mod::lemma_fundamental_div_mod(
            buffer.len() as int,
            channel_count as int,
        );
    }
    while channel < channel_count
        invariant
            channel <= channel_count,
            channel_count > 0,
            frames == buffer.len() / channel_count,
            frames * channel_count == buffer.len(),
            channels.len() == channel,
            forall|c: int|
                0 <= c < channel ==> (#[trigger] channels[c])@ == channel_of(
                    buffer@,
                    channel_count as int,
                    c,
                ),
        decreases channel_count - channel,
    {
        let mut samples: Vec<T> = Vec::new();
        let mut frame: usize = 0;
        while frame < frames
            invariant
                frame <= frames,
                channel < channel_count,
                frames * channel_count == buffer.len(),
                samples.len() == frame,
                forall|f: int|
                    0 <= f < frame ==> #[trigger] samples[f] == buffer[f * channel_count
                        + channel],
            decreases frames - frame,
        {
            proof {
                lemma_slot(frame as int, channel as int, channel_count as int, frames as int);
            }
            samples.push(buffer[frame * channel_count + channel]);
            frame += 1;
        }
        channels.push(samples);
        channel += 1;
    }
    channels
}

/// Joins channels of one length into an interleaved buffer.
pub fn interleave<T: Copy>(channels: &Vec<Vec<T>>) -> (buffer: Vec<T>)
    requires
        rectangular(channel_views(channels@)),
        channels.len() * channels[0].len() <= usize::MAX,
    ensures
        buffer@ == interleaved(channel_views(channels@)),
{
    let count: usize = channels.len();
    let frames: usize = channels[0].len();
    let mut buffer: Vec<T> = Vec::new();
    let mut frame: usize = 0;
    let ghost views = channel_views(channels@);
    while frame < frames
        invariant
            frame <= frames,
            count == channels.len(),
            count > 0,
            frames == channels[0].len(),
            views == channel_views(channels@),
            rectangular(views),
            buffer.len() == frame * count,
            forall|i: int|
                0 <= i < frame * count ==> #[trigger] buffer[i] == views[i % (count as int)][i / (
                count as int)],
        decreases frames - frame,
    {
        let mut channel: usize = 0;
        while channel < count
            invariant
                frame < frames,
                channel <= count,
                count == channels.len(),
                count > 0,
                frames == channels[0].len(),
                views == channel_views(channels@),
                rectangular(views),
                buffer.len() == frame * count + channel,
                forall|i: int|
                    0 <= i < frame * count + channel ==> #[trigger] buffer[i] == views[i % (
                    count as int)][i / (count as int)],
            decreases count - channel,
        {
            assert(views[channel as int] == channels[channel as int]@);
            proof {
                lemma_slot(frame as int, channel as int, count as int, frames as int);
            }
            let sample = channels[channel][frame];
            buffer.push(sample);
            channel += 1;
        }
        assert(frame * count + count == (frame + 1) * count) by (nonlinear_arith);
        frame += 1;
    }
    assert(frames * count == count * frames) by (nonlinear_arith);
    buffer
}

} // verus!
