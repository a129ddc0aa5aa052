use vstd::prelude::*;

use crate::error::{DecodeError, PacketFault};
use crate::track::TrackSelection;

verus! {

/// What reading the next packet from the demuxer gave.
#[derive(Clone, Copy, Debug, PartialEq, Eq, Structural)]
pub enum PacketEvent {
    /// A packet of the track with this id.
    Packet { track_id: u32 },
    /// The stream ended: the normal way out of the loop.
    EndOfStream,
    /// Any other read or format error.
    ReadFailed,
}

/// What to do with what the demuxer gave.
#[derive(Clone, Copy, Debug, PartialEq, Eq, Structural)]
pub enum PacketAction {
    /// Hand the packet to the decoder.
    Decode,
    /// Drop the packet: it belongs to another track.
    Skip,
    /// Stop reading and finish the decode.
    Finish,
    /// Abandon the decode with this error.
    Abort(DecodeError),
}

/// What decoding one packet gave.
#[derive(Clone, Copy, Debug, PartialEq, Eq, Structural)]
pub enum DecodeEvent {
    /// A block of `frames` frames, `samples` interleaved samples in all.
    Decoded { frames: usize, samples: usize },
    /// The decoder refused the packet.
    Failed(PacketFault),
}

/// What to do with a decoded block.
#[derive(Clone, Copy, Debug, PartialEq, Eq, Structural)]
pub enum BlockAction {
    /// Append the block's interleaved samples to the accumulator.
    Append,
    /// Drop it and read on.
    Skip,
    /// Abandon the decode with this error.
    Abort(DecodeError),
}

/// How the accumulated interleaved samples become the mono signal.
#[derive(Clone, Copy, Debug, PartialEq, Eq, Structural)]
pub struct MonoLayout {
    pub channels: usize,
    /// Number of mono samples.
    pub frames: usize,
    /// True: each run of `channels` samples is averaged into one. False: the
    /// samples are already mono and pass through.
    pub mix: bool,
}

/// A decoded block that is appended: it has frames, and one sample per
/// frame and channel of the track.
pub open spec fn is_whole_block(ev: DecodeEvent, channels: int) -> bool {
    match ev {
        DecodeEvent::Decoded { frames, samples } => frames > 0 && samples == frames * channels,
        DecodeEvent::Failed(_) => false,
    }
}

/// Number of samples that `ev` adds to the accumulator of a track with
/// `channels` channels.
pub open spec fn appended(ev: DecodeEvent, channels: int) -> int {
    match ev {
        DecodeEvent::Decoded { frames, samples } => if is_whole_block(ev, channels) {
            samples as int
        } else {
            0
        },
        DecodeEvent::Failed(_) => 0,
    }
}

/// The accumulator's length after the decode events `evs`, from `count`.
pub open spec fn count_after(count: int, evs: Seq<DecodeEvent>, channels: int) -> int
    decreases evs.len(),
{
    if evs.len() == 0 {
        count
    } else {
        count_after(count + appended(evs[0], channels), evs.drop_first(), channels)
    }
}

/// The mono signal for `count` interleaved samples of `channels` channels.
pub open spec fn layout_of(count: int, channels: int) -> MonoLayout {
    MonoLayout {
        channels: channels as usize,
        frames: (if channels > 1 {
            count / channels
        } else {
            count
        }) as usize,
        mix: channels > 1,
    }
}

/// The state of the packet loop for one selected track.
#[derive(Clone, Copy, Debug, PartialEq, Eq, Structural)]
pub struct DecodeSession {
    pub track: TrackSelection,
    /// Interleaved samples appended so far.
    pub sample_count: usize,
}

impl DecodeSession {
    /// The accumulator holds whole frames of the track's channels.
    pub open spec fn wf(&self) -> bool {
        self.track.channels > 0 ==> (self.sample_count as int) % (self.track.channels as int) == 0
    }

    pub fn new(track: TrackSelection) -> (r: DecodeSession)
        ensures
            r.wf(),
            r.track == track,
            r.sample_count == 0,
    {
        proof {
            if track.channels > 0 {
                vstd::arithmetic::div_mod::lemma_small_mod(0, track.channels as nat);
            }
        }
        DecodeSession { track, sample_count: 0 }
    }

    /// Decides on the outcome of one read from the demuxer.
    pub fn on_packet(&self, ev: PacketEvent) -> (r: PacketAction)
        ensures
            r == match ev {
                PacketEvent::Packet { track_id } => if track_id == self.track.track_id {
                    PacketAction::Decode
                } else {
                    PacketAction::Skip
                },
                PacketEvent::EndOfStream => PacketAction::Finish,
                PacketEvent::ReadFailed => PacketAction::Abort(DecodeError::PacketRead),
            },
    {
        match ev {
            PacketEvent::Packet { track_id } => if track_id == self.track.track_id {
                PacketAction::Decode
            } else {
                PacketAction::Skip
            },
            PacketEvent::EndOfStream => PacketAction::Finish,
            PacketEvent::ReadFailed => PacketAction::Abort(DecodeError::PacketRead),
        }
    }

    /// Decides on the outcome of decoding one packet and counts what is
    /// appended. A block whose sample count is not its frames times the
    /// track's channels is dropped, so that only whole frames accumulate.
    pub fn on_decoded(&mut self, ev: DecodeEvent) -> (r: BlockAction)
        requires
            old(self).wf(),
            old(self).sample_count + appended(ev, old(self).track.channels as int) <= usize::MAX,
        ensures
            final(self).wf(),
            final(self).track == old(self).track,
            final(self).sample_count == old(self).sample_count + appended(
                ev,
                old(self).track.channels as int,
            ),
            r == match ev {
                DecodeEvent::Decoded { frames, samples } => if is_whole_block(
                    ev,
                    old(self).track.channels as int,
                ) {
                    BlockAction::Append
                } else {
                    BlockAction::Skip
                },
                DecodeEvent::Failed(PacketFault::Recoverable) => BlockAction::Skip,
                DecodeEvent::Failed(PacketFault::Fatal) => BlockAction::Abort(
                    DecodeError::FatalDecode,
                ),
            },
    {
        let channels = self.track.channels;
        match ev {
            DecodeEvent::Decoded { frames, samples } => {
                if frames > 0 && frames.checked_mul(channels) == Some(samples) {
                    proof {
                        if channels > 0 {
                            let c = channels as int;
                            let n = self.sample_count as int;
                            assert((n + frames * c) % c == 0) by (nonlinear_arith)
                                requires
                                    n % c == 0,
                                    c > 0,
                            {
                                vstd::arithmetic::div_mod::lemma_mod_multiples_vanish(
                                    frames as int,
                                    n,
                                    c,
                                );
                            }
                        }
                    }
                    self.sample_count = self.sample_count + samples;
                    BlockAction::Append
                } else {
                    BlockAction::Skip
                }
            },
            DecodeEvent::Failed(PacketFault::Recoverable) => BlockAction::Skip,
            DecodeEvent::Failed(PacketFault::Fatal) => BlockAction::Abort(DecodeError::FatalDecode),
        }
    }

    /// Ends the loop: fails when nothing was decoded, else says how the
    /// accumulated samples are mixed down to mono.
    pub fn finish(&self) -> (r: Result<MonoLayout, DecodeError>)
        requires
            self.wf(),
        ensures
            self.sample_count == 0 ==> r == Err::<MonoLayout, DecodeError>(
                DecodeError::EmptyDecodeResult,
            ),
            self.sample_count > 0 ==> r == Ok::<MonoLayout, DecodeError>(
                layout_of(self.sample_count as int, self.track.channels as int),
            ),
            r matches Ok(layout) ==> layout.wf(),
            r matches Ok(layout) ==> layout.mix ==> layout.frames * layout.channels
                == self.sample_count,
    {
        if self.sample_count == 0 {
            return Err(DecodeError::EmptyDecodeResult);
        }
        let channels = self.track.channels;
        if channels > 1 {
            proof {
                let n = self.sample_count as int;
                let c = channels as int;
                let q = n / c;
                vstd::arithmetic::div_mod::lemma_fundamental_div_mod(n, c);
                assert(q * c == n) by (nonlinear_arith)
                    requires
                        n == c * q + n % c,
                        n % c == 0,
                ;
            }
            Ok(MonoLayout { channels, frames: self.sample_count / channels, mix: true })
        } else {
            Ok(MonoLayout { channels, frames: self.sample_count, mix: false })
        }
    }
}

impl MonoLayout {
    pub open spec fn wf(&self) -> bool {
        self.mix ==> (self.channels > 1 && self.frames * self.channels <= usize::MAX)
    }

    /// The run `[start, end)` of interleaved samples that mono sample `i` is
    /// the arithmetic mean of.
    pub fn frame_bounds(&self, i: usize) -> (r: (usize, usize))
        requires
            self.wf(),
            self.mix,
            i < self.frames,
        ensures
            r.0 == i * self.channels,
            r.1 == r.0 + self.channels,
            r.1 <= self.frames * self.channels,
    {
        proof {
            assert((i + 1) * self.channels <= self.frames * self.channels) by (nonlinear_arith)
                requires
                    i < self.frames,
            ;
            assert((i + 1) * self.channels == i * self.channels + self.channels) by (nonlinear_arith);
        }
        let start: usize = i * self.channels;
        (start, start + self.channels)
    }
}

/// The accumulator only grows, by what each event appends.
pub proof fn lemma_count_after_concat(
    count: int,
    a: Seq<DecodeEvent>,
    b: Seq<DecodeEvent>,
    channels: int,
)
    ensures
        count_after(count, a + b, channels) == count_after(
            count_after(count, a, channels),
            b,
            channels,
        ),
    decreases a.len(),
{
    if a.len() > 0 {
        assert((a + b).drop_first() =~= a.drop_first() + b);
        lemma_count_after_concat(count + appended(a[0], channels), a.drop_first(), b, channels);
    } else {
        assert(a + b =~= b);
    }
}

/// Where no decode event yields a whole non-empty block, nothing is
/// accumulated, and finishing the session fails with the empty-result error.
pub proof fn lemma_nothing_decoded_is_empty(evs: Seq<DecodeEvent>, channels: int)
    requires
        forall|i: int| 0 <= i < evs.len() ==> !is_whole_block(#[trigger] evs[i], channels),
    ensures
        count_after(0, evs, channels) == 0,
    decreases evs.len(),
{
    if evs.len() > 0 {
        assert(!is_whole_block(evs[0], channels));
        assert forall|i: int| 0 <= i < evs.drop_first().len() implies !is_whole_block(
            #[trigger] evs.drop_first()[i],
            channels,
        ) by {
            assert(evs.drop_first()[i] == evs[i + 1]);
        }
        lemma_nothing_decoded_is_empty(evs.drop_first(), channels);
    }
}

/// A corrupt packet among valid ones changes nothing of what is accumulated:
/// the samples are those of the valid packets alone.
pub proof fn lemma_corrupt_packet_skipped(
    before: Seq<DecodeEvent>,
    after: Seq<DecodeEvent>,
    channels: int,
)
    ensures
        count_after(
            0,
            before + seq![DecodeEvent::Failed(PacketFault::Recoverable)] + after,
            channels,
        ) == count_after(0, before + after, channels),
{
    let bad = seq![DecodeEvent::Failed(PacketFault::Recoverable)];
    lemma_count_after_concat(0, before + bad, after, channels);
    lemma_count_after_concat(0, before, bad, channels);
    lemma_count_after_concat(0, before, after, channels);
    assert(bad.drop_first() =~= Seq::<DecodeEvent>::empty());
    let c = count_after(0, before, channels);
    assert(count_after(c, bad, channels) == count_after(
        c + appended(bad[0], channels),
        bad.drop_first(),
        channels,
    ));
}

/// Events never take samples away.
pub proof fn lemma_count_after_at_least(count: int, evs: Seq<DecodeEvent>, channels: int)
    ensures
        count_after(count, evs, channels) >= count,
    decreases evs.len(),
{
    if evs.len() > 0 {
        lemma_count_after_at_least(count + appended(evs[0], channels), evs.drop_first(), channels);
    }
}

/// The accumulator holds at least what any one event appended.
pub proof fn lemma_count_after_grows(count: int, evs: Seq<DecodeEvent>, channels: int, i: int)
    requires
        0 <= i < evs.len(),
    ensures
        count_after(count, evs, channels) >= count + appended(evs[i], channels),
    decreases evs.len(),
{
    lemma_count_after_at_least(count + appended(evs[0], channels), evs.drop_first(), channels);
    if i > 0 {
        assert(evs.drop_first()[i - 1] == evs[i]);
        lemma_count_after_grows(
            count + appended(evs[0], channels),
            evs.drop_first(),
            channels,
            i - 1,
        );
    }
}

/// A corrupt packet among valid ones, one of which decodes to a whole block
/// with frames, on a track of at least one channel, still leaves a non-empty
/// accumulator holding exactly what the valid packets gave.
pub proof fn lemma_corrupt_packet_nonempty(
    before: Seq<DecodeEvent>,
    after: Seq<DecodeEvent>,
    channels: int,
    i: int,
)
    requires
        channels >= 1,
        0 <= i < (before + after).len(),
        is_whole_block((before + after)[i], channels),
    ensures
        count_after(
            0,
            before + seq![DecodeEvent::Failed(PacketFault::Recoverable)] + after,
            channels,
        ) > 0,
        count_after(
            0,
            before + seq![DecodeEvent::Failed(PacketFault::Recoverable)] + after,
            channels,
        ) == count_after(0, before + after, channels),
{
    lemma_corrupt_packet_skipped(before, after, channels);
    lemma_count_after_grows(0, before + after, channels, i);
    if let DecodeEvent::Decoded { frames, samples } = (before + after)[i] {
        assert(frames * channels > 0) by (nonlinear_arith)
            requires
                frames > 0,
                channels >= 1,
        ;
    }
}

} // verus!
