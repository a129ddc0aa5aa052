use vstd::prelude::*;

use crate::error::DecodeError;

verus! {

/// What the track list of a probed container says of one track.
#[derive(Clone, Copy, Debug, PartialEq, Eq, Structural)]
pub struct TrackInfo {
    pub id: u32,
    /// False for the null codec that marks a data-only track.
    pub has_codec: bool,
    pub sample_rate: Option<u32>,
    pub channels: Option<usize>,
}

/// The parameters of the track chosen for decoding.
#[derive(Clone, Copy, Debug, PartialEq, Eq, Structural)]
pub struct TrackSelection {
    /// Position of the track in the container's track list.
    pub index: usize,
    pub track_id: u32,
    pub sample_rate: u32,
    pub channels: usize,
}

/// `k` is the index of the first track that carries a codec.
pub open spec fn is_first_audio(tracks: Seq<TrackInfo>, k: int) -> bool {
    &&& 0 <= k < tracks.len()
    &&& tracks[k].has_codec
    &&& forall|j: int| 0 <= j < k ==> !(#[trigger] tracks[j]).has_codec
}

pub open spec fn has_no_audio(tracks: Seq<TrackInfo>) -> bool {
    forall|j: int| 0 <= j < tracks.len() ==> !(#[trigger] tracks[j]).has_codec
}

/// The selection that a track's own parameters give; the channel count
/// falls back to mono when the container does not state it.
pub open spec fn selection_of(t: TrackInfo, index: int) -> Result<TrackSelection, DecodeError> {
    match t.sample_rate {
        None => Err(DecodeError::MissingSampleRate),
        Some(rate) => Ok(
            TrackSelection {
                index: index as usize,
                track_id: t.id,
                sample_rate: rate,
                channels: match t.channels {
                    Some(c) => c,
                    None => 1,
                },
            },
        ),
    }
}

/// Picks the first track that carries audio and resolves its parameters.
pub fn select_track(tracks: &Vec<TrackInfo>) -> (r: Result<TrackSelection, DecodeError>)
    ensures
        has_no_audio(tracks@) <==> r == Err::<TrackSelection, DecodeError>(
            DecodeError::NoAudioTrack,
        ),
        forall|k: int| is_first_audio(tracks@, k) ==> r == selection_of(#[trigger] tracks@[k], k),
{
    let mut i: usize = 0;
    while i < tracks.len()
        invariant
            i <= tracks@.len(),
            forall|j: int| 0 <= j < i ==> !(#[trigger] tracks@[j]).has_codec,
        decreases tracks@.len() - i,
    {
        let t = tracks[i];
        if t.has_codec {
            assert(is_first_audio(tracks@, i as int));
            let channels: usize = match t.channels {
                Some(c) => c,
                None => 1,
            };
            let r = match t.sample_rate {
                None => Err(DecodeError::MissingSampleRate),
                Some(rate) => Ok(TrackSelection { index: i, track_id: t.id, sample_rate: rate, channels }),
            };
            assert forall|k: int| is_first_audio(tracks@, k) implies k == i by {
                if k < i {
                } else if k > i {
                    assert(!tracks@[i as int].has_codec);
                }
            }
            assert(!has_no_audio(tracks@));
            return r;
        }
        i = i + 1;
    }
    Err(DecodeError::NoAudioTrack)
}

} // verus!
