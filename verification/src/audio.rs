//! Audio bookkeeping: which sounds are playing, the frame index the output
//! has reached, and which samples of the test sound go where in the next
//! output buffer. The samples themselves are mixed by the caller.
use vstd::prelude::*;

verus! {

/// When a sound is meant to start.
#[derive(Debug, Clone, Copy, PartialEq, Eq)]
pub enum SoundStartTime {
    Immediately,
    OnNextMeasure,
    OnNextBeat,
    OnNextHalfBeat,
    OnNextQuarterBeat,
}

/// A playing sound: the frames it occupies once it has been started.
#[derive(Debug, Clone, Copy)]
pub struct Sound {
    pub start_time: SoundStartTime,
    pub start_frame_index: Option<usize>,
    pub end_frame_index: Option<usize>,
}

/// The only channel count the audio output supports.
pub open spec fn audio_channels() -> usize {
    2
}

/// The only sample rate the audio output supports.
pub open spec fn audio_sample_rate_hz() -> usize {
    48000
}

/// Samples in one output buffer: about four frames at 60 Hz for all channels.
pub open spec fn samples_buffer_len() -> int {
    audio_channels() * audio_sample_rate_hz() * 4 / 60
}

/// Sample frames written into one output buffer.
pub open spec fn frames_per_buffer() -> int {
    samples_buffer_len() / 2
}

/// Copies of test sound samples into the output buffer: `(output frame,
/// test sound sample)`; the sample goes to both channels of the frame.
pub type SampleCopies = Vec<(usize, usize)>;

pub struct AudioContext {
    pub next_uncommitted_frame_index: usize,
    pub num_channels: usize,
    pub sample_rate_hz: usize,
    /// Number of samples of the loaded test sound.
    pub test_sound_len: usize,
    pub sounds: Vec<Sound>,
}

/// A sound has either not started, or started no later than `next` and ends
/// no earlier than it started.
pub open spec fn sound_wf(s: Sound, next: int) -> bool {
    match (s.start_frame_index, s.end_frame_index) {
        (Some(start), Some(end)) => start <= next && start <= end,
        (None, None) => true,
        _ => false,
    }
}

/// What happens to a sound when the output reaches frame `next`: it is
/// dropped once its end lies before `next`, and started at `next` if it has
/// not started yet.
pub open spec fn advance_sound(s: Sound, next: int, test_len: int) -> Option<Sound> {
    match s.end_frame_index {
        Some(end) => if end >= next {
            Some(s)
        } else {
            None
        },
        None => Some(
            Sound {
                start_frame_index: Some(next as usize),
                end_frame_index: Some((next + test_len) as usize),
                ..s
            },
        ),
    }
}

/// The copies for one started sound: the part of the test sound from the
/// sound's position onwards, up to the buffer length or the sound's end.
pub open spec fn sound_copies(s: Sound, next: int, test_len: int) -> Seq<(usize, usize)> {
    let offset = next - s.start_frame_index->0;
    let end = if frames_per_buffer() < test_len {
        frames_per_buffer()
    } else {
        test_len
    };
    Seq::new(
        if end > offset {
            (end - offset) as nat
        } else {
            0
        },
        |i: int| (i as usize, (offset + i) as usize),
    )
}

/// The copies for all sounds, in order; a later sound overwrites an earlier one.
pub open spec fn all_copies(sounds: Seq<Sound>, next: int, test_len: int) -> Seq<(usize, usize)>
    decreases sounds.len(),
{
    if sounds.len() == 0 {
        Seq::empty()
    } else {
        all_copies(sounds.drop_last(), next, test_len) + sound_copies(sounds.last(), next, test_len)
    }
}

impl AudioContext {
    pub open spec fn wf(&self) -> bool {
        &&& self.num_channels == audio_channels()
        &&& self.sample_rate_hz == audio_sample_rate_hz()
        &&& forall|i: int|
            0 <= i < self.sounds@.len() ==> sound_wf(
                #[trigger] self.sounds@[i],
                self.next_uncommitted_frame_index as int)
    }

    /// An audio context for the one supported output format.
    pub fn new(num_channels: usize, sample_rate_hz: usize) -> (r: AudioContext)
        requires
            num_channels == audio_channels(),
            sample_rate_hz == audio_sample_rate_hz(),
        ensures
            r.wf(),
            r.next_uncommitted_frame_index == 0,
            r.test_sound_len == 0,
            r.sounds@.len() == 0,
    {
        AudioContext {
            next_uncommitted_frame_index: 0,
            num_channels,
            sample_rate_hz,
            test_sound_len: 0,
            sounds: Vec::new(),
        }
    }

    /// Takes the length of a newly loaded test sound. Sounds already playing
    /// keep the end they were given.
    pub fn set_test_sound_len(&mut self, test_sound_len: usize)
        requires
            old(self).wf(),
        ensures
            final(self).wf(),
            *final(self) == (AudioContext { test_sound_len, ..*old(self) }),
    {
        self.test_sound_len = test_sound_len;
    }

    /// Queues the test sound; it starts with the next buffer.
    pub fn play_debug_sound(&mut self, start_time: SoundStartTime)
        requires
            old(self).wf(),
        ensures
            final(self).wf(),
            final(self).sounds@ == old(self).sounds@.push(
                Sound { start_time, start_frame_index: None, end_frame_index: None },
            ),
            final(self).next_uncommitted_frame_index == old(self).next_uncommitted_frame_index,
            final(self).test_sound_len == old(self).test_sound_len,
    {
        self.sounds.push(Sound { start_time, start_frame_index: None, end_frame_index: None });
        proof {
            assert forall|i: int| 0 <= i < self.sounds@.len() implies sound_wf(
                #[trigger] self.sounds@[i],
                self.next_uncommitted_frame_index as int) by {
                if i < old(self).sounds@.len() {
                    assert(self.sounds@[i] == old(self).sounds@[i]);
                }
            }
        }
    }

    /// Prepares the next output buffer. `uncommitted_samples` samples of the
    /// previous buffer were not played yet; the played frames advance the frame
    /// index. Finished sounds are dropped, new ones start at the new frame
    /// index. Returns the number of frames the new buffer gets and the test
    /// sound samples to copy into it.
    pub fn fill_buffer(&mut self, uncommitted_samples: usize) -> (r: (usize, SampleCopies))
        requires
            old(self).wf(),
            uncommitted_samples <= samples_buffer_len(),
            old(self).next_uncommitted_frame_index + frames_per_buffer() + old(self).test_sound_len
                <= usize::MAX,
        ensures
            final(self).wf(),
            final(self).test_sound_len == old(self).test_sound_len,
            final(self).next_uncommitted_frame_index == old(self).next_uncommitted_frame_index + (
            samples_buffer_len() - uncommitted_samples) / (audio_channels() as int),
            final(self).sounds@ == old(self).sounds@.filter_map(
                |s: Sound|
                    advance_sound(
                        s,
                        final(self).next_uncommitted_frame_index as int,
                        old(self).test_sound_len as int,
                    ),
            ),
            r.0 == frames_per_buffer(),
            r.1@ == all_copies(
                final(self).sounds@,
                final(self).next_uncommitted_frame_index as int,
                old(self).test_sound_len as int,
            ),
            forall|i: int|
                0 <= i < final(self).sounds@.len() ==> (#[trigger] final(self).sounds@[i]).start_frame_index is Some,
            forall|c: int|
                0 <= c < r.1@.len() ==> exists|j: int|
                    0 <= j < final(self).sounds@.len() && #[trigger] r.1@[c].1 == r.1@[c].0
                        + final(self).next_uncommitted_frame_index - final(self).sounds@[j].start_frame_index->0,
            forall|j: int, k: int|
                0 <= j < final(self).sounds@.len() && 0 <= k && final(self).next_uncommitted_frame_index
                    - final(self).sounds@[j].start_frame_index->0 + k < frames_per_buffer()
                    && final(self).next_uncommitted_frame_index - final(self).sounds@[j].start_frame_index->0
                    + k < old(self).test_sound_len ==> #[trigger] r.1@.contains(
                    (
                        k as usize,
                        (final(self).next_uncommitted_frame_index - final(self).sounds@[j].start_frame_index->0
                            + k) as usize,
                    ),
                ),
    {
        let samples_buffer_len: usize = self.num_channels * self.sample_rate_hz * 4 / 60;
        let num_committed_frames = (samples_buffer_len - uncommitted_samples) / self.num_channels;
        self.next_uncommitted_frame_index = self.next_uncommitted_frame_index + num_committed_frames;
        let next = self.next_uncommitted_frame_index;
        let num_frames_to_commit = samples_buffer_len / 2;
        let buffer_frames = (2 * num_frames_to_commit) / self.num_channels;
        let test_len = self.test_sound_len;
        let ghost advance = |s: Sound| advance_sound(s, next as int, test_len as int);

        // Drop finished sounds and start new ones
        let mut sounds: Vec<Sound> = Vec::new();
        let mut i: usize = 0;
        while i < self.sounds.len()
            invariant
                i <= self.sounds@.len(),
                self.sounds@ == old(self).sounds@,
                next == self.next_uncommitted_frame_index,
                next <= old(self).next_uncommitted_frame_index + frames_per_buffer(),
                old(self).next_uncommitted_frame_index <= next,
                old(self).next_uncommitted_frame_index + frames_per_buffer() + test_len <= usize::MAX,
                test_len == self.test_sound_len,
                test_len == old(self).test_sound_len,
                advance == (|s: Sound| advance_sound(s, next as int, test_len as int)),
                forall|k: int|
                    0 <= k < old(self).sounds@.len() ==> sound_wf(
                        #[trigger] old(self).sounds@[k],
                        old(self).next_uncommitted_frame_index as int),
                sounds@ == self.sounds@.subrange(0, i as int).filter_map(advance),
                forall|k: int|
                    0 <= k < sounds@.len() ==> sound_wf(
                        #[trigger] sounds@[k],
                        next as int) && sounds@[k].start_frame_index is Some,
            decreases self.sounds@.len() - i,
        {
            let sound = self.sounds[i];
            let keep = match sound.end_frame_index {
                Some(frame_index) => frame_index >= next,
                None => true,
            };
            proof {
                let p = self.sounds@.subrange(0, i + 1);
                assert(p.drop_last() =~= self.sounds@.subrange(0, i as int));
                assert(p.last() == sound);
            }
            if keep {
                let mut kept = sound;
                if kept.start_frame_index.is_none() {
                    kept.start_frame_index = Some(next);
                    kept.end_frame_index = Some(next + test_len);
                }
                proof {
                    assert(sound_wf(old(self).sounds@[i as int], old(self).next_uncommitted_frame_index as int));
                }
                sounds.push(kept);
                proof {
                    assert(sounds@ =~= self.sounds@.subrange(0, i + 1).filter_map(advance));
                }
            }
            i = i + 1;
        }
        proof {
            assert(self.sounds@.subrange(0, i as int) =~= self.sounds@);
        }
        self.sounds = sounds;

        // Plan the copies of test sound samples
        let mut copies: SampleCopies = Vec::new();
        let mut j: usize = 0;
        while j < self.sounds.len()
            invariant
                j <= self.sounds@.len(),
                next == self.next_uncommitted_frame_index,
                test_len == self.test_sound_len,
                buffer_frames == frames_per_buffer(),
                forall|k: int|
                    0 <= k < self.sounds@.len() ==> sound_wf(
                        #[trigger] self.sounds@[k],
                        next as int) && self.sounds@[k].start_frame_index is Some,
                copies@ == all_copies(self.sounds@.subrange(0, j as int), next as int, test_len as int),
            decreases self.sounds@.len() - j,
        {
            let sound = self.sounds[j];
            proof {
                assert(sound_wf(self.sounds@[j as int], next as int));
            }
            let vec_start_index = match sound.start_frame_index {
                Some(start) => next - start,
                None => 0,
            };
            let end = if buffer_frames < test_len {
                buffer_frames
            } else {
                test_len
            };
            let ghost before = copies@;
            let mut index = vec_start_index;
            while index < end
                invariant
                    vec_start_index <= index,
                    index <= end || vec_start_index >= end,
                    vec_start_index >= end ==> index == vec_start_index,
                    copies@ == before + sound_copies(sound, next as int, test_len as int).subrange(
                        0,
                        (index - vec_start_index) as int,
                    ),
                    vec_start_index == next - sound.start_frame_index->0,
                    end == (if frames_per_buffer() < test_len {
                        frames_per_buffer()
                    } else {
                        test_len as int
                    }),
                decreases end - index,
            {
                copies.push((index - vec_start_index, index));
                index = index + 1;
                proof {
                    assert(copies@ =~= before + sound_copies(sound, next as int, test_len as int).subrange(
                        0,
                        (index - vec_start_index) as int,
                    ));
                }
            }
            proof {
                let sc = sound_copies(sound, next as int, test_len as int);
                assert(sc.subrange(0, sc.len() as int) =~= sc);
                if vec_start_index >= end {
                    assert(sc.len() == 0);
                    assert(copies@ =~= before + sc);
                } else {
                    assert(index == end);
                }
                let p = self.sounds@.subrange(0, j + 1);
                assert(p.drop_last() =~= self.sounds@.subrange(0, j as int));
                assert(p.last() == sound);
            }
            j = j + 1;
        }
        proof {
            assert(self.sounds@.subrange(0, j as int) =~= self.sounds@);
            law_copies_continue_each_sound(self.sounds@, next as int, test_len as int);
            assert forall|j: int, k: int|
                0 <= j < self.sounds@.len() && 0 <= k && next - self.sounds@[j].start_frame_index->0 + k
                    < frames_per_buffer() && next - self.sounds@[j].start_frame_index->0 + k < test_len
                implies #[trigger] copies@.contains(
                (k as usize, (next - self.sounds@[j].start_frame_index->0 + k) as usize),
            ) by {
                law_copies_cover_each_sound(self.sounds@, next as int, test_len as int, j, k);
            }
        }
        (num_frames_to_commit, copies)
    }
}

/// The sample copied to output frame `k` for a sound started at frame
/// `start` is sample `next + k - start`: the sound continues where it is,
/// one sample per frame, and never restarts.
pub proof fn law_copies_continue_each_sound(sounds: Seq<Sound>, next: int, test_len: int)
    requires
        0 <= test_len <= usize::MAX,
        forall|i: int|
            0 <= i < sounds.len() ==> (#[trigger] sounds[i]).start_frame_index is Some && sound_wf(
                sounds[i],
                next,
            ),
    ensures
        forall|c: int|
            0 <= c < all_copies(sounds, next, test_len).len() ==> exists|j: int|
                0 <= j < sounds.len() && #[trigger] all_copies(sounds, next, test_len)[c].1 == all_copies(
                    sounds,
                    next,
                    test_len,
                )[c].0 + next - sounds[j].start_frame_index->0,
    decreases sounds.len(),
{
    if sounds.len() > 0 {
        let rest = sounds.drop_last();
        assert forall|i: int| 0 <= i < rest.len() implies (#[trigger] rest[i]).start_frame_index is Some
            && sound_wf(rest[i], next) by {
            assert(rest[i] == sounds[i]);
        }
        law_copies_continue_each_sound(rest, next, test_len);
        let a = all_copies(rest, next, test_len);
        let b = sound_copies(sounds.last(), next, test_len);
        let last = sounds.len() - 1;
        assert(all_copies(sounds, next, test_len) == a + b);
        assert forall|c: int| 0 <= c < (a + b).len() implies exists|j: int|
            0 <= j < sounds.len() && #[trigger] (a + b)[c].1 == (a + b)[c].0 + next
                - sounds[j].start_frame_index->0 by {
            if c < a.len() {
                assert((a + b)[c] == a[c]);
                let j = choose|j: int|
                    0 <= j < rest.len() && #[trigger] a[c].1 == a[c].0 + next
                        - rest[j].start_frame_index->0;
                assert(rest[j] == sounds[j]);
            } else {
                let i = c - a.len();
                assert((a + b)[c] == b[i]);
                let offset = next - sounds.last().start_frame_index->0;
                assert(sound_wf(sounds[last], next));
                assert(sounds[last] == sounds.last());
                assert(0 <= offset);
                assert(b[i] == (i as usize, (offset + i) as usize));
                assert(offset + i < test_len);
                assert(sounds[last] == sounds.last());
                assert((a + b)[c].1 == (a + b)[c].0 + next - sounds[last].start_frame_index->0);
            }
        }
    }
}

/// Every planned copy writes inside the output buffer and reads inside the
/// test sound, for any list of started sounds.
pub proof fn law_copies_stay_in_bounds(sounds: Seq<Sound>, next: int, test_len: int)
    requires
        forall|i: int|
            0 <= i < sounds.len() ==> sound_wf(#[trigger] sounds[i], next)
                && sounds[i].start_frame_index is Some,
    ensures
        forall|k: int|
            0 <= k < all_copies(sounds, next, test_len).len() ==> {
                &&& (#[trigger] all_copies(sounds, next, test_len)[k]).0 < frames_per_buffer()
                &&& all_copies(sounds, next, test_len)[k].1 < test_len
            },
    decreases sounds.len(),
{
    if sounds.len() > 0 {
        let rest = sounds.drop_last();
        assert forall|i: int| 0 <= i < rest.len() implies sound_wf(#[trigger] rest[i], next)
            && rest[i].start_frame_index is Some by {
            assert(rest[i] == sounds[i]);
        }
        law_copies_stay_in_bounds(rest, next, test_len);
        let last = sounds.last();
        assert(sound_wf(sounds[sounds.len() - 1], next));
        let a = all_copies(rest, next, test_len);
        let b = sound_copies(last, next, test_len);
        assert forall|k: int| 0 <= k < (a + b).len() implies (#[trigger] (a + b)[k]).0
            < frames_per_buffer() && (a + b)[k].1 < test_len by {
            if k >= a.len() {
                assert((a + b)[k] == b[k - a.len()]);
            } else {
                assert((a + b)[k] == a[k]);
            }
        }
    }
}

/// Every started sound that has not reached its end gets, for each output
/// frame `k` up to the buffer length or the end of the test sound, a copy of
/// its sample `next + k - start` into frame `k`: no part of it is skipped.
pub proof fn law_copies_cover_each_sound(sounds: Seq<Sound>, next: int, test_len: int, j: int, k: int)
    requires
        0 <= test_len <= usize::MAX,
        forall|i: int|
            0 <= i < sounds.len() ==> (#[trigger] sounds[i]).start_frame_index is Some && sound_wf(
                sounds[i],
                next,
            ),
        0 <= j < sounds.len(),
        0 <= k,
        next - sounds[j].start_frame_index->0 + k < frames_per_buffer(),
        next - sounds[j].start_frame_index->0 + k < test_len,
    ensures
        all_copies(sounds, next, test_len).contains(
            (k as usize, (next - sounds[j].start_frame_index->0 + k) as usize),
        ),
    decreases sounds.len(),
{
    let rest = sounds.drop_last();
    let a = all_copies(rest, next, test_len);
    let b = sound_copies(sounds.last(), next, test_len);
    assert(all_copies(sounds, next, test_len) == a + b);
    if j < rest.len() {
        assert forall|i: int| 0 <= i < rest.len() implies (#[trigger] rest[i]).start_frame_index is Some
            && sound_wf(rest[i], next) by {
            assert(rest[i] == sounds[i]);
        }
        assert(rest[j] == sounds[j]);
        law_copies_cover_each_sound(rest, next, test_len, j, k);
        let c = choose|c: int| 0 <= c < a.len() && a[c] == (k as usize, (next - sounds[j].start_frame_index->0 + k) as usize);
        assert((a + b)[c] == a[c]);
    } else {
        assert(sounds[j] == sounds.last());
        assert(sound_wf(sounds[j], next));
        assert(b[k] == (k as usize, (next - sounds[j].start_frame_index->0 + k) as usize));
        assert((a + b)[a.len() + k] == b[k]);
    }
}

} // verus!
