//! One recording: the sample buffer, its sequence number, and whether it hit
//! the length limit.
use vstd::prelude::*;

verus! {

/// The canonical sample rate of voice input, in hertz. Every sherpa-onnx model
/// takes 16 kHz mono audio.
pub const VOICE_SAMPLE_RATE: u32 = 16000;

/// The longest recording, in seconds.
pub const MAX_VOICE_SECONDS: usize = 60;

/// The longest recording, in samples at [`VOICE_SAMPLE_RATE`]. Once it is
/// reached new samples are dropped; the samples already held are never
/// overwritten (a ring buffer would silently eat the start of a sentence).
pub const MAX_VOICE_SAMPLES: usize = 960000;

/// The shortest recording worth sending to the recognizer, in samples: 0.3 s
/// at [`VOICE_SAMPLE_RATE`]. Shorter ones are taken to be an accidental key press.
pub const MIN_VOICE_SAMPLES: usize = 4800;

/// Where a voice input stands.
#[derive(Debug, Clone, Copy, PartialEq, Eq, Structural)]
pub enum VoiceState {
    /// Not recording.
    Idle,
    /// Recording: the shell feeds captured samples to the engine.
    Recording,
    /// Handed to the transcriber: the shell polls for the text.
    Transcribing,
}

impl Default for VoiceState {
    fn default() -> (r: VoiceState)
        ensures
            r == VoiceState::Idle,
    {
        VoiceState::Idle
    }
}

/// One recording, from the first press of the voice key to the second.
pub(crate) struct VoiceSession<S> {
    pub state: VoiceState,
    /// The samples recorded so far.
    pub samples: Vec<S>,
    /// Bumped by every start and every cancel; a result that comes back with
    /// another number belongs to a recording that no longer counts.
    pub sequence: u64,
    /// The limit was reached and later samples were dropped.
    pub truncated: bool,
}

impl<S: Copy> VoiceSession<S> {
    /// Well-formed: the buffer never exceeds the limit, a truncated buffer is
    /// exactly full, and outside a recording the buffer is empty.
    pub(crate) open spec fn wf(&self) -> bool {
        &&& self.samples@.len() <= MAX_VOICE_SAMPLES
        &&& self.truncated ==> self.samples@.len() == MAX_VOICE_SAMPLES
        &&& self.state != VoiceState::Recording ==> self.samples@.len() == 0 && !self.truncated
    }

    /// A fresh session: idle, empty, sequence zero.
    pub(crate) fn new() -> (r: Self)
        ensures
            r.wf(),
            r.state == VoiceState::Idle,
            r.sequence == 0,
            r.samples@.len() == 0,
            !r.truncated,
    {
        VoiceSession { state: VoiceState::Idle, samples: Vec::new(), sequence: 0, truncated: false }
    }

    /// Starts a recording: drops the previous buffer and bumps the sequence
    /// number, which also voids any result still in flight.
    pub(crate) fn begin(&mut self)
        ensures
            final(self).wf(),
            final(self).state == VoiceState::Recording,
            final(self).sequence == old(self).sequence.wrapping_add(1),
            final(self).samples@.len() == 0,
            !final(self).truncated,
    {
        self.sequence = self.sequence.wrapping_add(1);
        self.samples = Vec::new();
        self.truncated = false;
        self.state = VoiceState::Recording;
    }

    /// Takes a block of samples; outside a recording nothing happens and the
    /// answer is `false`. At the limit only the part that still fits is kept.
    pub(crate) fn push(&mut self, samples: &[S]) -> (r: bool)
        requires
            old(self).wf(),
        ensures
            final(self).wf(),
            r == (old(self).state == VoiceState::Recording),
            final(self).state == old(self).state,
            final(self).sequence == old(self).sequence,
            !r ==> final(self).samples@ == old(self).samples@ && final(self).truncated == old(self).truncated,
            r ==> final(self).samples@ == old(self).samples@ + samples@.take(
                crate::voice::session::room_for(old(self).samples@.len(), samples@.len()) as int,
            ),
            r ==> final(self).truncated == (old(self).truncated || samples@.len()
                > MAX_VOICE_SAMPLES - old(self).samples@.len()),
    {
        if self.state != VoiceState::Recording {
            return false;
        }
        let len = self.samples.len();
        let room = MAX_VOICE_SAMPLES - len;
        let take = if samples.len() > room { room } else { samples.len() };
        let ghost before = self.samples@;
        let mut k: usize = 0;
        while k < take
            invariant
                k <= take,
                take <= samples@.len(),
                take <= room,
                room == MAX_VOICE_SAMPLES - before.len(),
                self.samples@ == before + samples@.take(k as int),
                self.state == old(self).state,
                self.sequence == old(self).sequence,
                self.truncated == old(self).truncated,
                before == old(self).samples@,
                old(self).wf(),
            decreases take - k,
        {
            self.samples.push(samples[k]);
            proof {
                assert(samples@.take(k + 1) =~= samples@.take(k as int).push(samples@[k as int]));
            }
            k = k + 1;
        }
        if samples.len() > room {
            self.truncated = true;
        }
        true
    }

    /// Ends a recording. A recording shorter than [`MIN_VOICE_SAMPLES`] is
    /// dropped and the session goes back to idle; otherwise the sequence number
    /// and all samples are handed out and the session waits for the text.
    pub(crate) fn finish(&mut self) -> (r: Option<(u64, Vec<S>)>)
        requires
            old(self).wf(),
        ensures
            final(self).wf(),
            final(self).sequence == old(self).sequence,
            old(self).state != VoiceState::Recording ==> r is None && final(self).state == old(self).state
                && final(self).samples@ == old(self).samples@,
            old(self).state == VoiceState::Recording && old(self).samples@.len() < MIN_VOICE_SAMPLES
                ==> r is None && final(self).state == VoiceState::Idle,
            old(self).state == VoiceState::Recording && old(self).samples@.len() >= MIN_VOICE_SAMPLES
                ==> r == Some((old(self).sequence, r.unwrap().1)) && r.unwrap().1@ == old(self).samples@
                && final(self).state == VoiceState::Transcribing,
    {
        if self.state != VoiceState::Recording {
            return None;
        }
        if self.samples.len() < MIN_VOICE_SAMPLES {
            self.samples = Vec::new();
            self.truncated = false;
            self.state = VoiceState::Idle;
            return None;
        }
        self.truncated = false;
        self.state = VoiceState::Transcribing;
        let mut taken: Vec<S> = Vec::new();
        std::mem::swap(&mut taken, &mut self.samples);
        Some((self.sequence, taken))
    }

    /// The result has been dealt with (text or not): back to idle.
    pub(crate) fn settle(&mut self)
        requires
            old(self).wf(),
        ensures
            final(self).wf(),
            final(self).state == VoiceState::Idle,
            final(self).sequence == old(self).sequence,
            final(self).samples@.len() == 0,
            !final(self).truncated,
    {
        self.samples = Vec::new();
        self.truncated = false;
        self.state = VoiceState::Idle;
    }

    /// Drops the recording and bumps the sequence number so that a result in
    /// flight is voided too.
    pub(crate) fn cancel(&mut self)
        ensures
            final(self).wf(),
            final(self).state == VoiceState::Idle,
            final(self).sequence == old(self).sequence.wrapping_add(1),
            final(self).samples@.len() == 0,
            !final(self).truncated,
    {
        self.sequence = self.sequence.wrapping_add(1);
        self.samples = Vec::new();
        self.truncated = false;
        self.state = VoiceState::Idle;
    }
}

/// How many of `incoming` samples still fit after `held`.
pub open spec fn room_for(held: nat, incoming: nat) -> nat {
    if incoming > MAX_VOICE_SAMPLES - held {
        (MAX_VOICE_SAMPLES - held) as nat
    } else {
        incoming
    }
}

} // verus!
