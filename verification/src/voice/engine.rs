//! The engine's voice entry points: start, feed, stop, poll, cancel.
use vstd::prelude::*;
use super::session::{room_for, VoiceSession, VoiceState, MAX_VOICE_SAMPLES, MIN_VOICE_SAMPLES};

verus! {

/// Text that came back for one recording.
pub struct Transcribed {
    /// The sequence number the recording was handed out with.
    pub sequence: u64,
    /// `None` when the recognizer produced nothing (silence, an error).
    pub text: Option<String>,
}

/// Runs recognition off the key path. A whole recording takes hundreds of
/// milliseconds, so the shell runs it on a background thread and the engine
/// only submits recordings and polls for results. No sample may be dropped on
/// the way: every recording submitted is recognized.
pub trait Transcriber {
    /// What one audio sample is (16 kHz mono).
    type Sample: Copy;

    /// Every recording handed over so far, in order, each with its sequence
    /// number. The library's [`crate::voice::worker::VoiceWorker`] keeps this
    /// record and is verified against [`Transcriber::submit`]; a type that
    /// keeps none reads as having been handed nothing, and then cannot keep
    /// `submit`'s promise.
    closed spec fn submitted(&self) -> Seq<(u64, Seq<Self::Sample>)> {
        Seq::empty()
    }

    /// The background worker started and is running. As with
    /// [`Transcriber::submitted`], a type that does not say reads as not
    /// running, and then cannot keep [`Transcriber::is_alive`]'s promise.
    closed spec fn running(&self) -> bool {
        false
    }

    /// Whether the background worker started and is running.
    fn is_alive(&self) -> (r: bool)
        ensures
            r == self.running(),
    ;

    /// Hands a whole recording over: it joins what was submitted, every
    /// sample of it.
    fn submit(&mut self, sequence: u64, samples: Vec<Self::Sample>)
        ensures
            final(self).submitted() == old(self).submitted().push((sequence, samples@)),
    ;

    /// A result, if one has arrived; never blocks.
    fn poll(&self) -> Option<Transcribed>;
}

/// The worker after a recording is stopped: with a job, the same worker with
/// the job (its sequence number and every sample) added to what it was
/// handed; without one, the worker untouched.
pub open spec fn handed_over<W: Transcriber>(
    before: Option<W>,
    after: Option<W>,
    job: Option<(u64, Seq<W::Sample>)>,
) -> bool {
    match job {
        Some(job) => before is Some && after is Some && after->0.submitted() == before->0.submitted().push(job),
        None => after == before,
    }
}

/// What the engine's voice side holds, as values.
#[verifier::ext_equal]
pub struct EngineModel<S> {
    /// Where the current recording stands.
    pub state: VoiceState,
    /// The current sequence number.
    pub sequence: u64,
    /// The samples of the current recording.
    pub samples: Seq<S>,
    /// The current recording hit the limit.
    pub truncated: bool,
    /// The focused field is private (a password box).
    pub private: bool,
    /// A transcriber is attached.
    pub attached: bool,
    /// The attached transcriber's worker is running.
    pub alive: bool,
    /// The keys being composed.
    pub composition: Seq<char>,
}

/// Voice input can be used: a running transcriber, and not a private field.
pub open spec fn available<S>(m: EngineModel<S>) -> bool {
    m.alive && !m.private
}

/// After `start_voice`: a fresh recording when voice is available and nothing
/// is being composed; otherwise no change.
pub open spec fn after_start<S>(m: EngineModel<S>) -> EngineModel<S> {
    if available(m) && m.composition.len() == 0 {
        EngineModel {
            state: VoiceState::Recording,
            sequence: m.sequence.wrapping_add(1),
            samples: Seq::empty(),
            truncated: false,
            ..m
        }
    } else {
        m
    }
}

/// After feeding `incoming` samples: appended up to the limit while recording,
/// ignored otherwise.
pub open spec fn after_push<S>(m: EngineModel<S>, incoming: Seq<S>) -> EngineModel<S> {
    if m.state == VoiceState::Recording {
        EngineModel {
            samples: m.samples + incoming.take(room_for(m.samples.len(), incoming.len()) as int),
            truncated: m.truncated || incoming.len() > MAX_VOICE_SAMPLES - m.samples.len(),
            ..m
        }
    } else {
        m
    }
}

/// The recording `stop_voice` hands to the transcriber: the sequence number
/// and every sample, when a long enough recording was under way.
pub open spec fn stop_job<S>(m: EngineModel<S>) -> Option<(u64, Seq<S>)> {
    if m.state == VoiceState::Recording && m.samples.len() >= MIN_VOICE_SAMPLES {
        Some((m.sequence, m.samples))
    } else {
        None
    }
}

/// After `stop_voice`: a long enough recording waits for its text; a too
/// short one is dropped; outside a recording nothing changes.
pub open spec fn after_stop<S>(m: EngineModel<S>) -> EngineModel<S> {
    if m.state != VoiceState::Recording {
        m
    } else if m.samples.len() >= MIN_VOICE_SAMPLES {
        EngineModel { state: VoiceState::Transcribing, samples: Seq::empty(), truncated: false, ..m }
    } else {
        EngineModel { state: VoiceState::Idle, samples: Seq::empty(), truncated: false, ..m }
    }
}

/// After `cancel_voice`: idle, empty, and a new sequence number.
pub open spec fn after_cancel<S>(m: EngineModel<S>) -> EngineModel<S> {
    EngineModel {
        state: VoiceState::Idle,
        sequence: m.sequence.wrapping_add(1),
        samples: Seq::empty(),
        truncated: false,
        ..m
    }
}

/// After a result tagged `sequence` arrives: a current result settles the
/// recording; a stale one changes nothing.
pub open spec fn after_result<S>(m: EngineModel<S>, sequence: u64) -> EngineModel<S> {
    if sequence == m.sequence {
        EngineModel { state: VoiceState::Idle, samples: Seq::empty(), truncated: false, ..m }
    } else {
        m
    }
}

/// The text a result tagged `sequence` yields: its text when current, nothing
/// when stale.
pub open spec fn result_text<S>(m: EngineModel<S>, sequence: u64, text: Option<String>) -> Option<String> {
    if sequence == m.sequence {
        text
    } else {
        None
    }
}

/// After the field's privacy changes: the flag is set and voice is cancelled
/// (nothing may be recorded in a password box, nor land there).
pub open spec fn after_privacy<S>(m: EngineModel<S>, private: bool) -> EngineModel<S> {
    EngineModel { private, ..after_cancel(m) }
}

/// The voice side of the input engine.
pub struct Engine<W: Transcriber> {
    composition: Vec<char>,
    private: bool,
    voice_session: VoiceSession<W::Sample>,
    voice: Option<W>,
    voice_alive: bool,
}

impl<W: Transcriber> View for Engine<W> {
    type V = EngineModel<W::Sample>;

    closed spec fn view(&self) -> EngineModel<W::Sample> {
        EngineModel {
            state: self.voice_session.state,
            sequence: self.voice_session.sequence,
            samples: self.voice_session.samples@,
            truncated: self.voice_session.truncated,
            private: self.private,
            attached: self.voice.is_some(),
            alive: self.voice_alive,
            composition: self.composition@,
        }
    }
}

impl<W: Transcriber> Engine<W> {
    /// Well-formed: the session is, a running worker is an attached one, and a
    /// recording only exists while a transcriber is attached.
    pub closed spec fn wf(&self) -> bool {
        &&& self.voice_session.wf()
        &&& self.voice_alive ==> self.voice.is_some()
        &&& self.voice_session.state != VoiceState::Idle ==> self.voice.is_some()
    }

    /// The attached transcriber.
    pub closed spec fn worker(&self) -> Option<W> {
        self.voice
    }

    /// What well-formedness gives: a recording holds at most
    /// `MAX_VOICE_SAMPLES` samples and is cut only when full; outside a
    /// recording nothing is held; a running worker, and any recording or
    /// recognition, needs an attached transcriber, which is the one
    /// [`Engine::worker`] names.
    pub proof fn lemma_wf(&self)
        requires
            self.wf(),
        ensures
            self@.samples.len() <= MAX_VOICE_SAMPLES,
            self@.truncated ==> self@.samples.len() == MAX_VOICE_SAMPLES,
            self@.state != VoiceState::Recording ==> self@.samples.len() == 0 && !self@.truncated,
            self@.alive ==> self@.attached,
            self@.state != VoiceState::Idle ==> self@.attached,
            self@.attached == self.worker() is Some,
    {
    }

    /// An engine with no transcriber, nothing composed, and a public field.
    pub fn new() -> (r: Self)
        ensures
            r.wf(),
            r@.state == VoiceState::Idle,
            r@.sequence == 0,
            r@.samples.len() == 0,
            !r@.truncated,
            !r@.private,
            !r@.attached,
            !r@.alive,
            r@.composition.len() == 0,
    {
        Engine {
            composition: Vec::new(),
            private: false,
            voice_session: VoiceSession::new(),
            voice: None,
            voice_alive: false,
        }
    }

    /// Attaches or detaches the transcriber. Whatever was being recorded or
    /// recognized is voided first.
    pub fn set_voice_worker(&mut self, worker: Option<W>)
        requires
            old(self).wf(),
        ensures
            final(self).wf(),
            final(self)@.attached == worker.is_some(),
            final(self).worker() == worker,
            // Voice runs exactly when the attached worker does.
            final(self)@.alive == (worker matches Some(w) && w.running()),
            final(self)@.state == VoiceState::Idle,
            final(self)@.sequence == old(self)@.sequence.wrapping_add(1),
            final(self)@.samples.len() == 0,
            !final(self)@.truncated,
            final(self)@.private == old(self)@.private,
            final(self)@.composition == old(self)@.composition,
    {
        self.voice_session.cancel();
        let alive = match &worker {
            Some(w) => w.is_alive(),
            None => false,
        };
        self.voice = worker;
        self.voice_alive = alive;
    }

    /// Voice input can be used now: a running transcriber and a public field.
    pub fn voice_available(&self) -> (r: bool)
        ensures
            r == available(self@),
    {
        self.voice_alive && !self.private
    }

    /// The current stage, for the shell's indicator.
    pub fn voice_state(&self) -> (r: VoiceState)
        ensures
            r == self@.state,
    {
        self.voice_session.state
    }

    /// The current recording hit the limit and later samples were dropped.
    pub fn voice_truncated(&self) -> (r: bool)
        ensures
            r == self@.truncated,
    {
        self.voice_session.truncated
    }

    /// How many samples the current recording holds.
    pub fn voice_recorded_samples(&self) -> (r: usize)
        ensures
            r == self@.samples.len(),
    {
        self.voice_session.samples.len()
    }

    /// The attached transcriber, if any.
    pub fn voice_worker(&self) -> (r: Option<&W>)
        ensures
            match r {
                Some(w) => self.worker() == Some(*w),
                None => self.worker() is None,
            },
    {
        self.voice.as_ref()
    }

    /// Nothing is being composed.
    pub fn composition_is_empty(&self) -> (r: bool)
        ensures
            r == (self@.composition.len() == 0),
    {
        self.composition.len() == 0
    }

    /// Types one more key into the composition.
    pub fn push(&mut self, key: char)
        requires
            old(self).wf(),
        ensures
            final(self).wf(),
            final(self).worker() == old(self).worker(),
            final(self)@ == (EngineModel { composition: old(self)@.composition.push(key), ..old(self)@ }),
    {
        self.composition.push(key);
    }

    /// Empties the composition.
    pub fn clear(&mut self)
        requires
            old(self).wf(),
        ensures
            final(self).wf(),
            final(self).worker() == old(self).worker(),
            final(self)@ == (EngineModel { composition: Seq::empty(), ..old(self)@ }),
    {
        self.composition = Vec::new();
    }

    /// The field's privacy changed. Voice is cancelled either way: nothing is
    /// recorded in a password box and no result may land there.
    pub fn set_private(&mut self, private: bool)
        requires
            old(self).wf(),
        ensures
            final(self).wf(),
            final(self).worker() == old(self).worker(),
            final(self)@ == after_privacy(old(self)@, private),
    {
        self.private = private;
        self.cancel_voice();
    }

    /// Starts a recording (first press of the toggle). Refused, with nothing
    /// changed, when no transcriber runs, in a private field, or while keys are
    /// being composed: a composition is not cut short.
    pub fn start_voice(&mut self) -> (r: bool)
        requires
            old(self).wf(),
        ensures
            final(self).wf(),
            final(self).worker() == old(self).worker(),
            r == (available(old(self)@) && old(self)@.composition.len() == 0),
            final(self)@ == after_start(old(self)@),
    {
        if !self.voice_available() || self.composition.len() != 0 {
            return false;
        }
        self.voice_session.begin();
        true
    }

    /// Feeds captured samples (16 kHz mono). Outside a recording they are
    /// dropped and the answer is `false`.
    pub fn push_voice_samples(&mut self, samples: &[W::Sample]) -> (r: bool)
        requires
            old(self).wf(),
        ensures
            final(self).wf(),
            final(self).worker() == old(self).worker(),
            r == (old(self)@.state == VoiceState::Recording),
            final(self)@ == after_push(old(self)@, samples@),
    {
        self.voice_session.push(samples)
    }

    /// Ends the recording and hands out what is to be recognized: the sequence
    /// number and every sample, or nothing when no recording was under way or it
    /// was too short.
    pub fn finish_recording(&mut self) -> (r: Option<(u64, Vec<W::Sample>)>)
        requires
            old(self).wf(),
        ensures
            final(self).wf(),
            final(self).worker() == old(self).worker(),
            final(self)@ == after_stop(old(self)@),
            match stop_job(old(self)@) {
                Some(job) => r is Some && r.unwrap().0 == job.0 && r.unwrap().1@ == job.1,
                None => r is None,
            },
    {
        self.voice_session.finish()
    }

    /// Ends the recording (second press of the toggle) and submits it to the
    /// transcriber; the text is picked up by [`Self::poll_voice`]. `false` when
    /// no recording was under way or it was too short.
    pub fn stop_voice(&mut self) -> (r: bool)
        requires
            old(self).wf(),
        ensures
            final(self).wf(),
            final(self)@ == after_stop(old(self)@),
            r == stop_job(old(self)@) is Some,
            // The recording goes to the transcriber whole: its sequence number
            // and every sample.
            handed_over(old(self).worker(), final(self).worker(), stop_job(old(self)@)),
    {
        let Some((sequence, samples)) = self.finish_recording() else {
            return false;
        };
        match &mut self.voice {
            Some(voice) => {
                voice.submit(sequence, samples);
                true
            },
            None => false,
        }
    }

    /// Drops the recording (Esc, focus change, private field); a result in
    /// flight is voided with it.
    pub fn cancel_voice(&mut self)
        requires
            old(self).wf(),
        ensures
            final(self).wf(),
            final(self).worker() == old(self).worker(),
            final(self)@ == after_cancel(old(self)@),
    {
        self.voice_session.cancel();
    }

    /// Takes a result that came back: a current one settles the recording and
    /// yields its text; a stale one (the user restarted, cancelled, or moved to
    /// a password box since) is dropped and changes nothing.
    pub fn accept_result(&mut self, result: Transcribed) -> (r: Option<String>)
        requires
            old(self).wf(),
        ensures
            final(self).wf(),
            final(self).worker() == old(self).worker(),
            final(self)@ == after_result(old(self)@, result.sequence),
            r == result_text(old(self)@, result.sequence, result.text),
    {
        if result.sequence != self.voice_session.sequence {
            return None;
        }
        self.voice_session.settle();
        result.text
    }

    /// Polls the transcriber without blocking and passes what arrived to
    /// [`Self::accept_result`]. The text is only fetched: putting it into the
    /// document, with learning and logging, is a separate step taken once the
    /// user accepts it.
    pub fn poll_voice(&mut self) -> (r: Option<String>)
        requires
            old(self).wf(),
        ensures
            final(self).wf(),
            final(self).worker() == old(self).worker(),
            // With no transcriber attached nothing arrives.
            !old(self)@.attached ==> r is None && final(self)@ == old(self)@,
            (final(self)@ == old(self)@ && r is None) || exists|sequence: u64, text: Option<String>|
                final(self)@ == after_result(old(self)@, sequence) && r == result_text(
                    old(self)@,
                    sequence,
                    text,
                ),
    {
        let arrived = match &self.voice {
            Some(voice) => voice.poll(),
            None => None,
        };
        match arrived {
            Some(result) => {
                let ghost sequence = result.sequence;
                let ghost text = result.text;
                let r = self.accept_result(result);
                assert(self@ == after_result(old(self)@, sequence) && r == result_text(old(self)@, sequence, text));
                r
            },
            None => None,
        }
    }
}

/// Restarting voids the result in flight: a result tagged with the sequence
/// number current before a new recording starts never lands, and leaves the new
/// recording alone.
pub proof fn law_restart_voids_in_flight<S>(m: EngineModel<S>, sequence: u64, text: Option<String>)
    requires
        available(m),
        m.composition.len() == 0,
        m.sequence < u64::MAX,
        sequence == m.sequence,
    ensures
        after_start(m).state == VoiceState::Recording,
        after_result(after_start(m), sequence) == after_start(m),
        result_text(after_start(m), sequence, text) is None,
{
}

/// Cancelling voids the result in flight: it yields no text and the engine
/// stays idle.
pub proof fn law_cancel_voids_in_flight<S>(m: EngineModel<S>, sequence: u64, text: Option<String>)
    requires
        m.sequence < u64::MAX,
        sequence == m.sequence,
    ensures
        after_cancel(m).state == VoiceState::Idle,
        after_result(after_cancel(m), sequence) == after_cancel(m),
        result_text(after_cancel(m), sequence, text) is None,
{
}

/// A private field disables voice: nothing is available, nothing is under
/// way, and a start is refused.
pub proof fn law_private_field_blocks_voice<S>(m: EngineModel<S>)
    ensures
        !available(after_privacy(m, true)),
        after_privacy(m, true).state == VoiceState::Idle,
        after_start(after_privacy(m, true)) == after_privacy(m, true),
{
}

/// A full round trip: start, feed a recording long enough and within the
/// limit, stop; exactly those samples go out under the new sequence number,
/// and the text that comes back under it is the text returned, leaving the
/// engine idle.
pub proof fn law_round_trip<S>(m: EngineModel<S>, samples: Seq<S>, text: Option<String>)
    requires
        available(m),
        m.composition.len() == 0,
        MIN_VOICE_SAMPLES <= samples.len() <= MAX_VOICE_SAMPLES,
    ensures
        stop_job(after_push(after_start(m), samples)) == Some((after_start(m).sequence, samples)),
        after_stop(after_push(after_start(m), samples)).state == VoiceState::Transcribing,
        after_result(after_stop(after_push(after_start(m), samples)), after_start(m).sequence).state
            == VoiceState::Idle,
        result_text(after_stop(after_push(after_start(m), samples)), after_start(m).sequence, text)
            == text,
{
    let m1 = after_start(m);
    assert(samples.take(samples.len() as int) =~= samples);
    assert(m1.samples + samples =~= samples);
}

/// A recording shorter than the minimum is not sent: stopping hands out
/// nothing and the engine goes back to idle.
pub proof fn law_short_recording_not_sent<S>(m: EngineModel<S>, samples: Seq<S>)
    requires
        available(m),
        m.composition.len() == 0,
        samples.len() < MIN_VOICE_SAMPLES,
    ensures
        stop_job(after_push(after_start(m), samples)) is None,
        after_stop(after_push(after_start(m), samples)).state == VoiceState::Idle,
{
}

/// Feeding past the limit keeps exactly the limit's worth of samples (the
/// first ones) and reports truncation.
pub proof fn law_recording_stops_at_limit<S>(m: EngineModel<S>, samples: Seq<S>)
    requires
        available(m),
        m.composition.len() == 0,
        samples.len() > MAX_VOICE_SAMPLES,
    ensures
        after_push(after_start(m), samples).samples == samples.take(MAX_VOICE_SAMPLES as int),
        after_push(after_start(m), samples).truncated,
{
    let m1 = after_start(m);
    assert(m1.samples + samples.take(MAX_VOICE_SAMPLES as int) =~= samples.take(MAX_VOICE_SAMPLES as int));
}

/// Samples fed outside a recording are dropped.
pub proof fn law_samples_outside_recording_dropped<S>(m: EngineModel<S>, samples: Seq<S>)
    requires
        m.state != VoiceState::Recording,
    ensures
        after_push(m, samples) == m,
{
}

/// Feeding a recording keeps the samples in the order they came, up to the
/// limit, whatever the recording already holds: a block that fits is
/// appended whole and leaves the truncation mark as it was; a block that does
/// not fit is cut where the limit is reached, keeping its start, and the
/// recording then reports truncation.
pub proof fn law_feeding_appends_in_order<S>(m: EngineModel<S>, incoming: Seq<S>)
    requires
        m.state == VoiceState::Recording,
        m.samples.len() <= MAX_VOICE_SAMPLES,
    ensures
        after_push(m, incoming).state == VoiceState::Recording,
        after_push(m, incoming).sequence == m.sequence,
        m.samples.len() + incoming.len() <= MAX_VOICE_SAMPLES ==> after_push(m, incoming).samples == m.samples
            + incoming && after_push(m, incoming).truncated == m.truncated,
        m.samples.len() + incoming.len() > MAX_VOICE_SAMPLES ==> after_push(m, incoming).truncated
            && after_push(m, incoming).samples.len() == MAX_VOICE_SAMPLES,
        forall|i: int|
            0 <= i < after_push(m, incoming).samples.len() ==> #[trigger] after_push(m, incoming).samples[i] == (
            m.samples + incoming)[i],
{
    let after = after_push(m, incoming);
    if m.samples.len() + incoming.len() <= MAX_VOICE_SAMPLES {
        assert(incoming.take(incoming.len() as int) =~= incoming);
    }
    assert forall|i: int| 0 <= i < after.samples.len() implies #[trigger] after.samples[i] == (m.samples + incoming)[i] by {
        if i >= m.samples.len() {
            assert(after.samples[i] == incoming.take(room_for(m.samples.len(), incoming.len()) as int)[i - m.samples.len()]);
        }
    }
}

} // verus!
