//! Voice input on the server: the microphone, and the recognized text waiting
//! in the candidate window.
//!
//! The text is shown as a candidate rather than typed at once: the server has
//! no channel to write into the document by itself (only the text service can,
//! on a key press), and a candidate can be seen, accepted with Space or `1`,
//! or dropped with Esc.
use vstd::prelude::*;
use crate::frame::VoicePrompt;
use crate::voice::engine::{after_cancel, after_push, after_result, result_text, Engine, Transcriber};
use crate::voice::VoiceState;

verus! {

/// A microphone that delivers 16 kHz mono samples to the shell.
pub trait Microphone: Sized {
    /// What one captured sample is.
    type Sample: Copy;

    /// Opens the default input device; `None` when there is none, it is busy,
    /// or the system refused access.
    fn spawn() -> Option<Self>;

    /// Starts capturing.
    fn start(&mut self);

    /// Stops capturing (the device stays open for next time).
    fn stop(&mut self);

    /// A block of captured samples, already 16 kHz mono, if one is ready;
    /// never blocks.
    fn poll(&mut self) -> Option<Vec<Self::Sample>>;
}

/// Voice input's run-time state on the server.
pub struct Voice<M: Microphone> {
    /// The microphone; `None` until first opened, or when it could not be.
    recorder: Option<M>,
    /// Opening the microphone failed once: it is not retried (and not logged
    /// again on every key press).
    failed: bool,
    /// Recognized text waiting for the user to accept or drop it.
    pending: Option<String>,
    /// The open microphone was last told to capture (and not to stop since).
    capturing: Ghost<bool>,
    /// The blocks taken from the microphone so far, in the order it delivered
    /// them.
    heard: Ghost<Seq<Seq<M::Sample>>>,
}

impl<M: Microphone> Voice<M> {
    /// The microphone is open.
    pub closed spec fn has_recorder(&self) -> bool {
        self.recorder.is_some()
    }

    /// Opening the microphone failed earlier.
    pub closed spec fn gave_up(&self) -> bool {
        self.failed
    }

    /// The recognized text waiting, if any.
    pub closed spec fn waiting(&self) -> Option<String> {
        self.pending
    }

    /// The microphone was last told to capture, and not told to stop since.
    pub closed spec fn capturing(&self) -> bool {
        self.capturing@
    }

    /// The blocks taken from the microphone so far, in the order it delivered
    /// them.
    pub closed spec fn heard(&self) -> Seq<Seq<M::Sample>> {
        self.heard@
    }

    /// No microphone yet, nothing waiting.
    pub fn new() -> (r: Self)
        ensures
            r.heard().len() == 0,
            !r.has_recorder(),
            !r.gave_up(),
            r.waiting() is None,
            !r.capturing(),
    {
        Voice { recorder: None, failed: false, pending: None, capturing: Ghost(false), heard: Ghost(Seq::empty()) }
    }

    /// Recognized text is waiting for the user.
    pub fn has_pending(&self) -> (r: bool)
        ensures
            r == self.waiting() is Some,
    {
        self.pending.is_some()
    }

    /// Takes the waiting text (accepting it).
    pub fn take_pending(&mut self) -> (r: Option<String>)
        ensures
            r == old(self).waiting(),
            final(self).waiting() is None,
            final(self).has_recorder() == old(self).has_recorder(),
            final(self).gave_up() == old(self).gave_up(),
            final(self).heard() == old(self).heard(),
            final(self).capturing() == old(self).capturing(),
    {
        let taken = self.pending.take();
        taken
    }

    /// Drops the waiting text (Esc, another key, a session change).
    pub fn discard(&mut self)
        ensures
            final(self).waiting() is None,
            final(self).has_recorder() == old(self).has_recorder(),
            final(self).gave_up() == old(self).gave_up(),
            final(self).heard() == old(self).heard(),
            final(self).capturing() == old(self).capturing(),
    {
        self.pending = None;
    }

    /// What the frame carries about voice: the waiting text, or that recognition
    /// is under way; nothing otherwise.
    pub fn prompt(&self, state: VoiceState) -> (r: Option<VoicePrompt>)
        ensures
            match self.waiting() {
                Some(text) => r matches Some(VoicePrompt::Ready { text: shown }) && shown@ == text@,
                None => if state == VoiceState::Transcribing {
                    r matches Some(VoicePrompt::Transcribing)
                } else {
                    r is None
                },
            },
    {
        match &self.pending {
            Some(text) => Some(VoicePrompt::Ready { text: text.clone() }),
            None => if state == VoiceState::Transcribing {
                Some(VoicePrompt::Transcribing)
            } else {
                None
            },
        }
    }

    /// The microphone is open.
    pub fn ready(&self) -> (r: bool)
        ensures
            r == self.has_recorder(),
    {
        self.recorder.is_some()
    }

    /// Opens the microphone on first use. After one failure it is not tried
    /// again; the answer is whether a microphone is open.
    pub fn ensure_recorder(&mut self) -> (r: bool)
        ensures
            r == final(self).has_recorder(),
            final(self).waiting() == old(self).waiting(),
            old(self).has_recorder() ==> final(self).has_recorder() && final(self).gave_up() == old(self).gave_up(),
            old(self).gave_up() ==> final(self).has_recorder() == old(self).has_recorder() && final(self).gave_up(),
            !old(self).has_recorder() && !old(self).gave_up() ==> (final(self).has_recorder() != final(self).gave_up()),
            final(self).capturing() == old(self).capturing(),
    {
        if self.failed {
            return self.recorder.is_some();
        }
        if self.recorder.is_none() {
            match M::spawn() {
                Some(recorder) => {
                    self.recorder = Some(recorder);
                },
                None => {
                    self.failed = true;
                },
            }
        }
        self.recorder.is_some()
    }

    /// Starts capturing, when the microphone is open.
    pub fn start(&mut self)
        ensures
            final(self).has_recorder() == old(self).has_recorder(),
            final(self).gave_up() == old(self).gave_up(),
            final(self).heard() == old(self).heard(),
            final(self).waiting() == old(self).waiting(),
            old(self).has_recorder() ==> final(self).capturing(),
            !old(self).has_recorder() ==> final(self).capturing() == old(self).capturing(),
    {
        match &mut self.recorder {
            Some(recorder) => {
                recorder.start();
                proof {
                    self.capturing@ = true;
                }
            },
            None => {},
        }
    }

    /// Stops capturing (the microphone stays open).
    pub fn stop(&mut self)
        ensures
            final(self).has_recorder() == old(self).has_recorder(),
            final(self).gave_up() == old(self).gave_up(),
            final(self).heard() == old(self).heard(),
            final(self).waiting() == old(self).waiting(),
            old(self).has_recorder() ==> !final(self).capturing(),
            !old(self).has_recorder() ==> final(self).capturing() == old(self).capturing(),
    {
        match &mut self.recorder {
            Some(recorder) => {
                recorder.stop();
                proof {
                    self.capturing@ = false;
                }
            },
            None => {},
        }
    }

    /// Hands one block of captured samples to the engine. The answer is how
    /// many samples the block had, or `None` when no block was ready (or no
    /// microphone is open); the shell repeats this until `None` on every tick.
    pub fn drain_step<W: Transcriber<Sample = M::Sample>>(&mut self, engine: &mut Engine<W>) -> (r: Option<usize>)
        requires
            old(engine).wf(),
        ensures
            final(engine).wf(),
            r is None ==> final(engine)@ == old(engine)@ && final(self).heard() == old(self).heard(),
            // The block the microphone delivered goes to the engine as it is:
            // the same samples, in the order captured.
            r matches Some(n) ==> final(self).heard().len() == old(self).heard().len() + 1
                && final(self).heard().drop_last() == old(self).heard()
                && final(self).heard().last().len() == n
                && final(engine)@ == after_push(old(engine)@, final(self).heard().last()),
            final(self).has_recorder() == old(self).has_recorder(),
            final(self).gave_up() == old(self).gave_up(),
            final(self).waiting() == old(self).waiting(),
            final(self).capturing() == old(self).capturing(),
            !old(self).has_recorder() ==> r is None,
    {
        let block = match &mut self.recorder {
            Some(recorder) => recorder.poll(),
            None => None,
        };
        match block {
            Some(samples) => {
                proof {
                    self.heard@ = self.heard@.push(samples@);
                }
                let n = samples.len();
                engine.push_voice_samples(samples.as_slice());
                Some(n)
            },
            None => None,
        }
    }

    /// Picks up a recognition result; when text arrived it waits for the user.
    /// The answer is whether text just arrived.
    pub fn poll<W: Transcriber>(&mut self, engine: &mut Engine<W>) -> (r: bool)
        requires
            old(engine).wf(),
        ensures
            final(engine).wf(),
            r ==> final(self).waiting() is Some,
            !r ==> final(self).waiting() == old(self).waiting(),
            final(self).has_recorder() == old(self).has_recorder(),
            final(self).gave_up() == old(self).gave_up(),
            final(self).heard() == old(self).heard(),
            final(self).capturing() == old(self).capturing(),
            // With no transcriber attached nothing arrives.
            !old(engine)@.attached ==> !r && final(engine)@ == old(engine)@,
            // Either nothing arrived, or a result came back: the engine took it,
            // and its text, when it was current and had any, now waits.
            (!r && final(engine)@ == old(engine)@) || exists|sequence: u64, text: Option<String>|
                #![trigger result_text(old(engine)@, sequence, text)]
                final(engine)@ == after_result(old(engine)@, sequence) && match result_text(old(engine)@, sequence, text) {
                    Some(t) => r && final(self).waiting() == Some(t),
                    None => !r && final(self).waiting() == old(self).waiting(),
                },
    {
        match engine.poll_voice() {
            Some(text) => {
                self.pending = Some(text);
                true
            },
            None => false,
        }
    }

    /// Drops what is being recorded, recognized, or waiting (private field,
    /// session change, voice switched off).
    pub fn cancel<W: Transcriber>(&mut self, engine: &mut Engine<W>)
        requires
            old(engine).wf(),
        ensures
            final(engine).wf(),
            final(engine)@ == after_cancel(old(engine)@),
            final(self).waiting() is None,
            final(self).has_recorder() == old(self).has_recorder(),
            final(self).gave_up() == old(self).gave_up(),
            final(self).heard() == old(self).heard(),
            old(self).has_recorder() ==> !final(self).capturing(),
    {
        self.stop();
        engine.cancel_voice();
        self.pending = None;
    }
}

/// Attaches the transcriber that was built for a model directory; when
/// loading the model failed the engine keeps what it had. The answer is
/// whether one was attached.
pub fn attach<W: Transcriber, E>(engine: &mut Engine<W>, loaded: Result<W, E>) -> (r: bool)
    requires
        old(engine).wf(),
    ensures
        final(engine).wf(),
        r == loaded is Ok,
        !r ==> final(engine)@ == old(engine)@,
        r ==> final(engine).worker() == Some(loaded->Ok_0),
        r ==> final(engine)@.alive == loaded->Ok_0.running(),
        r ==> final(engine)@ == (crate::voice::engine::EngineModel {
            attached: true,
            alive: final(engine)@.alive,
            ..after_cancel(old(engine)@)
        }),
{
    match loaded {
        Ok(worker) => {
            engine.set_voice_worker(Some(worker));
            true
        },
        Err(_) => false,
    }
}

/// Detaches the transcriber (voice switched off).
pub fn detach<W: Transcriber>(engine: &mut Engine<W>)
    requires
        old(engine).wf(),
    ensures
        final(engine).wf(),
        final(engine)@ == (crate::voice::engine::EngineModel {
            attached: false,
            alive: false,
            ..after_cancel(old(engine)@)
        }),
{
    engine.set_voice_worker(None);
}

} // verus!
