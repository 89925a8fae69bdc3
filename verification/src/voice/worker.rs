//! The engine's side of the background recognition thread: the two channel
//! ends it talks to the thread through. Starting the thread, and running the
//! recognizer on it, is the shell's part.
use vstd::prelude::*;
use std::sync::mpsc::{Receiver, Sender};
use super::engine::{Transcribed, Transcriber};

verus! {

#[verifier::external_type_specification]
#[verifier::external_body]
#[verifier::reject_recursive_types(T)]
pub struct ExSender<T>(Sender<T>);

#[verifier::external_type_specification]
#[verifier::external_body]
#[verifier::reject_recursive_types(T)]
pub struct ExReceiver<T>(Receiver<T>);

/// One recording on its way to the recognition thread.
pub struct Job<S> {
    /// The sequence number the recording was handed out with.
    pub sequence: u64,
    /// Every sample of it.
    pub samples: Vec<S>,
}

/// `Sender::send`: queues the job for the thread. It fails only when the
/// thread has gone, and then the job has nowhere to go; nothing is promised
/// of which happened.
#[verifier::external_body]
fn send_job<S>(jobs: &Sender<Job<S>>, job: Job<S>) {
    let _ = jobs.send(job);
}

/// `Receiver::try_recv`: a result the thread sent, if one is waiting; never
/// blocks. What arrives, and when, is the thread's doing, so nothing is
/// promised of it.
#[verifier::external_body]
fn try_receive(results: &Receiver<Transcribed>) -> (r: Option<Transcribed>) {
    results.try_recv().ok()
}

/// The recognition thread as the engine sees it: jobs go out on one channel,
/// results come back on the other. Every job is forwarded; none is skipped or
/// merged, since every sample of a recording matters.
#[verifier::reject_recursive_types(S)]
pub struct VoiceWorker<S> {
    jobs: Sender<Job<S>>,
    results: Receiver<Transcribed>,
    alive: bool,
    sent: Ghost<Seq<(u64, Seq<S>)>>,
}

impl<S: Copy> VoiceWorker<S> {
    /// A worker around the channel ends of a recognition thread; `alive` says
    /// whether the thread started.
    pub fn new(jobs: Sender<Job<S>>, results: Receiver<Transcribed>, alive: bool) -> (r: Self)
        ensures
            r.submitted() == Seq::<(u64, Seq<S>)>::empty(),
            r.running() == alive,
    {
        VoiceWorker { jobs, results, alive, sent: Ghost(Seq::empty()) }
    }
}

impl<S: Copy> Transcriber for VoiceWorker<S> {
    type Sample = S;

    closed spec fn submitted(&self) -> Seq<(u64, Seq<S>)> {
        self.sent@
    }

    closed spec fn running(&self) -> bool {
        self.alive
    }

    fn is_alive(&self) -> (r: bool) {
        self.alive
    }

    fn submit(&mut self, sequence: u64, samples: Vec<S>) {
        proof {
            self.sent@ = self.sent@.push((sequence, samples@));
        }
        send_job(&self.jobs, Job { sequence, samples });
    }

    fn poll(&self) -> (r: Option<Transcribed>) {
        try_receive(&self.results)
    }
}

} // verus!
