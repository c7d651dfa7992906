//! Playback: the steps of the background activity that replays a recording
//! again and again, and what the controller answers to its owner meanwhile.

use crate::channel::{latest, send_signal};
use crate::input::{Input, InputWithTimestamp};
use crate::reducer::{elapsed, elapsed_ms};
use tokio::sync::{oneshot, watch};
use vstd::prelude::*;

verus! {

/// How far a playback has come.
#[derive(Clone, Copy, Debug, PartialEq, Eq)]
pub enum InputReplayState {
    NotStarted,
    Repeating(Repeating),
    Finished,
}

/// The place within the repetitions: the number of the loop, counted from 0,
/// and the index of the action that is being issued, or nothing once all
/// actions of the loop are issued and the loop pauses.
#[derive(Clone, Copy, Debug, PartialEq, Eq)]
pub struct Repeating {
    pub repetion: u32,
    pub reptetion_element: Option<usize>,
}

impl InputReplayState {
    /// Whether the action at `index` is the one being issued.
    pub fn is_at(&self, index: usize) -> (r: bool)
        ensures
            r == (self matches InputReplayState::Repeating(p) && p.reptetion_element == Some(
                index,
            )),
    {
        match self {
            InputReplayState::Repeating(Repeating { repetion: _, reptetion_element: Some(at) }) => {
                *at == index
            },
            _ => false,
        }
    }

    /// Whether the loop has issued all its actions and pauses.
    pub fn is_at_end(&self) -> (r: bool)
        ensures
            r == (self matches InputReplayState::Repeating(p) && p.reptetion_element is None),
    {
        match self {
            InputReplayState::Repeating(Repeating { repetion: _, reptetion_element: None }) => true,
            _ => false,
        }
    }
}

/// The controller of a playback: the owner's end of the two channels that
/// lead to the background activity.
pub struct InputPlayer {
    /// Gone once the playback has been asked to stop.
    stop_send: Option<oneshot::Sender<()>>,
    status_recv: watch::Receiver<InputReplayState>,
}

impl InputPlayer {
    /// Whether the playback has been asked to stop.
    pub closed spec fn stop_requested(&self) -> bool {
        self.stop_send is None
    }

    /// The controller of a playback that has just been started. The
    /// background activity holds the other ends of the two channels.
    pub fn new(
        stop_send: oneshot::Sender<()>,
        status_recv: watch::Receiver<InputReplayState>,
    ) -> (r: InputPlayer)
        ensures
            !r.stop_requested(),
    {
        InputPlayer { stop_send: Some(stop_send), status_recv }
    }

    /// Asks the playback to stop. The first call sends the signal, and does
    /// not wait for the playback to see it; every later call changes nothing.
    pub fn stop(&mut self)
        ensures
            final(self).stop_requested(),
        opens_invariants none
        no_unwind
    {
        let mut stop_send: Option<oneshot::Sender<()>> = None;
        core::mem::swap(&mut self.stop_send, &mut stop_send);
        match stop_send {
            Some(stop_send) => {
                let _ = send_signal(stop_send);
            },
            None => {},
        }
    }

    /// The status that the background activity has published last. Never
    /// waits.
    pub fn get_current_status(&self) -> (r: InputReplayState) {
        latest(&self.status_recv)
    }

    /// Whether the playback has not been asked to stop.
    pub fn is_running(&self) -> (r: bool)
        ensures
            r == !self.stop_requested(),
    {
        self.stop_send.is_some()
    }
}

impl Drop for InputPlayer {
    /// A player that is let go asks its playback to stop.
    fn drop(&mut self)
        opens_invariants none
        no_unwind
    {
        self.stop();
    }
}

/// What the background activity does next.
#[derive(Clone, Copy, Debug, PartialEq, Eq)]
pub enum PlaybackPhase {
    /// Looks whether it was asked to stop, then waits for the time of the
    /// next action. A loop without actions begins here too, and goes on by
    /// publishing its end.
    Check,
    /// Publishes its place and issues the action.
    Issue,
    /// Waits until the swipe that ended the loop is over.
    Settle,
    /// Publishes that the loop has issued all its actions.
    Mark,
    /// Waits between two loops.
    Rest,
    /// Has stopped.
    Finished,
}

/// What the driver of a playback has to do for one step.
#[derive(Clone, Copy, Debug, PartialEq, Eq)]
pub enum PlaybackCommand {
    /// Wait this many milliseconds.
    Sleep(u32),
    /// Publish the status, then issue the action.
    Issue(InputReplayState, Input),
    /// Publish the status.
    Publish(InputReplayState),
    /// Publish `Finished` and end.
    Finish,
}

/// The state of a playback as plain values.
pub struct PlaybackView {
    pub phase: PlaybackPhase,
    pub repetition: u32,
    /// The index of the action that comes next in this loop.
    pub index: nat,
    pub actions: Seq<InputWithTimestamp>,
    pub delay_ms_between_loops: u32,
}

/// The background activity of a playback, between two steps.
pub struct Playback {
    phase: PlaybackPhase,
    repetition: u32,
    index: usize,
    actions: Vec<InputWithTimestamp>,
    delay_ms_between_loops: u32,
}

/// The number of the loop that follows loop `repetition`. The count starts
/// again at 0 after the last number that 32 bits hold.
pub open spec fn next_repetition(repetition: u32) -> u32 {
    if repetition == u32::MAX {
        0
    } else {
        (repetition + 1) as u32
    }
}

/// The time of the action before the one at `index`, and 0 for the first.
pub open spec fn previous_time(actions: Seq<InputWithTimestamp>, index: nat) -> u32 {
    if 0 < index <= actions.len() {
        actions[index - 1].timestamp_milliseconds
    } else {
        0
    }
}

/// How long the playback waits before it issues the action at `index`: the
/// time from the action before it, and for the first its own time.
pub open spec fn wait_before(actions: Seq<InputWithTimestamp>, index: nat) -> u32
    recommends
        index < actions.len(),
{
    elapsed(previous_time(actions, index), actions[index as int].timestamp_milliseconds)
}

/// The phase that follows the last action of a loop: a swipe is given the
/// time to complete.
pub open spec fn loop_exit(actions: Seq<InputWithTimestamp>) -> PlaybackPhase {
    if actions.len() > 0 && actions.last().input is Swipe {
        PlaybackPhase::Settle
    } else {
        PlaybackPhase::Mark
    }
}

impl PlaybackView {
    /// Whether the state can occur: an action that is issued is there, the
    /// check is made before an action or at the beginning of a loop without
    /// actions, and only a swipe is given time to complete.
    pub open spec fn wf(self) -> bool {
        &&& self.phase is Issue ==> self.index < self.actions.len()
        &&& self.phase is Check ==> self.index < self.actions.len() || self.actions.len() == 0
        &&& self.phase is Settle ==> self.actions.len() > 0 && self.actions.last().input is Swipe
    }

    /// The state in which loop `repetition` begins.
    pub open spec fn at_loop(
        actions: Seq<InputWithTimestamp>,
        delay_ms_between_loops: u32,
        repetition: u32,
    ) -> PlaybackView {
        PlaybackView {
            phase: PlaybackPhase::Check,
            repetition,
            index: 0,
            actions,
            delay_ms_between_loops,
        }
    }

    /// What is to be done in this state. `stop_requested` counts in the phase
    /// `Check` alone: a request that arrives later is seen at the next check.
    /// Every loop begins with a check, also one without actions, which goes
    /// on from there to its end.
    pub open spec fn command(self, stop_requested: bool) -> PlaybackCommand {
        match self.phase {
            PlaybackPhase::Check => if stop_requested {
                PlaybackCommand::Finish
            } else if self.index < self.actions.len() {
                PlaybackCommand::Sleep(wait_before(self.actions, self.index))
            } else {
                PlaybackCommand::Publish(
                    InputReplayState::Repeating(
                        Repeating { repetion: self.repetition, reptetion_element: None },
                    ),
                )
            },
            PlaybackPhase::Issue => PlaybackCommand::Issue(
                InputReplayState::Repeating(
                    Repeating {
                        repetion: self.repetition,
                        reptetion_element: Some(self.index as usize),
                    },
                ),
                self.actions[self.index as int].input,
            ),
            PlaybackPhase::Settle => PlaybackCommand::Sleep(
                match self.actions.last().input {
                    Input::Swipe(s) => s.milliseconds,
                    _ => 0,
                },
            ),
            PlaybackPhase::Mark => PlaybackCommand::Publish(
                InputReplayState::Repeating(
                    Repeating { repetion: self.repetition, reptetion_element: None },
                ),
            ),
            PlaybackPhase::Rest => PlaybackCommand::Sleep(self.delay_ms_between_loops),
            PlaybackPhase::Finished => PlaybackCommand::Finish,
        }
    }

    /// The state after that has been done.
    pub open spec fn next(self, stop_requested: bool) -> PlaybackView {
        match self.phase {
            PlaybackPhase::Check => if stop_requested {
                PlaybackView { phase: PlaybackPhase::Finished, ..self }
            } else if self.index < self.actions.len() {
                PlaybackView { phase: PlaybackPhase::Issue, ..self }
            } else {
                PlaybackView { phase: PlaybackPhase::Rest, ..self }
            },
            PlaybackPhase::Issue => if self.index + 1 < self.actions.len() {
                PlaybackView { phase: PlaybackPhase::Check, index: self.index + 1, ..self }
            } else {
                PlaybackView { phase: loop_exit(self.actions), index: self.index + 1, ..self }
            },
            PlaybackPhase::Settle => PlaybackView { phase: PlaybackPhase::Mark, ..self },
            PlaybackPhase::Mark => PlaybackView { phase: PlaybackPhase::Rest, ..self },
            PlaybackPhase::Rest => PlaybackView::at_loop(
                self.actions,
                self.delay_ms_between_loops,
                next_repetition(self.repetition),
            ),
            PlaybackPhase::Finished => self,
        }
    }
}

impl View for Playback {
    type V = PlaybackView;

    closed spec fn view(&self) -> PlaybackView {
        PlaybackView {
            phase: self.phase,
            repetition: self.repetition,
            index: self.index as nat,
            actions: self.actions@,
            delay_ms_between_loops: self.delay_ms_between_loops,
        }
    }
}

impl Playback {
    #[verifier::type_invariant]
    spec fn inv(self) -> bool {
        self@.wf()
    }

    /// A playback of `actions` at the beginning of loop 0.
    pub fn new(actions: Vec<InputWithTimestamp>, delay_ms_between_loops: u32) -> (r: Playback)
        ensures
            r@ == PlaybackView::at_loop(actions@, delay_ms_between_loops, 0),
    {
        Playback {
            phase: PlaybackPhase::Check,
            repetition: 0,
            index: 0,
            actions,
            delay_ms_between_loops,
        }
    }

    /// Whether the playback has stopped.
    pub fn is_finished(&self) -> (r: bool)
        ensures
            r == (self@.phase is Finished),
    {
        match self.phase {
            PlaybackPhase::Finished => true,
            _ => false,
        }
    }

    /// Whether the next step looks at `stop_requested`.
    pub fn checks_stop(&self) -> (r: bool)
        ensures
            r == (self@.phase is Check),
    {
        match self.phase {
            PlaybackPhase::Check => true,
            _ => false,
        }
    }

    /// One step of the playback: says what the driver has to do now, and
    /// moves on. `stop_requested` is whether the owner has asked the playback
    /// to stop, or is gone.
    pub fn step(&mut self, stop_requested: bool) -> (command: PlaybackCommand)
        ensures
            old(self)@.wf(),
            final(self)@.wf(),
            command == old(self)@.command(stop_requested),
            final(self)@ == old(self)@.next(stop_requested),
    {
        proof {
            use_type_invariant(&*self);
        }
        match self.phase {
            PlaybackPhase::Check => {
                if stop_requested {
                    self.phase = PlaybackPhase::Finished;
                    PlaybackCommand::Finish
                } else if self.index >= self.actions.len() {
                    self.phase = PlaybackPhase::Rest;
                    PlaybackCommand::Publish(
                        InputReplayState::Repeating(
                            Repeating { repetion: self.repetition, reptetion_element: None },
                        ),
                    )
                } else {
                    let previous: u32 = if self.index > 0 {
                        self.actions[self.index - 1].timestamp_milliseconds
                    } else {
                        0
                    };
                    let wait = elapsed_ms(
                        previous,
                        self.actions[self.index].timestamp_milliseconds,
                    );
                    self.phase = PlaybackPhase::Issue;
                    PlaybackCommand::Sleep(wait)
                }
            },
            PlaybackPhase::Issue => {
                let command = PlaybackCommand::Issue(
                    InputReplayState::Repeating(
                        Repeating {
                            repetion: self.repetition,
                            reptetion_element: Some(self.index),
                        },
                    ),
                    self.actions[self.index].input,
                );
                let last = self.actions.len() - 1;
                let exit = match self.actions[last].input {
                    Input::Swipe(_) => PlaybackPhase::Settle,
                    _ => PlaybackPhase::Mark,
                };
                self.phase = if self.index + 1 < self.actions.len() {
                    PlaybackPhase::Check
                } else {
                    exit
                };
                self.index = self.index + 1;
                command
            },
            PlaybackPhase::Settle => {
                let last = self.actions.len() - 1;
                let wait = match self.actions[last].input {
                    Input::Swipe(s) => s.milliseconds,
                    _ => 0,
                };
                self.phase = PlaybackPhase::Mark;
                PlaybackCommand::Sleep(wait)
            },
            PlaybackPhase::Mark => {
                self.phase = PlaybackPhase::Rest;
                PlaybackCommand::Publish(
                    InputReplayState::Repeating(
                        Repeating { repetion: self.repetition, reptetion_element: None },
                    ),
                )
            },
            PlaybackPhase::Rest => {
                self.repetition = if self.repetition == u32::MAX {
                    0
                } else {
                    self.repetition + 1
                };
                self.index = 0;
                self.phase = PlaybackPhase::Check;
                PlaybackCommand::Sleep(self.delay_ms_between_loops)
            },
            PlaybackPhase::Finished => PlaybackCommand::Finish,
        }
    }
}

} // verus!
