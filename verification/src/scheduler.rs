//! The periodic capture scheduler, as a machine that is told of ticks
//! and messages and says what its loop is to do.
//!
//! The timer and the channel are the caller's part.

use vstd::prelude::*;

verus! {

/// What the scheduler can be told over its control channel.
#[derive(Debug, Clone, Copy, PartialEq, Eq, Structural)]
pub enum SchedulerMessage {
    /// Stop the scheduler.
    Stop,
    /// Capture every so many seconds from now on.
    UpdateInterval(u64),
    /// Skip captures until resumed.
    Pause,
    /// Capture again.
    Resume,
}

/// The state that the scheduler is in.
#[derive(Debug, Clone, Copy, PartialEq, Eq, Structural)]
pub enum SchedulerState {
    Stopped,
    Running,
    Paused,
}

/// What the scheduler's loop has woken up for.
#[derive(Debug, Clone, Copy, PartialEq, Eq, Structural)]
pub enum SchedulerEvent {
    /// The timer has fired.
    Tick,
    /// A message has come.
    Message(SchedulerMessage),
    /// The control channel was closed.
    Closed,
}

/// What the scheduler's loop is to do.
#[derive(Debug, Clone, Copy, PartialEq, Eq, Structural)]
pub enum SchedulerAction {
    /// Take a capture.
    Capture,
    /// Do nothing and wait on.
    Wait,
    /// Replace the timer by one of this many seconds; ticks that were
    /// missed are not made up for.
    ResetTimer(u64),
    /// Leave the loop.
    Exit,
}

/// The scheduler of periodic captures.
#[derive(Debug, Clone, Copy, PartialEq, Eq, Structural)]
pub struct CaptureScheduler {
    running: bool,
    paused: bool,
    interval_secs: u64,
}

impl CaptureScheduler {
    /// The state of the scheduler.
    pub closed spec fn state(self) -> SchedulerState {
        if !self.running {
            SchedulerState::Stopped
        } else if self.paused {
            SchedulerState::Paused
        } else {
            SchedulerState::Running
        }
    }

    /// Whether captures are to be skipped. The flag can be set while the
    /// scheduler is stopped; it is cleared when the scheduler starts.
    pub closed spec fn pause_flag(self) -> bool {
        self.paused
    }

    /// The seconds between two captures.
    pub closed spec fn interval(self) -> u64 {
        self.interval_secs
    }

    /// What an event makes of a state: the state after it, and what the
    /// loop is to do.
    pub open spec fn next(state: SchedulerState, event: SchedulerEvent) -> (
        SchedulerState,
        SchedulerAction,
    ) {
        match state {
            SchedulerState::Stopped => (SchedulerState::Stopped, SchedulerAction::Exit),
            _ => match event {
                SchedulerEvent::Tick => if state == SchedulerState::Paused {
                    (state, SchedulerAction::Wait)
                } else {
                    (state, SchedulerAction::Capture)
                },
                SchedulerEvent::Message(SchedulerMessage::Stop) | SchedulerEvent::Closed => (
                    SchedulerState::Stopped,
                    SchedulerAction::Exit,
                ),
                SchedulerEvent::Message(SchedulerMessage::UpdateInterval(secs)) => (
                    state,
                    SchedulerAction::ResetTimer(secs),
                ),
                SchedulerEvent::Message(SchedulerMessage::Pause) => (
                    SchedulerState::Paused,
                    SchedulerAction::Wait,
                ),
                SchedulerEvent::Message(SchedulerMessage::Resume) => (
                    SchedulerState::Running,
                    SchedulerAction::Wait,
                ),
            },
        }
    }

    /// A scheduler that is stopped.
    pub fn new() -> (s: CaptureScheduler)
        ensures
            s.state() == SchedulerState::Stopped,
            !s.pause_flag(),
    {
        CaptureScheduler { running: false, paused: false, interval_secs: 0 }
    }

    /// Starts the scheduler with an interval of `interval_secs` seconds,
    /// unless it runs already. Gives whether it was started.
    pub fn start(&mut self, interval_secs: u64) -> (started: bool)
        ensures
            started == (old(self).state() == SchedulerState::Stopped),
            started ==> final(self).state() == SchedulerState::Running && final(self).interval()
                == interval_secs && !final(self).pause_flag(),
            !started ==> *final(self) == *old(self),
    {
        if self.running {
            return false;
        }
        self.running = true;
        self.paused = false;
        self.interval_secs = interval_secs;
        true
    }

    /// Tells the scheduler to stop, without waiting for its loop: the
    /// loop leaves when it next wakes up.
    pub fn signal_stop(&mut self)
        ensures
            final(self).state() == SchedulerState::Stopped,
            final(self).interval() == old(self).interval(),
            final(self).pause_flag() == old(self).pause_flag(),
    {
        self.running = false;
    }

    /// Has captures skipped until resumed. A stopped scheduler stays
    /// stopped.
    pub fn pause(&mut self)
        ensures
            final(self).state() == if old(self).state() == SchedulerState::Stopped {
                SchedulerState::Stopped
            } else {
                SchedulerState::Paused
            },
            final(self).interval() == old(self).interval(),
            final(self).pause_flag(),
    {
        self.paused = true;
    }

    /// Has captures taken again. A stopped scheduler stays stopped.
    pub fn resume(&mut self)
        ensures
            final(self).state() == if old(self).state() == SchedulerState::Stopped {
                SchedulerState::Stopped
            } else {
                SchedulerState::Running
            },
            final(self).interval() == old(self).interval(),
            !final(self).pause_flag(),
    {
        self.paused = false;
    }

    /// Whether the scheduler runs, paused or not.
    pub fn is_running(&self) -> (r: bool)
        ensures
            r == (self.state() != SchedulerState::Stopped),
    {
        self.running
    }

    /// Whether captures are to be skipped.
    pub fn is_paused(&self) -> (r: bool)
        ensures
            r == self.pause_flag(),
            self.state() == SchedulerState::Paused ==> r,
            self.state() == SchedulerState::Running ==> !r,
    {
        self.paused
    }

    /// The seconds between two captures.
    pub fn interval_secs(&self) -> (r: u64)
        ensures
            r == self.interval(),
    {
        self.interval_secs
    }

    /// Takes what the loop has woken up for and says what it is to do.
    ///
    /// A tick asks for a capture, unless the scheduler is paused. A stop,
    /// or the closing of the channel, ends the loop, and so does any event
    /// that finds the scheduler stopped.
    pub fn on_event(&mut self, event: SchedulerEvent) -> (action: SchedulerAction)
        ensures
            (final(self).state(), action) == CaptureScheduler::next(old(self).state(), event),
            final(self).interval() == match (old(self).state(), event) {
                (SchedulerState::Stopped, _) => old(self).interval(),
                (_, SchedulerEvent::Message(SchedulerMessage::UpdateInterval(secs))) => secs,
                _ => old(self).interval(),
            },
            final(self).state() == SchedulerState::Stopped ==> final(self).pause_flag() == old(
                self,
            ).pause_flag(),
    {
        if !self.running {
            return SchedulerAction::Exit;
        }
        match event {
            SchedulerEvent::Tick => {
                if self.paused {
                    SchedulerAction::Wait
                } else {
                    SchedulerAction::Capture
                }
            },
            SchedulerEvent::Message(SchedulerMessage::Stop) | SchedulerEvent::Closed => {
                self.running = false;
                SchedulerAction::Exit
            },
            SchedulerEvent::Message(SchedulerMessage::UpdateInterval(secs)) => {
                self.interval_secs = secs;
                SchedulerAction::ResetTimer(secs)
            },
            SchedulerEvent::Message(SchedulerMessage::Pause) => {
                self.paused = true;
                SchedulerAction::Wait
            },
            SchedulerEvent::Message(SchedulerMessage::Resume) => {
                self.paused = false;
                SchedulerAction::Wait
            },
        }
    }
}

} // verus!
