//! The follow controller: after the first window of a file is out, it turns
//! change notifications into reads of the bytes appended since.
use vstd::prelude::*;

use crate::forward::ForwardReader;
use crate::lines::{complete_lines, last_n, lines_of, views};

verus! {

#[derive(PartialEq, Eq, Structural, Clone, Copy, Debug)]
pub enum FollowState {
    /// Reading the file for the first time; no watch yet.
    Initial,
    /// A watch is registered; waiting for notifications.
    Watching,
    /// Stopped by a watch or read failure. Nothing follows this state.
    Terminated,
}

/// A change notification, as the watch mechanism classified it.
#[derive(PartialEq, Eq, Structural, Clone, Copy, Debug)]
pub enum Notification {
    /// The content of the file changed.
    Modified,
    /// Any other change (metadata, access).
    Other,
    /// The watch reported an error or its channel closed.
    Failed,
}

/// What the caller is to do next.
#[derive(PartialEq, Eq, Structural, Clone, Copy, Debug)]
pub enum FollowAction {
    /// Read what was appended after `cursor()`, hand it to `take_bytes`, then
    /// print what `emit` returns.
    ReadAppended,
    /// Nothing to do; wait for the next notification.
    Ignore,
    /// Report the failure and stop following.
    Stop,
}

/// The state of one followed file: where reading stopped and the line in
/// progress there.
pub struct FollowController {
    state: FollowState,
    reader: ForwardReader,
    cursor: u64,
}

impl FollowController {
    pub closed spec fn state(&self) -> FollowState {
        self.state
    }

    /// How many bytes of the file have been consumed.
    pub closed spec fn cursor_spec(&self) -> nat {
        self.cursor as nat
    }

    /// The bytes taken since the last emission.
    pub closed spec fn pending(&self) -> Seq<u8> {
        self.reader.pending()
    }

    pub closed spec fn cap(&self) -> nat {
        self.reader.cap()
    }

    pub closed spec fn wf(&self) -> bool {
        self.reader.wf()
    }

    pub fn new(capacity: usize) -> (c: FollowController)
        requires
            capacity > 0,
        ensures
            c.wf(),
            c.state() == FollowState::Initial,
            c.cursor_spec() == 0,
            c.pending() == Seq::<u8>::empty(),
            c.cap() == capacity,
    {
        FollowController { state: FollowState::Initial, reader: ForwardReader::new(capacity), cursor: 0 }
    }

    pub fn state_now(&self) -> (s: FollowState)
        ensures
            s == self.state(),
    {
        self.state
    }

    /// The offset in the file from which the next read starts.
    pub fn cursor(&self) -> (n: u64)
        ensures
            n == self.cursor_spec(),
    {
        self.cursor
    }

    /// Takes in bytes read from the file at `cursor()`.
    pub fn take_bytes(&mut self, chunk: &[u8])
        requires
            old(self).wf(),
            old(self).cursor_spec() + chunk@.len() <= u64::MAX,
        ensures
            final(self).wf(),
            final(self).state() == old(self).state(),
            final(self).cap() == old(self).cap(),
            final(self).cursor_spec() == old(self).cursor_spec() + chunk@.len(),
            final(self).pending() == old(self).pending() + chunk@,
    {
        self.reader.feed(chunk);
        self.cursor = self.cursor + chunk.len() as u64;
    }

    /// The lines to print for the bytes taken since the last emission: the
    /// last `cap()` of them, oldest first. A line without its terminator at
    /// the end of what was read counts as a line.
    pub fn emit(&mut self) -> (out: Vec<Vec<u8>>)
        requires
            old(self).wf(),
        ensures
            final(self).wf(),
            final(self).state() == old(self).state(),
            final(self).cap() == old(self).cap(),
            final(self).cursor_spec() == old(self).cursor_spec(),
            final(self).pending() == Seq::<u8>::empty(),
            views(out@) == last_n(lines_of(old(self).pending()), old(self).cap()),
    {
        self.reader.flush()
    }

    /// Records whether the watch on the file could be registered, after the
    /// first window was emitted.
    pub fn watch_started(&mut self, registered: bool)
        requires
            old(self).wf(),
        ensures
            final(self).wf(),
            final(self).cap() == old(self).cap(),
            final(self).cursor_spec() == old(self).cursor_spec(),
            final(self).pending() == old(self).pending(),
            final(self).state() == (if old(self).state() == FollowState::Initial && registered {
                FollowState::Watching
            } else {
                FollowState::Terminated
            }),
    {
        if self.state == FollowState::Initial && registered {
            self.state = FollowState::Watching;
        } else {
            self.state = FollowState::Terminated;
        }
    }

    /// Decides what a notification calls for. Content changes call for a
    /// read; other changes are ignored; a failed watch ends following.
    pub fn on_notification(&mut self, event: Notification) -> (action: FollowAction)
        requires
            old(self).wf(),
        ensures
            final(self).wf(),
            final(self).cap() == old(self).cap(),
            final(self).cursor_spec() == old(self).cursor_spec(),
            final(self).pending() == old(self).pending(),
            old(self).state() == FollowState::Watching && event == Notification::Modified
                ==> action == FollowAction::ReadAppended && final(self).state()
                == FollowState::Watching,
            old(self).state() == FollowState::Watching && event == Notification::Other ==> action
                == FollowAction::Ignore && final(self).state() == FollowState::Watching,
            old(self).state() != FollowState::Watching || event == Notification::Failed ==> action
                == FollowAction::Stop && final(self).state() == FollowState::Terminated,
    {
        if self.state != FollowState::Watching {
            self.state = FollowState::Terminated;
            return FollowAction::Stop;
        }
        match event {
            Notification::Modified => FollowAction::ReadAppended,
            Notification::Other => FollowAction::Ignore,
            Notification::Failed => {
                self.state = FollowState::Terminated;
                FollowAction::Stop
            },
        }
    }

    /// Records a read error: following ends, and the lines that a newline
    /// had already closed are returned for printing.
    pub fn read_failed(&mut self) -> (out: Vec<Vec<u8>>)
        requires
            old(self).wf(),
        ensures
            final(self).wf(),
            final(self).state() == FollowState::Terminated,
            final(self).pending() == Seq::<u8>::empty(),
            views(out@) == last_n(complete_lines(old(self).pending()), old(self).cap()),
    {
        self.state = FollowState::Terminated;
        self.reader.abandon()
    }
}

} // verus!
