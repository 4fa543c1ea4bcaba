//! Tracks the usage of a quota and reports, through a messenger, when it runs high.

use crate::access_cell::AccessCell;
use vstd::prelude::*;
use vstd::string::StringExecFns;

verus! {

/// How serious a usage level is.
#[derive(Clone, Copy, Debug, PartialEq, Eq, Structural)]
pub enum Severity {
    /// At least three quarters of the quota is used.
    Info,
    /// At least nine tenths of the quota is used.
    Warning,
    /// The quota is used up or exceeded.
    Error,
}

impl Severity {
    /// The text that reports this severity.
    pub open spec fn text(self) -> Seq<char> {
        match self {
            Severity::Info => "INFO: Reached 75% of quota."@,
            Severity::Warning => "WARNING: Reached 90% of quota."@,
            Severity::Error => "ERROR: Quota exceeded."@,
        }
    }

    /// The text that reports this severity.
    pub fn message(self) -> (msg: &'static str)
        ensures
            msg@ == self.text(),
    {
        match self {
            Severity::Info => "INFO: Reached 75% of quota.",
            Severity::Warning => "WARNING: Reached 90% of quota.",
            Severity::Error => "ERROR: Quota exceeded.",
        }
    }
}

/// The severity of using `usage` out of `max_usage`: the highest of the three levels
/// that the ratio `usage / max_usage` reaches, if it reaches any. With a quota of zero
/// any use exceeds it, and no use has no ratio and reports nothing.
pub open spec fn severity_of(usage: nat, max_usage: nat) -> Option<Severity> {
    if max_usage == 0 {
        if usage > 0 {
            Some(Severity::Error)
        } else {
            None
        }
    } else if usage >= max_usage {
        Some(Severity::Error)
    } else if 10 * usage >= 9 * max_usage {
        Some(Severity::Warning)
    } else if 4 * usage >= 3 * max_usage {
        Some(Severity::Info)
    } else {
        None
    }
}

/// The messages that one report of `usage` out of `max_usage` emits: one at most.
pub open spec fn emitted(usage: nat, max_usage: nat) -> Seq<Seq<char>> {
    match severity_of(usage, max_usage) {
        Some(severity) => seq![severity.text()],
        None => seq![],
    }
}

/// One report emits one message at most, and it emits one exactly when the usage
/// reaches three quarters of a quota that is not zero.
pub proof fn lemma_one_message_at_most(usage: nat, max_usage: nat)
    ensures
        emitted(usage, max_usage).len() <= 1,
        max_usage > 0 ==> (emitted(usage, max_usage).len() == 1 <==> 4 * usage >= 3 * max_usage),
{
}

/// Computes the severity of using `usage` out of `max_usage`.
pub fn classify(usage: usize, max_usage: usize) -> (severity: Option<Severity>)
    ensures
        severity == severity_of(usage as nat, max_usage as nat),
{
    let used: u128 = usage as u128;
    let quota: u128 = max_usage as u128;
    if quota == 0 {
        if used > 0 {
            Some(Severity::Error)
        } else {
            None
        }
    } else if used >= quota {
        Some(Severity::Error)
    } else if 10 * used >= 9 * quota {
        Some(Severity::Warning)
    } else if 4 * used >= 3 * quota {
        Some(Severity::Info)
    } else {
        None
    }
}

/// Something able to send messages somewhere.
pub trait Messenger {
    /// Whether the messenger can take a message now.
    spec fn ready(&self) -> bool;

    /// The messages sent so far, oldest first.
    spec fn sent(&self) -> Seq<Seq<char>>;

    /// Sends `msg`.
    fn send(&mut self, msg: &str)
        requires
            old(self).ready(),
        ensures
            final(self).ready(),
            final(self).sent() == old(self).sent().push(msg@),
    ;
}

/// A messenger that keeps the messages instead of sending them anywhere.
pub struct MockMessenger {
    /// The messages, behind a cell that checks each access when it is asked for.
    pub sent_messages: AccessCell<Vec<String>>,
}

impl MockMessenger {
    /// A messenger that has sent nothing yet.
    pub fn new() -> (messenger: MockMessenger)
        ensures
            messenger.ready(),
            messenger.sent() == Seq::<Seq<char>>::empty(),
    {
        let messenger = MockMessenger { sent_messages: AccessCell::new(Vec::new()) };
        assert(messenger.sent() =~= Seq::<Seq<char>>::empty());
        messenger
    }
}

impl Messenger for MockMessenger {
    open spec fn ready(&self) -> bool {
        self.sent_messages@.is_free()
    }

    open spec fn sent(&self) -> Seq<Seq<char>> {
        self.sent_messages@.value@.map_values(|s: String| s@)
    }

    fn send(&mut self, msg: &str) {
        let ticket = self.sent_messages.borrow_mutable();
        let messages = self.sent_messages.write(&ticket);
        messages.push(String::from_str(msg));
        self.sent_messages.release_mutable(ticket);
        assert(self.sent() =~= old(self).sent().push(msg@));
    }
}

/// What a tracker is, mathematically.
pub ghost struct TrackerModel<T> {
    /// The messenger that the tracker reports through.
    pub messenger: T,
    /// The usage level that was reported last.
    pub usage: nat,
    /// The quota.
    pub max_usage: nat,
}

/// Tracks the usage of a quota and reports high usage through its messenger.
pub struct LimitTracker<T: Messenger> {
    messenger: T,
    usage: usize,
    max_usage: usize,
}

impl<T: Messenger> View for LimitTracker<T> {
    type V = TrackerModel<T>;

    closed spec fn view(&self) -> TrackerModel<T> {
        TrackerModel {
            messenger: self.messenger,
            usage: self.usage as nat,
            max_usage: self.max_usage as nat,
        }
    }
}

impl<T: Messenger> LimitTracker<T> {
    /// A tracker of a quota of `max_usage`, of which nothing is used yet.
    pub fn new(messenger: T, max_usage: usize) -> (tracker: LimitTracker<T>)
        ensures
            tracker@ == (TrackerModel { messenger, usage: 0, max_usage: max_usage as nat }),
    {
        LimitTracker { messenger, usage: 0, max_usage }
    }

    /// The messenger, to look at.
    pub fn messenger(&self) -> (messenger: &T)
        ensures
            *messenger == self@.messenger,
    {
        &self.messenger
    }

    /// The messenger, to work with. The tracker keeps what the caller leaves there.
    pub fn messenger_mut(&mut self) -> (messenger: &mut T)
        ensures
            *messenger == old(self)@.messenger,
            final(self)@ == (TrackerModel { messenger: *final(messenger), ..old(self)@ }),
    {
        &mut self.messenger
    }

    /// Ends the tracker and hands its messenger back.
    pub fn into_messenger(self) -> (messenger: T)
        ensures
            messenger == self@.messenger,
    {
        self.messenger
    }

    /// Records that `usage` of the quota is used now, and sends the one message that
    /// this level calls for, if it calls for any. Each call judges its own level: what
    /// was recorded before plays no part.
    pub fn set_value(&mut self, usage: usize)
        requires
            old(self)@.messenger.ready(),
        ensures
            final(self)@.usage == usage,
            final(self)@.max_usage == old(self)@.max_usage,
            final(self)@.messenger.ready(),
            final(self)@.messenger.sent() == old(self)@.messenger.sent() + emitted(
                usage as nat,
                old(self)@.max_usage,
            ),
    {
        self.usage = usage;
        match classify(usage, self.max_usage) {
            Some(severity) => {
                self.messenger.send(severity.message());
            },
            None => {},
        }
        assert(self@.messenger.sent() =~= old(self)@.messenger.sent() + emitted(
            usage as nat,
            old(self)@.max_usage,
        ));
    }
}

} // verus!
