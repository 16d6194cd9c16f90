//! The steps of the boot sequence: what each is called, what it tells the
//! user, and whether its failure ends the boot.

use vstd::prelude::*;
use vstd::string::*;

verus! {

/// A step of the boot sequence, in the order in which the steps are run.
/// No step begins before the one before it has come to an end.
#[derive(Debug, Clone, Copy, PartialEq, Eq, Structural)]
pub enum BootStep {
    /// Set up the session.
    Initialize,
    /// Connect to the server.
    Connect,
    /// Start the conversation actor.
    StartActor,
    /// Open the channel to the actor and send it the settings.
    OpenChannel,
    /// Ask the actor for the conversation's identity.
    Metadata,
    /// Bring the local conversation up to the server's.
    SyncHistory,
    /// Get the chat interface ready.
    Prepare,
}

/// Number of steps of the boot sequence.
pub const BOOT_STEPS: usize = 7;

impl BootStep {
    /// Position of the step in the boot sequence.
    pub open spec fn index_spec(self) -> usize {
        match self {
            BootStep::Initialize => 0,
            BootStep::Connect => 1,
            BootStep::StartActor => 2,
            BootStep::OpenChannel => 3,
            BootStep::Metadata => 4,
            BootStep::SyncHistory => 5,
            BootStep::Prepare => 6,
        }
    }

    /// Whether the boot ends when the step fails. Without a connection, an
    /// actor or a channel there is nothing to go on with; without the
    /// conversation's identity or its history the application is still of
    /// use, and the boot goes on.
    pub open spec fn is_fatal_spec(self) -> bool {
        self == BootStep::Connect || self == BootStep::StartActor || self == BootStep::OpenChannel
    }

    /// What precedes the reason when the step has failed.
    pub open spec fn failure_prefix(self) -> Seq<char> {
        match self {
            BootStep::Initialize => "Initialization failed: "@,
            BootStep::Connect => "Connection failed: "@,
            BootStep::StartActor => "Actor initialization failed: "@,
            BootStep::OpenChannel => "Channel setup failed: "@,
            BootStep::Metadata => "Metadata retrieval failed: "@,
            BootStep::SyncHistory => "History sync failed: "@,
            BootStep::Prepare => "Preparation failed: "@,
        }
    }

    pub fn index(&self) -> (r: usize)
        ensures
            r == self.index_spec(),
            r < BOOT_STEPS,
    {
        match self {
            BootStep::Initialize => 0,
            BootStep::Connect => 1,
            BootStep::StartActor => 2,
            BootStep::OpenChannel => 3,
            BootStep::Metadata => 4,
            BootStep::SyncHistory => 5,
            BootStep::Prepare => 6,
        }
    }

    /// The step at a position of the boot sequence.
    pub fn at(index: usize) -> (r: Option<BootStep>)
        ensures
            match r {
                Some(step) => step.index_spec() == index,
                None => index >= BOOT_STEPS,
            },
    {
        if index == 0 {
            Some(BootStep::Initialize)
        } else if index == 1 {
            Some(BootStep::Connect)
        } else if index == 2 {
            Some(BootStep::StartActor)
        } else if index == 3 {
            Some(BootStep::OpenChannel)
        } else if index == 4 {
            Some(BootStep::Metadata)
        } else if index == 5 {
            Some(BootStep::SyncHistory)
        } else if index == 6 {
            Some(BootStep::Prepare)
        } else {
            None
        }
    }

    pub fn is_fatal(&self) -> (r: bool)
        ensures
            r == self.is_fatal_spec(),
    {
        match self {
            BootStep::Connect => true,
            BootStep::StartActor => true,
            BootStep::OpenChannel => true,
            _ => false,
        }
    }

    /// What to tell the user when the step has failed for `reason`.
    pub fn failure_message(&self, reason: &str) -> (r: String)
        ensures
            r@ == self.failure_prefix() + reason@,
    {
        let prefix = match self {
            BootStep::Initialize => "Initialization failed: ",
            BootStep::Connect => "Connection failed: ",
            BootStep::StartActor => "Actor initialization failed: ",
            BootStep::OpenChannel => "Channel setup failed: ",
            BootStep::Metadata => "Metadata retrieval failed: ",
            BootStep::SyncHistory => "History sync failed: ",
            BootStep::Prepare => "Preparation failed: ",
        };
        let mut text = prefix.to_owned();
        text.append(reason);
        text
    }
}

/// How the boot goes about the session.
#[derive(Debug, Clone, Copy, PartialEq, Eq, Structural)]
pub struct SessionPlan {
    /// Whether the stored session is deleted before the boot goes on.
    pub delete_stored: bool,
    /// Whether the boot goes on with a fresh record in place of the stored
    /// one.
    pub start_fresh: bool,
    /// Whether the boot tells the user that a session is resumed.
    pub resuming: bool,
}

/// How the boot goes about the session, given whether it is stored,
/// whether it is the default session, and whether it is to be cleared. A
/// stored session is resumed unless it is to be cleared. Clearing deletes
/// the stored session and starts afresh, but never deletes the default
/// session, which is then gone on with as it is.
pub open spec fn session_plan_spec(stored: bool, is_default: bool, clear: bool) -> SessionPlan {
    let delete_stored = clear && stored && !is_default;
    SessionPlan {
        delete_stored,
        start_fresh: !stored || delete_stored,
        resuming: stored && !delete_stored && !clear,
    }
}

pub fn session_plan(stored: bool, is_default: bool, clear: bool) -> (r: SessionPlan)
    ensures
        r == session_plan_spec(stored, is_default, clear),
{
    let delete_stored = clear && stored && !is_default;
    SessionPlan {
        delete_stored,
        start_fresh: !stored || delete_stored,
        resuming: stored && !delete_stored && !clear,
    }
}

/// How far the boot has come, in whole percent: the share of the steps
/// that lie before the current one.
pub fn progress_percent(current: usize, total: usize) -> (r: u8)
    requires
        current < total,
    ensures
        r == current * 100 / (total as int),
{
    assert(current * 100 / (total as int) < 100) by (nonlinear_arith)
        requires
            0 <= current < total,
    ;
    let share: u128 = (current as u128) * 100 / (total as u128);
    share as u8
}

/// Whether the boot brings the local conversation up to the server's: it
/// does for a session that is stored, unless the session is to be cleared.
pub fn should_sync(stored: bool, clear: bool) -> (r: bool)
    ensures
        r == (stored && !clear),
{
    stored && !clear
}

/// The line that opens the boot: whether a session is resumed or set up.
pub fn session_opening(name: &str, resuming: bool) -> (r: String)
    ensures
        r@ == if resuming {
            "Resuming session '"@ + name@ + "'..."@
        } else {
            "Initializing new session '"@ + name@ + "'..."@
        },
{
    let mut text = if resuming {
        "Resuming session '".to_owned()
    } else {
        "Initializing new session '".to_owned()
    };
    text.append(name);
    text.append("'...");
    text
}

} // verus!
