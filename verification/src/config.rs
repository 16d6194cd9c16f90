//! Boot-sequence step types and the states shown while the client starts.

use vstd::prelude::*;
use vstd::string::*;
use vstd::utf8::*;

verus! {

/// Where one step of the boot sequence stands.
#[derive(Debug, Clone, PartialEq, Eq)]
pub enum StepStatus {
    /// Not started yet.
    Pending,
    /// Currently running.
    InProgress,
    /// Completed successfully.
    Success,
    /// Failed, with the reason.
    Failed(String),
}

/// One line of the boot sequence: what is being done, and how it went.
#[derive(Debug, Clone, PartialEq, Eq)]
pub struct LoadingStep {
    pub message: String,
    pub status: StepStatus,
}

/// Loading states during application startup.
#[derive(Debug, Clone, PartialEq, Eq)]
pub enum LoadingState {
    /// Connecting to the server at this address.
    ConnectingToServer(String),
    /// Starting the actor from this manifest path.
    StartingActor(String),
    /// Opening the channel to the actor with this id.
    OpeningChannel(String),
    /// Initialising the tool servers; the text says how far that is.
    InitializingMcp(String),
    Ready,
}

/// Position just behind the last slash of `path`, or zero where it has
/// none: where the last segment of the path begins.
pub open spec fn last_segment_start(path: Seq<char>) -> int
    decreases path.len(),
{
    if path.len() == 0 {
        0
    } else if path.last() == '/' {
        path.len() as int
    } else {
        last_segment_start(path.drop_last())
    }
}

/// What follows the last slash of `path`; all of it where it has none.
pub open spec fn last_segment(path: Seq<char>) -> Seq<char> {
    path.subrange(last_segment_start(path), path.len() as int)
}

pub proof fn lemma_last_segment_start(path: Seq<char>)
    ensures
        0 <= last_segment_start(path) <= path.len(),
    decreases path.len(),
{
    if path.len() > 0 && path.last() != '/' {
        lemma_last_segment_start(path.drop_last());
    }
}

/// The last segment of a path, by slashes.
pub fn file_name_of(path: &str) -> (r: String)
    ensures
        r@ == last_segment(path@),
{
    let len = path.unicode_len();
    let mut at: usize = len;
    assert(path@.take(at as int) =~= path@);
    while at > 0 && path.get_char(at - 1) != '/'
        invariant
            at <= len,
            len == path@.len(),
            last_segment_start(path@) == last_segment_start(path@.take(at as int)),
        decreases at,
    {
        proof {
            assert(path@.take(at as int).drop_last() =~= path@.take(at - 1));
            assert(path@.take(at as int).last() == path@[at - 1]);
        }
        at -= 1;
    }
    proof {
        if at > 0 {
            assert(path@.take(at as int).last() == path@[at - 1]);
        }
    }
    path.substring_char(at, len).to_owned()
}

/// Number of bytes of an actor's id that are shown.
pub const SHORT_ID_BYTES: usize = 8;

impl LoadingState {
    /// Whether the state has a message: the id of an actor must be long
    /// enough to be shown shortened, and must allow a cut at that length.
    pub open spec fn has_message(self) -> bool {
        match self {
            LoadingState::OpeningChannel(actor_id) => is_char_boundary(
                encode_utf8(actor_id@),
                SHORT_ID_BYTES as int,
            ),
            _ => true,
        }
    }

    /// Whether the state has a message.
    pub fn has_text(&self) -> (r: bool)
        ensures
            r == self.has_message(),
    {
        match self {
            LoadingState::OpeningChannel(actor_id) => actor_id.as_str().is_char_boundary(
                SHORT_ID_BYTES,
            ),
            _ => true,
        }
    }

    /// Whether `text` is the message of the state.
    pub open spec fn is_message(self, text: Seq<char>) -> bool {
        match self {
            LoadingState::ConnectingToServer(addr) => text == "Connecting to Theater server at "@
                + addr@,
            LoadingState::StartingActor(manifest) => text == "Starting chat-state actor from "@
                + last_segment(manifest@),
            LoadingState::OpeningChannel(actor_id) => exists|short: Seq<char>|
                #![trigger encode_utf8(short)]
                encode_utf8(short) == encode_utf8(actor_id@).subrange(0, SHORT_ID_BYTES as int)
                    && text == "Opening communication channel to actor "@ + short,
            LoadingState::InitializingMcp(status) => text == "Initializing MCP servers: "@
                + status@,
            LoadingState::Ready => text == "System ready"@,
        }
    }

    /// The line that tells the user what is being done.
    pub fn message(&self) -> (r: String)
        requires
            self.has_message(),
        ensures
            self.is_message(r@),
    {
        match self {
            LoadingState::ConnectingToServer(addr) => {
                let mut text = "Connecting to Theater server at ".to_owned();
                text.append(addr.as_str());
                text
            },
            LoadingState::StartingActor(manifest) => {
                let mut text = "Starting chat-state actor from ".to_owned();
                let name = file_name_of(manifest.as_str());
                text.append(name.as_str());
                text
            },
            LoadingState::OpeningChannel(actor_id) => {
                let mut text = "Opening communication channel to actor ".to_owned();
                let (short, _) = actor_id.as_str().split_at(SHORT_ID_BYTES);
                text.append(short);
                assert(encode_utf8(short@) == encode_utf8(actor_id@).subrange(
                    0,
                    SHORT_ID_BYTES as int,
                ));
                text
            },
            LoadingState::InitializingMcp(status) => {
                let mut text = "Initializing MCP servers: ".to_owned();
                text.append(status.as_str());
                text
            },
            LoadingState::Ready => "System ready".to_owned(),
        }
    }
}

/// Address of the server that is used when none is given.
pub const DEFAULT_SERVER_ADDRESS: &'static str = "127.0.0.1:9000";

/// Where the manifest of the conversation actor lies.
pub const CHAT_STATE_ACTOR_MANIFEST: &'static str =
    "/Users/colinrozzi/work/actor-registry/chat-state/manifest.toml";

/// Session management subcommands.
#[derive(Debug, Clone, PartialEq, Eq)]
pub enum SessionAction {
    /// List all sessions, in detail if asked.
    List { detailed: bool },
    /// Create a new session.
    New { name: String, description: Option<String>, preset: Option<String> },
    /// Show what is known of a session.
    Info { name: String },
    /// Delete a session; without `force`, only after the user has agreed.
    Delete { name: String, force: bool },
    /// Rename a session.
    Rename { old_name: String, new_name: String },
    /// Delete sessions that have not been used for the given duration
    /// (such as "30d" or "24h"), or only say which would be deleted.
    Clean { older_than: Option<String>, dry_run: bool },
}

/// Management subcommands.
#[derive(Debug, Clone, PartialEq, Eq)]
pub enum Command {
    /// Set up the configuration directory, in the home directory if
    /// `global`.
    Init { global: bool },
    /// List the presets.
    Presets,
    /// Manage the sessions.
    Sessions { action: SessionAction },
    /// Show the configuration in force, for a preset if one is given.
    Config { preset: Option<String> },
}

/// Command line arguments.
#[derive(Debug, Clone, PartialEq, Eq)]
pub struct Args {
    /// Address of the server.
    pub server: String,
    /// A configuration file to use.
    pub config: Option<String>,
    /// A named preset to use.
    pub preset: Option<String>,
    /// Whether to print all responses.
    pub debug: bool,
    /// Whether to keep no session and always start a new conversation.
    pub no_session: bool,
    /// Whether to clear the session and start afresh.
    pub clear_session: bool,
    /// The session to use.
    pub session: Option<String>,
    /// Whether to use the default session.
    pub use_default_session: bool,
    /// A management subcommand, in place of a chat.
    pub command: Option<Command>,
}

/// How much of a tool's input and output is shown.
#[derive(Debug, Clone, Copy, PartialEq, Eq, Structural)]
pub enum ToolDisplayMode {
    Minimal,
    Compact,
    Full,
}

impl ToolDisplayMode {
    /// The mode that follows this one: minimal, compact, full, and round
    /// again.
    pub open spec fn cycle_spec(self) -> ToolDisplayMode {
        match self {
            ToolDisplayMode::Minimal => ToolDisplayMode::Compact,
            ToolDisplayMode::Compact => ToolDisplayMode::Full,
            ToolDisplayMode::Full => ToolDisplayMode::Minimal,
        }
    }

    pub fn cycle(&self) -> (r: ToolDisplayMode)
        ensures
            r == self.cycle_spec(),
    {
        match self {
            ToolDisplayMode::Minimal => ToolDisplayMode::Compact,
            ToolDisplayMode::Compact => ToolDisplayMode::Full,
            ToolDisplayMode::Full => ToolDisplayMode::Minimal,
        }
    }

    pub fn display_name(&self) -> (r: &'static str)
        ensures
            r@ == match self {
                ToolDisplayMode::Minimal => "Minimal"@,
                ToolDisplayMode::Compact => "Compact"@,
                ToolDisplayMode::Full => "Full"@,
            },
    {
        match self {
            ToolDisplayMode::Minimal => "Minimal",
            ToolDisplayMode::Compact => "Compact",
            ToolDisplayMode::Full => "Full",
        }
    }
}

impl StepStatus {
    /// The fixed-width tag shown in front of a step.
    pub open spec fn symbol_spec(self) -> Seq<char> {
        match self {
            StepStatus::Pending => "    "@,
            StepStatus::InProgress => "[WAIT]"@,
            StepStatus::Success => "[ OK ]"@,
            StepStatus::Failed(_) => "[FAIL]"@,
        }
    }

    /// A step is settled once it has succeeded or failed.
    pub open spec fn is_settled(self) -> bool {
        self is Success || self is Failed
    }

    pub fn symbol(&self) -> (r: &'static str)
        ensures
            r@ == self.symbol_spec(),
    {
        match self {
            StepStatus::Pending => "    ",
            StepStatus::InProgress => "[WAIT]",
            StepStatus::Success => "[ OK ]",
            StepStatus::Failed(_) => "[FAIL]",
        }
    }
}

pub ghost enum StepStatusView {
    Pending,
    InProgress,
    Success,
    Failed(Seq<char>),
}

impl StepStatusView {
    /// A step is settled once it has succeeded or failed.
    pub open spec fn is_settled(self) -> bool {
        self is Success || self is Failed
    }
}

impl DeepView for StepStatus {
    type V = StepStatusView;

    open spec fn deep_view(&self) -> StepStatusView {
        match self {
            StepStatus::Pending => StepStatusView::Pending,
            StepStatus::InProgress => StepStatusView::InProgress,
            StepStatus::Success => StepStatusView::Success,
            StepStatus::Failed(reason) => StepStatusView::Failed(reason@),
        }
    }
}

pub ghost struct LoadingStepView {
    pub message: Seq<char>,
    pub status: StepStatusView,
}

impl DeepView for LoadingStep {
    type V = LoadingStepView;

    open spec fn deep_view(&self) -> LoadingStepView {
        LoadingStepView { message: self.message@, status: self.status.deep_view() }
    }
}

/// The boot sequence as a state machine: the steps in their fixed order,
/// and the position of the current one.
pub ghost struct BootView {
    pub steps: Seq<LoadingStepView>,
    pub current: nat,
}

/// What can be asked of the boot sequence.
pub ghost enum BootEvent {
    /// Start the step at a position, with a new display message if given.
    Start(nat, Option<Seq<char>>),
    /// The current step has succeeded.
    Complete,
    /// The current step has failed, for this reason.
    Fail(Seq<char>),
}

impl BootView {
    /// Whether the step at `index` can be started: it exists, it does not
    /// lie before the current step, it is not settled, and no other step is
    /// in progress.
    pub open spec fn can_start(self, index: nat) -> bool {
        &&& index < self.steps.len()
        &&& index >= self.current
        &&& !self.steps[index as int].status.is_settled()
        &&& (self.current < self.steps.len() && self.steps[self.current as int].status
            is InProgress ==> index == self.current)
    }

    /// Whether the current step is in progress, and so can be settled.
    pub open spec fn can_settle(self) -> bool {
        self.current < self.steps.len() && self.steps[self.current as int].status is InProgress
    }

    /// The sequence after the step at `index` has been started. A step that
    /// cannot be started leaves the sequence as it is.
    pub open spec fn started(self, index: nat, message: Option<Seq<char>>) -> BootView {
        if self.can_start(index) {
            BootView {
                steps: self.steps.update(
                    index as int,
                    LoadingStepView {
                        message: match message {
                            Some(text) => text,
                            None => self.steps[index as int].message,
                        },
                        status: StepStatusView::InProgress,
                    },
                ),
                current: index,
            }
        } else {
            self
        }
    }

    /// The sequence after the current step has succeeded: the step is
    /// marked and the next one becomes current. Without a step in progress
    /// the sequence stays as it is.
    pub open spec fn completed(self) -> BootView {
        if self.can_settle() {
            BootView {
                steps: self.steps.update(
                    self.current as int,
                    LoadingStepView {
                        status: StepStatusView::Success,
                        ..self.steps[self.current as int]
                    },
                ),
                current: self.current + 1,
            }
        } else {
            self
        }
    }

    /// The sequence after the current step has failed: the step is marked,
    /// and stays current. Without a step in progress the sequence stays as
    /// it is.
    pub open spec fn failed(self, reason: Seq<char>) -> BootView {
        if self.can_settle() {
            BootView {
                steps: self.steps.update(
                    self.current as int,
                    LoadingStepView {
                        status: StepStatusView::Failed(reason),
                        ..self.steps[self.current as int]
                    },
                ),
                ..self
            }
        } else {
            self
        }
    }

    /// The sequence after one event.
    pub open spec fn after(self, event: BootEvent) -> BootView {
        match event {
            BootEvent::Start(index, message) => self.started(index, message),
            BootEvent::Complete => self.completed(),
            BootEvent::Fail(reason) => self.failed(reason),
        }
    }

    /// The sequence after a run of events, in order.
    pub open spec fn after_all(self, events: Seq<BootEvent>) -> BootView
        decreases events.len(),
    {
        if events.len() == 0 {
            self
        } else {
            self.after_all(events.drop_last()).after(events.last())
        }
    }

    /// Every step has succeeded.
    pub open spec fn is_complete(self) -> bool {
        forall|i: int| 0 <= i < self.steps.len() ==> (#[trigger] self.steps[i]).status is Success
    }

    /// At most one step is in progress, and it is the current one.
    pub open spec fn one_in_progress(self) -> bool {
        forall|i: int|
            0 <= i < self.steps.len() && (#[trigger] self.steps[i]).status is InProgress ==> i
                == self.current
    }

    /// `later` is this sequence moved forward: the same number of steps,
    /// the current position not before this one's, and every step that is
    /// settled here exactly as it is here.
    pub open spec fn moved_forward_to(self, later: BootView) -> bool {
        &&& later.steps.len() == self.steps.len()
        &&& later.current >= self.current
        &&& forall|i: int|
            0 <= i < self.steps.len() && (#[trigger] self.steps[i]).status.is_settled()
                ==> later.steps[i] == self.steps[i]
    }
}

/// One event moves the boot sequence forward, and keeps at most one step in
/// progress.
pub proof fn lemma_boot_step_forward(state: BootView, event: BootEvent)
    ensures
        state.moved_forward_to(state.after(event)),
        state.one_in_progress() ==> state.after(event).one_in_progress(),
{
}

/// The boot sequence only ever moves forward: over any run of starts,
/// completions and failures, the current position never decreases, and a
/// step that has succeeded or failed never changes again. At most one step
/// is in progress throughout, where that held at the start.
pub proof fn lemma_boot_monotone(state: BootView, events: Seq<BootEvent>)
    ensures
        state.moved_forward_to(state.after_all(events)),
        state.one_in_progress() ==> state.after_all(events).one_in_progress(),
    decreases events.len(),
{
    if events.len() > 0 {
        let before = state.after_all(events.drop_last());
        lemma_boot_monotone(state, events.drop_last());
        lemma_boot_step_forward(before, events.last());
        let later = before.after(events.last());
        assert forall|i: int|
            0 <= i < state.steps.len() && (#[trigger] state.steps[i]).status.is_settled() implies later.steps[i]
            == state.steps[i] by {
            assert(before.steps[i] == state.steps[i]);
        }
    }
}

} // verus!
