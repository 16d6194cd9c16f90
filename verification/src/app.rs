//! The state of the application: the boot sequence, the input line, the
//! local mirror of the conversation chain, and what of it is on view.

use vstd::prelude::*;
use vstd::string::*;
use std::collections::HashSet;
use crate::display::{
    calculate_total_display_lines, clip, estimate_start_line, estimated_start, is_tool_heavy,
    minus, scroll_for, scroll_to_show, scroll_up_by_line, scrolled_up, tool_blocks,
    total_lines_spec, TOOL_HEAVY,
};
use crate::chat::{ChatMessage, ChatMessageView, ChatStateResponse};
use crate::config::{
    BootView, LoadingState, LoadingStep, LoadingStepView, StepStatus, StepStatusView,
    ToolDisplayMode,
};

verus! {

/// Current input mode.
#[derive(Debug, Clone, Copy, PartialEq, Eq, Structural)]
pub enum InputMode {
    Normal,
    Editing,
}

/// How the message area is moved through.
#[derive(Debug, Clone, Copy, PartialEq, Eq, Structural)]
pub enum NavigationMode {
    /// Scrolling line by line.
    Scroll,
    /// Moving from message to message.
    Navigate,
}

/// A key, as far as the application tells keys apart.
#[derive(Debug, Clone, Copy, PartialEq, Eq, Structural)]
pub enum KeyCode {
    Char(char),
    Enter,
    Esc,
    Backspace,
    Left,
    Right,
    Up,
    Down,
    Home,
    End,
    /// A function key, by its number.
    F(u8),
    /// Any other key.
    Other,
}

/// A key event, as far as the application reads it.
#[derive(Debug, Clone, Copy, PartialEq, Eq, Structural)]
pub struct KeyEvent {
    pub code: KeyCode,
    /// Whether the control key was held.
    pub control: bool,
    /// Whether the key was pressed, rather than released or repeated.
    pub is_press: bool,
}

/// What a key asks the application to do.
#[derive(Debug, Clone, Copy, PartialEq, Eq, Structural)]
pub enum Intent {
    Nothing,
    ToggleHelp,
    Quit,
    StartEditing,
    StopEditing,
    ScrollUp,
    ScrollDown,
    MessageUp,
    MessageDown,
    ToggleNavigation,
    ToggleCollapse,
    CycleToolDisplay,
    CollapseToolMessages,
    ToggleSplitScreen,
    Submit,
    NewLine,
    CursorToStart,
    CursorToEnd,
    Type(char),
    DeleteBefore,
    CursorLeft,
    CursorRight,
    CursorUp,
    CursorDown,
    CursorToLineStart,
    CursorToLineEnd,
}

/// Width that the input is taken to have when the cursor moves by lines.
pub const INPUT_WIDTH: usize = 80;

/// What a key asks for, given whether the help is shown and which modes
/// the application is in. Only pressed keys count. While the help is shown,
/// keys close it or do nothing. In normal mode keys are commands; in
/// editing mode they edit the input.
pub open spec fn key_intent_spec(
    show_help: bool,
    input_mode: InputMode,
    navigation_mode: NavigationMode,
    key: KeyEvent,
) -> Intent {
    if !key.is_press {
        Intent::Nothing
    } else if show_help {
        match key.code {
            KeyCode::Esc => Intent::ToggleHelp,
            KeyCode::Char(c) => if c == 'q' || c == 'h' {
                Intent::ToggleHelp
            } else {
                Intent::Nothing
            },
            KeyCode::F(n) => if n == 1 {
                Intent::ToggleHelp
            } else {
                Intent::Nothing
            },
            _ => Intent::Nothing,
        }
    } else if input_mode == InputMode::Normal {
        match key.code {
            KeyCode::Char(c) => if c == 'q' {
                Intent::Quit
            } else if c == 'i' {
                Intent::StartEditing
            } else if c == 'j' {
                if navigation_mode == NavigationMode::Scroll {
                    Intent::ScrollDown
                } else {
                    Intent::MessageDown
                }
            } else if c == 'k' {
                if navigation_mode == NavigationMode::Scroll {
                    Intent::ScrollUp
                } else {
                    Intent::MessageUp
                }
            } else if c == 'v' {
                Intent::ToggleNavigation
            } else if c == 'c' {
                if navigation_mode == NavigationMode::Navigate {
                    Intent::ToggleCollapse
                } else {
                    Intent::Nothing
                }
            } else if c == 't' {
                Intent::CycleToolDisplay
            } else if c == 'T' {
                Intent::CollapseToolMessages
            } else if c == 's' {
                Intent::ToggleSplitScreen
            } else if c == 'h' {
                Intent::ToggleHelp
            } else {
                Intent::Nothing
            },
            KeyCode::Up => if navigation_mode == NavigationMode::Scroll {
                Intent::ScrollUp
            } else {
                Intent::MessageUp
            },
            KeyCode::Down => if navigation_mode == NavigationMode::Scroll {
                Intent::ScrollDown
            } else {
                Intent::MessageDown
            },
            KeyCode::F(n) => if n == 1 {
                Intent::ToggleHelp
            } else {
                Intent::Nothing
            },
            KeyCode::Enter => Intent::Submit,
            _ => Intent::Nothing,
        }
    } else {
        match key.code {
            KeyCode::Enter => Intent::NewLine,
            KeyCode::Char(c) => if c == 'a' && key.control {
                Intent::CursorToStart
            } else if c == 'e' && key.control {
                Intent::CursorToEnd
            } else {
                Intent::Type(c)
            },
            KeyCode::Backspace => Intent::DeleteBefore,
            KeyCode::Left => Intent::CursorLeft,
            KeyCode::Right => Intent::CursorRight,
            KeyCode::Up => Intent::CursorUp,
            KeyCode::Down => Intent::CursorDown,
            KeyCode::Home => Intent::CursorToLineStart,
            KeyCode::End => Intent::CursorToLineEnd,
            KeyCode::Esc => Intent::StopEditing,
            _ => Intent::Nothing,
        }
    }
}

pub fn key_intent(
    show_help: bool,
    input_mode: InputMode,
    navigation_mode: NavigationMode,
    key: KeyEvent,
) -> (r: Intent)
    ensures
        r == key_intent_spec(show_help, input_mode, navigation_mode, key),
{
    if !key.is_press {
        return Intent::Nothing;
    }
    if show_help {
        return match key.code {
            KeyCode::Esc => Intent::ToggleHelp,
            KeyCode::Char(c) => if c == 'q' || c == 'h' {
                Intent::ToggleHelp
            } else {
                Intent::Nothing
            },
            KeyCode::F(n) => if n == 1 {
                Intent::ToggleHelp
            } else {
                Intent::Nothing
            },
            _ => Intent::Nothing,
        };
    }
    let scrolling = navigation_mode == NavigationMode::Scroll;
    match input_mode {
        InputMode::Normal => match key.code {
            KeyCode::Char(c) => if c == 'q' {
                Intent::Quit
            } else if c == 'i' {
                Intent::StartEditing
            } else if c == 'j' {
                if scrolling {
                    Intent::ScrollDown
                } else {
                    Intent::MessageDown
                }
            } else if c == 'k' {
                if scrolling {
                    Intent::ScrollUp
                } else {
                    Intent::MessageUp
                }
            } else if c == 'v' {
                Intent::ToggleNavigation
            } else if c == 'c' {
                if !scrolling {
                    Intent::ToggleCollapse
                } else {
                    Intent::Nothing
                }
            } else if c == 't' {
                Intent::CycleToolDisplay
            } else if c == 'T' {
                Intent::CollapseToolMessages
            } else if c == 's' {
                Intent::ToggleSplitScreen
            } else if c == 'h' {
                Intent::ToggleHelp
            } else {
                Intent::Nothing
            },
            KeyCode::Up => if scrolling {
                Intent::ScrollUp
            } else {
                Intent::MessageUp
            },
            KeyCode::Down => if scrolling {
                Intent::ScrollDown
            } else {
                Intent::MessageDown
            },
            KeyCode::F(n) => if n == 1 {
                Intent::ToggleHelp
            } else {
                Intent::Nothing
            },
            KeyCode::Enter => Intent::Submit,
            _ => Intent::Nothing,
        },
        InputMode::Editing => match key.code {
            KeyCode::Enter => Intent::NewLine,
            KeyCode::Char(c) => if c == 'a' && key.control {
                Intent::CursorToStart
            } else if c == 'e' && key.control {
                Intent::CursorToEnd
            } else {
                Intent::Type(c)
            },
            KeyCode::Backspace => Intent::DeleteBefore,
            KeyCode::Left => Intent::CursorLeft,
            KeyCode::Right => Intent::CursorRight,
            KeyCode::Up => Intent::CursorUp,
            KeyCode::Down => Intent::CursorDown,
            KeyCode::Home => Intent::CursorToLineStart,
            KeyCode::End => Intent::CursorToLineEnd,
            KeyCode::Esc => Intent::StopEditing,
            _ => Intent::Nothing,
        },
    }
}

/// Application state.
#[derive(Debug)]
pub struct App {
    /// Current input mode.
    pub input_mode: InputMode,
    /// Current value of the input box.
    pub input: String,
    /// Position of the cursor in the input, in characters.
    pub input_cursor_position: usize,
    /// The conversation as shown: the entries of the chain, in chain order.
    pub messages: Vec<ChatMessage>,
    /// Whether we should quit.
    pub should_quit: bool,
    /// Connection status.
    pub connection_status: String,
    /// Whether we are waiting for a response.
    pub waiting_for_response: bool,
    /// Thinking animation state.
    pub thinking_dots: String,
    /// Show help popup.
    pub show_help: bool,
    /// Vertical scroll offset; zero shows the most recent messages.
    pub vertical_scroll: usize,
    /// The client's head in the conversation chain.
    pub client_head: Option<String>,
    /// The ids of the entries held, in the order in which they came.
    pub message_chain: Vec<String>,
    /// Loading state during startup.
    pub loading_state: Option<LoadingState>,
    /// Whether we are in loading mode.
    pub is_loading: bool,
    /// The steps of the boot sequence.
    pub loading_steps: Vec<LoadingStep>,
    /// Position of the current step.
    pub current_step_index: usize,
    /// Whether the blinking boot cursor is visible.
    pub boot_cursor_visible: bool,
    /// Current navigation mode.
    pub navigation_mode: NavigationMode,
    /// Position of the selected message, in navigate mode.
    pub selected_message_index: Option<usize>,
    /// Whether to highlight the selected message.
    pub show_message_selection: bool,
    /// Positions of the collapsed messages.
    pub collapsed_messages: HashSet<usize>,
    /// Number of lines in the current input text.
    pub input_lines: usize,
    /// The line the cursor is on, counted from zero.
    pub cursor_line: usize,
    /// The column of the cursor on its line, counted from zero.
    pub cursor_col: usize,
    /// How much of a tool's input and output is shown.
    pub tool_display_mode: ToolDisplayMode,
    /// Whether the help panel is shown beside the conversation.
    pub show_split_screen: bool,
}

/// The local mirror of the conversation chain: the ids of the entries held,
/// in the order in which they came, and the entries themselves.
pub ghost struct MirrorView {
    pub ids: Seq<Seq<char>>,
    pub entries: Seq<ChatMessageView>,
}

/// The id `id` stands at position `i`.
pub open spec fn id_at(ids: Seq<Seq<char>>, id: Seq<char>, i: int) -> bool {
    0 <= i < ids.len() && ids[i] == id
}

/// The mirror holds an entry of the id `id`.
pub open spec fn has_id(ids: Seq<Seq<char>>, id: Seq<char>) -> bool {
    exists|i: int| id_at(ids, id, i)
}

impl MirrorView {
    pub open spec fn empty() -> MirrorView {
        MirrorView { ids: Seq::empty(), entries: Seq::empty() }
    }

    /// Each entry is held under its own id, and no id is held twice.
    pub open spec fn wf(self) -> bool {
        &&& self.ids.len() == self.entries.len()
        &&& forall|i: int|
            0 <= i < self.ids.len() ==> (#[trigger] self.entries[i]).id == Some(self.ids[i])
        &&& forall|i: int, j: int|
            0 <= i < j < self.ids.len() ==> (#[trigger] self.ids[i]) != (#[trigger] self.ids[j])
    }

    /// The mirror after `entry` has been put in under `id`: in place of the
    /// entry of that id where there is one, else as the newest entry. No id
    /// is ever inserted twice.
    pub open spec fn with_entry(self, id: Seq<char>, entry: ChatMessageView) -> MirrorView {
        let held = ChatMessageView { id: Some(id), ..entry };
        if has_id(self.ids, id) {
            MirrorView {
                entries: self.entries.update(choose|i: int| id_at(self.ids, id, i), held),
                ..self
            }
        } else {
            MirrorView { ids: self.ids.push(id), entries: self.entries.push(held) }
        }
    }

    /// The mirror after the entries of `history` have been put in, in
    /// order, each under its own id, or under the id that `made_up` has for
    /// its position where it has none.
    pub open spec fn with_history(
        self,
        history: Seq<ChatMessageView>,
        made_up: Seq<Seq<char>>,
    ) -> MirrorView
        recommends
            made_up.len() == history.len(),
        decreases history.len(),
    {
        if history.len() == 0 {
            self
        } else {
            let entry = history.last();
            let id = match entry.id {
                Some(id) => id,
                None => made_up[history.len() - 1],
            };
            self.with_history(history.drop_last(), made_up).with_entry(id, entry)
        }
    }
}

/// Putting an entry into a well-formed mirror leaves it well-formed, and of
/// the same length or longer by one.
pub proof fn lemma_with_entry_wf(mirror: MirrorView, id: Seq<char>, entry: ChatMessageView)
    requires
        mirror.wf(),
    ensures
        mirror.with_entry(id, entry).wf(),
        has_id(mirror.with_entry(id, entry).ids, id),
        mirror.with_entry(id, entry).ids.len() == if has_id(mirror.ids, id) {
            mirror.ids.len()
        } else {
            mirror.ids.len() + 1
        },
{
    let after = mirror.with_entry(id, entry);
    if has_id(mirror.ids, id) {
        let k = choose|i: int| id_at(mirror.ids, id, i);
        assert(id_at(after.ids, id, k));
    } else {
        let k = mirror.ids.len() as int;
        assert(id_at(after.ids, id, k));
        assert forall|i: int, j: int| 0 <= i < j < after.ids.len() implies (#[trigger] after.ids[i])
            != (#[trigger] after.ids[j]) by {
            if j == k {
                assert(!id_at(mirror.ids, id, i));
            }
        }
    }
}

/// In a well-formed mirror an id stands at one position only.
pub proof fn lemma_id_position(mirror: MirrorView, id: Seq<char>, i: int)
    requires
        mirror.wf(),
        id_at(mirror.ids, id, i),
    ensures
        has_id(mirror.ids, id),
        (choose|k: int| id_at(mirror.ids, id, k)) == i,
{
    let k = choose|k: int| id_at(mirror.ids, id, k);
    assert(id_at(mirror.ids, id, k));
    if k < i {
        assert(mirror.ids[k] != mirror.ids[i]);
    } else if i < k {
        assert(mirror.ids[i] != mirror.ids[k]);
    }
}

/// Putting a history in asks `made_up` only for the positions of the
/// history, so two lists of made-up ids that agree there give the same
/// mirror; and a well-formed mirror stays well-formed.
pub proof fn lemma_with_history(
    mirror: MirrorView,
    history: Seq<ChatMessageView>,
    first: Seq<Seq<char>>,
    second: Seq<Seq<char>>,
)
    requires
        mirror.wf(),
        first.len() >= history.len(),
        second.len() >= history.len(),
        forall|i: int| 0 <= i < history.len() ==> first[i] == second[i],
    ensures
        mirror.with_history(history, first) == mirror.with_history(history, second),
        mirror.with_history(history, first).wf(),
    decreases history.len(),
{
    if history.len() > 0 {
        lemma_with_history(mirror, history.drop_last(), first, second);
        let entry = history.last();
        let id = match entry.id {
            Some(id) => id,
            None => first[history.len() - 1],
        };
        lemma_with_entry_wf(mirror.with_history(history.drop_last(), first), id, entry);
    }
}

/// What to do about the conversation's history once the server has been
/// asked for its head.
#[derive(Debug, Clone, Copy, PartialEq, Eq, Structural)]
pub enum SyncPlan {
    /// The head could not be had: go on with what is there.
    Skip,
    /// The server has no head: there is no conversation yet, and nothing
    /// to fetch.
    NoConversation,
    /// The client stands at the server's head already.
    InSync,
    /// The heads differ: walk back from the server's head to the client's,
    /// and take in the entries that lie between.
    Reconcile,
}

impl SyncPlan {
    /// Whether the plan fetches anything from the server.
    pub open spec fn fetches(self) -> bool {
        self == SyncPlan::Reconcile
    }
}

/// What to do about the history, given what asking the server for its head
/// came to and where the client stands. Without a server head nothing is
/// fetched, whatever the client's head is. Heads are compared as ids.
pub open spec fn sync_plan_spec(
    server_head: Result<Option<Seq<char>>, ()>,
    client_head: Option<Seq<char>>,
) -> SyncPlan {
    match server_head {
        Err(_) => SyncPlan::Skip,
        Ok(None) => SyncPlan::NoConversation,
        Ok(Some(head)) => if client_head == Some(head) {
            SyncPlan::InSync
        } else {
            SyncPlan::Reconcile
        },
    }
}

/// A plan fetches exactly where there may be something new: where it
/// fetches nothing, reconciling would yield nothing, whatever the server
/// holds.
pub proof fn lemma_plan_fetches_nothing(
    store: Seq<ChatMessageView>,
    server_head: Option<Seq<char>>,
    client_head: Option<Seq<char>>,
)
    requires
        !sync_plan_spec(Ok(server_head), client_head).fetches(),
    ensures
        crate::chain::reconcile_spec(store, server_head, client_head) =~= Seq::empty(),
{
}

/// Milliseconds between two steps of an animation.
pub const ANIMATION_MILLIS: u64 = 500;

/// A step that has not started, for each message.
pub open spec fn pending_steps(messages: Seq<Seq<char>>) -> Seq<LoadingStepView> {
    Seq::new(
        messages.len(),
        |i: int| LoadingStepView { message: messages[i], status: StepStatusView::Pending },
    )
}

/// The steps with which an application starts out.
pub open spec fn initial_boot_messages() -> Seq<Seq<char>> {
    seq![
        "Initializing th-chat system"@,
        "Connecting to Theater runtime server"@,
        "Loading chat-state actor manifest"@,
        "Starting chat-state actor instance"@,
        "Opening communication channel"@,
        "Initializing MCP server connections"@,
        "Saving session data"@,
        "Syncing conversation history"@,
        "Preparing chat interface"@,
    ]
}

/// The steps of a boot that resumes or creates a session.
pub open spec fn session_boot_messages() -> Seq<Seq<char>> {
    seq![
        "Initializing session"@,
        "Connecting to Theater server"@,
        "Starting chat-state actor"@,
        "Opening communication channel"@,
        "Retrieving conversation metadata"@,
        "Syncing conversation history"@,
        "Preparing chat interface"@,
    ]
}

/// Adds a step that has not started to a list of steps.
fn push_pending(steps: &mut Vec<LoadingStep>, message: &str)
    ensures
        final(steps).deep_view() == old(steps).deep_view().push(
            LoadingStepView { message: message@, status: StepStatusView::Pending },
        ),
{
    let ghost before = steps.deep_view();
    steps.push(LoadingStep { message: message.to_owned(), status: StepStatus::Pending });
    assert(steps.deep_view() =~= before.push(
        LoadingStepView { message: message@, status: StepStatusView::Pending },
    ));
}

impl Default for App {
    /// An application without boot steps: loading, nothing typed, and no
    /// conversation.
    fn default() -> (r: App)
        ensures
            r.boot() == (BootView { steps: Seq::empty(), current: 0 }),
            r.is_loading,
            r.input@.len() == 0,
            r.input_cursor_position == 0,
            r.input_lines == 1,
            r.mirror() == MirrorView::empty(),
            r.client_head is None,
            r.vertical_scroll == 0,
            r.navigation_mode == NavigationMode::Scroll,
            r.selected_message_index is None,
            r.collapsed_messages@ == Set::<usize>::empty(),
            r.input_mode == InputMode::Normal,
            !r.should_quit,
            !r.show_help,
            r.starts_out(),
    {
        let r = App {
            input_mode: InputMode::Normal,
            input: String::new(),
            input_cursor_position: 0,
            messages: Vec::new(),
            should_quit: false,
            connection_status: "Disconnected".to_owned(),
            waiting_for_response: false,
            thinking_dots: ".".to_owned(),
            show_help: false,
            vertical_scroll: 0,
            client_head: None,
            message_chain: Vec::new(),
            loading_state: Some(LoadingState::ConnectingToServer(String::new())),
            is_loading: true,
            loading_steps: Vec::new(),
            current_step_index: 0,
            boot_cursor_visible: true,
            navigation_mode: NavigationMode::Scroll,
            selected_message_index: None,
            show_message_selection: false,
            collapsed_messages: HashSet::new(),
            input_lines: 1,
            cursor_line: 0,
            cursor_col: 0,
            tool_display_mode: ToolDisplayMode::Compact,
            show_split_screen: false,
        };
        assert(r.loading_steps.deep_view() =~= Seq::<LoadingStepView>::empty());
        assert(r.mirror().ids =~= Seq::<Seq<char>>::empty());
        assert(r.mirror().entries =~= Seq::<ChatMessageView>::empty());
        r
    }
}

impl App {
    /// What holds of an application that starts out, besides its boot
    /// steps: it is not connected and waits for nothing, it connects to a
    /// server not yet named, nothing is selected, and tools are shown in
    /// compact form.
    pub open spec fn starts_out(&self) -> bool {
        &&& self.connection_status@ == "Disconnected"@
        &&& !self.waiting_for_response
        &&& self.thinking_dots@ == "."@
        &&& self.loading_state matches Some(LoadingState::ConnectingToServer(address))
            && address@ == Seq::<char>::empty()
        &&& self.boot_cursor_visible
        &&& !self.show_message_selection
        &&& self.cursor_line == 0
        &&& self.cursor_col == 0
        &&& self.tool_display_mode == ToolDisplayMode::Compact
        &&& !self.show_split_screen
    }

    /// The boot sequence of the application.
    pub open spec fn boot(&self) -> BootView {
        BootView { steps: self.loading_steps.deep_view(), current: self.current_step_index as nat }
    }

    /// The input line and its cursor are as in `other`.
    pub open spec fn same_input(&self, other: &App) -> bool {
        &&& self.input_mode == other.input_mode
        &&& self.input == other.input
        &&& self.input_cursor_position == other.input_cursor_position
        &&& self.input_lines == other.input_lines
        &&& self.cursor_line == other.cursor_line
        &&& self.cursor_col == other.cursor_col
    }

    /// The mirror of the conversation chain is as in `other`.
    pub open spec fn same_chain(&self, other: &App) -> bool {
        &&& self.messages == other.messages
        &&& self.message_chain == other.message_chain
        &&& self.client_head == other.client_head
    }

    /// The boot sequence and the loading state are as in `other`.
    pub open spec fn same_boot(&self, other: &App) -> bool {
        &&& self.loading_state == other.loading_state
        &&& self.is_loading == other.is_loading
        &&& self.loading_steps == other.loading_steps
        &&& self.current_step_index == other.current_step_index
        &&& self.boot_cursor_visible == other.boot_cursor_visible
    }

    /// What is on view, and how, is as in `other`.
    pub open spec fn same_view(&self, other: &App) -> bool {
        &&& self.show_help == other.show_help
        &&& self.vertical_scroll == other.vertical_scroll
        &&& self.navigation_mode == other.navigation_mode
        &&& self.selected_message_index == other.selected_message_index
        &&& self.show_message_selection == other.show_message_selection
        &&& self.collapsed_messages == other.collapsed_messages
        &&& self.tool_display_mode == other.tool_display_mode
        &&& self.show_split_screen == other.show_split_screen
    }

    /// The connection status and the waiting animation are as in `other`.
    pub open spec fn same_status(&self, other: &App) -> bool {
        &&& self.should_quit == other.should_quit
        &&& self.connection_status == other.connection_status
        &&& self.waiting_for_response == other.waiting_for_response
        &&& self.thinking_dots == other.thinking_dots
    }

    /// Only the steps of the boot sequence and the position of the current
    /// one may differ from `other`.
    pub open spec fn same_but_steps(&self, other: &App) -> bool {
        &&& self.same_input(other)
        &&& self.same_chain(other)
        &&& self.same_view(other)
        &&& self.same_status(other)
        &&& self.loading_state == other.loading_state
        &&& self.is_loading == other.is_loading
        &&& self.boot_cursor_visible == other.boot_cursor_visible
    }

    /// An application that starts out: loading, nothing typed, no
    /// conversation, and the initial boot steps, none of them started.
    pub fn new(_debug: bool) -> (r: App)
        ensures
            r.boot() == (BootView { steps: pending_steps(initial_boot_messages()), current: 0 }),
            r.is_loading,
            r.input@.len() == 0,
            r.input_cursor_position == 0,
            r.input_lines == 1,
            r.mirror() == MirrorView::empty(),
            r.client_head is None,
            r.vertical_scroll == 0,
            r.navigation_mode == NavigationMode::Scroll,
            r.selected_message_index is None,
            r.collapsed_messages@ == Set::<usize>::empty(),
            r.input_mode == InputMode::Normal,
            !r.should_quit,
            !r.show_help,
            r.starts_out(),
    {
        let mut steps: Vec<LoadingStep> = Vec::new();
        assert(steps.deep_view() =~= Seq::<LoadingStepView>::empty());
        push_pending(&mut steps, "Initializing th-chat system");
        push_pending(&mut steps, "Connecting to Theater runtime server");
        push_pending(&mut steps, "Loading chat-state actor manifest");
        push_pending(&mut steps, "Starting chat-state actor instance");
        push_pending(&mut steps, "Opening communication channel");
        push_pending(&mut steps, "Initializing MCP server connections");
        push_pending(&mut steps, "Saving session data");
        push_pending(&mut steps, "Syncing conversation history");
        push_pending(&mut steps, "Preparing chat interface");
        assert(steps.deep_view() =~= pending_steps(initial_boot_messages()));
        let mut r = App::default();
        r.loading_steps = steps;
        r
    }

    /// Resets the boot sequence to the steps of a boot that resumes or
    /// creates a session, none of them started.
    pub fn initialize_loading_steps(&mut self)
        ensures
            final(self).boot() == (BootView {
                steps: pending_steps(session_boot_messages()),
                current: 0,
            }),
            final(self).is_loading,
            final(self).loading_state == old(self).loading_state,
            final(self).boot_cursor_visible == old(self).boot_cursor_visible,
            final(self).same_input(old(self)),
            final(self).same_chain(old(self)),
            final(self).same_view(old(self)),
            final(self).same_status(old(self)),
    {
        let mut steps: Vec<LoadingStep> = Vec::new();
        assert(steps.deep_view() =~= Seq::<LoadingStepView>::empty());
        push_pending(&mut steps, "Initializing session");
        push_pending(&mut steps, "Connecting to Theater server");
        push_pending(&mut steps, "Starting chat-state actor");
        push_pending(&mut steps, "Opening communication channel");
        push_pending(&mut steps, "Retrieving conversation metadata");
        push_pending(&mut steps, "Syncing conversation history");
        push_pending(&mut steps, "Preparing chat interface");
        assert(steps.deep_view() =~= pending_steps(session_boot_messages()));
        self.loading_steps = steps;
        self.current_step_index = 0;
        self.is_loading = true;
    }

    /// Starts the step at `step_index`, with a new display message if one is
    /// given, and makes it the current step. A step that cannot be started
    /// is left alone: one that does not exist, that lies before the current
    /// step, that has succeeded or failed, or that would be in progress
    /// beside another.
    pub fn start_loading_step(&mut self, step_index: usize, custom_message: Option<String>)
        ensures
            final(self).boot() == old(self).boot().started(
                step_index as nat,
                custom_message.deep_view(),
            ),
            final(self).same_but_steps(old(self)),
    {
        let ghost before = self.loading_steps.deep_view();
        if step_index >= self.loading_steps.len() || step_index < self.current_step_index {
            return ;
        }
        let settled = match &self.loading_steps[step_index].status {
            StepStatus::Success => true,
            StepStatus::Failed(_) => true,
            _ => false,
        };
        if settled {
            return ;
        }
        if self.current_step_index < self.loading_steps.len() && step_index
            != self.current_step_index {
            let busy = match &self.loading_steps[self.current_step_index].status {
                StepStatus::InProgress => true,
                _ => false,
            };
            if busy {
                return ;
            }
        }
        let message = match custom_message {
            Some(msg) => msg,
            None => self.loading_steps[step_index].message.clone(),
        };
        self.loading_steps[step_index] = LoadingStep { message, status: StepStatus::InProgress };
        self.current_step_index = step_index;
        assert(self.loading_steps.deep_view() =~= old(self).boot().started(
            step_index as nat,
            custom_message.deep_view(),
        ).steps);
    }

    /// Whether the current step is in progress.
    fn current_in_progress(&self) -> (r: bool)
        ensures
            r == self.boot().can_settle(),
    {
        if self.current_step_index < self.loading_steps.len() {
            match &self.loading_steps[self.current_step_index].status {
                StepStatus::InProgress => true,
                _ => false,
            }
        } else {
            false
        }
    }

    /// Marks the current step as succeeded and moves on to the next one.
    /// Without a step in progress nothing happens.
    pub fn complete_current_step(&mut self)
        ensures
            final(self).boot() == old(self).boot().completed(),
            final(self).same_but_steps(old(self)),
    {
        if self.current_in_progress() {
            let index = self.current_step_index;
            let count = self.loading_steps.len();
            assert(index < count);
            let next = index + 1;
            let message = self.loading_steps[index].message.clone();
            self.loading_steps[index] = LoadingStep { message, status: StepStatus::Success };
            self.current_step_index = next;
            assert(self.loading_steps.deep_view() =~= old(self).boot().completed().steps);
        }
    }

    /// Marks the current step as failed, for the given reason. The step
    /// stays current: whether the boot goes on is the caller's decision.
    /// Without a step in progress nothing happens.
    pub fn fail_current_step(&mut self, error: String)
        ensures
            final(self).boot() == old(self).boot().failed(error@),
            final(self).same_but_steps(old(self)),
    {
        if self.current_in_progress() {
            let index = self.current_step_index;
            let message = self.loading_steps[index].message.clone();
            self.loading_steps[index] = LoadingStep { message, status: StepStatus::Failed(error) };
            assert(self.loading_steps.deep_view() =~= old(self).boot().failed(error@).steps);
        }
    }

    /// Whether every step of the boot sequence has succeeded.
    pub fn is_loading_complete(&self) -> (r: bool)
        ensures
            r == self.boot().is_complete(),
    {
        let mut i: usize = 0;
        while i < self.loading_steps.len()
            invariant
                i <= self.loading_steps.len(),
                forall|j: int| 0 <= j < i ==> (#[trigger] self.boot().steps[j]).status is Success,
            decreases self.loading_steps.len() - i,
        {
            let done = match &self.loading_steps[i].status {
                StepStatus::Success => true,
                _ => false,
            };
            if !done {
                assert(!(self.boot().steps[i as int].status is Success));
                return false;
            }
            i += 1;
        }
        true
    }

    /// Ends loading: every step that has not failed counts as succeeded.
    pub fn finish_loading(&mut self)
        ensures
            !final(self).is_loading,
            final(self).loading_state is None,
            final(self).current_step_index == old(self).current_step_index,
            final(self).boot_cursor_visible == old(self).boot_cursor_visible,
            final(self).boot().steps.len() == old(self).boot().steps.len(),
            forall|i: int|
                0 <= i < old(self).boot().steps.len() ==> (#[trigger] final(self).boot().steps[i])
                    == (LoadingStepView {
                    status: if old(self).boot().steps[i].status is Failed {
                        old(self).boot().steps[i].status
                    } else {
                        StepStatusView::Success
                    },
                    ..old(self).boot().steps[i]
                }),
            old(self).boot().moved_forward_to(final(self).boot()),
            final(self).same_input(old(self)),
            final(self).same_chain(old(self)),
            final(self).same_view(old(self)),
            final(self).same_status(old(self)),
    {
        let ghost before = self.loading_steps.deep_view();
        let mut i: usize = 0;
        while i < self.loading_steps.len()
            invariant
                i <= self.loading_steps.len(),
                self.loading_steps.len() == before.len(),
                self.current_step_index == old(self).current_step_index,
                self.boot_cursor_visible == old(self).boot_cursor_visible,
                self.same_input(old(self)),
                self.same_chain(old(self)),
                self.same_view(old(self)),
                self.same_status(old(self)),
                forall|j: int|
                    i <= j < before.len() ==> (#[trigger] self.loading_steps.deep_view()[j])
                        == before[j],
                forall|j: int|
                    0 <= j < i ==> (#[trigger] self.loading_steps.deep_view()[j]) == (
                    LoadingStepView {
                        status: if before[j].status is Failed {
                            before[j].status
                        } else {
                            StepStatusView::Success
                        },
                        ..before[j]
                    }),
            decreases self.loading_steps.len() - i,
        {
            let open = match &self.loading_steps[i].status {
                StepStatus::Pending => true,
                StepStatus::InProgress => true,
                _ => false,
            };
            let ghost now = self.loading_steps.deep_view();
            if open {
                let message = self.loading_steps[i].message.clone();
                self.loading_steps[i] = LoadingStep { message, status: StepStatus::Success };
                assert(self.loading_steps.deep_view() =~= now.update(
                    i as int,
                    LoadingStepView { status: StepStatusView::Success, ..now[i as int] },
                ));
            }
            i += 1;
        }
        self.is_loading = false;
        self.loading_state = None;
    }

    /// The local mirror of the conversation chain.
    pub open spec fn mirror(&self) -> MirrorView {
        MirrorView { ids: self.message_chain.deep_view(), entries: self.messages.deep_view() }
    }

    /// The mirror holds each entry under its own id, and no id twice.
    pub open spec fn chain_wf(&self) -> bool {
        self.mirror().wf()
    }

    /// Nothing but the mirror of the chain, the client's head and the scroll
    /// offset may differ from `other`.
    pub open spec fn same_outside_chain(&self, other: &App) -> bool {
        &&& self.same_input(other)
        &&& self.same_boot(other)
        &&& self.same_status(other)
        &&& self.show_help == other.show_help
        &&& self.navigation_mode == other.navigation_mode
        &&& self.selected_message_index == other.selected_message_index
        &&& self.show_message_selection == other.show_message_selection
        &&& self.collapsed_messages == other.collapsed_messages
        &&& self.tool_display_mode == other.tool_display_mode
        &&& self.show_split_screen == other.show_split_screen
    }

    /// The application has gone from `before` to holding `entry` under
    /// `id`, showing the most recent messages; the client's head is as it
    /// was.
    pub open spec fn added(&self, before: &App, id: Seq<char>, entry: ChatMessageView) -> bool {
        &&& self.mirror() == before.mirror().with_entry(id, entry)
        &&& self.chain_wf()
        &&& self.vertical_scroll == 0
        &&& self.client_head == before.client_head
        &&& self.same_outside_chain(before)
    }

    /// Whether the mirror is well-formed: as many entries as ids, each
    /// entry under its own id, and no id twice.
    pub fn is_chain_consistent(&self) -> (r: bool)
        ensures
            r == self.chain_wf(),
    {
        if self.messages.len() != self.message_chain.len() {
            return false;
        }
        let mut i: usize = 0;
        while i < self.message_chain.len()
            invariant
                i <= self.message_chain.len(),
                self.messages.len() == self.message_chain.len(),
                forall|a: int|
                    0 <= a < i ==> (#[trigger] self.mirror().entries[a]).id == Some(
                        self.mirror().ids[a],
                    ),
                forall|a: int, b: int|
                    0 <= a < b < i ==> (#[trigger] self.mirror().ids[a]) != (
                    #[trigger] self.mirror().ids[b]),
            decreases self.message_chain.len() - i,
        {
            let own = match &self.messages[i].id {
                Some(id) => *id == self.message_chain[i],
                None => false,
            };
            if !own {
                assert(self.mirror().entries[i as int].id != Some(self.mirror().ids[i as int]));
                return false;
            }
            let mut k: usize = 0;
            while k < i
                invariant
                    k <= i,
                    i < self.message_chain.len(),
                    forall|a: int|
                        0 <= a < k ==> (#[trigger] self.mirror().ids[a]) != self.mirror().ids[i as int],
                decreases i - k,
            {
                if self.message_chain[k] == self.message_chain[i] {
                    assert(self.mirror().ids[k as int] == self.mirror().ids[i as int]);
                    return false;
                }
                k += 1;
            }
            i += 1;
        }
        true
    }

    /// Position of the id `id` in the chain.
    fn find_id(&self, id: &String) -> (r: Option<usize>)
        ensures
            match r {
                Some(i) => id_at(self.mirror().ids, id@, i as int),
                None => !has_id(self.mirror().ids, id@),
            },
    {
        let mut i: usize = 0;
        while i < self.message_chain.len()
            invariant
                i <= self.message_chain.len(),
                forall|j: int| 0 <= j < i ==> !id_at(self.mirror().ids, id@, j),
            decreases self.message_chain.len() - i,
        {
            if self.message_chain[i] == *id {
                return Some(i);
            }
            i += 1;
        }
        None
    }

    /// The entry held under the id `id`, if there is one.
    pub fn message_by_id(&self, id: &String) -> (r: Option<&ChatMessage>)
        requires
            self.chain_wf(),
        ensures
            match r {
                Some(entry) => has_id(self.mirror().ids, id@) && entry.deep_view().id == Some(id@)
                    && exists|i: int|
                    id_at(self.mirror().ids, id@, i) && self.mirror().entries[i]
                        == entry.deep_view(),
                None => !has_id(self.mirror().ids, id@),
            },
    {
        match self.find_id(id) {
            Some(i) => {
                assert(id_at(self.mirror().ids, id@, i as int));
                assert(self.mirror().entries[i as int].id == Some(self.mirror().ids[i as int]));
                assert(self.mirror().entries[i as int] == self.messages[i as int].deep_view());
                Some(&self.messages[i])
            },
            None => None,
        }
    }

    /// Puts `message` into the mirror under its own id, or under
    /// `generated_id` where it has none, and shows the most recent messages.
    pub fn add_message_with_id(&mut self, message: ChatMessage, generated_id: String)
        requires
            old(self).chain_wf(),
        ensures
            final(self).added(
                old(self),
                match message.id {
                    Some(id) => id@,
                    None => generated_id@,
                },
                message.deep_view(),
            ),
    {
        let message_id = match &message.id {
            Some(id) => id.clone(),
            None => generated_id,
        };
        let ghost entry = message.deep_view();
        let ghost before = self.mirror();
        let held = ChatMessage {
            id: Some(message_id.clone()),
            parent_id: message.parent_id,
            entry: message.entry,
        };
        proof {
            lemma_with_entry_wf(before, message_id@, entry);
        }
        match self.find_id(&message_id) {
            Some(i) => {
                proof {
                    lemma_id_position(before, message_id@, i as int);
                }
                self.messages[i] = held;
                assert(self.messages.deep_view() =~= before.with_entry(message_id@, entry).entries);
            },
            None => {
                self.message_chain.push(message_id);
                self.messages.push(held);
                assert(self.message_chain.deep_view() =~= before.with_entry(
                    message_id@,
                    entry,
                ).ids);
                assert(self.messages.deep_view() =~= before.with_entry(message_id@, entry).entries);
            },
        }
        self.vertical_scroll = 0;
    }

    /// Puts `message` into the mirror and shows the most recent messages.
    /// An entry that came without an id is held under a fresh id made up
    /// here, so that it has a stable key until the server's id is known.
    pub fn add_message_to_chain(&mut self, message: ChatMessage)
        requires
            old(self).chain_wf(),
        ensures
            exists|id: Seq<char>|
                #![trigger final(self).added(old(self), id, message.deep_view())]
                {
                    &&& final(self).added(old(self), id, message.deep_view())
                    &&& message.id is Some ==> id == message.id.unwrap()@
                    &&& message.id is None ==> exists|random_part: Seq<char>|
                        random_part.len() == crate::ident::UUID_LENGTH && id
                            == crate::ident::LOCAL_ID_PREFIX@ + random_part
                },
    {
        if message.id.is_some() {
            let ghost id = message.id.unwrap()@;
            self.add_message_with_id(message, String::new());
            assert(final(self).added(old(self), id, message.deep_view()));
        } else {
            let generated = crate::ident::new_local_message_id();
            let ghost id = generated@;
            self.add_message_with_id(message, generated);
            assert(final(self).added(old(self), id, message.deep_view()));
        }
    }

    /// Takes in what the actor pushed over the channel: a new entry goes
    /// into the mirror, a head update moves the client's head, and anything
    /// else changes nothing.
    pub fn process_channel_message(&mut self, payload: ChatStateResponse)
        requires
            old(self).chain_wf(),
        ensures
            final(self).chain_wf(),
            match payload {
                ChatStateResponse::ChatMessage { message } => exists|id: Seq<char>|
                    #![trigger final(self).added(old(self), id, message.deep_view())]
                    final(self).added(old(self), id, message.deep_view()) && (message.id is Some
                        ==> id == message.id.unwrap()@),
                ChatStateResponse::Head { head } => {
                    &&& final(self).client_head == head
                    &&& final(self).messages == old(self).messages
                    &&& final(self).message_chain == old(self).message_chain
                    &&& final(self).vertical_scroll == old(self).vertical_scroll
                    &&& final(self).same_outside_chain(old(self))
                },
                _ => *final(self) == *old(self),
            },
    {
        match payload {
            ChatStateResponse::ChatMessage { message } => {
                self.add_message_to_chain(message);
            },
            ChatStateResponse::Head { head } => {
                self.client_head = head;
            },
            _ => {},
        }
    }

    /// Forgets the conversation: no entries, no head.
    pub fn clear_conversation(&mut self)
        ensures
            final(self).mirror() == MirrorView::empty(),
            final(self).chain_wf(),
            final(self).client_head is None,
            final(self).vertical_scroll == old(self).vertical_scroll,
            final(self).same_outside_chain(old(self)),
    {
        self.messages.clear();
        self.message_chain.clear();
        self.client_head = None;
        assert(self.mirror().ids =~= Seq::<Seq<char>>::empty());
        assert(self.mirror().entries =~= Seq::<ChatMessageView>::empty());
    }

    /// What to do about the history, given what asking the server for its
    /// head came to. Without a server head nothing is fetched, whatever the
    /// client's head is. Heads are compared as ids, not by what they point
    /// to.
    pub fn sync_plan(&self, server_head: &Result<Option<String>, crate::chat::ChatError>) -> (r:
        SyncPlan)
        ensures
            r == sync_plan_spec(
                match *server_head {
                    Ok(head) => Ok(head.deep_view()),
                    Err(_) => Err(()),
                },
                self.client_head.deep_view(),
            ),
    {
        match server_head {
            Err(_) => SyncPlan::Skip,
            Ok(None) => SyncPlan::NoConversation,
            Ok(Some(head)) => {
                let known = match &self.client_head {
                    Some(own) => *own == *head,
                    None => false,
                };
                if known {
                    SyncPlan::InSync
                } else {
                    SyncPlan::Reconcile
                }
            },
        }
    }

    /// Takes in the entries that a reconciliation returned, oldest first,
    /// behind those already held, and moves the client's head to
    /// `server_head`: the client is then in sync.
    pub fn append_reconciled(&mut self, entries: &Vec<ChatMessage>, server_head: Option<String>)
        requires
            old(self).chain_wf(),
        ensures
            exists|made_up: Seq<Seq<char>>|
                made_up.len() == entries.len() && final(self).mirror()
                    == #[trigger] old(self).mirror().with_history(entries.deep_view(), made_up),
            final(self).chain_wf(),
            final(self).client_head == server_head,
            final(self).vertical_scroll == if entries.len() > 0 {
                0
            } else {
                old(self).vertical_scroll
            },
            final(self).same_outside_chain(old(self)),
            sync_plan_spec(Ok(server_head.deep_view()), final(self).client_head.deep_view())
                != SyncPlan::Reconcile,
    {
        let ghost start = self.mirror();
        let ghost given = entries.deep_view();
        let ghost mut made_up: Seq<Seq<char>> = Seq::empty();
        let mut i: usize = 0;
        proof {
            assert(given.take(0) =~= Seq::<ChatMessageView>::empty());
        }
        while i < entries.len()
            invariant
                i <= entries.len(),
                given == entries.deep_view(),
                start == old(self).mirror(),
                start.wf(),
                made_up.len() == i,
                self.mirror() == start.with_history(given.take(i as int), made_up),
                self.chain_wf(),
                self.vertical_scroll == if i > 0 {
                    0
                } else {
                    old(self).vertical_scroll
                },
                self.same_outside_chain(old(self)),
            decreases entries.len() - i,
        {
            let message = entries[i].clone();
            let ghost before = *self;
            let ghost earlier = made_up;
            self.add_message_to_chain(message);
            proof {
                let id = choose|id: Seq<char>|
                    #![trigger self.added(&before, id, message.deep_view())]
                    self.added(&before, id, message.deep_view()) && (message.id is Some ==> id
                        == message.id.unwrap()@);
                made_up = earlier.push(id);
                assert(given.take(i + 1).drop_last() =~= given.take(i as int));
                assert(given.take(i + 1).last() == given[i as int]);
                lemma_with_history(start, given.take(i as int), earlier, made_up);
            }
            i += 1;
        }
        self.client_head = server_head;
        proof {
            assert(given.take(i as int) =~= given);
        }
    }

    /// Replaces the conversation by `history`, oldest entry first, and
    /// moves the client's head to `server_head`.
    pub fn load_history(&mut self, history: &Vec<ChatMessage>, server_head: Option<String>)
        ensures
            exists|made_up: Seq<Seq<char>>|
                made_up.len() == history.len() && final(self).mirror()
                    == #[trigger] MirrorView::empty().with_history(history.deep_view(), made_up),
            final(self).chain_wf(),
            final(self).client_head == server_head,
            final(self).vertical_scroll == if history.len() > 0 {
                0
            } else {
                old(self).vertical_scroll
            },
            final(self).same_outside_chain(old(self)),
    {
        self.clear_conversation();
        let ghost entries = history.deep_view();
        let ghost mut made_up: Seq<Seq<char>> = Seq::empty();
        let mut i: usize = 0;
        proof {
            assert(entries.take(0) =~= Seq::<ChatMessageView>::empty());
        }
        while i < history.len()
            invariant
                i <= history.len(),
                entries == history.deep_view(),
                made_up.len() == i,
                self.mirror() == MirrorView::empty().with_history(entries.take(i as int), made_up),
                self.chain_wf(),
                self.vertical_scroll == if i > 0 {
                    0
                } else {
                    old(self).vertical_scroll
                },
                self.same_outside_chain(old(self)),
            decreases history.len() - i,
        {
            let message = history[i].clone();
            let ghost before = *self;
            let ghost earlier = made_up;
            self.add_message_to_chain(message);
            proof {
                let id = choose|id: Seq<char>|
                    #![trigger self.added(&before, id, message.deep_view())]
                    self.added(&before, id, message.deep_view()) && (message.id is Some ==> id
                        == message.id.unwrap()@);
                made_up = earlier.push(id);
                assert(entries.take(i + 1).drop_last() =~= entries.take(i as int));
                assert(entries.take(i + 1).last() == entries[i as int]);
                assert(MirrorView::empty().wf());
                lemma_with_history(MirrorView::empty(), entries.take(i as int), earlier, made_up);
            }
            i += 1;
        }
        self.client_head = server_head;
        proof {
            assert(entries.take(i as int) =~= entries);
        }
    }

    /// Nothing but the input text, its cursor and what is known of its
    /// lines may differ from `other`.
    pub open spec fn same_outside_input(&self, other: &App) -> bool {
        &&& self.input_mode == other.input_mode
        &&& self.same_chain(other)
        &&& self.same_boot(other)
        &&& self.same_view(other)
        &&& self.same_status(other)
    }

    /// Nothing but the cursor of the input may differ from `other`.
    pub open spec fn same_but_cursor(&self, other: &App) -> bool {
        &&& self.same_outside_input(other)
        &&& self.input == other.input
        &&& self.input_lines == other.input_lines
        &&& self.cursor_line == other.cursor_line
        &&& self.cursor_col == other.cursor_col
    }

    /// A cursor position, held within the input.
    pub open spec fn clamped(&self, position: int) -> int {
        if position <= self.input@.len() {
            position
        } else {
            self.input@.len() as int
        }
    }

    fn clamp_cursor(&self, new_cursor_pos: usize) -> (r: usize)
        ensures
            r == self.clamped(new_cursor_pos as int),
            self.input@.len() <= usize::MAX,
    {
        let len = self.input.as_str().unicode_len();
        if new_cursor_pos <= len {
            new_cursor_pos
        } else {
            len
        }
    }

    /// Moves the cursor one character to the left, if it is not at the
    /// start.
    pub fn move_cursor_left(&mut self)
        ensures
            final(self).input_cursor_position == old(self).clamped(
                if old(self).input_cursor_position > 0 {
                    old(self).input_cursor_position - 1
                } else {
                    0
                },
            ),
            final(self).same_but_cursor(old(self)),
    {
        let cursor_moved_left = if self.input_cursor_position > 0 {
            self.input_cursor_position - 1
        } else {
            0
        };
        self.input_cursor_position = self.clamp_cursor(cursor_moved_left);
    }

    /// Moves the cursor one character to the right, if it is not at the
    /// end.
    pub fn move_cursor_right(&mut self)
        ensures
            final(self).input_cursor_position == old(self).clamped(
                old(self).input_cursor_position + 1,
            ),
            final(self).same_but_cursor(old(self)),
    {
        let cursor_moved_right = if self.input_cursor_position < usize::MAX {
            self.input_cursor_position + 1
        } else {
            usize::MAX
        };
        self.input_cursor_position = self.clamp_cursor(cursor_moved_right);
    }

    /// The number of lines shown for a text: as a reader counts them, but
    /// at least one.
    pub open spec fn shown_lines(text: Seq<char>) -> int {
        if crate::input::lines_count_spec(text) < 1 {
            1
        } else {
            crate::input::lines_count_spec(text)
        }
    }

    /// Types a character at the cursor, and moves the cursor behind it. A
    /// cursor beyond the end types at the end. After a line break the lines
    /// of the input are counted anew.
    pub fn enter_char(&mut self, new_char: char)
        ensures
            final(self).input@ == old(self).input@.insert(
                old(self).clamped(old(self).input_cursor_position as int),
                new_char,
            ),
            final(self).input_cursor_position == final(self).clamped(
                old(self).input_cursor_position + 1,
            ),
            final(self).input_lines == if new_char == '\n' {
                App::shown_lines(final(self).input@)
            } else {
                old(self).input_lines as int
            },
            final(self).cursor_line == old(self).cursor_line,
            final(self).cursor_col == old(self).cursor_col,
            final(self).same_outside_input(old(self)),
    {
        let mut chars = crate::text::chars_of(self.input.as_str());
        crate::text::insert_char(&mut chars, self.input_cursor_position, new_char);
        self.input = crate::text::text_of(&chars, 0, chars.len());
        assert(self.input@ =~= chars@);
        self.move_cursor_right();
        if new_char == '\n' {
            let lines = crate::input::count_lines(&chars);
            self.input_lines = if lines < 1 {
                1
            } else {
                lines
            };
        }
    }

    /// Breaks the line at the cursor.
    pub fn insert_newline(&mut self)
        ensures
            final(self).input@ == old(self).input@.insert(
                old(self).clamped(old(self).input_cursor_position as int),
                '\n',
            ),
            final(self).input_cursor_position == final(self).clamped(
                old(self).input_cursor_position + 1,
            ),
            final(self).input_lines == App::shown_lines(final(self).input@),
            final(self).cursor_line == old(self).cursor_line,
            final(self).cursor_col == old(self).cursor_col,
            final(self).same_outside_input(old(self)),
    {
        self.enter_char('\n');
    }

    /// The input after the character before the cursor has been deleted:
    /// unchanged where the cursor is at the start, or so far beyond the end
    /// that no character stands before it.
    pub open spec fn after_delete(&self) -> Seq<char> {
        if 0 < self.input_cursor_position <= self.input@.len() {
            self.input@.remove(self.input_cursor_position - 1)
        } else {
            self.input@
        }
    }

    /// Deletes the character before the cursor, and moves the cursor to
    /// where it stood. After a line break was deleted the lines of the
    /// input are counted anew.
    pub fn delete_char(&mut self)
        ensures
            final(self).input@ == old(self).after_delete(),
            final(self).input_cursor_position == if old(self).input_cursor_position == 0 {
                0
            } else {
                final(self).clamped(old(self).input_cursor_position - 1)
            },
            final(self).input_lines == if 0 < old(self).input_cursor_position <= old(
                self,
            ).input@.len() && old(self).input@[old(self).input_cursor_position - 1] == '\n' {
                App::shown_lines(final(self).input@)
            } else {
                old(self).input_lines as int
            },
            final(self).cursor_line == old(self).cursor_line,
            final(self).cursor_col == old(self).cursor_col,
            final(self).same_outside_input(old(self)),
    {
        if self.input_cursor_position != 0 {
            let current_index = self.input_cursor_position;
            let mut chars = crate::text::chars_of(self.input.as_str());
            let mut deleted_newline = false;
            if current_index <= chars.len() {
                let deleted = chars.remove(current_index - 1);
                deleted_newline = deleted == '\n';
                self.input = crate::text::text_of(&chars, 0, chars.len());
                assert(self.input@ =~= chars@);
            }
            self.move_cursor_left();
            if deleted_newline {
                let lines = crate::input::count_lines(&chars);
                self.input_lines = if lines < 1 {
                    1
                } else {
                    lines
                };
            }
        }
    }

    /// Empties the input and puts the cursor at its start.
    pub fn reset_input(&mut self)
        ensures
            final(self).input@ == Seq::<char>::empty(),
            final(self).input_cursor_position == 0,
            final(self).input_lines == old(self).input_lines,
            final(self).cursor_line == old(self).cursor_line,
            final(self).cursor_col == old(self).cursor_col,
            final(self).same_outside_input(old(self)),
    {
        self.input = String::new();
        self.input_cursor_position = 0;
    }

    /// Takes what has been typed as a message, given what is left of it
    /// once the white space at its ends is taken off: where nothing is
    /// left there is no message and the input stays; else the message is
    /// all of the input, and the input is emptied.
    pub fn submit_trimmed(&mut self, trimmed_input: &str) -> (r: Option<String>)
        ensures
            trimmed_input@.len() == 0 ==> r is None && *final(self) == *old(self),
            trimmed_input@.len() > 0 ==> {
                &&& r is Some
                &&& r.unwrap()@ == old(self).input@
                &&& final(self).input@ == Seq::<char>::empty()
                &&& final(self).input_cursor_position == 0
                &&& final(self).input_lines == old(self).input_lines
                &&& final(self).cursor_line == old(self).cursor_line
                &&& final(self).cursor_col == old(self).cursor_col
                &&& final(self).same_outside_input(old(self))
            },
    {
        if trimmed_input.unicode_len() == 0 {
            return None;
        }
        let message = self.input.clone();
        self.reset_input();
        Some(message)
    }

    /// Takes what has been typed as a message. Input that is empty but for
    /// white space is no message, and stays.
    pub fn submit_message(&mut self) -> (r: Option<String>)
        ensures
            final(self).submitted(old(self), r),
    {
        let whole = self.input.clone();
        let trimmed_input = crate::text::trim_text(whole.as_str());
        self.submit_trimmed(trimmed_input)
    }

    /// The number of lines that the line breaks of a text part it into,
    /// as far as it can be counted.
    pub open spec fn split_lines(text: Seq<char>) -> int {
        if crate::input::newline_count(text) < usize::MAX {
            crate::input::newline_count(text) + 1
        } else {
            usize::MAX as int
        }
    }

    /// Works out the line and the column of the cursor, and the number of
    /// lines of the input. A cursor beyond the end counts as at the end.
    pub fn calculate_cursor_position(&mut self, _available_width: usize)
        ensures
            (final(self).cursor_line as int, final(self).cursor_col as int)
                == crate::input::place_spec(
                old(self).input@,
                old(self).input_cursor_position as int,
            ),
            final(self).input_lines == App::split_lines(old(self).input@),
            final(self).input == old(self).input,
            final(self).input_cursor_position == old(self).input_cursor_position,
            final(self).same_outside_input(old(self)),
    {
        let chars = crate::text::chars_of(self.input.as_str());
        let place = crate::input::locate(&chars, self.input_cursor_position);
        let breaks = crate::input::count_newlines(&chars, chars.len());
        assert(chars@.take(chars.len() as int) =~= chars@);
        self.cursor_line = place.0;
        self.cursor_col = place.1;
        self.input_lines = if breaks < usize::MAX {
            breaks + 1
        } else {
            usize::MAX
        };
    }

    /// Moves the cursor up a line, keeping its column as far as the line
    /// above reaches. On the first line the cursor stays.
    pub fn move_cursor_up(&mut self, available_width: usize)
        ensures
            final(self).input_cursor_position == crate::input::line_up_spec(
                old(self).input@,
                old(self).input_cursor_position as int,
            ),
            (final(self).cursor_line as int, final(self).cursor_col as int)
                == crate::input::place_spec(
                old(self).input@,
                old(self).input_cursor_position as int,
            ),
            final(self).input_lines == App::split_lines(old(self).input@),
            final(self).input == old(self).input,
            final(self).same_outside_input(old(self)),
    {
        self.calculate_cursor_position(available_width);
        let chars = crate::text::chars_of(self.input.as_str());
        self.input_cursor_position = crate::input::line_up(&chars, self.input_cursor_position);
    }

    /// Moves the cursor down a line, keeping its column as far as the line
    /// below reaches. On the last line the cursor stays.
    pub fn move_cursor_down(&mut self, available_width: usize)
        ensures
            final(self).input_cursor_position == crate::input::line_down_spec(
                old(self).input@,
                old(self).input_cursor_position as int,
            ),
            (final(self).cursor_line as int, final(self).cursor_col as int)
                == crate::input::place_spec(
                old(self).input@,
                old(self).input_cursor_position as int,
            ),
            final(self).input_lines == App::split_lines(old(self).input@),
            final(self).input == old(self).input,
            final(self).same_outside_input(old(self)),
    {
        self.calculate_cursor_position(available_width);
        let chars = crate::text::chars_of(self.input.as_str());
        self.input_cursor_position = crate::input::line_down(&chars, self.input_cursor_position);
    }

    /// Moves the cursor to the start of its line.
    pub fn move_cursor_to_line_start(&mut self)
        requires
            old(self).input_cursor_position <= old(self).input@.len(),
        ensures
            final(self).input_cursor_position == crate::input::line_start_spec(
                old(self).input@.take(old(self).input_cursor_position as int),
            ),
            final(self).same_but_cursor(old(self)),
    {
        let chars = crate::text::chars_of(self.input.as_str());
        self.input_cursor_position = crate::input::line_start(&chars, self.input_cursor_position);
    }

    /// Moves the cursor to the end of its line. A cursor beyond the end of
    /// the input stays.
    pub fn move_cursor_to_line_end(&mut self)
        ensures
            final(self).input_cursor_position == if old(self).input_cursor_position <= old(
                self,
            ).input@.len() {
                crate::input::line_end_spec(
                    old(self).input@,
                    old(self).input_cursor_position as int,
                )
            } else {
                old(self).input_cursor_position as int
            },
            final(self).same_but_cursor(old(self)),
    {
        let chars = crate::text::chars_of(self.input.as_str());
        if self.input_cursor_position <= chars.len() {
            self.input_cursor_position = crate::input::line_end(&chars, self.input_cursor_position);
        }
    }

    /// The height of the input area: its lines and two for the border, but
    /// no less than 3 and no more than 10.
    pub fn get_input_height(&self) -> (r: u16)
        requires
            self.input_lines <= usize::MAX - 2,
        ensures
            r == if self.input_lines + 2 > 10 {
                10int
            } else if self.input_lines + 2 < 3 {
                3int
            } else {
                self.input_lines + 2
            },
    {
        let wanted = self.input_lines + 2;
        if wanted > 10 {
            10
        } else if wanted < 3 {
            3
        } else {
            wanted as u16
        }
    }

    /// Nothing of the input, the chain, the boot sequence or the status
    /// differs from `other`.
    pub open spec fn same_outside_view(&self, other: &App) -> bool {
        &&& self.same_input(other)
        &&& self.same_chain(other)
        &&& self.same_boot(other)
        &&& self.same_status(other)
    }

    /// Nothing but the scroll offset may differ from `other`.
    pub open spec fn same_but_scroll(&self, other: &App) -> bool {
        &&& self.same_outside_view(other)
        &&& self.show_help == other.show_help
        &&& self.navigation_mode == other.navigation_mode
        &&& self.selected_message_index == other.selected_message_index
        &&& self.show_message_selection == other.show_message_selection
        &&& self.collapsed_messages == other.collapsed_messages
        &&& self.tool_display_mode == other.tool_display_mode
        &&& self.show_split_screen == other.show_split_screen
    }

    /// Nothing but the selected message and the scroll offset may differ
    /// from `other`.
    pub open spec fn same_but_selection(&self, other: &App) -> bool {
        &&& self.same_outside_view(other)
        &&& self.show_help == other.show_help
        &&& self.navigation_mode == other.navigation_mode
        &&& self.show_message_selection == other.show_message_selection
        &&& self.collapsed_messages == other.collapsed_messages
        &&& self.tool_display_mode == other.tool_display_mode
        &&& self.show_split_screen == other.show_split_screen
    }

    /// Nothing but the set of collapsed messages may differ from `other`.
    pub open spec fn same_but_collapsed(&self, other: &App) -> bool {
        &&& self.same_outside_view(other)
        &&& self.show_help == other.show_help
        &&& self.vertical_scroll == other.vertical_scroll
        &&& self.navigation_mode == other.navigation_mode
        &&& self.selected_message_index == other.selected_message_index
        &&& self.show_message_selection == other.show_message_selection
        &&& self.tool_display_mode == other.tool_display_mode
        &&& self.show_split_screen == other.show_split_screen
    }

    /// Does nothing: the scroll state is worked out when the message area
    /// is drawn.
    pub fn update_scroll(&mut self)
        ensures
            *final(self) == *old(self),
    {
    }

    /// Scrolls up by a line, to older messages, as long as there are lines
    /// out of view.
    pub fn scroll_up(&mut self)
        ensures
            final(self).vertical_scroll == scrolled_up(
                clip(total_lines_spec(old(self).messages.deep_view())),
                old(self).vertical_scroll,
            ),
            final(self).same_but_scroll(old(self)),
    {
        let total_lines = calculate_total_display_lines(&self.messages);
        self.vertical_scroll = scroll_up_by_line(total_lines, self.vertical_scroll);
    }

    /// Scrolls down by a line, to newer messages, as far as the most
    /// recent.
    pub fn scroll_down(&mut self)
        ensures
            final(self).vertical_scroll == minus(old(self).vertical_scroll, 1),
            final(self).same_but_scroll(old(self)),
    {
        if self.vertical_scroll > 0 {
            self.vertical_scroll = self.vertical_scroll - 1;
        }
    }

    /// Shows or hides the help.
    pub fn toggle_help(&mut self)
        ensures
            final(self).show_help == !old(self).show_help,
            final(self).same_outside_view(old(self)),
            final(self).vertical_scroll == old(self).vertical_scroll,
            final(self).navigation_mode == old(self).navigation_mode,
            final(self).selected_message_index == old(self).selected_message_index,
            final(self).show_message_selection == old(self).show_message_selection,
            final(self).collapsed_messages == old(self).collapsed_messages,
            final(self).tool_display_mode == old(self).tool_display_mode,
            final(self).show_split_screen == old(self).show_split_screen,
    {
        self.show_help = !self.show_help;
    }

    /// Changes between scrolling and moving from message to message. On
    /// the way in the most recent message is selected, if there is one; on
    /// the way out nothing is.
    pub fn toggle_navigation_mode(&mut self)
        ensures
            old(self).navigation_mode == NavigationMode::Scroll ==> {
                &&& final(self).navigation_mode == NavigationMode::Navigate
                &&& final(self).show_message_selection
                &&& final(self).selected_message_index == if old(self).messages.len() > 0 {
                    Some((old(self).messages.len() - 1) as usize)
                } else {
                    old(self).selected_message_index
                }
            },
            old(self).navigation_mode == NavigationMode::Navigate ==> {
                &&& final(self).navigation_mode == NavigationMode::Scroll
                &&& !final(self).show_message_selection
                &&& final(self).selected_message_index is None
            },
            final(self).same_outside_view(old(self)),
            final(self).show_help == old(self).show_help,
            final(self).vertical_scroll == old(self).vertical_scroll,
            final(self).collapsed_messages == old(self).collapsed_messages,
            final(self).tool_display_mode == old(self).tool_display_mode,
            final(self).show_split_screen == old(self).show_split_screen,
    {
        match self.navigation_mode {
            NavigationMode::Scroll => {
                self.navigation_mode = NavigationMode::Navigate;
                self.show_message_selection = true;
                if self.messages.len() > 0 {
                    self.selected_message_index = Some(self.messages.len() - 1);
                }
            },
            NavigationMode::Navigate => {
                self.navigation_mode = NavigationMode::Scroll;
                self.show_message_selection = false;
                self.selected_message_index = None;
            },
        }
    }

    /// The scroll offset at which the message at `selected` is in view; the
    /// offset as it is where there is no such message.
    pub open spec fn scroll_showing(&self, selected: Option<usize>) -> usize {
        match selected {
            Some(index) => if index < self.messages.len() {
                scroll_to_show(
                    clip(estimated_start(self.messages.deep_view(), index as int)),
                    clip(total_lines_spec(self.messages.deep_view())),
                    self.vertical_scroll,
                )
            } else {
                self.vertical_scroll
            },
            None => self.vertical_scroll,
        }
    }

    /// Scrolls so that the selected message is in view.
    pub fn ensure_selected_message_visible(&mut self)
        ensures
            final(self).vertical_scroll == old(self).scroll_showing(
                old(self).selected_message_index,
            ),
            final(self).same_but_scroll(old(self)),
    {
        if let Some(selected) = self.selected_message_index {
            if selected < self.messages.len() {
                let start = estimate_start_line(&self.messages, selected);
                let total = calculate_total_display_lines(&self.messages);
                self.vertical_scroll = scroll_for(start, total, self.vertical_scroll);
            }
        }
    }

    /// The message that moving up selects: the one before the selected
    /// one, or the most recent where none is selected. Nothing changes
    /// outside navigate mode, without messages, or at the first message.
    pub open spec fn selection_above(&self) -> Option<usize> {
        if self.navigation_mode == NavigationMode::Navigate && self.messages.len() > 0 {
            match self.selected_message_index {
                Some(index) => if index > 0 {
                    Some((index - 1) as usize)
                } else {
                    self.selected_message_index
                },
                None => Some((self.messages.len() - 1) as usize),
            }
        } else {
            self.selected_message_index
        }
    }

    /// The message that moving down selects: the one after the selected
    /// one, or the first where none is selected. Nothing changes outside
    /// navigate mode, without messages, or at the last message.
    pub open spec fn selection_below(&self) -> Option<usize> {
        if self.navigation_mode == NavigationMode::Navigate && self.messages.len() > 0 {
            match self.selected_message_index {
                Some(index) => if index < self.messages.len() - 1 {
                    Some((index + 1) as usize)
                } else {
                    self.selected_message_index
                },
                None => Some(0usize),
            }
        } else {
            self.selected_message_index
        }
    }

    /// Selects the message above, and scrolls to it.
    pub fn navigate_message_up(&mut self)
        ensures
            final(self).selected_message_index == old(self).selection_above(),
            final(self).vertical_scroll == if old(self).selection_above() == old(
                self,
            ).selected_message_index {
                old(self).vertical_scroll
            } else {
                old(self).scroll_showing(old(self).selection_above())
            },
            final(self).same_but_selection(old(self)),
    {
        if self.navigation_mode == NavigationMode::Navigate && self.messages.len() > 0 {
            match self.selected_message_index {
                Some(index) => {
                    if index > 0 {
                        self.selected_message_index = Some(index - 1);
                        self.ensure_selected_message_visible();
                    }
                },
                None => {
                    self.selected_message_index = Some(self.messages.len() - 1);
                    self.ensure_selected_message_visible();
                },
            }
        }
    }

    /// Selects the message below, and scrolls to it.
    pub fn navigate_message_down(&mut self)
        ensures
            final(self).selected_message_index == old(self).selection_below(),
            final(self).vertical_scroll == if old(self).selection_below() == old(
                self,
            ).selected_message_index {
                old(self).vertical_scroll
            } else {
                old(self).scroll_showing(old(self).selection_below())
            },
            final(self).same_but_selection(old(self)),
    {
        if self.navigation_mode == NavigationMode::Navigate && self.messages.len() > 0 {
            match self.selected_message_index {
                Some(index) => {
                    if index < self.messages.len() - 1 {
                        self.selected_message_index = Some(index + 1);
                        self.ensure_selected_message_visible();
                    }
                },
                None => {
                    self.selected_message_index = Some(0);
                    self.ensure_selected_message_visible();
                },
            }
        }
    }

    /// The selected message, where the selection is shown.
    pub fn get_selected_message_index(&self) -> (r: Option<usize>)
        ensures
            r == if self.show_message_selection {
                self.selected_message_index
            } else {
                None
            },
    {
        if self.show_message_selection {
            self.selected_message_index
        } else {
            None
        }
    }

    /// Collapses the selected message, or opens it where it is collapsed.
    /// Without a selected message that exists nothing happens.
    pub fn toggle_message_collapse(&mut self)
        ensures
            final(self).collapsed_messages@ == match old(self).selected_message_index {
                Some(index) => if index < old(self).messages.len() {
                    if old(self).collapsed_messages@.contains(index) {
                        old(self).collapsed_messages@.remove(index)
                    } else {
                        old(self).collapsed_messages@.insert(index)
                    }
                } else {
                    old(self).collapsed_messages@
                },
                None => old(self).collapsed_messages@,
            },
            final(self).same_but_collapsed(old(self)),
    {
        broadcast use vstd::std_specs::hash::group_hash_axioms;

        if let Some(selected_index) = self.selected_message_index {
            if selected_index < self.messages.len() {
                if self.collapsed_messages.contains(&selected_index) {
                    self.collapsed_messages.remove(&selected_index);
                } else {
                    self.collapsed_messages.insert(selected_index);
                }
            }
        }
    }

    /// Whether the message at `index` is collapsed.
    pub fn is_message_collapsed(&self, index: usize) -> (r: bool)
        ensures
            r == self.collapsed_messages@.contains(index),
    {
        broadcast use vstd::std_specs::hash::group_hash_axioms;

        self.collapsed_messages.contains(&index)
    }

    /// Goes on to the next way of showing tools.
    pub fn cycle_tool_display_mode(&mut self)
        ensures
            final(self).tool_display_mode == old(self).tool_display_mode.cycle_spec(),
            final(self).same_outside_view(old(self)),
            final(self).show_help == old(self).show_help,
            final(self).vertical_scroll == old(self).vertical_scroll,
            final(self).navigation_mode == old(self).navigation_mode,
            final(self).selected_message_index == old(self).selected_message_index,
            final(self).show_message_selection == old(self).show_message_selection,
            final(self).collapsed_messages == old(self).collapsed_messages,
            final(self).show_split_screen == old(self).show_split_screen,
    {
        self.tool_display_mode = self.tool_display_mode.cycle();
    }

    /// Shows or hides the help panel beside the conversation.
    pub fn toggle_split_screen(&mut self)
        ensures
            *final(self) == (App { show_split_screen: !old(self).show_split_screen, ..*old(self) }),
    {
        self.show_split_screen = !self.show_split_screen;
    }

    /// Whether the message at `index` exists and holds three tool blocks
    /// or more.
    pub open spec fn tool_heavy_at(&self, index: usize) -> bool {
        index < self.messages.len() && tool_blocks(
            self.messages.deep_view()[index as int].entry.message().content,
        ) >= TOOL_HEAVY
    }

    /// Number of messages among the first `upto` that hold three tool
    /// blocks or more and are not collapsed.
    pub open spec fn open_tool_heavy(&self, upto: int) -> int
        decreases upto,
    {
        if upto <= 0 {
            0
        } else {
            self.open_tool_heavy(upto - 1) + if self.tool_heavy_at((upto - 1) as usize)
                && !self.collapsed_messages@.contains((upto - 1) as usize) {
                1int
            } else {
                0int
            }
        }
    }

    /// Collapses every message that holds three tool blocks or more.
    /// Returns how many were collapsed that had been open.
    pub fn auto_collapse_tool_messages(&mut self) -> (collapsed_count: usize)
        ensures
            collapsed_count == old(self).open_tool_heavy(old(self).messages.len() as int),
            forall|index: usize|
                #[trigger] final(self).collapsed_messages@.contains(index) == (old(
                    self,
                ).collapsed_messages@.contains(index) || old(self).tool_heavy_at(index)),
            final(self).same_but_collapsed(old(self)),
            collapsed_count <= old(self).messages.len(),
    {
        broadcast use vstd::std_specs::hash::group_hash_axioms;

        let mut collapsed_count: usize = 0;
        let mut index: usize = 0;
        while index < self.messages.len()
            invariant
                index <= self.messages.len(),
                collapsed_count <= index,
                collapsed_count == old(self).open_tool_heavy(index as int),
                self.same_but_collapsed(old(self)),
                self.messages == old(self).messages,
                forall|k: usize|
                    #[trigger] self.collapsed_messages@.contains(k) == (old(
                        self,
                    ).collapsed_messages@.contains(k) || (k < index && old(self).tool_heavy_at(
                        k,
                    ))),
            decreases self.messages.len() - index,
        {
            let ghost before = self.collapsed_messages@;
            let heavy = is_tool_heavy(&self.messages[index]);
            assert(self.messages.deep_view()[index as int] == self.messages[index as int].deep_view());
            assert(heavy == old(self).tool_heavy_at(index));
            assert(before.contains(index) == old(self).collapsed_messages@.contains(index));
            if heavy && !self.collapsed_messages.contains(&index) {
                self.collapsed_messages.insert(index);
                collapsed_count += 1;
                assert(self.collapsed_messages@ == before.insert(index));
            }
            assert forall|k: usize| #[trigger]
                self.collapsed_messages@.contains(k) == (old(self).collapsed_messages@.contains(k)
                    || (k < index + 1 && old(self).tool_heavy_at(k))) by {
                assert(before.contains(k) == (old(self).collapsed_messages@.contains(k) || (k
                    < index && old(self).tool_heavy_at(k))));
            }
            index += 1;
        }
        assert forall|k: usize| #[trigger]
            self.collapsed_messages@.contains(k) == (old(self).collapsed_messages@.contains(k)
                || old(self).tool_heavy_at(k)) by {
            assert(self.collapsed_messages@.contains(k) == (old(self).collapsed_messages@.contains(
                k,
            ) || (k < index && old(self).tool_heavy_at(k))));
        }
        collapsed_count
    }

    /// The dots that follow `dots` in the waiting animation: one, two,
    /// three, and one again.
    pub open spec fn next_dots(dots: Seq<char>) -> Seq<char> {
        if dots == "."@ {
            ".."@
        } else if dots == ".."@ {
            "..."@
        } else {
            "."@
        }
    }

    /// Moves the waiting animation on, where a response is waited for and
    /// more than half a second has passed since it last moved. Returns
    /// whether it moved, from when on the time counts anew.
    pub fn update_thinking_animation(&mut self, elapsed_millis: u64) -> (moved: bool)
        ensures
            moved == (old(self).waiting_for_response && elapsed_millis > ANIMATION_MILLIS),
            final(self).thinking_dots@ == if moved {
                App::next_dots(old(self).thinking_dots@)
            } else {
                old(self).thinking_dots@
            },
            final(self).should_quit == old(self).should_quit,
            final(self).connection_status == old(self).connection_status,
            final(self).waiting_for_response == old(self).waiting_for_response,
            final(self).same_input(old(self)),
            final(self).same_chain(old(self)),
            final(self).same_boot(old(self)),
            final(self).same_view(old(self)),
    {
        if self.waiting_for_response && elapsed_millis > ANIMATION_MILLIS {
            let next = if crate::text::str_eq(self.thinking_dots.as_str(), ".") {
                ".."
            } else if crate::text::str_eq(self.thinking_dots.as_str(), "..") {
                "..."
            } else {
                "."
            };
            self.thinking_dots = next.to_owned();
            true
        } else {
            false
        }
    }

    /// Lets the boot cursor blink: it changes where more than half a second
    /// has passed since it last did. Returns whether it changed, from when
    /// on the time counts anew.
    pub fn update_boot_animation(&mut self, elapsed_millis: u64) -> (moved: bool)
        ensures
            moved == (elapsed_millis > ANIMATION_MILLIS),
            final(self).boot_cursor_visible == (old(self).boot_cursor_visible != moved),
            final(self).loading_state == old(self).loading_state,
            final(self).is_loading == old(self).is_loading,
            final(self).loading_steps == old(self).loading_steps,
            final(self).current_step_index == old(self).current_step_index,
            final(self).same_input(old(self)),
            final(self).same_chain(old(self)),
            final(self).same_view(old(self)),
            final(self).same_status(old(self)),
    {
        if elapsed_millis > ANIMATION_MILLIS {
            self.boot_cursor_visible = !self.boot_cursor_visible;
            true
        } else {
            false
        }
    }

    /// The application has gone from `before` to where typing `c` leaves
    /// it: the character stands at the cursor, the cursor behind it, and
    /// after a line break the lines of the input are counted anew.
    pub open spec fn typed(&self, before: &App, c: char) -> bool {
        &&& self.input@ == before.input@.insert(
            before.clamped(before.input_cursor_position as int),
            c,
        )
        &&& self.input_cursor_position == self.clamped(before.input_cursor_position + 1)
        &&& self.input_lines == if c == '\n' {
            App::shown_lines(self.input@)
        } else {
            before.input_lines as int
        }
        &&& self.cursor_line == before.cursor_line
        &&& self.cursor_col == before.cursor_col
        &&& self.same_outside_input(before)
    }

    /// The application has gone from `before` to where deleting the
    /// character before the cursor leaves it.
    pub open spec fn deleted(&self, before: &App) -> bool {
        &&& self.input@ == before.after_delete()
        &&& self.input_cursor_position == if before.input_cursor_position == 0 {
            0
        } else {
            self.clamped(before.input_cursor_position - 1)
        }
        &&& self.input_lines == if 0 < before.input_cursor_position <= before.input@.len()
            && before.input@[before.input_cursor_position - 1] == '\n' {
            App::shown_lines(self.input@)
        } else {
            before.input_lines as int
        }
        &&& self.cursor_line == before.cursor_line
        &&& self.cursor_col == before.cursor_col
        &&& self.same_outside_input(before)
    }

    /// The application has gone from `before` to where a move of the cursor
    /// by a line to `position` leaves it: the cursor's line and column are
    /// those it had before the move, and the lines of the input are counted.
    pub open spec fn moved_by_line(&self, before: &App, position: int) -> bool {
        &&& self.input_cursor_position == position
        &&& (self.cursor_line as int, self.cursor_col as int) == crate::input::place_spec(
            before.input@,
            before.input_cursor_position as int,
        )
        &&& self.input_lines == App::split_lines(before.input@)
        &&& self.input == before.input
        &&& self.same_outside_input(before)
    }

    /// The application has gone from `before` to where submitting leaves
    /// it, with `r` as the message: input that is empty but for white space
    /// stays and is no message; any other input is the message, and the
    /// input is emptied.
    pub open spec fn submitted(&self, before: &App, r: Option<String>) -> bool {
        if crate::text::trimmed(before.input@).len() == 0 {
            r is None && *self == *before
        } else {
            &&& r is Some
            &&& r.unwrap()@ == before.input@
            &&& self.input@ == Seq::<char>::empty()
            &&& self.input_cursor_position == 0
            &&& self.input_lines == before.input_lines
            &&& self.cursor_line == before.cursor_line
            &&& self.cursor_col == before.cursor_col
            &&& self.same_outside_input(before)
        }
    }

    /// The application has gone from `before` to where doing what `intent`
    /// asks for leaves it, with `r` as the message to send.
    pub open spec fn did(&self, before: &App, intent: Intent, r: Option<String>) -> bool {
        match intent {
            Intent::Nothing => r is None && *self == *before,
            Intent::ToggleHelp => r is None && *self == (App {
                show_help: !before.show_help,
                ..*before
            }),
            Intent::Quit => r is None && *self == (App { should_quit: true, ..*before }),
            Intent::StartEditing => r is None && *self == (App {
                input_mode: InputMode::Editing,
                ..*before
            }),
            Intent::StopEditing => r is None && *self == (App {
                input_mode: InputMode::Normal,
                ..*before
            }),
            Intent::ScrollUp => r is None && *self == (App {
                vertical_scroll: scrolled_up(
                    clip(total_lines_spec(before.messages.deep_view())),
                    before.vertical_scroll,
                ),
                ..*before
            }),
            Intent::ScrollDown => r is None && *self == (App {
                vertical_scroll: minus(before.vertical_scroll, 1),
                ..*before
            }),
            Intent::MessageUp => r is None && *self == (App {
                selected_message_index: before.selection_above(),
                vertical_scroll: if before.selection_above() == before.selected_message_index {
                    before.vertical_scroll
                } else {
                    before.scroll_showing(before.selection_above())
                },
                ..*before
            }),
            Intent::MessageDown => r is None && *self == (App {
                selected_message_index: before.selection_below(),
                vertical_scroll: if before.selection_below() == before.selected_message_index {
                    before.vertical_scroll
                } else {
                    before.scroll_showing(before.selection_below())
                },
                ..*before
            }),
            Intent::ToggleNavigation => r is None && *self == (match before.navigation_mode {
                NavigationMode::Scroll => App {
                    navigation_mode: NavigationMode::Navigate,
                    show_message_selection: true,
                    selected_message_index: if before.messages.len() > 0 {
                        Some((before.messages.len() - 1) as usize)
                    } else {
                        before.selected_message_index
                    },
                    ..*before
                },
                NavigationMode::Navigate => App {
                    navigation_mode: NavigationMode::Scroll,
                    show_message_selection: false,
                    selected_message_index: None,
                    ..*before
                },
            }),
            Intent::ToggleCollapse => {
                &&& r is None
                &&& self.same_but_collapsed(before)
                &&& self.collapsed_messages@ == match before.selected_message_index {
                    Some(index) => if index < before.messages.len() {
                        if before.collapsed_messages@.contains(index) {
                            before.collapsed_messages@.remove(index)
                        } else {
                            before.collapsed_messages@.insert(index)
                        }
                    } else {
                        before.collapsed_messages@
                    },
                    None => before.collapsed_messages@,
                }
            },
            Intent::CycleToolDisplay => r is None && *self == (App {
                tool_display_mode: before.tool_display_mode.cycle_spec(),
                ..*before
            }),
            Intent::CollapseToolMessages => {
                &&& r is None
                &&& self.same_but_collapsed(before)
                &&& forall|index: usize|
                    #[trigger] self.collapsed_messages@.contains(index) == (
                    before.collapsed_messages@.contains(index) || before.tool_heavy_at(index))
            },
            Intent::ToggleSplitScreen => r is None && *self == (App {
                show_split_screen: !before.show_split_screen,
                ..*before
            }),
            Intent::Submit => self.submitted(before, r),
            Intent::NewLine => r is None && self.typed(before, '\n'),
            Intent::Type(c) => r is None && self.typed(before, c),
            Intent::DeleteBefore => r is None && self.deleted(before),
            Intent::CursorToStart => r is None && *self == (App {
                input_cursor_position: 0,
                ..*before
            }),
            Intent::CursorToEnd => r is None && self.input_cursor_position == before.input@.len()
                && self.same_but_cursor(before),
            Intent::CursorLeft => r is None && self.input_cursor_position == before.clamped(
                if before.input_cursor_position > 0 {
                    before.input_cursor_position - 1
                } else {
                    0
                },
            ) && self.same_but_cursor(before),
            Intent::CursorRight => r is None && self.input_cursor_position == before.clamped(
                before.input_cursor_position + 1,
            ) && self.same_but_cursor(before),
            Intent::CursorUp => r is None && self.moved_by_line(
                before,
                crate::input::line_up_spec(before.input@, before.input_cursor_position as int),
            ),
            Intent::CursorDown => r is None && self.moved_by_line(
                before,
                crate::input::line_down_spec(before.input@, before.input_cursor_position as int),
            ),
            Intent::CursorToLineStart => r is None && self.input_cursor_position
                == crate::input::line_start_spec(
                before.input@.take(before.input_cursor_position as int),
            ) && self.same_but_cursor(before),
            Intent::CursorToLineEnd => r is None && self.input_cursor_position == (
            if before.input_cursor_position <= before.input@.len() {
                crate::input::line_end_spec(before.input@, before.input_cursor_position as int)
            } else {
                before.input_cursor_position as int
            }) && self.same_but_cursor(before),
        }
    }

    /// Does what a key asked for. Returns the message to send where the
    /// key submitted one. Whatever the intent, the conversation and the boot
    /// sequence stay as they are.
    pub fn apply_intent(&mut self, intent: Intent) -> (r: Option<String>)
        requires
            intent == Intent::CursorToLineStart ==> old(self).input_cursor_position <= old(
                self,
            ).input@.len(),
        ensures
            final(self).did(old(self), intent, r),
            final(self).same_chain(old(self)),
            final(self).same_boot(old(self)),
            r is Some ==> intent == Intent::Submit,
    {
        match intent {
            Intent::Nothing => {},
            Intent::ToggleHelp => {
                self.toggle_help();
            },
            Intent::Quit => {
                self.should_quit = true;
            },
            Intent::StartEditing => {
                self.input_mode = InputMode::Editing;
            },
            Intent::StopEditing => {
                self.input_mode = InputMode::Normal;
            },
            Intent::ScrollUp => {
                self.scroll_up();
            },
            Intent::ScrollDown => {
                self.scroll_down();
            },
            Intent::MessageUp => {
                self.navigate_message_up();
            },
            Intent::MessageDown => {
                self.navigate_message_down();
            },
            Intent::ToggleNavigation => {
                self.toggle_navigation_mode();
            },
            Intent::ToggleCollapse => {
                self.toggle_message_collapse();
            },
            Intent::CycleToolDisplay => {
                self.cycle_tool_display_mode();
            },
            Intent::CollapseToolMessages => {
                let _ = self.auto_collapse_tool_messages();
            },
            Intent::ToggleSplitScreen => {
                self.toggle_split_screen();
            },
            Intent::Submit => {
                return self.submit_message();
            },
            Intent::NewLine => {
                self.insert_newline();
            },
            Intent::CursorToStart => {
                self.input_cursor_position = 0;
            },
            Intent::CursorToEnd => {
                let end = self.input.as_str().unicode_len();
                self.input_cursor_position = end;
            },
            Intent::Type(c) => {
                self.enter_char(c);
            },
            Intent::DeleteBefore => {
                self.delete_char();
            },
            Intent::CursorLeft => {
                self.move_cursor_left();
            },
            Intent::CursorRight => {
                self.move_cursor_right();
            },
            Intent::CursorUp => {
                self.move_cursor_up(INPUT_WIDTH);
            },
            Intent::CursorDown => {
                self.move_cursor_down(INPUT_WIDTH);
            },
            Intent::CursorToLineStart => {
                self.move_cursor_to_line_start();
            },
            Intent::CursorToLineEnd => {
                self.move_cursor_to_line_end();
            },
        }
        None
    }

    /// Takes a key event: works out what it asks for, and does it. Returns
    /// the message to send where the key submitted one.
    pub fn handle_key_event(&mut self, key_event: KeyEvent) -> (r: Option<String>)
        requires
            old(self).input_cursor_position <= old(self).input@.len(),
        ensures
            final(self).same_chain(old(self)),
            final(self).same_boot(old(self)),
            final(self).did(
                old(self),
                key_intent_spec(
                    old(self).show_help,
                    old(self).input_mode,
                    old(self).navigation_mode,
                    key_event,
                ),
                r,
            ),
            !key_event.is_press ==> r is None && *final(self) == *old(self),
            r is Some ==> r.unwrap()@ == old(self).input@,
    {
        let intent = key_intent(self.show_help, self.input_mode, self.navigation_mode, key_event);
        self.apply_intent(intent)
    }
}

} // verus!
