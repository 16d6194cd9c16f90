use th_chat::app::App;
use th_chat::boot::{
    progress_percent, session_opening, session_plan, should_sync, BootStep, SessionPlan,
};
use th_chat::config::{LoadingState, LoadingStep, StepStatus, ToolDisplayMode};

fn statuses(app: &App) -> Vec<StepStatus> {
    app.loading_steps.iter().map(|s| s.status.clone()).collect()
}

fn booting() -> App {
    let mut app = App::new(false);
    app.initialize_loading_steps();
    app
}

#[test]
fn boot_starts_with_pending_steps() {
    let app = App::new(true);
    assert_eq!(app.loading_steps.len(), 9);
    assert_eq!(app.loading_steps[0].message, "Initializing th-chat system");
    assert_eq!(app.loading_steps[8].message, "Preparing chat interface");
    assert!(app.loading_steps.iter().all(|s| s.status == StepStatus::Pending));
    assert_eq!(app.current_step_index, 0);
    assert!(app.is_loading);

    let app = booting();
    assert_eq!(app.loading_steps.len(), 7);
    assert_eq!(
        app.loading_steps[4],
        LoadingStep {
            message: "Retrieving conversation metadata".to_string(),
            status: StepStatus::Pending
        }
    );
    assert!(!app.is_loading_complete());
}

#[test]
fn steps_run_in_order_to_completion() {
    let mut app = booting();
    for index in 0..7 {
        app.start_loading_step(index, None);
        assert_eq!(app.loading_steps[index].status, StepStatus::InProgress);
        assert_eq!(app.current_step_index, index);
        assert!(!app.is_loading_complete());
        app.complete_current_step();
        assert_eq!(app.loading_steps[index].status, StepStatus::Success);
        assert_eq!(app.current_step_index, index + 1);
    }
    assert!(app.is_loading_complete());
    // Beyond the last step nothing happens.
    app.complete_current_step();
    app.fail_current_step("late".to_string());
    app.start_loading_step(7, None);
    assert_eq!(app.current_step_index, 7);
    assert!(app.is_loading_complete());
}

#[test]
fn start_overwrites_the_message_when_given() {
    let mut app = booting();
    app.start_loading_step(0, Some("Resuming session 'work'...".to_string()));
    assert_eq!(app.loading_steps[0].message, "Resuming session 'work'...");
    app.start_loading_step(0, None);
    assert_eq!(app.loading_steps[0].message, "Resuming session 'work'...");
    assert_eq!(app.loading_steps[0].status, StepStatus::InProgress);
}

#[test]
fn failure_marks_the_step_and_does_not_advance() {
    let mut app = booting();
    app.start_loading_step(0, None);
    app.fail_current_step("no route".to_string());
    assert_eq!(app.loading_steps[0].status, StepStatus::Failed("no route".to_string()));
    assert_eq!(app.current_step_index, 0);
    assert!(!app.is_loading_complete());
}

#[test]
fn settled_steps_never_change_and_the_index_never_decreases() {
    let mut app = booting();
    app.start_loading_step(0, None);
    app.complete_current_step();
    app.start_loading_step(1, None);
    app.fail_current_step("refused".to_string());
    let before = statuses(&app);
    assert_eq!(app.current_step_index, 1);

    // None of these may touch step 0 or step 1, or move the index back.
    app.start_loading_step(0, Some("again".to_string()));
    app.start_loading_step(1, Some("again".to_string()));
    app.complete_current_step();
    app.fail_current_step("other".to_string());
    assert_eq!(statuses(&app), before);
    assert_eq!(app.loading_steps[0].message, "Initializing session");
    assert_eq!(app.current_step_index, 1);

    // A later step can still be started: the boot goes on degraded.
    app.start_loading_step(3, None);
    assert_eq!(app.current_step_index, 3);
    assert_eq!(app.loading_steps[3].status, StepStatus::InProgress);
    assert_eq!(app.loading_steps[2].status, StepStatus::Pending);
    app.start_loading_step(2, None);
    assert_eq!(app.current_step_index, 3);
    assert_eq!(app.loading_steps[2].status, StepStatus::Pending);
}

#[test]
fn only_one_step_is_in_progress() {
    let mut app = booting();
    app.start_loading_step(1, None);
    app.start_loading_step(2, None);
    assert_eq!(app.loading_steps[1].status, StepStatus::InProgress);
    assert_eq!(app.loading_steps[2].status, StepStatus::Pending);
    assert_eq!(app.current_step_index, 1);
    let in_progress =
        app.loading_steps.iter().filter(|s| s.status == StepStatus::InProgress).count();
    assert_eq!(in_progress, 1);
}

#[test]
fn pending_steps_cannot_be_settled() {
    let mut app = booting();
    app.complete_current_step();
    app.fail_current_step("x".to_string());
    assert!(app.loading_steps.iter().all(|s| s.status == StepStatus::Pending));
    assert_eq!(app.current_step_index, 0);
}

#[test]
fn starting_a_step_that_does_not_exist_does_nothing() {
    let mut app = booting();
    app.start_loading_step(40, Some("x".to_string()));
    assert_eq!(app.current_step_index, 0);
    assert!(app.loading_steps.iter().all(|s| s.status == StepStatus::Pending));
}

#[test]
fn finish_loading_completes_what_has_not_failed() {
    let mut app = booting();
    app.start_loading_step(0, None);
    app.complete_current_step();
    app.start_loading_step(1, None);
    app.fail_current_step("bad".to_string());
    app.start_loading_step(2, None);
    app.finish_loading();
    assert!(!app.is_loading);
    assert_eq!(app.loading_state, None);
    assert_eq!(app.loading_steps[1].status, StepStatus::Failed("bad".to_string()));
    for index in [0, 2, 3, 4, 5, 6] {
        assert_eq!(app.loading_steps[index].status, StepStatus::Success);
    }
    assert_eq!(app.current_step_index, 2);
    assert!(!app.is_loading_complete());
}

#[test]
fn step_symbols() {
    assert_eq!(StepStatus::Pending.symbol(), "    ");
    assert_eq!(StepStatus::InProgress.symbol(), "[WAIT]");
    assert_eq!(StepStatus::Success.symbol(), "[ OK ]");
    assert_eq!(StepStatus::Failed("x".to_string()).symbol(), "[FAIL]");
}

#[test]
fn loading_state_messages() {
    assert_eq!(
        LoadingState::ConnectingToServer("127.0.0.1:9000".to_string()).message(),
        "Connecting to Theater server at 127.0.0.1:9000"
    );
    assert_eq!(
        LoadingState::StartingActor("/a/b/manifest.toml".to_string()).message(),
        "Starting chat-state actor from manifest.toml"
    );
    assert_eq!(
        LoadingState::StartingActor("manifest.toml".to_string()).message(),
        "Starting chat-state actor from manifest.toml"
    );
    assert_eq!(
        LoadingState::StartingActor("dir/".to_string()).message(),
        "Starting chat-state actor from "
    );
    assert_eq!(
        LoadingState::OpeningChannel("0123456789abcdef".to_string()).message(),
        "Opening communication channel to actor 01234567"
    );
    assert_eq!(
        LoadingState::InitializingMcp("2 of 3".to_string()).message(),
        "Initializing MCP servers: 2 of 3"
    );
    assert_eq!(LoadingState::Ready.message(), "System ready");
}

#[test]
fn boot_steps_and_their_failures() {
    let fatal: Vec<bool> = (0..7).map(|i| BootStep::at(i).unwrap().is_fatal()).collect();
    assert_eq!(fatal, vec![false, true, true, true, false, false, false]);
    assert_eq!(BootStep::at(7), None);
    assert_eq!(BootStep::Metadata.index(), 4);
    assert_eq!(BootStep::SyncHistory.index(), 5);
    assert_eq!(BootStep::Connect.failure_message("refused"), "Connection failed: refused");
    assert_eq!(
        BootStep::StartActor.failure_message("no manifest"),
        "Actor initialization failed: no manifest"
    );
    assert_eq!(BootStep::OpenChannel.failure_message("e"), "Channel setup failed: e");
    assert_eq!(BootStep::Metadata.failure_message("e"), "Metadata retrieval failed: e");
    assert_eq!(BootStep::SyncHistory.failure_message("e"), "History sync failed: e");
}

#[test]
fn session_plans() {
    assert_eq!(
        session_plan(true, false, false),
        SessionPlan { delete_stored: false, start_fresh: false, resuming: true }
    );
    assert_eq!(
        session_plan(false, false, false),
        SessionPlan { delete_stored: false, start_fresh: true, resuming: false }
    );
    assert_eq!(
        session_plan(true, false, true),
        SessionPlan { delete_stored: true, start_fresh: true, resuming: false }
    );
    // The default session is never deleted, not even to clear it.
    assert_eq!(
        session_plan(true, true, true),
        SessionPlan { delete_stored: false, start_fresh: false, resuming: false }
    );
    assert!(should_sync(true, false));
    assert!(!should_sync(true, true));
    assert!(!should_sync(false, false));
    assert!(!should_sync(false, true));
    assert_eq!(session_opening("work", true), "Resuming session 'work'...");
    assert_eq!(session_opening("work", false), "Initializing new session 'work'...");
}

#[test]
fn tool_display_modes_cycle() {
    assert_eq!(ToolDisplayMode::Minimal.cycle(), ToolDisplayMode::Compact);
    assert_eq!(ToolDisplayMode::Compact.cycle(), ToolDisplayMode::Full);
    assert_eq!(ToolDisplayMode::Full.cycle(), ToolDisplayMode::Minimal);
    assert_eq!(ToolDisplayMode::Full.display_name(), "Full");
}

#[test]
fn progress_is_the_share_of_steps_done() {
    assert_eq!(progress_percent(0, 7), 0);
    assert_eq!(progress_percent(1, 7), 14);
    assert_eq!(progress_percent(4, 7), 57);
    assert_eq!(progress_percent(6, 7), 85);
    assert_eq!(progress_percent(0, 1), 0);
    assert_eq!(progress_percent(usize::MAX - 1, usize::MAX), 99);
}
