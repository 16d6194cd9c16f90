use th_chat::app::{App, InputMode, NavigationMode, SyncPlan};
use th_chat::chain::{reconcile, ChainWalk};
use th_chat::chat::{
    ChatEntry, ChatError, ChatMessage, ChatStateResponse, CompletionResponse, ErrorInfo, Message,
    MessageContent, Role, ToolContent,
};
use th_chat::config::ToolDisplayMode;
use th_chat::display::{
    calculate_total_display_lines, count_message_lines, count_wrapped_lines, estimate_start_line,
    is_tool_heavy, scroll_for, scroll_up_by_line,
};
use th_chat::ident::{local_message_id, new_identifier, new_local_message_id};
use th_chat::input::{count_lines, line_down, line_up, locate};

fn text_message(id: Option<&str>, parent: Option<&str>, text: &str) -> ChatMessage {
    ChatMessage {
        id: id.map(|s| s.to_string()),
        parent_id: parent.map(|s| s.to_string()),
        entry: ChatEntry::Message(Message {
            role: Role::User,
            content: vec![MessageContent::Text { text: text.to_string() }],
        }),
    }
}

fn tool_use(n: usize) -> MessageContent {
    MessageContent::ToolUse {
        id: format!("call-{}", n),
        name: "read".to_string(),
        input: "null".to_string(),
    }
}

fn typed(text: &str) -> App {
    let mut app = App::new(false);
    for c in text.chars() {
        app.enter_char(c);
    }
    app
}

#[test]
fn typing_inserts_at_the_cursor() {
    let mut app = typed("helo");
    assert_eq!(app.input, "helo");
    assert_eq!(app.input_cursor_position, 4);
    app.move_cursor_left();
    app.enter_char('l');
    assert_eq!(app.input, "hello");
    assert_eq!(app.input_cursor_position, 4);
    app.move_cursor_right();
    app.move_cursor_right();
    assert_eq!(app.input_cursor_position, 5);
    for _ in 0..9 {
        app.move_cursor_left();
    }
    assert_eq!(app.input_cursor_position, 0);
    app.enter_char('é');
    assert_eq!(app.input, "éhello");
    assert_eq!(app.input_cursor_position, 1);
}

#[test]
fn a_cursor_beyond_the_end_types_at_the_end() {
    let mut app = typed("ab");
    app.input_cursor_position = 10;
    app.enter_char('c');
    assert_eq!(app.input, "abc");
    assert_eq!(app.input_cursor_position, 3);
}

#[test]
fn deleting_removes_the_character_before_the_cursor() {
    let mut app = typed("abc");
    app.move_cursor_left();
    app.delete_char();
    assert_eq!(app.input, "ac");
    assert_eq!(app.input_cursor_position, 1);
    app.delete_char();
    assert_eq!(app.input, "c");
    assert_eq!(app.input_cursor_position, 0);
    app.delete_char();
    assert_eq!(app.input, "c");
    assert_eq!(app.input_cursor_position, 0);
}

#[test]
fn lines_are_counted_when_a_break_comes_or_goes() {
    let mut app = typed("one");
    assert_eq!(app.input_lines, 1);
    app.insert_newline();
    assert_eq!(app.input, "one\n");
    assert_eq!(app.input_lines, 1);
    app.enter_char('t');
    app.insert_newline();
    app.enter_char('x');
    assert_eq!(app.input, "one\nt\nx");
    // Counted at the last break: "one\nt\n" has two lines.
    assert_eq!(app.input_lines, 2);
    app.delete_char();
    app.delete_char();
    assert_eq!(app.input, "one\nt");
    assert_eq!(app.input_lines, 2);
    assert_eq!(app.get_input_height(), 4);
    app.input_lines = 40;
    assert_eq!(app.get_input_height(), 10);
    app.input_lines = 0;
    assert_eq!(app.get_input_height(), 3);
}

#[test]
fn submitting_takes_the_input() {
    let mut app = typed("  hi there \n");
    assert_eq!(app.submit_message(), Some("  hi there \n".to_string()));
    assert_eq!(app.input, "");
    assert_eq!(app.input_cursor_position, 0);
    let mut blank = typed(" \t\n ");
    assert_eq!(blank.submit_message(), None);
    assert_eq!(blank.input, " \t\n ");
    assert_eq!(blank.input_cursor_position, 4);
    let mut empty = App::new(false);
    assert_eq!(empty.submit_message(), None);
}

#[test]
fn the_cursor_is_located_by_line_and_column() {
    let mut app = typed("ab\ncd\n\nefg");
    app.input_cursor_position = 4;
    app.calculate_cursor_position(80);
    assert_eq!((app.cursor_line, app.cursor_col, app.input_lines), (1, 1, 4));
    app.input_cursor_position = 2;
    app.calculate_cursor_position(80);
    assert_eq!((app.cursor_line, app.cursor_col), (0, 2));
    app.input_cursor_position = 3;
    app.calculate_cursor_position(80);
    assert_eq!((app.cursor_line, app.cursor_col), (1, 0));
    app.input_cursor_position = 6;
    app.calculate_cursor_position(80);
    assert_eq!((app.cursor_line, app.cursor_col), (2, 0));
    app.input_cursor_position = 99;
    app.calculate_cursor_position(80);
    assert_eq!((app.cursor_line, app.cursor_col), (3, 3));
    let mut empty = App::new(false);
    empty.calculate_cursor_position(80);
    assert_eq!((empty.cursor_line, empty.cursor_col, empty.input_lines), (0, 0, 1));
}

#[test]
fn the_cursor_moves_by_lines() {
    let mut app = typed("abcdef\nxy\nlonger line");
    app.input_cursor_position = 5;
    app.move_cursor_down(80);
    // Line 1 is shorter: the cursor goes to its end.
    assert_eq!(app.input_cursor_position, 9);
    assert_eq!((app.cursor_line, app.cursor_col), (0, 5));
    app.move_cursor_down(80);
    assert_eq!(app.input_cursor_position, 12);
    app.move_cursor_down(80);
    assert_eq!(app.input_cursor_position, 12);
    app.input_cursor_position = 18;
    app.move_cursor_up(80);
    assert_eq!(app.input_cursor_position, 9);
    app.move_cursor_up(80);
    assert_eq!(app.input_cursor_position, 2);
    app.move_cursor_up(80);
    assert_eq!(app.input_cursor_position, 2);

    app.input_cursor_position = 8;
    app.move_cursor_to_line_start();
    assert_eq!(app.input_cursor_position, 7);
    app.move_cursor_to_line_end();
    assert_eq!(app.input_cursor_position, 9);
    app.input_cursor_position = 14;
    app.move_cursor_to_line_end();
    assert_eq!(app.input_cursor_position, 21);
    app.move_cursor_to_line_start();
    assert_eq!(app.input_cursor_position, 10);
}

#[test]
fn line_geometry() {
    let chars: Vec<char> = "ab\ncd".chars().collect();
    assert_eq!(locate(&chars, 0), (0, 0));
    assert_eq!(locate(&chars, 5), (1, 2));
    assert_eq!(line_up(&chars, 4), 1);
    assert_eq!(line_down(&chars, 1), 4);
    assert_eq!(count_lines(&chars), 2);
    assert_eq!(count_lines(&"a\n".chars().collect()), 1);
    assert_eq!(count_lines(&"\n\n".chars().collect()), 2);
    assert_eq!(count_lines(&Vec::new()), 0);
}

#[test]
fn entries_go_into_the_mirror_once() {
    let mut app = App::new(false);
    app.add_message_to_chain(text_message(Some("a"), None, "first"));
    app.add_message_to_chain(text_message(Some("b"), Some("a"), "second"));
    assert_eq!(app.message_chain, vec!["a", "b"]);
    assert_eq!(app.messages.len(), 2);
    // The same id again replaces the entry and adds nothing.
    app.vertical_scroll = 7;
    app.add_message_to_chain(text_message(Some("a"), None, "first, edited"));
    assert_eq!(app.message_chain, vec!["a", "b"]);
    assert_eq!(app.messages[0], text_message(Some("a"), None, "first, edited"));
    assert_eq!(app.vertical_scroll, 0);
    assert!(app.is_chain_consistent());
    assert_eq!(
        app.message_by_id(&"b".to_string()),
        Some(&text_message(Some("b"), Some("a"), "second"))
    );
    assert_eq!(app.message_by_id(&"z".to_string()), None);
}

#[test]
fn entries_without_an_id_get_one() {
    let mut app = App::new(false);
    app.add_message_to_chain(text_message(None, None, "pending"));
    app.add_message_to_chain(text_message(None, None, "pending too"));
    assert_eq!(app.messages.len(), 2);
    let first = app.message_chain[0].clone();
    let second = app.message_chain[1].clone();
    assert_ne!(first, second);
    for id in [&first, &second] {
        assert!(id.starts_with("msg-"));
        assert_eq!(id.chars().count(), 40);
        assert_eq!(id.matches('-').count(), 5);
    }
    assert_eq!(app.messages[0].id, Some(first));
    assert!(app.is_chain_consistent());

    let mut chosen = App::new(false);
    chosen.add_message_with_id(text_message(None, None, "x"), "local-1".to_string());
    chosen.add_message_with_id(text_message(Some("srv"), None, "y"), "local-2".to_string());
    assert_eq!(chosen.message_chain, vec!["local-1", "srv"]);
}

#[test]
fn identifiers_are_fresh() {
    let a = new_identifier();
    let b = new_identifier();
    assert_ne!(a, b);
    assert_eq!(a.len(), 36);
    assert!(a.chars().all(|c| c == '-' || c.is_ascii_hexdigit()));
    assert_eq!(local_message_id("abc"), "msg-abc");
    assert_eq!(new_local_message_id().len(), 40);
}

#[test]
fn channel_pushes_update_the_mirror() {
    let mut app = App::new(false);
    app.process_channel_message(ChatStateResponse::ChatMessage {
        message: text_message(Some("m1"), None, "hello"),
    });
    assert_eq!(app.message_chain, vec!["m1"]);
    assert_eq!(app.client_head, None);
    app.process_channel_message(ChatStateResponse::Head { head: Some("m1".to_string()) });
    assert_eq!(app.client_head, Some("m1".to_string()));
    app.process_channel_message(ChatStateResponse::Error {
        error: ErrorInfo { code: "1".to_string(), message: "x".to_string(), details: None },
    });
    app.process_channel_message(ChatStateResponse::Success);
    assert_eq!(app.message_chain, vec!["m1"]);
    assert_eq!(app.client_head, Some("m1".to_string()));
    app.clear_conversation();
    assert!(app.messages.is_empty());
    assert!(app.message_chain.is_empty());
    assert_eq!(app.client_head, None);
}

#[test]
fn history_is_reconciled_when_heads_differ() {
    let mut app = App::new(false);
    app.add_message_to_chain(text_message(Some("stale"), None, "old"));
    app.client_head = Some("stale".to_string());
    assert_eq!(app.sync_plan(&Ok(Some("stale".to_string()))), SyncPlan::InSync);
    assert_eq!(app.sync_plan(&Ok(Some("h2".to_string()))), SyncPlan::Reconcile);
    assert_eq!(
        app.sync_plan(&Err(ChatError::Transport { detail: "gone".to_string() })),
        SyncPlan::Skip
    );
    assert_eq!(
        app.sync_plan(&Err(ChatError::Actor { code: "500".to_string(), message: "x".to_string() })),
        SyncPlan::Skip
    );
    let history = vec![
        text_message(Some("h1"), None, "one"),
        text_message(Some("h2"), Some("h1"), "two"),
    ];
    app.load_history(&history, Some("h2".to_string()));
    assert_eq!(app.message_chain, vec!["h1", "h2"]);
    assert_eq!(app.messages, history);
    assert_eq!(app.client_head, Some("h2".to_string()));
    assert_eq!(app.sync_plan(&Ok(Some("h2".to_string()))), SyncPlan::InSync);
    let fresh = App::new(false);
    assert_eq!(fresh.sync_plan(&Ok(Some("h2".to_string()))), SyncPlan::Reconcile);
}

#[test]
fn without_a_server_head_nothing_is_fetched() {
    // Whatever the client remembers: no conversation, no fetch, no change.
    let mut app = App::new(false);
    app.add_message_to_chain(text_message(Some("x"), None, "kept"));
    app.client_head = Some("x".to_string());
    assert_eq!(app.sync_plan(&Ok(None)), SyncPlan::NoConversation);
    assert_eq!(app.message_chain, vec!["x"]);
    assert_eq!(app.client_head, Some("x".to_string()));
    let fresh = App::new(false);
    assert_eq!(fresh.sync_plan(&Ok(None)), SyncPlan::NoConversation);
    // The walk agrees: it has nothing pending, and yields nothing.
    let walk = ChainWalk::start(None, Some("x".to_string()));
    assert_eq!(walk.pending(), None);
    assert!(reconcile(&None, &Some("x".to_string()), &app.messages).is_empty());
}

#[test]
fn reconciled_entries_are_appended_and_the_head_moves() {
    let server = vec![
        text_message(Some("a"), None, "one"),
        text_message(Some("b"), Some("a"), "two"),
        text_message(Some("c"), Some("b"), "three"),
    ];
    let mut app = App::new(false);
    app.add_message_to_chain(server[0].clone());
    app.client_head = Some("a".to_string());
    app.vertical_scroll = 4;

    let server_head = Some("c".to_string());
    assert_eq!(app.sync_plan(&Ok(server_head.clone())), SyncPlan::Reconcile);
    let news = reconcile(&server_head, &app.client_head, &server);
    app.append_reconciled(&news, server_head.clone());
    assert_eq!(app.message_chain, vec!["a", "b", "c"]);
    assert_eq!(app.messages, server);
    assert_eq!(app.client_head, server_head);
    assert_eq!(app.vertical_scroll, 0);
    assert!(app.is_chain_consistent());

    // In sync now: the plan fetches nothing, and reconciling yields nothing.
    assert_eq!(app.sync_plan(&Ok(server_head.clone())), SyncPlan::InSync);
    assert!(reconcile(&server_head, &app.client_head, &server).is_empty());

    // Nothing new: the head still moves, and nothing else changes.
    app.vertical_scroll = 2;
    app.append_reconciled(&Vec::new(), Some("d".to_string()));
    assert_eq!(app.message_chain, vec!["a", "b", "c"]);
    assert_eq!(app.client_head, Some("d".to_string()));
    assert_eq!(app.vertical_scroll, 2);
}

#[test]
fn navigation_selects_messages() {
    let mut app = App::new(false);
    for id in ["a", "b", "c"] {
        app.add_message_to_chain(text_message(Some(id), None, "text"));
    }
    app.navigate_message_up();
    assert_eq!(app.selected_message_index, None);
    app.toggle_navigation_mode();
    assert_eq!(app.navigation_mode, NavigationMode::Navigate);
    assert_eq!(app.get_selected_message_index(), Some(2));
    app.navigate_message_down();
    assert_eq!(app.selected_message_index, Some(2));
    app.navigate_message_up();
    app.navigate_message_up();
    assert_eq!(app.selected_message_index, Some(0));
    app.navigate_message_up();
    assert_eq!(app.selected_message_index, Some(0));
    app.navigate_message_down();
    assert_eq!(app.selected_message_index, Some(1));
    app.selected_message_index = None;
    app.navigate_message_down();
    assert_eq!(app.selected_message_index, Some(0));
    app.selected_message_index = None;
    app.navigate_message_up();
    assert_eq!(app.selected_message_index, Some(2));
    app.toggle_navigation_mode();
    assert_eq!(app.navigation_mode, NavigationMode::Scroll);
    assert_eq!(app.selected_message_index, None);
    assert_eq!(app.get_selected_message_index(), None);
    assert!(!app.show_message_selection);
}

#[test]
fn messages_collapse_and_open() {
    let mut app = App::new(false);
    app.add_message_to_chain(text_message(Some("a"), None, "text"));
    app.toggle_message_collapse();
    assert!(!app.is_message_collapsed(0));
    app.toggle_navigation_mode();
    app.toggle_message_collapse();
    assert!(app.is_message_collapsed(0));
    app.toggle_message_collapse();
    assert!(!app.is_message_collapsed(0));
    app.selected_message_index = Some(5);
    app.toggle_message_collapse();
    assert!(!app.is_message_collapsed(5));
}

#[test]
fn tool_heavy_messages_collapse_by_themselves() {
    let heavy = ChatMessage {
        id: Some("h".to_string()),
        parent_id: None,
        entry: ChatEntry::Message(Message {
            role: Role::Assistant,
            content: vec![
                tool_use(1),
                MessageContent::ToolResult {
                    tool_use_id: "call-1".to_string(),
                    content: vec![ToolContent::Text { text: "out".to_string() }],
                    is_error: false,
                },
                MessageContent::Text { text: "then".to_string() },
                tool_use(2),
            ],
        }),
    };
    let light = ChatMessage {
        id: Some("l".to_string()),
        parent_id: None,
        entry: ChatEntry::Message(Message {
            role: Role::Assistant,
            content: vec![tool_use(1), tool_use(2)],
        }),
    };
    assert!(is_tool_heavy(&heavy));
    assert!(!is_tool_heavy(&light));
    let mut app = App::new(false);
    app.add_message_to_chain(light);
    app.add_message_to_chain(heavy);
    assert_eq!(app.auto_collapse_tool_messages(), 1);
    assert!(!app.is_message_collapsed(0));
    assert!(app.is_message_collapsed(1));
    assert_eq!(app.auto_collapse_tool_messages(), 0);
}

#[test]
fn display_lines_follow_the_wrapping() {
    assert_eq!(count_wrapped_lines("short", 70), 1);
    assert_eq!(count_wrapped_lines("", 70), 0);
    assert_eq!(count_wrapped_lines("Memory safety without garbage collection.", 15), 3);
    let long = "word ".repeat(30);
    assert_eq!(count_wrapped_lines(&long, 70), 3);
    assert_eq!(count_wrapped_lines("a\nb\nc", 70), 3);

    // Header, three lines of text, and an empty line.
    let message = text_message(Some("a"), None, &long);
    assert_eq!(count_message_lines(&message), 5);
    let completion = ChatMessage {
        id: Some("c".to_string()),
        parent_id: None,
        entry: ChatEntry::Completion(CompletionResponse {
            id: "x".to_string(),
            model: "m".to_string(),
            role: Role::Assistant,
            content: vec![
                MessageContent::Text { text: "done".to_string() },
                tool_use(1),
                MessageContent::ToolResult {
                    tool_use_id: "call-1".to_string(),
                    content: vec![
                        ToolContent::Text { text: "o1\no2".to_string() },
                        ToolContent::Image {
                            data: "aGk=".to_string(),
                            mime_type: "image/png".to_string(),
                        },
                    ],
                    is_error: false,
                },
            ],
            stop_reason: "end".to_string(),
            input_tokens: 1,
            output_tokens: 2,
        }),
    };
    // 1 header + 1 text + (3 + 1 for "No parameters") + (2 + (1 + 2) + 1)
    // + 1 for the token counts + 1 empty line.
    assert_eq!(count_message_lines(&completion), 14);
    assert_eq!(calculate_total_display_lines(&vec![message.clone(), completion.clone()]), 19);
    assert_eq!(calculate_total_display_lines(&Vec::new()), 0);
    // Estimates: 1 + (150 / 70 + 1) + 1 for the first message.
    assert_eq!(estimate_start_line(&vec![message.clone(), completion.clone()], 0), 0);
    assert_eq!(estimate_start_line(&vec![message.clone(), completion.clone()], 1), 5);
    // 1 + (0 + 1) + 6 + (3 + 2 * 2) + 1 + 1 for the completion.
    assert_eq!(estimate_start_line(&vec![message, completion], 2), 22);
}

#[test]
fn scrolling_stays_within_the_conversation() {
    assert_eq!(scroll_up_by_line(10, 0), 0);
    assert_eq!(scroll_up_by_line(30, 0), 1);
    assert_eq!(scroll_up_by_line(30, 9), 10);
    assert_eq!(scroll_up_by_line(30, 10), 10);
    // A message above the view is scrolled to.
    assert_eq!(scroll_for(5, 100, 0), 75);
    // A message below the view is scrolled to.
    assert_eq!(scroll_for(90, 100, 50), 0);
    // A message in view leaves the offset.
    assert_eq!(scroll_for(85, 100, 0), 0);
    assert_eq!(scroll_for(3, 15, 4), 4);

    let mut app = App::new(false);
    for n in 0..12 {
        app.add_message_to_chain(text_message(Some(&format!("m{}", n)), None, "line"));
    }
    // 12 messages of 3 lines each.
    assert_eq!(calculate_total_display_lines(&app.messages), 36);
    app.scroll_up();
    app.scroll_up();
    assert_eq!(app.vertical_scroll, 2);
    app.scroll_down();
    app.scroll_down();
    app.scroll_down();
    assert_eq!(app.vertical_scroll, 0);
    for _ in 0..40 {
        app.scroll_up();
    }
    assert_eq!(app.vertical_scroll, 16);
    app.update_scroll();
    assert_eq!(app.vertical_scroll, 16);
}

#[test]
fn animations_move_after_half_a_second() {
    let mut app = App::new(false);
    assert!(!app.update_thinking_animation(900));
    app.waiting_for_response = true;
    assert!(!app.update_thinking_animation(500));
    assert_eq!(app.thinking_dots, ".");
    assert!(app.update_thinking_animation(501));
    assert_eq!(app.thinking_dots, "..");
    assert!(app.update_thinking_animation(600));
    assert_eq!(app.thinking_dots, "...");
    assert!(app.update_thinking_animation(600));
    assert_eq!(app.thinking_dots, ".");
    app.thinking_dots = "?".to_string();
    assert!(app.update_thinking_animation(600));
    assert_eq!(app.thinking_dots, ".");

    assert!(app.boot_cursor_visible);
    assert!(!app.update_boot_animation(500));
    assert!(app.boot_cursor_visible);
    assert!(app.update_boot_animation(501));
    assert!(!app.boot_cursor_visible);
}

#[test]
fn help_and_modes_toggle() {
    let mut app = App::default();
    assert!(app.loading_steps.is_empty());
    assert_eq!(app.input_mode, InputMode::Normal);
    assert_eq!(app.connection_status, "Disconnected");
    app.toggle_help();
    assert!(app.show_help);
    app.toggle_help();
    assert!(!app.show_help);
    assert_eq!(app.tool_display_mode, ToolDisplayMode::Compact);
    app.cycle_tool_display_mode();
    assert_eq!(app.tool_display_mode, ToolDisplayMode::Full);
}
