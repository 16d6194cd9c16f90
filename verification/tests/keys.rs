use th_chat::app::{key_intent, App, InputMode, Intent, KeyCode, KeyEvent, NavigationMode};
use th_chat::chat::{ChatEntry, ChatMessage, Message, MessageContent, Role};
use th_chat::config::LoadingState;

fn press(code: KeyCode) -> KeyEvent {
    KeyEvent { code, control: false, is_press: true }
}

fn ctrl(c: char) -> KeyEvent {
    KeyEvent { code: KeyCode::Char(c), control: true, is_press: true }
}

fn entry(id: &str) -> ChatMessage {
    ChatMessage {
        id: Some(id.to_string()),
        parent_id: None,
        entry: ChatEntry::Message(Message {
            role: Role::User,
            content: vec![MessageContent::Text { text: "t".to_string() }],
        }),
    }
}

#[test]
fn only_pressed_keys_count() {
    let mut app = App::new(false);
    let released = KeyEvent { code: KeyCode::Char('q'), control: false, is_press: false };
    assert_eq!(app.handle_key_event(released), None);
    assert!(!app.should_quit);
    assert_eq!(app.handle_key_event(press(KeyCode::Char('q'))), None);
    assert!(app.should_quit);
}

#[test]
fn help_swallows_keys_until_closed() {
    let mut app = App::new(false);
    app.handle_key_event(press(KeyCode::Char('h')));
    assert!(app.show_help);
    app.handle_key_event(press(KeyCode::Char('i')));
    assert_eq!(app.input_mode, InputMode::Normal);
    assert!(app.show_help);
    app.handle_key_event(press(KeyCode::Esc));
    assert!(!app.show_help);
    app.handle_key_event(press(KeyCode::F(1)));
    assert!(app.show_help);
    app.handle_key_event(press(KeyCode::Char('q')));
    assert!(!app.show_help);
    assert!(!app.should_quit);
}

#[test]
fn editing_and_submitting() {
    let mut app = App::new(false);
    app.handle_key_event(press(KeyCode::Char('i')));
    assert_eq!(app.input_mode, InputMode::Editing);
    for c in "hi q".chars() {
        assert_eq!(app.handle_key_event(press(KeyCode::Char(c))), None);
    }
    assert_eq!(app.input, "hi q");
    assert!(!app.should_quit);
    app.handle_key_event(press(KeyCode::Enter));
    assert_eq!(app.input, "hi q\n");
    app.handle_key_event(press(KeyCode::Backspace));
    app.handle_key_event(ctrl('a'));
    assert_eq!(app.input_cursor_position, 0);
    app.handle_key_event(press(KeyCode::Char('>')));
    app.handle_key_event(ctrl('e'));
    assert_eq!(app.input_cursor_position, 5);
    app.handle_key_event(press(KeyCode::Left));
    app.handle_key_event(press(KeyCode::Home));
    assert_eq!(app.input_cursor_position, 0);
    app.handle_key_event(press(KeyCode::End));
    assert_eq!(app.input_cursor_position, 5);
    app.handle_key_event(press(KeyCode::Esc));
    assert_eq!(app.input_mode, InputMode::Normal);
    assert_eq!(app.handle_key_event(press(KeyCode::Enter)), Some(">hi q".to_string()));
    assert_eq!(app.input, "");
    assert_eq!(app.handle_key_event(press(KeyCode::Enter)), None);
}

#[test]
fn keys_scroll_or_navigate_by_mode() {
    let scroll = NavigationMode::Scroll;
    let navigate = NavigationMode::Navigate;
    let normal = InputMode::Normal;
    assert_eq!(key_intent(false, normal, scroll, press(KeyCode::Char('j'))), Intent::ScrollDown);
    assert_eq!(key_intent(false, normal, navigate, press(KeyCode::Char('j'))), Intent::MessageDown);
    assert_eq!(key_intent(false, normal, scroll, press(KeyCode::Up)), Intent::ScrollUp);
    assert_eq!(key_intent(false, normal, navigate, press(KeyCode::Char('k'))), Intent::MessageUp);
    assert_eq!(key_intent(false, normal, scroll, press(KeyCode::Char('c'))), Intent::Nothing);
    assert_eq!(key_intent(false, normal, navigate, press(KeyCode::Char('c'))), Intent::ToggleCollapse);
    assert_eq!(key_intent(false, normal, scroll, press(KeyCode::Char('t'))), Intent::CycleToolDisplay);
    assert_eq!(
        key_intent(false, normal, scroll, press(KeyCode::Char('T'))),
        Intent::CollapseToolMessages
    );
    assert_eq!(key_intent(false, normal, scroll, press(KeyCode::Other)), Intent::Nothing);
    assert_eq!(
        key_intent(false, InputMode::Editing, scroll, press(KeyCode::Char('j'))),
        Intent::Type('j')
    );
    assert_eq!(key_intent(false, InputMode::Editing, scroll, ctrl('x')), Intent::Type('x'));
    assert_eq!(key_intent(false, InputMode::Editing, scroll, press(KeyCode::Up)), Intent::CursorUp);
    assert_eq!(key_intent(true, InputMode::Editing, scroll, press(KeyCode::Up)), Intent::Nothing);

    let mut app = App::new(false);
    for id in ["a", "b"] {
        app.add_message_to_chain(entry(id));
    }
    app.handle_key_event(press(KeyCode::Char('v')));
    assert_eq!(app.selected_message_index, Some(1));
    app.handle_key_event(press(KeyCode::Char('k')));
    assert_eq!(app.selected_message_index, Some(0));
    app.handle_key_event(press(KeyCode::Char('c')));
    assert!(app.is_message_collapsed(0));
    app.handle_key_event(press(KeyCode::Down));
    assert_eq!(app.selected_message_index, Some(1));
    assert_eq!(app.message_chain, vec!["a", "b"]);
}

#[test]
fn short_actor_ids_have_no_message() {
    assert!(LoadingState::Ready.has_text());
    assert!(LoadingState::OpeningChannel("12345678".to_string()).has_text());
    assert!(!LoadingState::OpeningChannel("1234567".to_string()).has_text());
    // A cut in the middle of a character is no cut.
    assert!(!LoadingState::OpeningChannel("1234567é9".to_string()).has_text());
    assert_eq!(
        LoadingState::OpeningChannel("123456é9".to_string()).message(),
        "Opening communication channel to actor 123456é"
    );
}

#[test]
fn the_help_panel_is_toggled_with_s() {
    let mut app = App::new(false);
    assert!(!app.show_split_screen);
    assert_eq!(
        key_intent(false, InputMode::Normal, NavigationMode::Scroll, press(KeyCode::Char('s'))),
        Intent::ToggleSplitScreen
    );
    assert_eq!(app.handle_key_event(press(KeyCode::Char('s'))), None);
    assert!(app.show_split_screen);
    app.handle_key_event(press(KeyCode::Char('s')));
    assert!(!app.show_split_screen);
    // While editing, the key is typed.
    app.handle_key_event(press(KeyCode::Char('i')));
    app.handle_key_event(press(KeyCode::Char('s')));
    assert_eq!(app.input, "s");
    assert!(!app.show_split_screen);
    app.toggle_split_screen();
    assert!(app.show_split_screen);
}
