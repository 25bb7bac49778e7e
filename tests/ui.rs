use my_chat::ui::{
    command_rows, max_len, Action, CommandsPopup, ConnectPopup, Focus, Key, NoticeLevel, NoticePopup, Popup,
    QuitPopup, Sidebar, SizeKind,
};

#[test]
fn sidebar_starts_disconnected_and_follows_the_connection() {
    let mut s = Sidebar::new();
    assert_eq!(s.connected_addr, None);
    s.connect("127.0.0.1:9000".to_string());
    assert_eq!(s.connected_addr.as_deref(), Some("127.0.0.1:9000"));
    s.disconnect();
    assert_eq!(s.connected_addr, None);
}

#[test]
fn max_len_of_the_command_rows() {
    let rows = command_rows();
    assert_eq!(max_len(&rows, 0), 3);
    assert_eq!(max_len(&rows, 1), 21);
    assert_eq!(max_len(&[], 0), 0);
}

#[test]
fn commands_popup_size() {
    let (w, h) = CommandsPopup.hint_size();
    assert_eq!(w, SizeKind::Exact(3 + 21 + 5 + 2));
    assert_eq!(h, SizeKind::Exact(6));
}

#[test]
fn normal_focus_keys() {
    assert!(matches!(Focus::Normal.handle_key(Key::Char('i')), Action::ChangeFocus(Focus::TextBox)));
    assert!(matches!(Focus::Normal.handle_key(Key::Esc), Action::PushPopup(Popup::Commands)));
    assert!(matches!(Focus::Normal.handle_key(Key::Char('x')), Action::Nothing));
}

#[test]
fn text_box_focus_keys() {
    assert!(matches!(Focus::TextBox.handle_key(Key::Esc), Action::ChangeFocus(Focus::Normal)));
    assert!(matches!(Focus::TextBox.handle_key(Key::Char('i')), Action::ForwardToInput));
    assert!(matches!(Focus::TextBox.handle_key(Key::Enter), Action::Submit));
    assert!(matches!(Focus::TextBox.handle_key(Key::Other), Action::ForwardToInput));
}

#[test]
fn commands_popup_keys() {
    assert!(matches!(CommandsPopup.handle_key(Key::Esc), Action::PopPopup));
    assert!(matches!(CommandsPopup.handle_key(Key::Char('q')), Action::PushPopup(Popup::Quit)));
    assert!(matches!(CommandsPopup.handle_key(Key::Char('c')), Action::PushPopup(Popup::Connect)));
    assert!(matches!(CommandsPopup.handle_key(Key::Other), Action::Nothing));
    assert!(matches!(CommandsPopup::create(), Popup::Commands));
}

#[test]
fn quit_popup_keys() {
    assert!(matches!(QuitPopup.handle_key(Key::Char('y')), Action::Quit));
    assert!(matches!(QuitPopup.handle_key(Key::Char('n')), Action::PopPopup));
    assert!(matches!(QuitPopup.handle_key(Key::Esc), Action::PopPopup));
    assert!(matches!(QuitPopup.handle_key(Key::Enter), Action::Nothing));
    assert_eq!(QuitPopup.hint_size(), (SizeKind::Percentage(30), SizeKind::Percentage(20)));
}

#[test]
fn notice_popup_only_closes_on_esc() {
    let popup = match NoticePopup::create("Lost connection".to_string(), NoticeLevel::Warning) {
        Popup::Notice(n) => n,
        other => panic!("expected a notice, got {:?}", other),
    };
    assert_eq!(popup.message, "Lost connection");
    assert_eq!(popup.level, NoticeLevel::Warning);
    assert!(matches!(popup.handle_key(Key::Esc), Action::PopPopup));
    assert!(matches!(popup.handle_key(Key::Enter), Action::Nothing));
    assert_eq!(popup.hint_size(), (SizeKind::Percentage(60), SizeKind::Percentage(40)));
}

#[test]
fn connect_popup_keys() {
    assert!(matches!(ConnectPopup::create(), Popup::Connect));
    assert!(matches!(ConnectPopup.handle_key(Key::Esc), Action::PopPopup));
    assert!(matches!(ConnectPopup.handle_key(Key::Enter), Action::Submit));
    assert!(matches!(ConnectPopup.handle_key(Key::Char('q')), Action::ForwardToInput));
    assert_eq!(ConnectPopup.hint_size(), (SizeKind::Percentage(70), SizeKind::Percentage(10)));
}
