use fido2kpxc::panels::{
    button_frames, edit_action, eye_symbol, focus, height_below_head, rows, EditAction, Entry,
    Field, Rect,
};

fn rect(x: i64, y: i64, w: i64, h: i64) -> Rect {
    Rect { x, y, w, h }
}

#[test]
fn rows_stand_below_each_other() {
    let fields = [
        Field::plain("Label", "primary"),
        Field::revealable("Password"),
        Field::choice("Key", vec!["a".to_owned()], 0),
    ];
    assert_eq!(height_below_head(3, 2), 12 + 96 + 44 + 12);
    let frames = rows(&fields, 2);
    assert_eq!(frames.len(), 3);
    assert_eq!(frames[0].label, rect(20, 130, 110, 20));
    assert_eq!(frames[0].control, rect(136, 128, 264, 24));
    assert_eq!(frames[0].eye, None);
    assert_eq!(frames[1].control, rect(136, 96, 236, 24));
    assert_eq!(frames[1].eye, Some(rect(376, 96, 24, 24)));
    assert_eq!(frames[2].control, rect(132, 63, 268, 26));
    assert_eq!(rows(&fields[..1], 0)[0].control.y, 20);
    assert_eq!(height_below_head(0, 0), 24);
}

#[test]
fn buttons_stand_from_the_right() {
    assert_eq!(
        button_frames(2),
        [rect(310, 12, 90, 32), rect(214, 12, 90, 32)]
    );
    assert!(button_frames(0).is_empty());
}

#[test]
fn the_first_text_gets_the_focus() {
    let choice = || Field::choice("Key", vec![], 0);
    assert_eq!(focus(&[choice(), Field::secret("PIN"), Field::secret("PIN")]), Some(1));
    assert_eq!(focus(&[choice()]), None);
    assert_eq!(focus(&[]), None);
}

#[test]
fn command_keys_edit() {
    let action = |c| edit_action(true, Some(c));
    assert_eq!(action("v"), Some(EditAction::Paste));
    assert_eq!(action("c"), Some(EditAction::Copy));
    assert_eq!(action("x"), Some(EditAction::Cut));
    assert_eq!(action("a"), Some(EditAction::SelectAll));
    assert_eq!(action("z"), Some(EditAction::Undo));
    assert_eq!(action("q"), None);
    assert_eq!(action("V"), None);
    assert_eq!(edit_action(false, Some("v")), None);
    assert_eq!(edit_action(true, None), None);
}

#[test]
fn revealing_moves_the_text_across() {
    let mut entry = Entry {
        secure: "typed".to_owned(),
        plain: Some(String::new()),
        revealed: false,
    };
    entry.toggle_reveal();
    assert_eq!(entry.plain.as_deref(), Some("typed"));
    assert_eq!(entry.secure, "");
    assert!(entry.revealed);
    entry.toggle_reveal();
    assert_eq!(entry.secure, "typed");
    entry.toggle_reveal();
    assert_eq!(entry.take(), "typed");
    assert_eq!(entry.plain.as_deref(), Some(""));
    assert_eq!(entry.secure, "");
    let mut plain = Entry {
        secure: "x".to_owned(),
        plain: None,
        revealed: false,
    };
    plain.toggle_reveal();
    assert!(!plain.revealed);
    assert_eq!(plain.take(), "x");
    assert_eq!(eye_symbol(true), ("eye.slash", "Hide password"));
    assert_eq!(eye_symbol(false), ("eye", "Show password"));
}
