use saola_files::keymap::{resolve, Action, Key, Modifiers, Named};

fn named(key: Named) -> Key {
    Key::Named(key)
}

fn typed(text: &str) -> Key {
    Key::Character(text.to_owned())
}

#[test]
fn plain_arrows_move_the_cursor() {
    assert_eq!(
        resolve(&named(Named::ArrowDown), Modifiers::empty()),
        Some(Action::MoveCursorDown)
    );
    assert_eq!(resolve(&named(Named::ArrowUp), Modifiers::empty()), Some(Action::MoveCursorUp));
}

#[test]
fn shift_arrows_extend_selection() {
    assert_eq!(
        resolve(&named(Named::ArrowDown), Modifiers::shift()),
        Some(Action::ExtendSelectionDown)
    );
}

#[test]
fn enter_descends_backspace_ascends() {
    assert_eq!(resolve(&named(Named::Enter), Modifiers::empty()), Some(Action::Descend));
    assert_eq!(resolve(&named(Named::Backspace), Modifiers::empty()), Some(Action::Ascend));
}

#[test]
fn alt_up_also_ascends() {
    assert_eq!(resolve(&named(Named::ArrowUp), Modifiers::alt()), Some(Action::Ascend));
}

#[test]
fn ctrl_a_selects_all_ctrl_h_toggles_hidden() {
    assert_eq!(resolve(&typed("a"), Modifiers::ctrl()), Some(Action::SelectAll));
    assert_eq!(resolve(&typed("h"), Modifiers::ctrl()), Some(Action::ToggleHidden));
}

#[test]
fn ctrl_space_toggles_cursor_row() {
    assert_eq!(
        resolve(&named(Named::Space), Modifiers::ctrl()),
        Some(Action::ToggleCursorSelected)
    );
}

#[test]
fn unmapped_keys_resolve_to_none() {
    assert_eq!(resolve(&named(Named::Tab), Modifiers::empty()), None);
    assert_eq!(resolve(&typed("x"), Modifiers::ctrl()), None);
}

#[test]
fn the_keys_of_the_manual_are_bound() {
    assert_eq!(resolve(&named(Named::ArrowLeft), Modifiers::alt()), Some(Action::Back));
    assert_eq!(resolve(&named(Named::ArrowRight), Modifiers::alt()), Some(Action::Forward));
    assert_eq!(resolve(&named(Named::Enter), Modifiers::alt()), Some(Action::ShowProperties));
    assert_eq!(resolve(&typed("l"), Modifiers::ctrl()), Some(Action::EditLocation));
    assert_eq!(resolve(&typed("1"), Modifiers::ctrl()), Some(Action::ListView));
    assert_eq!(resolve(&typed("2"), Modifiers::ctrl()), Some(Action::GridView));
    assert_eq!(resolve(&typed("c"), Modifiers::ctrl()), Some(Action::Copy));
    assert_eq!(resolve(&typed("v"), Modifiers::ctrl()), Some(Action::Paste));
    assert_eq!(resolve(&typed("z"), Modifiers::ctrl()), Some(Action::Undo));
    assert_eq!(resolve(&named(Named::F2), Modifiers::empty()), Some(Action::Rename));
    assert_eq!(resolve(&named(Named::F5), Modifiers::empty()), Some(Action::Refresh));
    assert_eq!(resolve(&named(Named::Escape), Modifiers::empty()), Some(Action::Dismiss));
    assert_eq!(resolve(&named(Named::Delete), Modifiers::empty()), Some(Action::Delete));
    assert_eq!(
        resolve(&named(Named::Delete), Modifiers::shift()),
        Some(Action::DeletePermanently)
    );
    let both = Modifiers { shift: true, control: true, alt: false };
    assert_eq!(resolve(&typed("N"), both), Some(Action::NewFolder));
    assert_eq!(resolve(&typed("n"), both), Some(Action::NewFolder));
}

#[test]
fn text_is_never_taken_away() {
    for text in ["a", "h", "z", "1"] {
        assert_eq!(resolve(&typed(text), Modifiers::empty()), None);
        assert_eq!(resolve(&typed(text), Modifiers::shift()), None);
    }
    let all = Modifiers { shift: true, control: true, alt: true };
    assert_eq!(resolve(&typed("a"), all), None);
    assert_eq!(resolve(&Key::Unidentified, Modifiers::empty()), None);
}
