//! What a key press means. Nothing else in the application looks at keys: it
//! acts on [`Action`]s.
use crate::text::same_text;
use vstd::prelude::*;

verus! {

/// A key with a name.
#[derive(Debug, Clone, Copy, PartialEq, Eq, Structural)]
pub enum Named {
    ArrowUp,
    ArrowDown,
    ArrowLeft,
    ArrowRight,
    Home,
    End,
    PageUp,
    PageDown,
    Enter,
    Backspace,
    Delete,
    Escape,
    Space,
    Tab,
    F2,
    F5,
    /// Any other key.
    Other,
}

/// A key.
#[derive(Debug)]
pub enum Key<T = String> {
    Named(Named),
    /// A key that types this text.
    Character(T),
    Unidentified,
}

impl View for Key {
    type V = Key<Seq<char>>;

    open spec fn view(&self) -> Key<Seq<char>> {
        match self {
            Key::Named(n) => Key::Named(*n),
            Key::Character(t) => Key::Character(t@),
            Key::Unidentified => Key::Unidentified,
        }
    }
}

/// The modifier keys that are held.
#[derive(Debug, Clone, Copy, PartialEq, Eq, Structural)]
pub struct Modifiers {
    pub shift: bool,
    pub control: bool,
    pub alt: bool,
}

impl Modifiers {
    /// No modifier.
    pub fn empty() -> (r: Self)
        ensures
            r == (Modifiers { shift: false, control: false, alt: false }),
    {
        Modifiers { shift: false, control: false, alt: false }
    }

    /// Shift alone.
    pub fn shift() -> (r: Self)
        ensures
            r == (Modifiers { shift: true, control: false, alt: false }),
    {
        Modifiers { shift: true, control: false, alt: false }
    }

    /// Control alone.
    pub fn ctrl() -> (r: Self)
        ensures
            r == (Modifiers { shift: false, control: true, alt: false }),
    {
        Modifiers { shift: false, control: true, alt: false }
    }

    /// Alt alone.
    pub fn alt() -> (r: Self)
        ensures
            r == (Modifiers { shift: false, control: false, alt: true }),
    {
        Modifiers { shift: false, control: false, alt: true }
    }
}

/// Something that a key press asks the directory view for.
#[derive(Debug, Clone, Copy, PartialEq, Eq, Structural)]
pub enum Action {
    MoveCursorUp,
    MoveCursorDown,
    MoveCursorLeft,
    MoveCursorRight,
    MoveCursorHome,
    MoveCursorEnd,
    MoveCursorPageUp,
    MoveCursorPageDown,
    ExtendSelectionUp,
    ExtendSelectionDown,
    ExtendSelectionLeft,
    ExtendSelectionRight,
    ExtendSelectionHome,
    ExtendSelectionEnd,
    ExtendSelectionPageUp,
    ExtendSelectionPageDown,
    /// Select or deselect the entry under the cursor and nothing else.
    ToggleCursorSelected,
    SelectAll,
    /// Open the selection.
    Descend,
    /// Go to the parent directory.
    Ascend,
    ToggleHidden,
    /// Go back in the history of the view.
    Back,
    /// Go forward in the history of the view.
    Forward,
    ShowProperties,
    EditLocation,
    ListView,
    GridView,
    Refresh,
    Copy,
    Paste,
    Rename,
    NewFolder,
    /// Move the selection to the trash, where there is one.
    Delete,
    DeletePermanently,
    Undo,
    /// Close whatever is open above the view.
    Dismiss,
}

/// What a key means while Control alone is held.
pub open spec fn with_control(key: Key<Seq<char>>) -> Option<Action> {
    match key {
        Key::Character(c) => if c == "a"@ {
            Some(Action::SelectAll)
        } else if c == "h"@ {
            Some(Action::ToggleHidden)
        } else if c == "l"@ {
            Some(Action::EditLocation)
        } else if c == "1"@ {
            Some(Action::ListView)
        } else if c == "2"@ {
            Some(Action::GridView)
        } else if c == "c"@ {
            Some(Action::Copy)
        } else if c == "v"@ {
            Some(Action::Paste)
        } else if c == "z"@ {
            Some(Action::Undo)
        } else {
            None
        },
        Key::Named(Named::Space) => Some(Action::ToggleCursorSelected),
        _ => None,
    }
}

/// What a key means while Alt alone is held.
pub open spec fn with_alt(key: Key<Seq<char>>) -> Option<Action> {
    match key {
        Key::Named(Named::ArrowUp) => Some(Action::Ascend),
        Key::Named(Named::ArrowLeft) => Some(Action::Back),
        Key::Named(Named::ArrowRight) => Some(Action::Forward),
        Key::Named(Named::Enter) => Some(Action::ShowProperties),
        _ => None,
    }
}

/// What a key means alone.
pub open spec fn plain(key: Named) -> Option<Action> {
    match key {
        Named::ArrowUp => Some(Action::MoveCursorUp),
        Named::ArrowDown => Some(Action::MoveCursorDown),
        Named::ArrowLeft => Some(Action::MoveCursorLeft),
        Named::ArrowRight => Some(Action::MoveCursorRight),
        Named::Home => Some(Action::MoveCursorHome),
        Named::End => Some(Action::MoveCursorEnd),
        Named::PageUp => Some(Action::MoveCursorPageUp),
        Named::PageDown => Some(Action::MoveCursorPageDown),
        Named::Enter => Some(Action::Descend),
        Named::Backspace => Some(Action::Ascend),
        Named::Delete => Some(Action::Delete),
        Named::Escape => Some(Action::Dismiss),
        Named::F2 => Some(Action::Rename),
        Named::F5 => Some(Action::Refresh),
        _ => None,
    }
}

/// What a key means while Shift alone is held.
pub open spec fn with_shift(key: Named) -> Option<Action> {
    match key {
        Named::ArrowUp => Some(Action::ExtendSelectionUp),
        Named::ArrowDown => Some(Action::ExtendSelectionDown),
        Named::ArrowLeft => Some(Action::ExtendSelectionLeft),
        Named::ArrowRight => Some(Action::ExtendSelectionRight),
        Named::Home => Some(Action::ExtendSelectionHome),
        Named::End => Some(Action::ExtendSelectionEnd),
        Named::PageUp => Some(Action::ExtendSelectionPageUp),
        Named::PageDown => Some(Action::ExtendSelectionPageDown),
        Named::Delete => Some(Action::DeletePermanently),
        _ => None,
    }
}

/// What a key press means.
pub open spec fn action_of(key: Key<Seq<char>>, m: Modifiers) -> Option<Action> {
    if m.control && m.shift && !m.alt {
        match key {
            Key::Character(c) if c == "n"@ || c == "N"@ => Some(Action::NewFolder),
            _ => None,
        }
    } else if m.control && !m.alt {
        with_control(key)
    } else if m.alt && !m.control && !m.shift {
        with_alt(key)
    } else if m.control || m.alt {
        None
    } else {
        match key {
            Key::Named(n) => if m.shift {
                with_shift(n)
            } else {
                plain(n)
            },
            _ => None,
        }
    }
}

fn resolve_control(key: &Key) -> (r: Option<Action>)
    ensures
        r == with_control(key@),
{
    match key {
        Key::Character(c) => {
            if same_text(c.as_str(), "a") {
                Some(Action::SelectAll)
            } else if same_text(c.as_str(), "h") {
                Some(Action::ToggleHidden)
            } else if same_text(c.as_str(), "l") {
                Some(Action::EditLocation)
            } else if same_text(c.as_str(), "1") {
                Some(Action::ListView)
            } else if same_text(c.as_str(), "2") {
                Some(Action::GridView)
            } else if same_text(c.as_str(), "c") {
                Some(Action::Copy)
            } else if same_text(c.as_str(), "v") {
                Some(Action::Paste)
            } else if same_text(c.as_str(), "z") {
                Some(Action::Undo)
            } else {
                None
            }
        },
        Key::Named(Named::Space) => Some(Action::ToggleCursorSelected),
        _ => None,
    }
}

fn resolve_named(key: Named, shift: bool) -> (r: Option<Action>)
    ensures
        r == if shift {
            with_shift(key)
        } else {
            plain(key)
        },
{
    match (key, shift) {
        (Named::ArrowUp, false) => Some(Action::MoveCursorUp),
        (Named::ArrowUp, true) => Some(Action::ExtendSelectionUp),
        (Named::ArrowDown, false) => Some(Action::MoveCursorDown),
        (Named::ArrowDown, true) => Some(Action::ExtendSelectionDown),
        (Named::ArrowLeft, false) => Some(Action::MoveCursorLeft),
        (Named::ArrowLeft, true) => Some(Action::ExtendSelectionLeft),
        (Named::ArrowRight, false) => Some(Action::MoveCursorRight),
        (Named::ArrowRight, true) => Some(Action::ExtendSelectionRight),
        (Named::Home, false) => Some(Action::MoveCursorHome),
        (Named::Home, true) => Some(Action::ExtendSelectionHome),
        (Named::End, false) => Some(Action::MoveCursorEnd),
        (Named::End, true) => Some(Action::ExtendSelectionEnd),
        (Named::PageUp, false) => Some(Action::MoveCursorPageUp),
        (Named::PageUp, true) => Some(Action::ExtendSelectionPageUp),
        (Named::PageDown, false) => Some(Action::MoveCursorPageDown),
        (Named::PageDown, true) => Some(Action::ExtendSelectionPageDown),
        (Named::Enter, false) => Some(Action::Descend),
        (Named::Backspace, false) => Some(Action::Ascend),
        (Named::Delete, false) => Some(Action::Delete),
        (Named::Delete, true) => Some(Action::DeletePermanently),
        (Named::Escape, false) => Some(Action::Dismiss),
        (Named::F2, false) => Some(Action::Rename),
        (Named::F5, false) => Some(Action::Refresh),
        _ => None,
    }
}

/// What a key press means, if anything.
pub fn resolve(key: &Key, modifiers: Modifiers) -> (r: Option<Action>)
    ensures
        r == action_of(key@, modifiers),
{
    if modifiers.control && modifiers.shift && !modifiers.alt {
        return match key {
            Key::Character(c) => {
                if same_text(c.as_str(), "n") || same_text(c.as_str(), "N") {
                    Some(Action::NewFolder)
                } else {
                    None
                }
            },
            _ => None,
        };
    }
    if modifiers.control && !modifiers.alt {
        return resolve_control(key);
    }
    if modifiers.alt && !modifiers.control && !modifiers.shift {
        return match key {
            Key::Named(Named::ArrowUp) => Some(Action::Ascend),
            Key::Named(Named::ArrowLeft) => Some(Action::Back),
            Key::Named(Named::ArrowRight) => Some(Action::Forward),
            Key::Named(Named::Enter) => Some(Action::ShowProperties),
            _ => None,
        };
    }
    if modifiers.control || modifiers.alt {
        return None;
    }
    match key {
        Key::Named(n) => resolve_named(*n, modifiers.shift),
        _ => None,
    }
}

// ---------------------------------------------------------------------------
// Laws
// ---------------------------------------------------------------------------

/// Whether an action moves the cursor.
pub open spec fn moves_cursor(a: Action) -> bool {
    match a {
        Action::MoveCursorUp
        | Action::MoveCursorDown
        | Action::MoveCursorLeft
        | Action::MoveCursorRight
        | Action::MoveCursorHome
        | Action::MoveCursorEnd
        | Action::MoveCursorPageUp
        | Action::MoveCursorPageDown => true,
        _ => false,
    }
}

/// What an action that moves the cursor becomes when it extends the selection
/// instead.
pub open spec fn extending(a: Action) -> Action {
    match a {
        Action::MoveCursorUp => Action::ExtendSelectionUp,
        Action::MoveCursorDown => Action::ExtendSelectionDown,
        Action::MoveCursorLeft => Action::ExtendSelectionLeft,
        Action::MoveCursorRight => Action::ExtendSelectionRight,
        Action::MoveCursorHome => Action::ExtendSelectionHome,
        Action::MoveCursorEnd => Action::ExtendSelectionEnd,
        Action::MoveCursorPageUp => Action::ExtendSelectionPageUp,
        Action::MoveCursorPageDown => Action::ExtendSelectionPageDown,
        _ => a,
    }
}

/// Every key that moves the cursor extends the selection the same way when
/// Shift is held.
pub proof fn shift_extends_what_moves(key: Named)
    ensures
        plain(key) matches Some(a) ==> moves_cursor(a) ==> with_shift(key) == Some(extending(a)),
{
}

/// Text typed without Control never means anything here, so that typing stays
/// possible.
pub proof fn typing_is_left_alone(text: Seq<char>, m: Modifiers)
    requires
        !m.control,
    ensures
        action_of(Key::Character(text), m) is None,
{
}

/// Every shortcut with Control is one key, and means nothing when Alt is held
/// as well.
pub proof fn control_shortcuts(key: Key<Seq<char>>, m: Modifiers)
    ensures
        ({
            let a = action_of(key, m);
            let held = m.control && !m.shift && !m.alt;
            let types = |text: Seq<char>| key == Key::<Seq<char>>::Character(text);
            &&& a == Some(Action::SelectAll) <==> held && types("a"@)
            &&& a == Some(Action::ToggleHidden) <==> held && types("h"@)
            &&& a == Some(Action::EditLocation) <==> held && types("l"@)
            &&& a == Some(Action::ListView) <==> held && types("1"@)
            &&& a == Some(Action::GridView) <==> held && types("2"@)
            &&& a == Some(Action::Copy) <==> held && types("c"@)
            &&& a == Some(Action::Paste) <==> held && types("v"@)
            &&& a == Some(Action::Undo) <==> held && types("z"@)
            &&& a == Some(Action::ToggleCursorSelected) <==> held && key == Key::<
                Seq<char>,
            >::Named(Named::Space)
            &&& a == Some(Action::NewFolder) <==> m.control && m.shift && !m.alt && (types("n"@)
                || types("N"@))
            &&& m.control && m.alt ==> a is None
        }),
{
    reveal_strlit("a");
    reveal_strlit("h");
    reveal_strlit("l");
    reveal_strlit("1");
    reveal_strlit("2");
    reveal_strlit("c");
    reveal_strlit("v");
    reveal_strlit("z");
    assert("a"@[0] == 'a' && "h"@[0] == 'h' && "l"@[0] == 'l' && "1"@[0] == '1' && "2"@[0] == '2'
        && "c"@[0] == 'c' && "v"@[0] == 'v' && "z"@[0] == 'z');
}

/// Every other shortcut is one key with the modifiers that belong to it and
/// no others; going up has two.
pub proof fn named_shortcuts(key: Key<Seq<char>>, m: Modifiers)
    ensures
        ({
            let a = action_of(key, m);
            let alone = !m.control && !m.shift && !m.alt;
            let shift = !m.control && m.shift && !m.alt;
            let alt = !m.control && !m.shift && m.alt;
            let is = |n: Named| key == Key::<Seq<char>>::Named(n);
            &&& a == Some(Action::MoveCursorUp) <==> alone && is(Named::ArrowUp)
            &&& a == Some(Action::MoveCursorDown) <==> alone && is(Named::ArrowDown)
            &&& a == Some(Action::MoveCursorLeft) <==> alone && is(Named::ArrowLeft)
            &&& a == Some(Action::MoveCursorRight) <==> alone && is(Named::ArrowRight)
            &&& a == Some(Action::MoveCursorHome) <==> alone && is(Named::Home)
            &&& a == Some(Action::MoveCursorEnd) <==> alone && is(Named::End)
            &&& a == Some(Action::MoveCursorPageUp) <==> alone && is(Named::PageUp)
            &&& a == Some(Action::MoveCursorPageDown) <==> alone && is(Named::PageDown)
            &&& a == Some(Action::ExtendSelectionUp) <==> shift && is(Named::ArrowUp)
            &&& a == Some(Action::ExtendSelectionDown) <==> shift && is(Named::ArrowDown)
            &&& a == Some(Action::ExtendSelectionLeft) <==> shift && is(Named::ArrowLeft)
            &&& a == Some(Action::ExtendSelectionRight) <==> shift && is(Named::ArrowRight)
            &&& a == Some(Action::ExtendSelectionHome) <==> shift && is(Named::Home)
            &&& a == Some(Action::ExtendSelectionEnd) <==> shift && is(Named::End)
            &&& a == Some(Action::ExtendSelectionPageUp) <==> shift && is(Named::PageUp)
            &&& a == Some(Action::ExtendSelectionPageDown) <==> shift && is(Named::PageDown)
            &&& a == Some(Action::Descend) <==> alone && is(Named::Enter)
            &&& a == Some(Action::Ascend) <==> (alone && is(Named::Backspace)) || (alt && is(
                Named::ArrowUp,
            ))
            &&& a == Some(Action::Back) <==> alt && is(Named::ArrowLeft)
            &&& a == Some(Action::Forward) <==> alt && is(Named::ArrowRight)
            &&& a == Some(Action::ShowProperties) <==> alt && is(Named::Enter)
            &&& a == Some(Action::Refresh) <==> alone && is(Named::F5)
            &&& a == Some(Action::Rename) <==> alone && is(Named::F2)
            &&& a == Some(Action::Delete) <==> alone && is(Named::Delete)
            &&& a == Some(Action::DeletePermanently) <==> shift && is(Named::Delete)
            &&& a == Some(Action::Dismiss) <==> alone && is(Named::Escape)
        }),
{
}

} // verus!
