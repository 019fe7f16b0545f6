//! Window input events that the game logic reads: typed text, and presses
//! and releases of keys and mouse buttons within a frame.

use vstd::prelude::*;

verus! {

/// A typed character, or a backspace.
#[derive(Clone, Copy, Debug, PartialEq, Eq, Structural)]
pub enum TextChar {
    Char(char),
    Back,
}

/// A mouse button going down or up, by button number.
#[derive(Clone, Copy, Debug, PartialEq, Eq, Structural)]
pub enum MouseAction {
    Pressed(usize),
    Released(usize),
}

/// A key going down or up, by key code.
#[derive(Clone, Copy, Debug, PartialEq, Eq, Structural)]
pub enum KeyAction {
    Pressed(u32),
    Released(u32),
}

/// The number of a mouse button: left 0, right 1, middle 2, others by their own number.
pub fn mouse_button_number(left: bool, right: bool, middle: bool, other: u8) -> (n: usize)
    ensures
        n == if left {
            0
        } else if right {
            1
        } else if middle {
            2
        } else {
            other as usize
        },
{
    if left {
        0
    } else if right {
        1
    } else if middle {
        2
    } else {
        other as usize
    }
}

/// Whether `button` went down this frame (off->on).
pub fn mouse_pressed(actions: &[MouseAction], button: usize) -> (r: bool)
    ensures
        r == actions@.contains(MouseAction::Pressed(button)),
{
    let mut i: usize = 0;
    while i < actions.len()
        invariant
            0 <= i <= actions@.len(),
            forall|j: int| 0 <= j < i ==> actions@[j] != MouseAction::Pressed(button),
        decreases actions@.len() - i,
    {
        if actions[i] == MouseAction::Pressed(button) {
            return true;
        }
        i = i + 1;
    }
    false
}

/// Whether `button` went up this frame (on->off).
pub fn mouse_released(actions: &[MouseAction], button: usize) -> (r: bool)
    ensures
        r == actions@.contains(MouseAction::Released(button)),
{
    let mut i: usize = 0;
    while i < actions.len()
        invariant
            0 <= i <= actions@.len(),
            forall|j: int| 0 <= j < i ==> actions@[j] != MouseAction::Released(button),
        decreases actions@.len() - i,
    {
        if actions[i] == MouseAction::Released(button) {
            return true;
        }
        i = i + 1;
    }
    false
}

/// Whether the key `code` went down this frame (off->on).
pub fn key_pressed(actions: &[KeyAction], code: u32) -> (r: bool)
    ensures
        r == actions@.contains(KeyAction::Pressed(code)),
{
    let mut i: usize = 0;
    while i < actions.len()
        invariant
            0 <= i <= actions@.len(),
            forall|j: int| 0 <= j < i ==> actions@[j] != KeyAction::Pressed(code),
        decreases actions@.len() - i,
    {
        if actions[i] == KeyAction::Pressed(code) {
            return true;
        }
        i = i + 1;
    }
    false
}

/// Whether the key `code` went up this frame (on->off).
pub fn key_released(actions: &[KeyAction], code: u32) -> (r: bool)
    ensures
        r == actions@.contains(KeyAction::Released(code)),
{
    let mut i: usize = 0;
    while i < actions.len()
        invariant
            0 <= i <= actions@.len(),
            forall|j: int| 0 <= j < i ==> actions@[j] != KeyAction::Released(code),
        decreases actions@.len() - i,
    {
        if actions[i] == KeyAction::Released(code) {
            return true;
        }
        i = i + 1;
    }
    false
}

/// A key that types text: a letter (`0` is A), a digit, a punctuation key,
/// the space bar or backspace.
#[derive(Clone, Copy, Debug, PartialEq, Eq, Structural)]
pub enum TypedKey {
    Letter(u8),
    Digit(u8),
    Period,
    Comma,
    Semicolon,
    LBracket,
    RBracket,
    Apostrophe,
    Subtract,
    Equals,
    Slash,
    Backslash,
    Grave,
    Space,
    Back,
}

/// The characters that shift gives on the digit keys 0 to 9.
pub open spec fn shifted_digits() -> Seq<char> {
    seq![')', '!', '@', '#', '$', '%', '^', '&', '*', '(']
}

/// What key `k` types, with or without shift; nothing for a letter or
/// digit out of range.
pub open spec fn key_text(k: TypedKey, shift: bool) -> Option<TextChar> {
    let pick = |unshifted: char, shifted: char| Some(TextChar::Char(if shift { shifted } else { unshifted }));
    match k {
        TypedKey::Letter(i) => if i < 26 {
            Some(TextChar::Char((if shift { 'A' } else { 'a' } as int + i) as char))
        } else {
            None
        },
        TypedKey::Digit(d) => if d < 10 {
            Some(TextChar::Char(if shift { shifted_digits()[d as int] } else { ('0' as int + d) as char }))
        } else {
            None
        },
        TypedKey::Period => pick('.', '<'),
        TypedKey::Comma => pick(',', '>'),
        TypedKey::Semicolon => pick(';', ':'),
        TypedKey::LBracket => pick('[', '{'),
        TypedKey::RBracket => pick(']', '}'),
        TypedKey::Apostrophe => pick('\'', '"'),
        TypedKey::Subtract => pick('-', '_'),
        TypedKey::Equals => pick('=', '+'),
        TypedKey::Slash => pick('/', '?'),
        TypedKey::Backslash => pick('\\', '|'),
        TypedKey::Grave => pick('`', '~'),
        TypedKey::Space => pick(' ', ' '),
        TypedKey::Back => Some(TextChar::Back),
    }
}

/// The text a key press adds: what the key types, or nothing for a key
/// that types nothing.
pub open spec fn typed(key: Option<TypedKey>, shift: bool) -> Seq<TextChar> {
    match key {
        Some(k) => match key_text(k, shift) {
            Some(t) => seq![t],
            None => seq![],
        },
        None => seq![],
    }
}

fn pick_char(shift: bool, unshifted: char, shifted: char) -> (t: Option<TextChar>)
    ensures
        t == Some(TextChar::Char(if shift { shifted } else { unshifted })),
{
    Some(TextChar::Char(if shift { shifted } else { unshifted }))
}

fn key_text_exec(k: TypedKey, shift: bool) -> (t: Option<TextChar>)
    ensures
        t == key_text(k, shift),
{
    match k {
        TypedKey::Letter(i) => if i < 26 {
            let base: u8 = if shift { 65 } else { 97 };
            let c = (base + i) as char;
            assert(c == (if shift { 'A' } else { 'a' } as int + i) as char);
            Some(TextChar::Char(c))
        } else {
            None
        },
        TypedKey::Digit(d) => if d < 10 {
            let c = if shift {
                let table = [')', '!', '@', '#', '$', '%', '^', '&', '*', '('];
                assert(table@ == shifted_digits());
                table[d as usize]
            } else {
                (48u8 + d) as char
            };
            Some(TextChar::Char(c))
        } else {
            None
        },
        TypedKey::Period => pick_char(shift, '.', '<'),
        TypedKey::Comma => pick_char(shift, ',', '>'),
        TypedKey::Semicolon => pick_char(shift, ';', ':'),
        TypedKey::LBracket => pick_char(shift, '[', '{'),
        TypedKey::RBracket => pick_char(shift, ']', '}'),
        TypedKey::Apostrophe => pick_char(shift, '\'', '"'),
        TypedKey::Subtract => pick_char(shift, '-', '_'),
        TypedKey::Equals => pick_char(shift, '=', '+'),
        TypedKey::Slash => pick_char(shift, '/', '?'),
        TypedKey::Backslash => pick_char(shift, '\\', '|'),
        TypedKey::Grave => pick_char(shift, '`', '~'),
        TypedKey::Space => pick_char(shift, ' ', ' '),
        TypedKey::Back => Some(TextChar::Back),
    }
}

/// Adds to `text` what a key press types: `key` is the key pressed, if it
/// is one that types, and `shift` whether shift is held.
pub fn push_text(text: &mut Vec<TextChar>, key: Option<TypedKey>, shift: bool)
    ensures
        final(text)@ == old(text)@ + typed(key, shift),
{
    match key {
        Some(k) => match key_text_exec(k, shift) {
            Some(t) => {
                text.push(t);
                assert(text@ =~= old(text)@ + seq![t]);
            },
            None => {
                assert(text@ =~= old(text)@ + Seq::<TextChar>::empty());
            },
        },
        None => {
            assert(text@ =~= old(text)@ + Seq::<TextChar>::empty());
        },
    }
}

} // verus!
