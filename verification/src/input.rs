//! Keys, mouse buttons and the input events that the simulation consumes.

use vstd::prelude::*;
use crate::geometry::Vec2;
use crate::layout::collect_chars;

verus! {

/// A key of the keyboard that the game knows.
#[derive(Copy, Clone, Eq, PartialEq, Hash, Debug, Structural)]
pub enum Key {
    A,
    B,
    C,
    D,
    E,
    F,
    G,
    H,
    I,
    J,
    K,
    L,
    M,
    N,
    O,
    P,
    Q,
    R,
    S,
    T,
    U,
    V,
    W,
    X,
    Y,
    Z,
    Space,
    Backspace,
    Return,
    Escape,
    Slash,
    Home,
    Delete,
    End,
    Left,
    Up,
    Right,
    Down,
}

/// A button of the mouse.
#[derive(Copy, Clone, Eq, PartialEq, Hash, Debug, Structural)]
pub enum MouseButton {
    Left,
    Middle,
    Right,
    Other(u8),
}

/// Something the player did. Positions and scroll distances are in raw
/// units of a pixel.
#[derive(Copy, Clone, Debug, PartialEq, Eq, Structural)]
pub enum InputEvent {
    KeyDown(Key),
    KeyUp(Key),
    MouseDown(MouseButton),
    MouseUp(MouseButton),
    MouseMove(Vec2),
    MouseWheel(Vec2),
}

/// The key that a keyboard code of the browser names, if the game knows it.
pub open spec fn key_of_code(code: Seq<char>) -> Option<Key> {
    if code == "KeyA"@ {
        Some(Key::A)
    } else if code == "KeyB"@ {
        Some(Key::B)
    } else if code == "KeyC"@ {
        Some(Key::C)
    } else if code == "KeyD"@ {
        Some(Key::D)
    } else if code == "KeyE"@ {
        Some(Key::E)
    } else if code == "KeyF"@ {
        Some(Key::F)
    } else if code == "KeyG"@ {
        Some(Key::G)
    } else if code == "KeyH"@ {
        Some(Key::H)
    } else if code == "KeyI"@ {
        Some(Key::I)
    } else if code == "KeyJ"@ {
        Some(Key::J)
    } else if code == "KeyK"@ {
        Some(Key::K)
    } else if code == "KeyL"@ {
        Some(Key::L)
    } else if code == "KeyM"@ {
        Some(Key::M)
    } else if code == "KeyN"@ {
        Some(Key::N)
    } else if code == "KeyO"@ {
        Some(Key::O)
    } else if code == "KeyP"@ {
        Some(Key::P)
    } else if code == "KeyQ"@ {
        Some(Key::Q)
    } else if code == "KeyR"@ {
        Some(Key::R)
    } else if code == "KeyS"@ {
        Some(Key::S)
    } else if code == "KeyT"@ {
        Some(Key::T)
    } else if code == "KeyU"@ {
        Some(Key::U)
    } else if code == "KeyV"@ {
        Some(Key::V)
    } else if code == "KeyW"@ {
        Some(Key::W)
    } else if code == "KeyX"@ {
        Some(Key::X)
    } else if code == "KeyY"@ {
        Some(Key::Y)
    } else if code == "KeyZ"@ {
        Some(Key::Z)
    } else if code == "Space"@ {
        Some(Key::Space)
    } else if code == "Backspace"@ {
        Some(Key::Backspace)
    } else if code == "Enter"@ {
        Some(Key::Return)
    } else if code == "Escape"@ {
        Some(Key::Escape)
    } else if code == "Home"@ {
        Some(Key::Home)
    } else if code == "Delete"@ {
        Some(Key::Delete)
    } else if code == "End"@ {
        Some(Key::End)
    } else if code == "Slash"@ {
        Some(Key::Slash)
    } else if code == "ArrowLeft"@ {
        Some(Key::Left)
    } else if code == "ArrowUp"@ {
        Some(Key::Up)
    } else if code == "ArrowRight"@ {
        Some(Key::Right)
    } else if code == "ArrowDown"@ {
        Some(Key::Down)
    } else {
        None
    }
}

/// The mouse button that a button number of the browser names.
pub open spec fn button_of_number(button: int) -> MouseButton {
    if button == 0 {
        MouseButton::Left
    } else if button == 1 {
        MouseButton::Middle
    } else if button == 2 {
        MouseButton::Right
    } else {
        MouseButton::Other((button % 256) as u8)
    }
}

/// Whether the characters `code` spell the string `name`.
fn spells(code: &Vec<char>, name: &str) -> (same: bool)
    ensures
        same == (code@ == name@),
{
    let other = collect_chars(name);
    if code.len() != other.len() {
        return false;
    }
    let mut i: usize = 0;
    while i < code.len()
        invariant
            other@ == name@,
            code@.len() == other@.len(),
            i <= code@.len(),
            forall|j: int| 0 <= j < i ==> code@[j] == other@[j],
        decreases code@.len() - i,
    {
        if code[i] != other[i] {
            return false;
        }
        i = i + 1;
    }
    assert(code@ =~= other@);
    true
}

/// The key that a keyboard code of the browser names, if the game knows it.
pub fn get_key_from_code(key: &str) -> (k: Option<Key>)
    ensures
        k == key_of_code(key@),
{
    let code = collect_chars(key);
    if spells(&code, "KeyA") {
        Some(Key::A)
    } else if spells(&code, "KeyB") {
        Some(Key::B)
    } else if spells(&code, "KeyC") {
        Some(Key::C)
    } else if spells(&code, "KeyD") {
        Some(Key::D)
    } else if spells(&code, "KeyE") {
        Some(Key::E)
    } else if spells(&code, "KeyF") {
        Some(Key::F)
    } else if spells(&code, "KeyG") {
        Some(Key::G)
    } else if spells(&code, "KeyH") {
        Some(Key::H)
    } else if spells(&code, "KeyI") {
        Some(Key::I)
    } else if spells(&code, "KeyJ") {
        Some(Key::J)
    } else if spells(&code, "KeyK") {
        Some(Key::K)
    } else if spells(&code, "KeyL") {
        Some(Key::L)
    } else if spells(&code, "KeyM") {
        Some(Key::M)
    } else if spells(&code, "KeyN") {
        Some(Key::N)
    } else if spells(&code, "KeyO") {
        Some(Key::O)
    } else if spells(&code, "KeyP") {
        Some(Key::P)
    } else if spells(&code, "KeyQ") {
        Some(Key::Q)
    } else if spells(&code, "KeyR") {
        Some(Key::R)
    } else if spells(&code, "KeyS") {
        Some(Key::S)
    } else if spells(&code, "KeyT") {
        Some(Key::T)
    } else if spells(&code, "KeyU") {
        Some(Key::U)
    } else if spells(&code, "KeyV") {
        Some(Key::V)
    } else if spells(&code, "KeyW") {
        Some(Key::W)
    } else if spells(&code, "KeyX") {
        Some(Key::X)
    } else if spells(&code, "KeyY") {
        Some(Key::Y)
    } else if spells(&code, "KeyZ") {
        Some(Key::Z)
    } else if spells(&code, "Space") {
        Some(Key::Space)
    } else if spells(&code, "Backspace") {
        Some(Key::Backspace)
    } else if spells(&code, "Enter") {
        Some(Key::Return)
    } else if spells(&code, "Escape") {
        Some(Key::Escape)
    } else if spells(&code, "Home") {
        Some(Key::Home)
    } else if spells(&code, "Delete") {
        Some(Key::Delete)
    } else if spells(&code, "End") {
        Some(Key::End)
    } else if spells(&code, "Slash") {
        Some(Key::Slash)
    } else if spells(&code, "ArrowLeft") {
        Some(Key::Left)
    } else if spells(&code, "ArrowUp") {
        Some(Key::Up)
    } else if spells(&code, "ArrowRight") {
        Some(Key::Right)
    } else if spells(&code, "ArrowDown") {
        Some(Key::Down)
    } else {
        None
    }
}

/// The mouse button that a button number of the browser names. Numbers
/// beyond the three known buttons keep their low eight bits.
pub fn get_mouse_button(button: i16) -> (b: MouseButton)
    ensures
        b == button_of_number(button as int),
{
    if button == 0 {
        MouseButton::Left
    } else if button == 1 {
        MouseButton::Middle
    } else if button == 2 {
        MouseButton::Right
    } else {
        let wide: i32 = button as i32;
        let low: i32 = (wide + 32768) % 256;
        MouseButton::Other(low as u8)
    }
}

} // verus!
