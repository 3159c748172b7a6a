//! Keys, keyboard events and modifier state, widget ids, and the
//! hover/press/click state of widgets.
use vstd::prelude::*;
use crate::api::SurfaceId;
use vstd::string::StringExecFns;

verus! {

/// The character that an X keysym produces, as xkeysym's `Keysym::key_char` gives it.
pub uninterp spec fn keysym_char(raw: u32) -> Option<char>;

/// Calls `xkeysym::Keysym::key_char` on `Keysym::new(raw)`. The result is
/// named `keysym_char(raw)`; its source also shows that printable Latin-1
/// keysyms (0x20..=0x7e and 0xa0..=0xff) map to the character with the
/// same code, and that keysyms 0x01000000..=0x0110ffff encode the code
/// point `raw - 0x01000000` directly (none for a surrogate), which is
/// stated too. Its table of named keysyms is not stated.
#[verifier::external_body]
fn keysym_key_char(raw: u32) -> (r: Option<char>)
    ensures
        r == keysym_char(raw),
        (0x20 <= raw <= 0x7e || 0xa0 <= raw <= 0xff) ==> r == Some(raw as char),
        0x0100d800 <= raw <= 0x0100dfff ==> r is None,
        (0x01000000 <= raw <= 0x0110ffff && !(0x0100d800 <= raw <= 0x0100dfff)) ==> r == Some(
            ((raw - 0x01000000) as u32) as char,
        ),
{
    xkeysym::Keysym::new(raw).key_char()
}

/// A key, named by what it does.
#[derive(Clone, Copy, Debug, PartialEq, Eq, Hash, Structural)]
pub enum Key {
    Backspace,
    Tab,
    Enter,
    Escape,
    Space,
    Delete,
    Insert,
    Home,
    End,
    PageUp,
    PageDown,
    ArrowLeft,
    ArrowUp,
    ArrowRight,
    ArrowDown,
    Clear,
    Pause,
    PrintScreen,
    ScrollLock,
    NumLock,
    CapsLock,
    Menu,
    Help,
    Undo,
    Redo,
    Find,
    Cancel,
    ShiftLeft,
    ShiftRight,
    ControlLeft,
    ControlRight,
    AltLeft,
    AltRight,
    SuperLeft,
    SuperRight,
    MetaLeft,
    MetaRight,
    /// `F1` is `Function(1)`.
    Function(u8),
    /// The digit of a numpad digit key.
    Numpad(u8),
    NumpadAdd,
    NumpadSubtract,
    NumpadMultiply,
    NumpadDivide,
    NumpadDecimal,
    NumpadEqual,
    Character(char),
    Unknown(u32),
}

pub const KEY_BACKSPACE: u32 = 0xff08;
pub const KEY_TAB: u32 = 0xff09;
pub const KEY_KP_TAB: u32 = 0xff89;
pub const KEY_RETURN: u32 = 0xff0d;
pub const KEY_KP_ENTER: u32 = 0xff8d;
pub const KEY_ESCAPE: u32 = 0xff1b;
pub const KEY_SPACE: u32 = 0x20;
pub const KEY_KP_SPACE: u32 = 0xff80;
pub const KEY_DELETE: u32 = 0xffff;
pub const KEY_KP_DELETE: u32 = 0xff9f;
pub const KEY_INSERT: u32 = 0xff63;
pub const KEY_KP_INSERT: u32 = 0xff9e;
pub const KEY_HOME: u32 = 0xff50;
pub const KEY_KP_HOME: u32 = 0xff95;
pub const KEY_END: u32 = 0xff57;
pub const KEY_KP_END: u32 = 0xff9c;
pub const KEY_PAGE_UP: u32 = 0xff55;
pub const KEY_KP_PAGE_UP: u32 = 0xff9a;
pub const KEY_PAGE_DOWN: u32 = 0xff56;
pub const KEY_KP_PAGE_DOWN: u32 = 0xff9b;
pub const KEY_LEFT: u32 = 0xff51;
pub const KEY_KP_LEFT: u32 = 0xff96;
pub const KEY_UP: u32 = 0xff52;
pub const KEY_KP_UP: u32 = 0xff97;
pub const KEY_RIGHT: u32 = 0xff53;
pub const KEY_KP_RIGHT: u32 = 0xff98;
pub const KEY_DOWN: u32 = 0xff54;
pub const KEY_KP_DOWN: u32 = 0xff99;
pub const KEY_CLEAR: u32 = 0xff0b;
pub const KEY_PAUSE: u32 = 0xff13;
pub const KEY_PRINT: u32 = 0xff61;
pub const KEY_SCROLL_LOCK: u32 = 0xff14;
pub const KEY_NUM_LOCK: u32 = 0xff7f;
pub const KEY_CAPS_LOCK: u32 = 0xffe5;
pub const KEY_MENU: u32 = 0xff67;
pub const KEY_HELP: u32 = 0xff6a;
pub const KEY_UNDO: u32 = 0xff65;
pub const KEY_REDO: u32 = 0xff66;
pub const KEY_FIND: u32 = 0xff68;
pub const KEY_CANCEL: u32 = 0xff69;
pub const KEY_SHIFT_L: u32 = 0xffe1;
pub const KEY_SHIFT_R: u32 = 0xffe2;
pub const KEY_CONTROL_L: u32 = 0xffe3;
pub const KEY_CONTROL_R: u32 = 0xffe4;
pub const KEY_ALT_L: u32 = 0xffe9;
pub const KEY_ALT_R: u32 = 0xffea;
pub const KEY_SUPER_L: u32 = 0xffeb;
pub const KEY_SUPER_R: u32 = 0xffec;
pub const KEY_META_L: u32 = 0xffe7;
pub const KEY_META_R: u32 = 0xffe8;
pub const KEY_KP_ADD: u32 = 0xffab;
pub const KEY_KP_SUBTRACT: u32 = 0xffad;
pub const KEY_KP_MULTIPLY: u32 = 0xffaa;
pub const KEY_KP_DIVIDE: u32 = 0xffaf;
pub const KEY_KP_DECIMAL: u32 = 0xffae;
pub const KEY_KP_SEPARATOR: u32 = 0xffac;
pub const KEY_KP_EQUAL: u32 = 0xffbd;
pub const KEY_KP_0: u32 = 0xffb0;
pub const KEY_KP_9: u32 = 0xffb9;
pub const KEY_F1: u32 = 0xffbe;
pub const KEY_F35: u32 = 0xffe0;

/// The key that an X keysym names, for the keysyms with a name of their
/// own; other keysyms become the character they produce, or `Unknown`.
pub open spec fn spec_named_key(raw: u32) -> Option<Key> {
    if raw == KEY_BACKSPACE { Some(Key::Backspace) }
    else if raw == KEY_TAB || raw == KEY_KP_TAB { Some(Key::Tab) }
    else if raw == KEY_RETURN || raw == KEY_KP_ENTER { Some(Key::Enter) }
    else if raw == KEY_ESCAPE { Some(Key::Escape) }
    else if raw == KEY_SPACE || raw == KEY_KP_SPACE { Some(Key::Space) }
    else if raw == KEY_DELETE || raw == KEY_KP_DELETE { Some(Key::Delete) }
    else if raw == KEY_INSERT || raw == KEY_KP_INSERT { Some(Key::Insert) }
    else if raw == KEY_HOME || raw == KEY_KP_HOME { Some(Key::Home) }
    else if raw == KEY_END || raw == KEY_KP_END { Some(Key::End) }
    else if raw == KEY_PAGE_UP || raw == KEY_KP_PAGE_UP { Some(Key::PageUp) }
    else if raw == KEY_PAGE_DOWN || raw == KEY_KP_PAGE_DOWN { Some(Key::PageDown) }
    else if raw == KEY_LEFT || raw == KEY_KP_LEFT { Some(Key::ArrowLeft) }
    else if raw == KEY_UP || raw == KEY_KP_UP { Some(Key::ArrowUp) }
    else if raw == KEY_RIGHT || raw == KEY_KP_RIGHT { Some(Key::ArrowRight) }
    else if raw == KEY_DOWN || raw == KEY_KP_DOWN { Some(Key::ArrowDown) }
    else if raw == KEY_CLEAR { Some(Key::Clear) }
    else if raw == KEY_PAUSE { Some(Key::Pause) }
    else if raw == KEY_PRINT { Some(Key::PrintScreen) }
    else if raw == KEY_SCROLL_LOCK { Some(Key::ScrollLock) }
    else if raw == KEY_NUM_LOCK { Some(Key::NumLock) }
    else if raw == KEY_CAPS_LOCK { Some(Key::CapsLock) }
    else if raw == KEY_MENU { Some(Key::Menu) }
    else if raw == KEY_HELP { Some(Key::Help) }
    else if raw == KEY_UNDO { Some(Key::Undo) }
    else if raw == KEY_REDO { Some(Key::Redo) }
    else if raw == KEY_FIND { Some(Key::Find) }
    else if raw == KEY_CANCEL { Some(Key::Cancel) }
    else if raw == KEY_SHIFT_L { Some(Key::ShiftLeft) }
    else if raw == KEY_SHIFT_R { Some(Key::ShiftRight) }
    else if raw == KEY_CONTROL_L { Some(Key::ControlLeft) }
    else if raw == KEY_CONTROL_R { Some(Key::ControlRight) }
    else if raw == KEY_ALT_L { Some(Key::AltLeft) }
    else if raw == KEY_ALT_R { Some(Key::AltRight) }
    else if raw == KEY_SUPER_L { Some(Key::SuperLeft) }
    else if raw == KEY_SUPER_R { Some(Key::SuperRight) }
    else if raw == KEY_META_L { Some(Key::MetaLeft) }
    else if raw == KEY_META_R { Some(Key::MetaRight) }
    else if raw == KEY_KP_ADD { Some(Key::NumpadAdd) }
    else if raw == KEY_KP_SUBTRACT { Some(Key::NumpadSubtract) }
    else if raw == KEY_KP_MULTIPLY { Some(Key::NumpadMultiply) }
    else if raw == KEY_KP_DIVIDE { Some(Key::NumpadDivide) }
    else if raw == KEY_KP_DECIMAL || raw == KEY_KP_SEPARATOR { Some(Key::NumpadDecimal) }
    else if raw == KEY_KP_EQUAL { Some(Key::NumpadEqual) }
    else if KEY_KP_0 <= raw <= KEY_KP_9 { Some(Key::Numpad((raw - KEY_KP_0) as u8)) }
    else if KEY_F1 <= raw <= KEY_F35 { Some(Key::Function((raw - KEY_F1 + 1) as u8)) }
    else { None }
}

pub open spec fn spec_key_from_keysym(raw: u32) -> Key {
    match spec_named_key(raw) {
        Some(key) => key,
        None => match keysym_char(raw) {
            Some(c) => Key::Character(c),
            None => Key::Unknown(raw),
        },
    }
}

impl Key {
    /// The key of an X keysym.
    pub fn from_keysym(raw: u32) -> (r: Self)
        ensures
            r == spec_key_from_keysym(raw),
            spec_named_key(raw) is None && (0x20 <= raw <= 0x7e || 0xa0 <= raw <= 0xff) ==> r == Key::Character(
                raw as char,
            ),
            spec_named_key(raw) is None && 0x0100d800 <= raw <= 0x0100dfff ==> r == Key::Unknown(raw),
            (spec_named_key(raw) is None && 0x01000000 <= raw <= 0x0110ffff && !(0x0100d800 <= raw <= 0x0100dfff))
                ==> r == Key::Character(((raw - 0x01000000) as u32) as char),
    {
        if raw == KEY_BACKSPACE { Key::Backspace }
        else if raw == KEY_TAB || raw == KEY_KP_TAB { Key::Tab }
        else if raw == KEY_RETURN || raw == KEY_KP_ENTER { Key::Enter }
        else if raw == KEY_ESCAPE { Key::Escape }
        else if raw == KEY_SPACE || raw == KEY_KP_SPACE { Key::Space }
        else if raw == KEY_DELETE || raw == KEY_KP_DELETE { Key::Delete }
        else if raw == KEY_INSERT || raw == KEY_KP_INSERT { Key::Insert }
        else if raw == KEY_HOME || raw == KEY_KP_HOME { Key::Home }
        else if raw == KEY_END || raw == KEY_KP_END { Key::End }
        else if raw == KEY_PAGE_UP || raw == KEY_KP_PAGE_UP { Key::PageUp }
        else if raw == KEY_PAGE_DOWN || raw == KEY_KP_PAGE_DOWN { Key::PageDown }
        else if raw == KEY_LEFT || raw == KEY_KP_LEFT { Key::ArrowLeft }
        else if raw == KEY_UP || raw == KEY_KP_UP { Key::ArrowUp }
        else if raw == KEY_RIGHT || raw == KEY_KP_RIGHT { Key::ArrowRight }
        else if raw == KEY_DOWN || raw == KEY_KP_DOWN { Key::ArrowDown }
        else if raw == KEY_CLEAR { Key::Clear }
        else if raw == KEY_PAUSE { Key::Pause }
        else if raw == KEY_PRINT { Key::PrintScreen }
        else if raw == KEY_SCROLL_LOCK { Key::ScrollLock }
        else if raw == KEY_NUM_LOCK { Key::NumLock }
        else if raw == KEY_CAPS_LOCK { Key::CapsLock }
        else if raw == KEY_MENU { Key::Menu }
        else if raw == KEY_HELP { Key::Help }
        else if raw == KEY_UNDO { Key::Undo }
        else if raw == KEY_REDO { Key::Redo }
        else if raw == KEY_FIND { Key::Find }
        else if raw == KEY_CANCEL { Key::Cancel }
        else if raw == KEY_SHIFT_L { Key::ShiftLeft }
        else if raw == KEY_SHIFT_R { Key::ShiftRight }
        else if raw == KEY_CONTROL_L { Key::ControlLeft }
        else if raw == KEY_CONTROL_R { Key::ControlRight }
        else if raw == KEY_ALT_L { Key::AltLeft }
        else if raw == KEY_ALT_R { Key::AltRight }
        else if raw == KEY_SUPER_L { Key::SuperLeft }
        else if raw == KEY_SUPER_R { Key::SuperRight }
        else if raw == KEY_META_L { Key::MetaLeft }
        else if raw == KEY_META_R { Key::MetaRight }
        else if raw == KEY_KP_ADD { Key::NumpadAdd }
        else if raw == KEY_KP_SUBTRACT { Key::NumpadSubtract }
        else if raw == KEY_KP_MULTIPLY { Key::NumpadMultiply }
        else if raw == KEY_KP_DIVIDE { Key::NumpadDivide }
        else if raw == KEY_KP_DECIMAL || raw == KEY_KP_SEPARATOR { Key::NumpadDecimal }
        else if raw == KEY_KP_EQUAL { Key::NumpadEqual }
        else if KEY_KP_0 <= raw && raw <= KEY_KP_9 { Key::Numpad((raw - KEY_KP_0) as u8) }
        else if KEY_F1 <= raw && raw <= KEY_F35 { Key::Function((raw - KEY_F1 + 1) as u8) }
        else { Key::from_keysym_char(raw, keysym_key_char(raw)) }
    }

    /// The key of a keysym that names no key, given the character that the
    /// keysym stands for, if any.
    pub fn from_keysym_char(raw: u32, character: Option<char>) -> (r: Self)
        ensures
            r == (match character {
                Some(c) => Key::Character(c),
                None => Key::Unknown(raw),
            }),
    {
        match character {
            Some(c) => Key::Character(c),
            None => Key::Unknown(raw),
        }
    }

    pub open spec fn spec_is_modifier(self) -> bool {
        match self {
            Key::ShiftLeft | Key::ShiftRight | Key::ControlLeft | Key::ControlRight | Key::AltLeft
            | Key::AltRight | Key::SuperLeft | Key::SuperRight | Key::MetaLeft | Key::MetaRight => true,
            _ => false,
        }
    }

    /// Whether the key is a shift, control, alt, super or meta key.
    pub fn is_modifier(self) -> (r: bool)
        ensures
            r == self.spec_is_modifier(),
    {
        match self {
            Key::ShiftLeft | Key::ShiftRight | Key::ControlLeft | Key::ControlRight | Key::AltLeft
            | Key::AltRight | Key::SuperLeft | Key::SuperRight | Key::MetaLeft | Key::MetaRight => true,
            _ => false,
        }
    }
}

/// The keysym table: every X keysym with a name of its own gives the key of
/// that name (its keypad twin too, where it has one), the keypad digits give
/// their digit, and `F1` to `F35` give their number. Values are the X11
/// keysym codes.
pub proof fn lemma_named_keysyms_give_their_keys()
    ensures
        spec_key_from_keysym(0xff08) == Key::Backspace,
        spec_key_from_keysym(0xff09) == Key::Tab,
        spec_key_from_keysym(0xff89) == Key::Tab,
        spec_key_from_keysym(0xff0d) == Key::Enter,
        spec_key_from_keysym(0xff8d) == Key::Enter,
        spec_key_from_keysym(0xff1b) == Key::Escape,
        spec_key_from_keysym(0x20) == Key::Space,
        spec_key_from_keysym(0xff80) == Key::Space,
        spec_key_from_keysym(0xffff) == Key::Delete,
        spec_key_from_keysym(0xff9f) == Key::Delete,
        spec_key_from_keysym(0xff63) == Key::Insert,
        spec_key_from_keysym(0xff9e) == Key::Insert,
        spec_key_from_keysym(0xff50) == Key::Home,
        spec_key_from_keysym(0xff95) == Key::Home,
        spec_key_from_keysym(0xff57) == Key::End,
        spec_key_from_keysym(0xff9c) == Key::End,
        spec_key_from_keysym(0xff55) == Key::PageUp,
        spec_key_from_keysym(0xff9a) == Key::PageUp,
        spec_key_from_keysym(0xff56) == Key::PageDown,
        spec_key_from_keysym(0xff9b) == Key::PageDown,
        spec_key_from_keysym(0xff51) == Key::ArrowLeft,
        spec_key_from_keysym(0xff96) == Key::ArrowLeft,
        spec_key_from_keysym(0xff52) == Key::ArrowUp,
        spec_key_from_keysym(0xff97) == Key::ArrowUp,
        spec_key_from_keysym(0xff53) == Key::ArrowRight,
        spec_key_from_keysym(0xff98) == Key::ArrowRight,
        spec_key_from_keysym(0xff54) == Key::ArrowDown,
        spec_key_from_keysym(0xff99) == Key::ArrowDown,
        spec_key_from_keysym(0xff0b) == Key::Clear,
        spec_key_from_keysym(0xff13) == Key::Pause,
        spec_key_from_keysym(0xff61) == Key::PrintScreen,
        spec_key_from_keysym(0xff14) == Key::ScrollLock,
        spec_key_from_keysym(0xff7f) == Key::NumLock,
        spec_key_from_keysym(0xffe5) == Key::CapsLock,
        spec_key_from_keysym(0xff67) == Key::Menu,
        spec_key_from_keysym(0xff6a) == Key::Help,
        spec_key_from_keysym(0xff65) == Key::Undo,
        spec_key_from_keysym(0xff66) == Key::Redo,
        spec_key_from_keysym(0xff68) == Key::Find,
        spec_key_from_keysym(0xff69) == Key::Cancel,
        spec_key_from_keysym(0xffe1) == Key::ShiftLeft,
        spec_key_from_keysym(0xffe2) == Key::ShiftRight,
        spec_key_from_keysym(0xffe3) == Key::ControlLeft,
        spec_key_from_keysym(0xffe4) == Key::ControlRight,
        spec_key_from_keysym(0xffe9) == Key::AltLeft,
        spec_key_from_keysym(0xffea) == Key::AltRight,
        spec_key_from_keysym(0xffeb) == Key::SuperLeft,
        spec_key_from_keysym(0xffec) == Key::SuperRight,
        spec_key_from_keysym(0xffe7) == Key::MetaLeft,
        spec_key_from_keysym(0xffe8) == Key::MetaRight,
        spec_key_from_keysym(0xffab) == Key::NumpadAdd,
        spec_key_from_keysym(0xffad) == Key::NumpadSubtract,
        spec_key_from_keysym(0xffaa) == Key::NumpadMultiply,
        spec_key_from_keysym(0xffaf) == Key::NumpadDivide,
        spec_key_from_keysym(0xffae) == Key::NumpadDecimal,
        spec_key_from_keysym(0xffac) == Key::NumpadDecimal,
        spec_key_from_keysym(0xffbd) == Key::NumpadEqual,
        forall|raw: u32| 0xffb0 <= raw <= 0xffb9 ==> #[trigger] spec_key_from_keysym(raw) == Key::Numpad((raw - 0xffb0) as u8),
        forall|raw: u32| 0xffbe <= raw <= 0xffe0 ==> #[trigger] spec_key_from_keysym(raw) == Key::Function((raw - 0xffbd) as u8),
{
}

/// Which modifier keys are held or locked.
#[derive(Clone, Copy, Debug, PartialEq, Eq, Structural)]
pub struct KeyboardModifiers {
    pub ctrl: bool,
    pub alt: bool,
    pub shift: bool,
    pub caps_lock: bool,
    pub logo: bool,
    pub num_lock: bool,
}

impl Default for KeyboardModifiers {
    fn default() -> (r: Self)
        ensures
            r == (KeyboardModifiers { ctrl: false, alt: false, shift: false, caps_lock: false, logo: false, num_lock: false }),
    {
        KeyboardModifiers { ctrl: false, alt: false, shift: false, caps_lock: false, logo: false, num_lock: false }
    }
}

#[derive(Clone, Copy, Debug, PartialEq, Eq, Structural)]
pub enum KeyState {
    Pressed,
    Released,
}

/// What happened on the keyboard.
#[derive(Clone, Debug, PartialEq, Eq)]
pub enum KeyboardEventKind {
    /// The keyboard entered a surface with these keys held.
    Enter { pressed_keycodes: Vec<u32>, pressed_keysyms: Vec<u32> },
    Leave,
    Key { state: KeyState, raw_code: u32, keysym: u32, key: Key, utf8: Option<String> },
    Modifiers { modifiers: KeyboardModifiers, layout: u32 },
}

#[derive(Clone, Debug, PartialEq, Eq)]
pub struct KeyboardEvent {
    pub surface: Option<SurfaceId>,
    pub time: Option<u32>,
    pub serial: Option<u32>,
    pub kind: KeyboardEventKind,
}

/// The id of a widget, by which it is found again from frame to frame.
#[derive(Debug, Hash, PartialOrd, Ord)]
pub struct WidgetId(String);

impl View for WidgetId {
    type V = Seq<char>;

    closed spec fn view(&self) -> Seq<char> {
        self.0@
    }
}

impl PartialEq for WidgetId {
    fn eq(&self, other: &Self) -> (r: bool) {
        self.0 == other.0
    }
}

impl Eq for WidgetId {}

impl vstd::std_specs::cmp::PartialEqSpecImpl for WidgetId {
    open spec fn obeys_eq_spec() -> bool {
        true
    }

    open spec fn eq_spec(&self, other: &WidgetId) -> bool {
        self@ == other@
    }
}

impl Clone for WidgetId {
    fn clone(&self) -> (r: Self)
        ensures
            r@ == self@,
    {
        WidgetId(self.0.clone())
    }
}

impl Default for WidgetId {
    fn default() -> (r: Self)
        ensures
            r@ == Seq::<char>::empty(),
    {
        WidgetId(String::new())
    }
}

impl WidgetId {
    pub fn new(id: String) -> (r: Self)
        ensures
            r@ == id@,
    {
        WidgetId(id)
    }

    /// The id made of the characters of `id`.
    pub fn from_str(id: &str) -> (r: Self)
        ensures
            r@ == id@,
    {
        WidgetId(id.to_owned())
    }

    pub fn as_str(&self) -> (r: &str)
        ensures
            r@ == self@,
    {
        self.0.as_str()
    }

    pub fn same(&self, other: &WidgetId) -> (r: bool)
        ensures
            r == (self@ == other@),
    {
        self.0 == other.0
    }
}

impl From<String> for WidgetId {
    fn from(id: String) -> (r: Self)
        ensures
            r@ == id@,
    {
        WidgetId(id)
    }
}

impl vstd::std_specs::convert::FromSpecImpl<String> for WidgetId {
    open spec fn obeys_from_spec() -> bool {
        true
    }

    closed spec fn from_spec(v: String) -> Self {
        WidgetId(v)
    }
}

/// The character of the decimal digit `d`.
pub open spec fn spec_digit(d: int) -> char {
    (48 + d) as char
}

/// The decimal text of `n`, without leading zeros (`"0"` for zero).
pub open spec fn spec_decimal(n: nat) -> Seq<char>
    decreases n,
{
    if n < 10 {
        seq![spec_digit(n as int)]
    } else {
        spec_decimal(n / 10).push(spec_digit((n % 10) as int))
    }
}

/// The text of one decimal digit.
fn digit_text(d: u64) -> (r: &'static str)
    requires
        d < 10,
    ensures
        r@ == seq![spec_digit(d as int)],
{
    proof {
        reveal_strlit("0");
        reveal_strlit("1");
        reveal_strlit("2");
        reveal_strlit("3");
        reveal_strlit("4");
        reveal_strlit("5");
        reveal_strlit("6");
        reveal_strlit("7");
        reveal_strlit("8");
        reveal_strlit("9");
    }
    if d == 0 { "0" }
    else if d == 1 { "1" }
    else if d == 2 { "2" }
    else if d == 3 { "3" }
    else if d == 4 { "4" }
    else if d == 5 { "5" }
    else if d == 6 { "6" }
    else if d == 7 { "7" }
    else if d == 8 { "8" }
    else { "9" }
}

/// Appends the decimal text of `n`.
fn append_decimal(text: &mut String, n: u64)
    ensures
        final(text)@ == old(text)@ + spec_decimal(n as nat),
    decreases n,
{
    if n >= 10 {
        append_decimal(text, n / 10);
    }
    text.append(digit_text(n % 10));
    proof {
        assert(old(text)@ + spec_decimal(n as nat) =~= if n >= 10 {
            (old(text)@ + spec_decimal((n / 10) as nat)) + seq![spec_digit((n % 10) as int)]
        } else {
            old(text)@ + seq![spec_digit((n % 10) as int)]
        });
    }
}

impl From<u64> for WidgetId {
    /// The id made of the decimal text of `id`.
    fn from(id: u64) -> (r: Self)
        ensures
            r@ == spec_decimal(id as nat),
    {
        let mut text = String::new();
        append_decimal(&mut text, id);
        WidgetId(text)
    }
}

impl vstd::std_specs::convert::FromSpecImpl<u64> for WidgetId {
    open spec fn obeys_from_spec() -> bool {
        false
    }

    closed spec fn from_spec(v: u64) -> Self {
        vstd::pervasive::arbitrary()
    }
}

impl From<&'static str> for WidgetId {
    fn from(id: &'static str) -> (r: Self)
        ensures
            r@ == id@,
    {
        WidgetId(id.to_owned())
    }
}

impl vstd::std_specs::convert::FromSpecImpl<&'static str> for WidgetId {
    open spec fn obeys_from_spec() -> bool {
        false
    }

    closed spec fn from_spec(v: &'static str) -> Self {
        vstd::pervasive::arbitrary()
    }
}

/// Whether `slot` holds a widget id equal to `id`.
pub open spec fn spec_holds(slot: Option<WidgetId>, id: Seq<char>) -> bool {
    match slot {
        Some(w) => w@ == id,
        None => false,
    }
}

fn holds(slot: &Option<WidgetId>, id: &WidgetId) -> (r: bool)
    ensures
        r == spec_holds(*slot, id@),
{
    match slot {
        Some(w) => w.same(id),
        None => false,
    }
}

fn clone_slot(slot: &Option<WidgetId>) -> (r: Option<WidgetId>)
    ensures
        spec_slot_view(r) == spec_slot_view(*slot),
{
    match slot {
        Some(w) => Some(w.clone()),
        None => None,
    }
}

/// The characters of the id in a slot, if any.
pub open spec fn spec_slot_view(slot: Option<WidgetId>) -> Option<Seq<char>> {
    match slot {
        Some(w) => Some(w@),
        None => None,
    }
}

/// How a widget is being interacted with this frame.
#[derive(Clone, Copy, Debug, PartialEq, Eq, Structural)]
pub struct WidgetInteraction {
    pub hovered: bool,
    pub pressed: bool,
    pub clicked: bool,
    pub focused: bool,
    pub disabled: bool,
}

impl Default for WidgetInteraction {
    fn default() -> (r: Self)
        ensures
            r == (WidgetInteraction { hovered: false, pressed: false, clicked: false, focused: false, disabled: false }),
    {
        WidgetInteraction { hovered: false, pressed: false, clicked: false, focused: false, disabled: false }
    }
}

/// The keyboard side of the input state: focus, the surface the keyboard
/// is on, the modifiers, and this frame's events.
#[derive(Clone, Debug, PartialEq, Eq)]
pub struct KeyboardState {
    pub focused: Option<WidgetId>,
    pub surface: Option<SurfaceId>,
    pub modifiers: KeyboardModifiers,
    pub events: Vec<KeyboardEvent>,
}

impl Default for KeyboardState {
    fn default() -> (r: Self)
        ensures
            r.focused is None,
            r.surface is None,
            r.modifiers == (KeyboardModifiers { ctrl: false, alt: false, shift: false, caps_lock: false, logo: false, num_lock: false }),
            r.events@ == Seq::<KeyboardEvent>::empty(),
    {
        KeyboardState { focused: None, surface: None, modifiers: KeyboardModifiers::default(), events: Vec::new() }
    }
}

impl KeyboardState {
    /// Takes in a keyboard event: entering a surface makes it the keyboard's
    /// surface; leaving the keyboard's surface clears it and the focus; a
    /// modifier event replaces the modifiers. Every event is appended to the
    /// frame's events. Returns whether a redraw is wanted (always).
    pub fn handle_event(&mut self, event: KeyboardEvent) -> (r: bool)
        ensures
            r,
            final(self).events@ == old(self).events@.push(event),
            match event.kind {
                KeyboardEventKind::Enter { .. } => {
                    &&& final(self).surface == event.surface
                    &&& spec_slot_view(final(self).focused) == spec_slot_view(old(self).focused)
                    &&& final(self).modifiers == old(self).modifiers
                },
                KeyboardEventKind::Leave => {
                    &&& final(self).modifiers == old(self).modifiers
                    &&& if old(self).surface == event.surface {
                        final(self).surface is None && final(self).focused is None
                    } else {
                        final(self).surface == old(self).surface && spec_slot_view(final(self).focused)
                            == spec_slot_view(old(self).focused)
                    }
                },
                KeyboardEventKind::Modifiers { modifiers, .. } => {
                    &&& final(self).modifiers == modifiers
                    &&& final(self).surface == old(self).surface
                    &&& spec_slot_view(final(self).focused) == spec_slot_view(old(self).focused)
                },
                KeyboardEventKind::Key { .. } => {
                    &&& final(self).modifiers == old(self).modifiers
                    &&& final(self).surface == old(self).surface
                    &&& spec_slot_view(final(self).focused) == spec_slot_view(old(self).focused)
                },
            },
    {
        match &event.kind {
            KeyboardEventKind::Enter { .. } => {
                self.surface = event.surface;
            },
            KeyboardEventKind::Leave => {
                if self.surface == event.surface {
                    self.surface = None;
                    self.focused = None;
                }
            },
            KeyboardEventKind::Modifiers { modifiers, .. } => {
                self.modifiers = *modifiers;
            },
            KeyboardEventKind::Key { .. } => {},
        }
        self.events.push(event);
        true
    }
}

} // verus!
