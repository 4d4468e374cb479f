//! Key bindings: the editor's commands, how a binding is written, the
//! default bindings, and which command a key press with held modifiers
//! (Ctrl, Shift, Space) calls.

use vstd::prelude::*;
use crate::map_view::tools::{TOOL_DRAW, TOOL_ERASE, TOOL_FILL, TOOL_EYEDROP};

verus! {

/// The editor's commands that keys can be bound to.
pub enum EditorKey {
    KeyLoad,
    KeySave,
    KeyUndo,
    KeyRedo,
    KeyDraw,
    KeyErase,
    KeyFill,
    KeyEyetool,
    Count,
}

/// How many commands keys can be bound to.
pub const EDITOR_KEY_COUNT: usize = 8;

/// The name of command number `key`.
pub open spec fn command_name(key: usize) -> Seq<char> {
    if key == 0 { "Load"@ }
    else if key == 1 { "Save"@ }
    else if key == 2 { "Undo"@ }
    else if key == 3 { "Redo"@ }
    else if key == 4 { "Draw"@ }
    else if key == 5 { "Erase"@ }
    else if key == 6 { "Fill"@ }
    else if key == 7 { "Eyetool"@ }
    else { "Error"@ }
}

impl EditorKey {
    /// The name of command number `key`.
    pub fn as_str<'a>(key: usize) -> (s: &'a str)
        ensures
            s@ == command_name(key),
    {
        match key {
            0 => "Load",
            1 => "Save",
            2 => "Undo",
            3 => "Redo",
            4 => "Draw",
            5 => "Erase",
            6 => "Fill",
            7 => "Eyetool",
            _ => "Error",
        }
    }
}

/// The word for modifier number i: Ctrl, Shift or Space.
pub open spec fn modifier_word(i: int) -> Seq<char> {
    if i == 1 { "Shift"@ } else if i == 2 { "Space"@ } else { "Ctrl"@ }
}

/// The held modifiers among the first k, each written as its word and a
/// space, joined by `+ `.
pub open spec fn modifiers_shown(m: Seq<bool>, k: int) -> Seq<char>
    decreases k,
{
    if k <= 0 {
        Seq::empty()
    } else {
        let before = modifiers_shown(m, k - 1);
        if m[k - 1] {
            before + (if before.len() > 0 { "+ "@ } else { Seq::empty() }) + modifier_word(k - 1) + " "@
        } else {
            before
        }
    }
}

/// How a binding is written: its modifiers, then `+ ` and the key's
/// text when there is a modifier, or the key's text alone.
pub open spec fn key_name(text: Seq<char>, m: Seq<bool>) -> Seq<char> {
    let mods = modifiers_shown(m, 3);
    if mods.len() > 0 { mods + "+ "@ + text } else { text }
}

proof fn lemma_modifiers_shown_step(m: Seq<bool>, k: int)
    requires
        0 <= k,
    ensures
        m[k] ==> modifiers_shown(m, k + 1).len() > 0,
        modifiers_shown(m, k).len() > 0 ==> modifiers_shown(m, k + 1).len() > 0,
{
    reveal_strlit(" ");
    reveal_strlit("Shift");
    reveal_strlit("Space");
    reveal_strlit("Ctrl");
}

/// Writes a binding: the key's text `key_text` with the held modifiers
/// `key_code_modifier` (Ctrl, Shift, Space).
pub fn get_key_name(key_text: &str, key_code_modifier: [bool; 3]) -> (s: String)
    ensures
        s@ == key_name(key_text@, key_code_modifier@),
{
    proof {
        reveal_strlit("+ ");
        reveal_strlit("Shift ");
        reveal_strlit("Space ");
        reveal_strlit("Ctrl ");
        reveal_strlit(" ");
        reveal_strlit("Shift");
        reveal_strlit("Space");
        reveal_strlit("Ctrl");
    }
    let ghost m = key_code_modifier@;
    let mut button_text = String::new();
    let mut did_add = false;
    let mut modifier_index: usize = 0;
    while modifier_index < 3
        invariant
            modifier_index <= 3,
            m == key_code_modifier@,
            button_text@ == modifiers_shown(m, modifier_index as int),
            did_add == (button_text@.len() > 0),
        decreases 3 - modifier_index,
    {
        proof {
            lemma_modifiers_shown_step(m, modifier_index as int);
        }
        if key_code_modifier[modifier_index] {
            match modifier_index {
                1 => {
                    if did_add {
                        button_text.append("+ ");
                    }
                    button_text.append("Shift ");
                },
                2 => {
                    if did_add {
                        button_text.append("+ ");
                    }
                    button_text.append("Space ");
                },
                _ => {
                    if did_add {
                        button_text.append("+ ");
                    }
                    button_text.append("Ctrl ");
                },
            }
            did_add = true;
        }
        proof {
            reveal_strlit("+ ");
            reveal_strlit("Shift ");
            reveal_strlit("Space ");
            reveal_strlit("Ctrl ");
            reveal_strlit(" ");
            reveal_strlit("Shift");
            reveal_strlit("Space");
            reveal_strlit("Ctrl");
            let k = modifier_index as int;
            let before = modifiers_shown(m, k);
            if m[k] {
                assert(modifiers_shown(m, k + 1) == before + (if before.len() > 0 { "+ "@ } else { Seq::empty() })
                    + modifier_word(k) + " "@);
                assert("Shift "@ =~= "Shift"@ + " "@);
                assert("Space "@ =~= "Space"@ + " "@);
                assert("Ctrl "@ =~= "Ctrl"@ + " "@);
                assert(button_text@ =~= modifiers_shown(m, k + 1));
            }
        }
        modifier_index = modifier_index + 1;
    }
    if did_add {
        button_text.append("+ ");
    }
    button_text.append(key_text);
    assert(button_text@ =~= key_name(key_text@, m));
    button_text
}

/// The keys bound to the commands, in command order: each key's text
/// and its modifiers (Ctrl, Shift, Space).
pub struct KeybindData {
    pub key_code: Vec<String>,
    pub key_code_modifier: Vec<[bool; 3]>,
}

/// The text of the key bound to command `key` by default.
pub open spec fn default_key(key: usize) -> Seq<char> {
    if key == 1 { "s"@ }
    else if key == 2 { "z"@ }
    else if key == 3 { "y"@ }
    else if key == 4 { "d"@ }
    else if key == 5 { "e"@ }
    else if key == 6 { "f"@ }
    else if key == 7 { "y"@ }
    else { "o"@ }
}

/// Whether command `key` needs Ctrl by default: load, save, undo and
/// redo do.
pub open spec fn default_needs_ctrl(key: usize) -> bool {
    key <= 3
}

impl KeybindData {
    /// The default bindings: Ctrl+o load, Ctrl+s save, Ctrl+z undo,
    /// Ctrl+y redo, d draw, e erase, f fill, y eyedropper.
    pub fn default() -> (k: Self)
        ensures
            k.key_code@.len() == EDITOR_KEY_COUNT,
            k.key_code_modifier@.len() == EDITOR_KEY_COUNT,
            forall|i: int| 0 <= i < EDITOR_KEY_COUNT ==> #[trigger] k.key_code@[i]@ == default_key(i as usize),
            forall|i: int| 0 <= i < EDITOR_KEY_COUNT ==> #[trigger] k.key_code_modifier@[i]@
                == seq![default_needs_ctrl(i as usize), false, false],
    {
        let mut key_code: Vec<String> = Vec::new();
        let mut key_code_modifier: Vec<[bool; 3]> = Vec::new();
        let mut key: usize = 0;
        while key < EDITOR_KEY_COUNT
            invariant
                key <= EDITOR_KEY_COUNT,
                key_code@.len() == key,
                key_code_modifier@.len() == key,
                forall|i: int| 0 <= i < key ==> #[trigger] key_code@[i]@ == default_key(i as usize),
                forall|i: int| 0 <= i < key ==> #[trigger] key_code_modifier@[i]@
                    == seq![default_needs_ctrl(i as usize), false, false],
            decreases EDITOR_KEY_COUNT - key,
        {
            let keycode = match key {
                1 => String::from_str("s"),
                2 => String::from_str("z"),
                3 => String::from_str("y"),
                4 => String::from_str("d"),
                5 => String::from_str("e"),
                6 => String::from_str("f"),
                7 => String::from_str("y"),
                _ => String::from_str("o"),
            };
            let keycodemodifier: [bool; 3] = match key {
                1 => [true, false, false],
                2 => [true, false, false],
                3 => [true, false, false],
                4 => [false, false, false],
                5 => [false, false, false],
                6 => [false, false, false],
                7 => [false, false, false],
                _ => [true, false, false],
            };
            key_code.push(keycode);
            key_code_modifier.push(keycodemodifier);
            proof {
                assert(keycodemodifier@ =~= seq![default_needs_ctrl(key), false, false]);
            }
            key = key + 1;
        }
        KeybindData { key_code, key_code_modifier }
    }
}

/// What a command does.
pub enum Shortcut {
    Load,
    Save,
    Undo,
    Redo,
    /// Picks the tool of that number.
    Tool(usize),
}

/// The action of command number `index`.
pub open spec fn shortcut_of(index: usize) -> Shortcut {
    if index == 1 { Shortcut::Save }
    else if index == 2 { Shortcut::Undo }
    else if index == 3 { Shortcut::Redo }
    else if index == 4 { Shortcut::Tool(TOOL_DRAW) }
    else if index == 5 { Shortcut::Tool(TOOL_ERASE) }
    else if index == 6 { Shortcut::Tool(TOOL_FILL) }
    else if index == 7 { Shortcut::Tool(TOOL_EYEDROP) }
    else { Shortcut::Load }
}

/// The action of command number `index`.
pub fn shortcut_action(index: usize) -> (s: Shortcut)
    ensures
        s == shortcut_of(index),
{
    match index {
        1 => Shortcut::Save,
        2 => Shortcut::Undo,
        3 => Shortcut::Redo,
        4 => Shortcut::Tool(TOOL_DRAW),
        5 => Shortcut::Tool(TOOL_ERASE),
        6 => Shortcut::Tool(TOOL_FILL),
        7 => Shortcut::Tool(TOOL_EYEDROP),
        _ => Shortcut::Load,
    }
}

/// Command `i` is bound to the key with text `text` and modifiers `m`.
pub open spec fn bound_to(config: KeybindData, i: int, text: Seq<char>, m: Seq<bool>) -> bool {
    config.key_code@[i]@ == text && config.key_code_modifier@[i]@ == m
}

/// The first command bound to the key with text `key_text` pressed with
/// modifiers `key_modifier`, if any.
pub fn find_binding(config: &KeybindData, key_text: &str, key_modifier: [bool; 3]) -> (r: Option<usize>)
    requires
        config.key_code@.len() >= EDITOR_KEY_COUNT,
        config.key_code_modifier@.len() >= EDITOR_KEY_COUNT,
    ensures
        r matches Some(i) ==> i < EDITOR_KEY_COUNT && bound_to(*config, i as int, key_text@, key_modifier@)
            && forall|j: int| 0 <= j < i ==> !#[trigger] bound_to(*config, j, key_text@, key_modifier@),
        r is None ==> forall|j: int| 0 <= j < EDITOR_KEY_COUNT ==> !#[trigger] bound_to(*config, j, key_text@, key_modifier@),
{
    let wanted = String::from_str(key_text);
    let mut index: usize = 0;
    while index < EDITOR_KEY_COUNT
        invariant
            wanted@ == key_text@,
            index <= EDITOR_KEY_COUNT,
            config.key_code@.len() >= EDITOR_KEY_COUNT,
            config.key_code_modifier@.len() >= EDITOR_KEY_COUNT,
            forall|j: int| 0 <= j < index ==> !#[trigger] bound_to(*config, j, key_text@, key_modifier@),
        decreases EDITOR_KEY_COUNT - index,
    {
        let same_text = config.key_code[index] == wanted;
        let m = config.key_code_modifier[index];
        let same_modifier = m[0] == key_modifier[0] && m[1] == key_modifier[1] && m[2] == key_modifier[2];
        proof {
            assert(same_modifier == (m@ =~= key_modifier@));
        }
        if same_text && same_modifier {
            return Some(index);
        }
        index = index + 1;
    }
    None
}

/// Records whether modifier `modifier_index` (Ctrl, Shift, Space) is
/// held.
pub fn set_key_modifier_value(hold_key_modifier: &mut [bool; 3], modifier_index: usize, is_pressed: bool)
    requires
        modifier_index < 3,
    ensures
        final(hold_key_modifier)@ == old(hold_key_modifier)@.update(modifier_index as int, is_pressed),
{
    if hold_key_modifier[modifier_index] == is_pressed {
        assert(old(hold_key_modifier)@.update(modifier_index as int, is_pressed) =~= old(hold_key_modifier)@);
        return;
    }
    hold_key_modifier[modifier_index] = is_pressed;
}

/// A key event as shortcuts read it.
pub enum KeyPress {
    /// Ctrl (0), Shift (1) or Space (2) pressed or released.
    Modifier(usize, bool),
    /// A key that can be bound, with its text, pressed or released.
    Bindable(String, bool),
    /// Any other key.
    Other,
}

/// Handles a key event for shortcuts: a modifier is recorded as held or
/// not; a bindable key pressed takes the held modifiers, clears them and
/// calls the first command bound to it.
pub fn shortcut_key(hold_key_modifier: &mut [bool; 3], config: &KeybindData, key: &KeyPress) -> (r: Option<Shortcut>)
    requires
        config.key_code@.len() >= EDITOR_KEY_COUNT,
        config.key_code_modifier@.len() >= EDITOR_KEY_COUNT,
        key matches KeyPress::Modifier(i, _) ==> i < 3,
    ensures
        match *key {
            KeyPress::Modifier(i, pressed) => r is None
                && final(hold_key_modifier)@ == old(hold_key_modifier)@.update(i as int, pressed),
            KeyPress::Bindable(text, true) => {
                &&& final(hold_key_modifier)@ == seq![false, false, false]
                &&& (exists|i: int| 0 <= i < EDITOR_KEY_COUNT && #[trigger] bound_to(*config, i, text@, old(hold_key_modifier)@)) <==> r is Some
                &&& forall|i: int| 0 <= i < EDITOR_KEY_COUNT && bound_to(*config, i, text@, old(hold_key_modifier)@)
                    && (forall|j: int| 0 <= j < i ==> !#[trigger] bound_to(*config, j, text@, old(hold_key_modifier)@))
                    ==> r == Some(shortcut_of(i as usize))
            },
            _ => r is None && final(hold_key_modifier)@ == old(hold_key_modifier)@,
        },
{
    match key {
        KeyPress::Modifier(index, pressed) => {
            set_key_modifier_value(hold_key_modifier, *index, *pressed);
            None
        },
        KeyPress::Bindable(text, pressed) => {
            if *pressed {
                let key_modifier = *hold_key_modifier;
                *hold_key_modifier = [false, false, false];
                assert(hold_key_modifier@ =~= seq![false, false, false]);
                match find_binding(config, text.as_str(), key_modifier) {
                    Some(index) => {
                        proof {
                            assert forall|i: int| 0 <= i < EDITOR_KEY_COUNT && bound_to(*config, i, text@, old(hold_key_modifier)@)
                                && (forall|j: int| 0 <= j < i ==> !#[trigger] bound_to(*config, j, text@, old(hold_key_modifier)@))
                                implies i == index as int by {
                                if i < index {
                                } else if i > index {
                                    assert(bound_to(*config, index as int, text@, old(hold_key_modifier)@));
                                }
                            }
                        }
                        Some(shortcut_action(index))
                    },
                    None => None,
                }
            } else {
                None
            }
        },
        KeyPress::Other => None,
    }
}

/// A key bound to command `k` runs it: once `c1` binds the key `code`
/// with modifiers `m` to command `k` (and keeps the other bindings of
/// `c0`), that key is bound to `k`, and when no earlier command is bound
/// to it, `k` is the first command bound to it, the one `shortcut_key`
/// runs.
pub proof fn lemma_rebound_key(c0: KeybindData, c1: KeybindData, k: int, code: String, m: [bool; 3])
    requires
        0 <= k < EDITOR_KEY_COUNT,
        c0.key_code@.len() >= EDITOR_KEY_COUNT,
        c0.key_code_modifier@.len() >= EDITOR_KEY_COUNT,
        c1.key_code@ == c0.key_code@.update(k, code),
        c1.key_code_modifier@ == c0.key_code_modifier@.update(k, m),
    ensures
        bound_to(c1, k, code@, m@),
        forall|j: int| 0 <= j < EDITOR_KEY_COUNT && j != k ==> bound_to(c1, j, code@, m@) == #[trigger] bound_to(c0, j, code@, m@),
        (forall|j: int| 0 <= j < k ==> !#[trigger] bound_to(c0, j, code@, m@))
            ==> forall|j: int| 0 <= j < k ==> !#[trigger] bound_to(c1, j, code@, m@),
{
    assert forall|j: int| 0 <= j < EDITOR_KEY_COUNT && j != k implies
        bound_to(c1, j, code@, m@) == #[trigger] bound_to(c0, j, code@, m@) by {
        assert(c1.key_code@[j] == c0.key_code@[j]);
        assert(c1.key_code_modifier@[j] == c0.key_code_modifier@[j]);
    }
    if forall|j: int| 0 <= j < k ==> !#[trigger] bound_to(c0, j, code@, m@) {
        assert forall|j: int| 0 <= j < k implies !#[trigger] bound_to(c1, j, code@, m@) by {
            assert(!bound_to(c0, j, code@, m@));
            assert(c1.key_code@[j] == c0.key_code@[j]);
            assert(c1.key_code_modifier@[j] == c0.key_code_modifier@[j]);
        }
    }
}

} // verus!
