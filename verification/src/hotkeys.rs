//! Hotkeys: keys and modifiers, how a hotkey is spelled for the user, and
//! what a binding looks like to the user interface.

use vstd::prelude::*;
use vstd::string::StringExecFns;
use crate::table::{distinct_by, lemma_filter_keeps_distinct, lemma_push_keeps_distinct};
use crate::text::str_equal;

verus! {

/// The modifier keys that are held down.
#[derive(Debug, Clone, Copy, PartialEq, Eq, Hash, Structural)]
pub struct Modifiers {
    pub ctrl: bool,
    pub alt: bool,
    pub shift: bool,
    pub meta: bool,
}

impl Default for Modifiers {
    fn default() -> (m: Modifiers)
        ensures
            !m.ctrl && !m.alt && !m.shift && !m.meta,
    {
        Modifiers { ctrl: false, alt: false, shift: false, meta: false }
    }
}

/// What a hotkey sets off.
#[derive(Debug, Clone)]
pub enum HotkeyAction {
    PlaySound { sound_id: String },
    StopAllSounds,
}

/// A key with the modifiers that go with it.
#[derive(Debug, Clone)]
pub struct Hotkey {
    pub key: String,
    pub modifiers: Modifiers,
}

/// A point in time: whole seconds since the Unix epoch, and the nanoseconds
/// beyond them.
#[derive(Debug, Clone, Copy, PartialEq, Eq, Structural)]
pub struct Timestamp {
    pub secs: i64,
    pub nanos: u32,
}

/// A hotkey bound to an action.
#[derive(Debug, Clone)]
pub struct HotkeyBinding {
    pub id: String,
    pub key: String,
    pub modifiers: Modifiers,
    pub action: HotkeyAction,
    pub sound_id: Option<String>,
    pub created_at: Timestamp,
}

/// A binding as the user interface shows it.
#[derive(Debug, Clone)]
pub struct FrontendHotkeyBinding {
    pub id: String,
    pub hotkey: String,
    pub action: String,
    pub sound_id: Option<String>,
    pub created_at: String,
}

/// A key of the keyboard, as far as hotkeys tell keys apart.
#[derive(Debug, Clone, Copy, PartialEq, Eq, Structural)]
pub enum Key {
    KeyA,
    KeyB,
    KeyC,
    KeyD,
    KeyE,
    KeyF,
    KeyG,
    KeyH,
    KeyI,
    KeyJ,
    KeyK,
    KeyL,
    KeyM,
    KeyN,
    KeyO,
    KeyP,
    KeyQ,
    KeyR,
    KeyS,
    KeyT,
    KeyU,
    KeyV,
    KeyW,
    KeyX,
    KeyY,
    KeyZ,
    F1,
    F2,
    F3,
    F4,
    F5,
    F6,
    F7,
    F8,
    F9,
    F10,
    F11,
    F12,
    Escape,
    Space,
    Return,
    Tab,
    Backspace,
    ControlLeft,
    ControlRight,
    Alt,
    AltGr,
    ShiftLeft,
    ShiftRight,
    MetaLeft,
    MetaRight,
    Other,
}

/// What the keyboard reports.
#[derive(Debug, Clone, Copy, PartialEq, Eq, Structural)]
pub enum KeyEvent {
    Press(Key),
    Release(Key),
    Other,
}

/// Whether `key` is one of the eight modifier keys.
pub open spec fn spec_is_modifier_key(key: Key) -> bool {
    key == Key::ControlLeft || key == Key::ControlRight || key == Key::Alt || key == Key::AltGr
        || key == Key::ShiftLeft || key == Key::ShiftRight || key == Key::MetaLeft || key
        == Key::MetaRight
}

/// Whether `key` is one of the eight modifier keys.
pub fn is_modifier_key(key: Key) -> (modifier: bool)
    ensures
        modifier == spec_is_modifier_key(key),
{
    match key {
        Key::ControlLeft | Key::ControlRight | Key::Alt | Key::AltGr | Key::ShiftLeft
        | Key::ShiftRight | Key::MetaLeft | Key::MetaRight => true,
        _ => false,
    }
}

/// The name under which a key is bound.
pub open spec fn spec_key_name(key: Key) -> Seq<char> {
    match key {
        Key::KeyA => "A"@,
        Key::KeyB => "B"@,
        Key::KeyC => "C"@,
        Key::KeyD => "D"@,
        Key::KeyE => "E"@,
        Key::KeyF => "F"@,
        Key::KeyG => "G"@,
        Key::KeyH => "H"@,
        Key::KeyI => "I"@,
        Key::KeyJ => "J"@,
        Key::KeyK => "K"@,
        Key::KeyL => "L"@,
        Key::KeyM => "M"@,
        Key::KeyN => "N"@,
        Key::KeyO => "O"@,
        Key::KeyP => "P"@,
        Key::KeyQ => "Q"@,
        Key::KeyR => "R"@,
        Key::KeyS => "S"@,
        Key::KeyT => "T"@,
        Key::KeyU => "U"@,
        Key::KeyV => "V"@,
        Key::KeyW => "W"@,
        Key::KeyX => "X"@,
        Key::KeyY => "Y"@,
        Key::KeyZ => "Z"@,
        Key::F1 => "F1"@,
        Key::F2 => "F2"@,
        Key::F3 => "F3"@,
        Key::F4 => "F4"@,
        Key::F5 => "F5"@,
        Key::F6 => "F6"@,
        Key::F7 => "F7"@,
        Key::F8 => "F8"@,
        Key::F9 => "F9"@,
        Key::F10 => "F10"@,
        Key::F11 => "F11"@,
        Key::F12 => "F12"@,
        Key::Escape => "ESCAPE"@,
        Key::Space => "SPACE"@,
        Key::Return => "ENTER"@,
        Key::Tab => "TAB"@,
        Key::Backspace => "BACKSPACE"@,
        _ => "UNKNOWN"@,
    }
}

/// The name under which a key is bound: the letter, the name of the function
/// key, or the name of one of five further keys. Every other key is
/// `UNKNOWN`.
pub fn key_to_string(key: Key) -> (name: String)
    ensures
        name@ == spec_key_name(key),
{
    let name: &'static str = match key {
        Key::KeyA => "A",
        Key::KeyB => "B",
        Key::KeyC => "C",
        Key::KeyD => "D",
        Key::KeyE => "E",
        Key::KeyF => "F",
        Key::KeyG => "G",
        Key::KeyH => "H",
        Key::KeyI => "I",
        Key::KeyJ => "J",
        Key::KeyK => "K",
        Key::KeyL => "L",
        Key::KeyM => "M",
        Key::KeyN => "N",
        Key::KeyO => "O",
        Key::KeyP => "P",
        Key::KeyQ => "Q",
        Key::KeyR => "R",
        Key::KeyS => "S",
        Key::KeyT => "T",
        Key::KeyU => "U",
        Key::KeyV => "V",
        Key::KeyW => "W",
        Key::KeyX => "X",
        Key::KeyY => "Y",
        Key::KeyZ => "Z",
        Key::F1 => "F1",
        Key::F2 => "F2",
        Key::F3 => "F3",
        Key::F4 => "F4",
        Key::F5 => "F5",
        Key::F6 => "F6",
        Key::F7 => "F7",
        Key::F8 => "F8",
        Key::F9 => "F9",
        Key::F10 => "F10",
        Key::F11 => "F11",
        Key::F12 => "F12",
        Key::Escape => "ESCAPE",
        Key::Space => "SPACE",
        Key::Return => "ENTER",
        Key::Tab => "TAB",
        Key::Backspace => "BACKSPACE",
        _ => "UNKNOWN",
    };
    String::from_str(name)
}

/// The modifiers after `key` was pressed or released.
pub open spec fn spec_update_modifiers(state: Modifiers, key: Key, pressed: bool) -> Modifiers {
    match key {
        Key::ControlLeft | Key::ControlRight => Modifiers { ctrl: pressed, ..state },
        Key::Alt | Key::AltGr => Modifiers { alt: pressed, ..state },
        Key::ShiftLeft | Key::ShiftRight => Modifiers { shift: pressed, ..state },
        Key::MetaLeft | Key::MetaRight => Modifiers { meta: pressed, ..state },
        _ => state,
    }
}

/// The modifiers after `key` was pressed or released: either key of a pair
/// sets or clears the modifier of the pair, and no other key changes
/// anything.
pub fn update_modifier_state(state: Modifiers, key: Key, pressed: bool) -> (next: Modifiers)
    ensures
        next == spec_update_modifiers(state, key, pressed),
{
    match key {
        Key::ControlLeft | Key::ControlRight => Modifiers { ctrl: pressed, ..state },
        Key::Alt | Key::AltGr => Modifiers { alt: pressed, ..state },
        Key::ShiftLeft | Key::ShiftRight => Modifiers { shift: pressed, ..state },
        Key::MetaLeft | Key::MetaRight => Modifiers { meta: pressed, ..state },
        _ => state,
    }
}

/// `parts` with `part` added, the two joined by a plus sign.
pub open spec fn spec_join_plus(joined: Seq<char>, part: Seq<char>) -> Seq<char> {
    if joined.len() == 0 {
        part
    } else {
        joined + seq!['+'] + part
    }
}

/// A hotkey as the user reads it: the names of the held modifiers in the
/// order Ctrl, Alt, Shift, Meta, then the key if it has a name, joined by plus
/// signs.
pub open spec fn spec_hotkey_string(key: Seq<char>, modifiers: Modifiers) -> Seq<char> {
    let a: Seq<char> = if modifiers.ctrl {
        "Ctrl"@
    } else {
        Seq::empty()
    };
    let b = if modifiers.alt {
        spec_join_plus(a, "Alt"@)
    } else {
        a
    };
    let c = if modifiers.shift {
        spec_join_plus(b, "Shift"@)
    } else {
        b
    };
    let d = if modifiers.meta {
        spec_join_plus(c, "Meta"@)
    } else {
        c
    };
    if key.len() > 0 {
        spec_join_plus(d, key)
    } else {
        d
    }
}

/// Adds `part` to `joined`, after a plus sign if something stands there
/// already.
fn join_plus(joined: &mut String, part: &str)
    ensures
        final(joined)@ == spec_join_plus(old(joined)@, part@),
{
    if joined.as_str().is_empty() {
        joined.append(part);
        assert(old(joined)@ + part@ =~= part@);
    } else {
        proof {
            reveal_strlit("+");
            assert("+"@ =~= seq!['+']);
        }
        joined.append("+");
        joined.append(part);
    }
}

/// Spells a hotkey for the user, as in `Ctrl+Shift+A`.
pub fn hotkey_to_string(key: &str, modifiers: &Modifiers) -> (text: String)
    ensures
        text@ == spec_hotkey_string(key@, *modifiers),
{
    let mut text = String::new();
    if modifiers.ctrl {
        join_plus(&mut text, "Ctrl");
    }
    if modifiers.alt {
        join_plus(&mut text, "Alt");
    }
    if modifiers.shift {
        join_plus(&mut text, "Shift");
    }
    if modifiers.meta {
        join_plus(&mut text, "Meta");
    }
    if !key.is_empty() {
        join_plus(&mut text, key);
    }
    text
}

/// The RFC 3339 spelling, in UTC, of the instant that lies `secs` seconds
/// and `nanos` nanoseconds after the Unix epoch; none for an instant that the
/// calendar cannot hold.
pub uninterp spec fn rfc3339_text(secs: int, nanos: int) -> Option<Seq<char>>;

/// Calls `chrono::DateTime::from_timestamp` and, on the instant it returns,
/// `DateTime::to_rfc3339`. The first returns `None` for seconds out of range
/// or invalid nanoseconds; the second writes date, time and offset. The
/// contract only gives the text a name.
#[verifier::external_body]
fn format_rfc3339(secs: i64, nanos: u32) -> (text: Option<String>)
    ensures
        match text {
            Some(t) => rfc3339_text(secs as int, nanos as int) == Some(t@),
            None => rfc3339_text(secs as int, nanos as int) is None,
        },
{
    match chrono::DateTime::from_timestamp(secs, nanos) {
        Some(at) => Some(at.to_rfc3339()),
        None => None,
    }
}

impl HotkeyAction {
    /// The name of the kind of action.
    pub open spec fn spec_kind(self) -> Seq<char> {
        match self {
            HotkeyAction::PlaySound { .. } => "PlaySound"@,
            HotkeyAction::StopAllSounds => "StopAllSounds"@,
        }
    }

    /// The id of the binding that holds this action: `sound_` and the id of
    /// the sound, or `global_stop`.
    pub open spec fn spec_binding_id(self) -> Seq<char> {
        match self {
            HotkeyAction::PlaySound { sound_id } => "sound_"@ + sound_id@,
            HotkeyAction::StopAllSounds => "global_stop"@,
        }
    }

    /// The id of the binding that holds this action.
    pub fn binding_id(&self) -> (id: String)
        ensures
            id@ == self.spec_binding_id(),
    {
        match self {
            HotkeyAction::PlaySound { sound_id } => String::from_str("sound_").concat(
                sound_id.as_str(),
            ),
            HotkeyAction::StopAllSounds => String::from_str("global_stop"),
        }
    }
}

/// The text of a timestamp for the user interface; empty for an instant that
/// the calendar cannot hold.
pub open spec fn spec_created_text(at: Timestamp) -> Seq<char> {
    match rfc3339_text(at.secs as int, at.nanos as int) {
        Some(text) => text,
        None => Seq::empty(),
    }
}

impl vstd::std_specs::convert::FromSpecImpl<HotkeyBinding> for FrontendHotkeyBinding {
    open spec fn obeys_from_spec() -> bool {
        false
    }

    open spec fn from_spec(binding: HotkeyBinding) -> FrontendHotkeyBinding {
        arbitrary()
    }
}

impl From<HotkeyBinding> for FrontendHotkeyBinding {
    /// Shows a binding to the user interface: the hotkey spelled out, the
    /// kind of action by name, and the time of creation in RFC 3339.
    fn from(binding: HotkeyBinding) -> (shown: FrontendHotkeyBinding)
        ensures
            shown.id@ == binding.id@,
            shown.hotkey@ == spec_hotkey_string(binding.key@, binding.modifiers),
            shown.action@ == binding.action.spec_kind(),
            shown.sound_id == binding.sound_id,
            shown.created_at@ == spec_created_text(binding.created_at),
    {
        let hotkey = hotkey_to_string(binding.key.as_str(), &binding.modifiers);
        let action = match &binding.action {
            HotkeyAction::PlaySound { .. } => String::from_str("PlaySound"),
            HotkeyAction::StopAllSounds => String::from_str("StopAllSounds"),
        };
        let created_at = match format_rfc3339(binding.created_at.secs, binding.created_at.nanos) {
            Some(text) => text,
            None => String::new(),
        };
        FrontendHotkeyBinding {
            id: binding.id,
            hotkey,
            action,
            sound_id: binding.sound_id,
            created_at,
        }
    }
}

/// An action as a plain value.
pub enum ActionView {
    PlaySound { sound_id: Seq<char> },
    StopAllSounds,
}

impl HotkeyAction {
    /// The action as a plain value.
    pub open spec fn view(&self) -> ActionView {
        match *self {
            HotkeyAction::PlaySound { sound_id } => ActionView::PlaySound { sound_id: sound_id@ },
            HotkeyAction::StopAllSounds => ActionView::StopAllSounds,
        }
    }

    /// A copy of the action.
    pub fn duplicate(&self) -> (copy: HotkeyAction)
        ensures
            copy@ == self@,
    {
        match self {
            HotkeyAction::PlaySound { sound_id } => HotkeyAction::PlaySound {
                sound_id: sound_id.clone(),
            },
            HotkeyAction::StopAllSounds => HotkeyAction::StopAllSounds,
        }
    }
}

/// The characters of an optional string.
pub open spec fn optional_view(text: Option<String>) -> Option<Seq<char>> {
    match text {
        Some(s) => Some(s@),
        None => None,
    }
}

/// A binding as a plain value.
pub struct BindingView {
    pub id: Seq<char>,
    pub key: Seq<char>,
    pub modifiers: Modifiers,
    pub action: ActionView,
    pub sound_id: Option<Seq<char>>,
    pub created_at: Timestamp,
}

impl HotkeyBinding {
    /// The binding as a plain value.
    pub open spec fn view(&self) -> BindingView {
        BindingView {
            id: self.id@,
            key: self.key@,
            modifiers: self.modifiers,
            action: self.action@,
            sound_id: optional_view(self.sound_id),
            created_at: self.created_at,
        }
    }

    /// A copy of the binding.
    pub fn duplicate(&self) -> (copy: HotkeyBinding)
        ensures
            copy@ == self@,
    {
        HotkeyBinding {
            id: self.id.clone(),
            key: self.key.clone(),
            modifiers: self.modifiers,
            action: self.action.duplicate(),
            sound_id: match &self.sound_id {
                Some(s) => Some(s.clone()),
                None => None,
            },
            created_at: self.created_at,
        }
    }
}

/// One entry of the key map: the binding that a key with its modifiers sets
/// off.
pub struct KeyMapping {
    key: String,
    modifiers: Modifiers,
    binding_id: String,
}

/// One entry of the key map as a plain value.
pub struct MappingView {
    pub key: Seq<char>,
    pub modifiers: Modifiers,
    pub binding_id: Seq<char>,
}

impl KeyMapping {
    /// The entry as a plain value.
    pub closed spec fn view(&self) -> MappingView {
        MappingView { key: self.key@, modifiers: self.modifiers, binding_id: self.binding_id@ }
    }
}

/// Holds of every binding but the one with the id `id`.
pub open spec fn binding_other_than(id: Seq<char>) -> spec_fn(BindingView) -> bool {
    |binding: BindingView| binding.id != id
}

/// Holds of every entry of the key map but the one for this key with these
/// modifiers.
pub open spec fn mapping_other_than(key: Seq<char>, modifiers: Modifiers) -> spec_fn(
    MappingView,
) -> bool {
    |mapping: MappingView| !(mapping.key == key && mapping.modifiers == modifiers)
}

/// The id of a binding.
pub open spec fn binding_id_of() -> spec_fn(BindingView) -> Seq<char> {
    |binding: BindingView| binding.id
}

/// The key and the modifiers of an entry of the key map.
pub open spec fn mapping_key_of() -> spec_fn(MappingView) -> (Seq<char>, Modifiers) {
    |mapping: MappingView| (mapping.key, mapping.modifiers)
}

/// The first binding with the id `id`.
pub open spec fn spec_find_binding(bindings: Seq<BindingView>, id: Seq<char>) -> Option<BindingView>
    decreases bindings.len(),
{
    if bindings.len() == 0 {
        None
    } else if bindings[0].id == id {
        Some(bindings[0])
    } else {
        spec_find_binding(bindings.drop_first(), id)
    }
}

/// The id of the binding that the first entry for this key with these
/// modifiers names.
pub open spec fn spec_find_mapping(key_map: Seq<MappingView>, key: Seq<char>, modifiers: Modifiers) -> Option<
    Seq<char>,
>
    decreases key_map.len(),
{
    if key_map.len() == 0 {
        None
    } else if key_map[0].key == key && key_map[0].modifiers == modifiers {
        Some(key_map[0].binding_id)
    } else {
        spec_find_mapping(key_map.drop_first(), key, modifiers)
    }
}

/// The hotkey tables as a plain value.
pub struct HotkeysView {
    pub bindings: Seq<BindingView>,
    pub key_map: Seq<MappingView>,
    pub modifier_state: Modifiers,
}

impl HotkeysView {
    /// No two bindings bear the same id, and no key with its modifiers has
    /// two entries in the key map.
    pub open spec fn wf(self) -> bool {
        &&& distinct_by(self.bindings, binding_id_of())
        &&& distinct_by(self.key_map, mapping_key_of())
    }

    /// The tables after `binding` was added: it takes the place of a binding
    /// with the same id, and its key with its modifiers now sets it off.
    pub open spec fn with_binding(self, binding: BindingView) -> HotkeysView {
        HotkeysView {
            bindings: self.bindings.filter(binding_other_than(binding.id)).push(binding),
            key_map: self.key_map.filter(
                mapping_other_than(binding.key, binding.modifiers),
            ).push(
                MappingView {
                    key: binding.key,
                    modifiers: binding.modifiers,
                    binding_id: binding.id,
                },
            ),
            ..self
        }
    }

    /// The tables after the binding `id` was removed, together with the
    /// entry of the key map for its key.
    pub open spec fn without_binding(self, id: Seq<char>) -> HotkeysView {
        match spec_find_binding(self.bindings, id) {
            Some(binding) => HotkeysView {
                bindings: self.bindings.filter(binding_other_than(id)),
                key_map: self.key_map.filter(mapping_other_than(binding.key, binding.modifiers)),
                ..self
            },
            None => self,
        }
    }

    /// The tables after the binding `id` was given another key.
    pub open spec fn with_key(self, id: Seq<char>, key: Seq<char>, modifiers: Modifiers) -> HotkeysView {
        match spec_find_binding(self.bindings, id) {
            Some(binding) => HotkeysView {
                bindings: self.bindings.map_values(
                    |b: BindingView|
                        if b.id == id {
                            BindingView { key, modifiers, ..b }
                        } else {
                            b
                        },
                ),
                key_map: self.key_map.filter(
                    mapping_other_than(binding.key, binding.modifiers),
                ).filter(mapping_other_than(key, modifiers)).push(
                    MappingView { key, modifiers, binding_id: id },
                ),
                ..self
            },
            None => self,
        }
    }

    /// The modifiers after a keyboard event.
    pub open spec fn modifiers_after(self, event: KeyEvent) -> Modifiers {
        match event {
            KeyEvent::Press(key) => spec_update_modifiers(self.modifier_state, key, true),
            KeyEvent::Release(key) => spec_update_modifiers(self.modifier_state, key, false),
            KeyEvent::Other => self.modifier_state,
        }
    }

    /// The action that a keyboard event sets off: that of the binding which
    /// the key map names for a pressed key that is no modifier, with the
    /// modifiers that are held.
    pub open spec fn triggered(self, event: KeyEvent) -> Option<ActionView> {
        match event {
            KeyEvent::Press(key) => if spec_is_modifier_key(key) {
                None
            } else {
                match spec_find_mapping(self.key_map, spec_key_name(key), self.modifier_state) {
                    Some(id) => match spec_find_binding(self.bindings, id) {
                        Some(binding) => Some(binding.action),
                        None => None,
                    },
                    None => None,
                }
            },
            _ => None,
        }
    }
}

/// Whatever is added, removed or rebound: no two bindings ever bear the same
/// id, and no key with its modifiers ever has two entries in the key map.
pub proof fn lemma_tables_stay_distinct(
    tables: HotkeysView,
    binding: BindingView,
    id: Seq<char>,
    key: Seq<char>,
    modifiers: Modifiers,
)
    requires
        tables.wf(),
    ensures
        tables.with_binding(binding).wf(),
        tables.without_binding(id).wf(),
        tables.with_key(id, key, modifiers).wf(),
{
    let ids = binding_id_of();
    let keys = mapping_key_of();
    lemma_filter_keeps_distinct(tables.bindings, ids, binding_other_than(binding.id));
    lemma_push_keeps_distinct(tables.bindings.filter(binding_other_than(binding.id)), ids, binding);
    lemma_filter_keeps_distinct(
        tables.key_map,
        keys,
        mapping_other_than(binding.key, binding.modifiers),
    );
    lemma_push_keeps_distinct(
        tables.key_map.filter(mapping_other_than(binding.key, binding.modifiers)),
        keys,
        MappingView { key: binding.key, modifiers: binding.modifiers, binding_id: binding.id },
    );
    lemma_filter_keeps_distinct(tables.bindings, ids, binding_other_than(id));
    match spec_find_binding(tables.bindings, id) {
        Some(found) => {
            let first = tables.key_map.filter(mapping_other_than(found.key, found.modifiers));
            lemma_filter_keeps_distinct(
                tables.key_map,
                keys,
                mapping_other_than(found.key, found.modifiers),
            );
            lemma_filter_keeps_distinct(first, keys, mapping_other_than(key, modifiers));
            lemma_push_keeps_distinct(
                first.filter(mapping_other_than(key, modifiers)),
                keys,
                MappingView { key, modifiers, binding_id: id },
            );
            let rebound = tables.with_key(id, key, modifiers).bindings;
            assert forall|i: int, j: int| 0 <= i < j < rebound.len() implies ids(
                #[trigger] rebound[i],
            ) != ids(#[trigger] rebound[j]) by {
                assert(ids(rebound[i]) == ids(tables.bindings[i]));
                assert(ids(rebound[j]) == ids(tables.bindings[j]));
            }
        },
        None => {},
    }
}

/// What was done for a new binding.
pub struct AddedBinding {
    /// The id of the binding.
    pub id: String,
    /// The sound whose stored hotkey must now be written, if any.
    pub persist_for: Option<String>,
}

/// What was done to remove a binding.
#[derive(Debug, Clone, Copy, PartialEq, Eq, Structural)]
pub struct RemovedBinding {
    /// Whether there was such a binding.
    pub removed: bool,
    /// Whether the stored binding of the global stop must now be deleted.
    pub forget_stored: bool,
}

/// The bindings and the key map, and the modifiers that are held.
pub struct HotkeyManager {
    bindings: Vec<HotkeyBinding>,
    key_map: Vec<KeyMapping>,
    modifier_state: Modifiers,
}

impl HotkeyManager {
    /// The tables as a plain value.
    pub closed spec fn view(&self) -> HotkeysView {
        HotkeysView {
            bindings: self.bindings@.map_values(|b: HotkeyBinding| b@),
            key_map: self.key_map@.map_values(|m: KeyMapping| m@),
            modifier_state: self.modifier_state,
        }
    }

    /// Empty tables, with no modifier held.
    pub fn new() -> (manager: HotkeyManager)
        ensures
            manager@.bindings.len() == 0,
            manager@.key_map.len() == 0,
            manager@.modifier_state == (Modifiers {
                ctrl: false,
                alt: false,
                shift: false,
                meta: false,
            }),
    {
        HotkeyManager {
            bindings: Vec::new(),
            key_map: Vec::new(),
            modifier_state: Modifiers { ctrl: false, alt: false, shift: false, meta: false },
        }
    }

    /// Takes every binding with the id `id` out of the bindings.
    fn drop_binding(&mut self, id: &str)
        ensures
            final(self)@.bindings == old(self)@.bindings.filter(binding_other_than(id@)),
            final(self)@.key_map == old(self)@.key_map,
            final(self)@.modifier_state == old(self)@.modifier_state,
    {
        let ghost before = self@.bindings;
        let ghost keep = binding_other_than(id@);
        let ghost view_of = |b: HotkeyBinding| b@;
        let mut all: Vec<HotkeyBinding> = Vec::new();
        std::mem::swap(&mut self.bindings, &mut all);
        let mut kept: Vec<HotkeyBinding> = Vec::new();
        let mut n: usize = 0;
        let total: usize = all.len();
        proof {
            reveal(Seq::filter);
            assert(before.take(0).filter(keep) =~= Seq::<BindingView>::empty());
            assert(kept@.map_values(view_of) =~= Seq::<BindingView>::empty());
        }
        for binding in it: all
            invariant
                n == it.index(),
                it.seq().len() == total,
                it.seq().map_values(view_of) == before,
                view_of == (|b: HotkeyBinding| b@),
                keep == binding_other_than(id@),
                kept@.map_values(view_of) == before.take(n as int).filter(keep),
        {
            let ghost kept_before = kept@;
            proof {
                assert(before.take(n + 1) =~= before.take(n as int).push(before[n as int]));
                before.take(n as int).lemma_filter_push(before[n as int], keep);
                assert(binding@ == before[n as int]);
            }
            if !str_equal(binding.id.as_str(), id) {
                kept.push(binding);
                proof {
                    assert(kept@.map_values(view_of) =~= kept_before.map_values(view_of).push(
                        before[n as int],
                    ));
                }
            }
            n = n + 1;
        }
        proof {
            assert(before.take(n as int) =~= before);
        }
        self.bindings = kept;
    }

    /// Takes every entry for this key with these modifiers out of the key
    /// map.
    fn drop_mapping(&mut self, key: &str, modifiers: Modifiers)
        ensures
            final(self)@.key_map == old(self)@.key_map.filter(mapping_other_than(key@, modifiers)),
            final(self)@.bindings == old(self)@.bindings,
            final(self)@.modifier_state == old(self)@.modifier_state,
    {
        let ghost before = self@.key_map;
        let ghost keep = mapping_other_than(key@, modifiers);
        let ghost view_of = |m: KeyMapping| m@;
        let mut all: Vec<KeyMapping> = Vec::new();
        std::mem::swap(&mut self.key_map, &mut all);
        let mut kept: Vec<KeyMapping> = Vec::new();
        let mut n: usize = 0;
        let total: usize = all.len();
        proof {
            reveal(Seq::filter);
            assert(before.take(0).filter(keep) =~= Seq::<MappingView>::empty());
            assert(kept@.map_values(view_of) =~= Seq::<MappingView>::empty());
        }
        for mapping in it: all
            invariant
                n == it.index(),
                it.seq().len() == total,
                it.seq().map_values(view_of) == before,
                view_of == (|m: KeyMapping| m@),
                keep == mapping_other_than(key@, modifiers),
                kept@.map_values(view_of) == before.take(n as int).filter(keep),
        {
            let ghost kept_before = kept@;
            proof {
                assert(before.take(n + 1) =~= before.take(n as int).push(before[n as int]));
                before.take(n as int).lemma_filter_push(before[n as int], keep);
                assert(mapping@ == before[n as int]);
            }
            let same = str_equal(mapping.key.as_str(), key) && mapping.modifiers == modifiers;
            if !same {
                kept.push(mapping);
                proof {
                    assert(kept@.map_values(view_of) =~= kept_before.map_values(view_of).push(
                        before[n as int],
                    ));
                }
            }
            n = n + 1;
        }
        proof {
            assert(before.take(n as int) =~= before);
        }
        self.key_map = kept;
    }

    /// The position of the first binding with the id `id`.
    fn find_binding(&self, id: &str) -> (found: Option<usize>)
        ensures
            match found {
                Some(k) => k < self.bindings.len() && spec_find_binding(self@.bindings, id@) == Some(
                    self.bindings[k as int]@,
                ) && self.bindings[k as int].id@ == id@,
                None => spec_find_binding(self@.bindings, id@) is None,
            },
    {
        let ghost views = self@.bindings;
        let mut k: usize = 0;
        assert(views.skip(0) =~= views);
        while k < self.bindings.len()
            invariant
                k <= self.bindings.len(),
                views == self@.bindings,
                views.len() == self.bindings.len(),
                spec_find_binding(views, id@) == spec_find_binding(views.skip(k as int), id@),
            decreases self.bindings.len() - k,
        {
            assert(views.skip(k as int).drop_first() =~= views.skip(k + 1));
            assert(views.skip(k as int)[0] == self.bindings[k as int]@);
            if str_equal(self.bindings[k].id.as_str(), id) {
                return Some(k);
            }
            k = k + 1;
        }
        None
    }

    /// The position of the first entry of the key map for this key with
    /// these modifiers.
    fn find_mapping(&self, key: &str, modifiers: Modifiers) -> (found: Option<usize>)
        ensures
            match found {
                Some(k) => k < self.key_map.len() && spec_find_mapping(
                    self@.key_map,
                    key@,
                    modifiers,
                ) == Some(self.key_map[k as int]@.binding_id),
                None => spec_find_mapping(self@.key_map, key@, modifiers) is None,
            },
    {
        let ghost views = self@.key_map;
        let mut k: usize = 0;
        assert(views.skip(0) =~= views);
        while k < self.key_map.len()
            invariant
                k <= self.key_map.len(),
                views == self@.key_map,
                views.len() == self.key_map.len(),
                spec_find_mapping(views, key@, modifiers) == spec_find_mapping(
                    views.skip(k as int),
                    key@,
                    modifiers,
                ),
            decreases self.key_map.len() - k,
        {
            assert(views.skip(k as int).drop_first() =~= views.skip(k + 1));
            assert(views.skip(k as int)[0] == self.key_map[k as int]@);
            if str_equal(self.key_map[k].key.as_str(), key) && self.key_map[k].modifiers
                == modifiers {
                return Some(k);
            }
            k = k + 1;
        }
        None
    }

    /// Adds an entry to the end of the key map.
    fn push_mapping(&mut self, key: String, modifiers: Modifiers, binding_id: String)
        ensures
            final(self)@.key_map == old(self)@.key_map.push(
                MappingView { key: key@, modifiers, binding_id: binding_id@ },
            ),
            final(self)@.bindings == old(self)@.bindings,
            final(self)@.modifier_state == old(self)@.modifier_state,
    {
        let ghost before = self@.key_map;
        self.key_map.push(KeyMapping { key, modifiers, binding_id });
        assert(self@.key_map =~= before.push(
            MappingView { key: key@, modifiers, binding_id: binding_id@ },
        ));
    }

    /// Binds a key with its modifiers to an action at the time `now`. The
    /// binding is named after its action, takes the place of a binding of
    /// that name, and takes over the key from whatever held it. Where
    /// `persist` is set and the action plays a sound, the caller is told for
    /// which sound the hotkey must be stored.
    pub fn add_binding_with_persist(
        &mut self,
        key: String,
        modifiers: Modifiers,
        action: HotkeyAction,
        sound_id: Option<String>,
        persist: bool,
        now: Timestamp,
    ) -> (added: AddedBinding)
        ensures
            added.id@ == action.spec_binding_id(),
            final(self)@ == old(self)@.with_binding(
                BindingView {
                    id: action.spec_binding_id(),
                    key: key@,
                    modifiers,
                    action: action@,
                    sound_id: optional_view(sound_id),
                    created_at: now,
                },
            ),
            optional_view(added.persist_for) == (if persist && action is PlaySound {
                optional_view(sound_id)
            } else {
                None
            }),
    {
        let id = action.binding_id();
        let persist_for = match (&action, &sound_id) {
            (HotkeyAction::PlaySound { .. }, Some(s)) => if persist {
                Some(s.clone())
            } else {
                None
            },
            _ => None,
        };
        self.drop_binding(id.as_str());
        self.drop_mapping(key.as_str(), modifiers);
        self.push_mapping(key.clone(), modifiers, id.clone());
        let ghost before = self@.bindings;
        let binding = HotkeyBinding {
            id: id.clone(),
            key,
            modifiers,
            action,
            sound_id,
            created_at: now,
        };
        self.bindings.push(binding);
        assert(self@.bindings =~= before.push(binding@));
        AddedBinding { id, persist_for }
    }

    /// Binds a key and has the hotkey stored with its sound.
    pub fn add_binding(
        &mut self,
        key: String,
        modifiers: Modifiers,
        action: HotkeyAction,
        sound_id: Option<String>,
        now: Timestamp,
    ) -> (added: AddedBinding)
        ensures
            added.id@ == action.spec_binding_id(),
            final(self)@ == old(self)@.with_binding(
                BindingView {
                    id: action.spec_binding_id(),
                    key: key@,
                    modifiers,
                    action: action@,
                    sound_id: optional_view(sound_id),
                    created_at: now,
                },
            ),
            optional_view(added.persist_for) == (if action is PlaySound {
                optional_view(sound_id)
            } else {
                None
            }),
    {
        self.add_binding_with_persist(key, modifiers, action, sound_id, true, now)
    }

    /// Binds a key without having anything stored.
    pub fn add_binding_no_persist(
        &mut self,
        key: String,
        modifiers: Modifiers,
        action: HotkeyAction,
        sound_id: Option<String>,
        now: Timestamp,
    ) -> (added: AddedBinding)
        ensures
            added.id@ == action.spec_binding_id(),
            final(self)@ == old(self)@.with_binding(
                BindingView {
                    id: action.spec_binding_id(),
                    key: key@,
                    modifiers,
                    action: action@,
                    sound_id: optional_view(sound_id),
                    created_at: now,
                },
            ),
            added.persist_for is None,
    {
        self.add_binding_with_persist(key, modifiers, action, sound_id, false, now)
    }

    /// Removes the binding `id` and the entry of the key map for its key.
    /// Says whether there was such a binding, and whether the stored binding
    /// of the global stop must be deleted with it.
    pub fn remove_binding(&mut self, id: &str) -> (removed: RemovedBinding)
        ensures
            final(self)@ == old(self)@.without_binding(id@),
            removed.removed == (spec_find_binding(old(self)@.bindings, id@) is Some),
            removed.forget_stored == (removed.removed && id@ == "global_stop"@),
    {
        match self.find_binding(id) {
            Some(k) => {
                let key = self.bindings[k].key.clone();
                let modifiers = self.bindings[k].modifiers;
                self.drop_binding(id);
                self.drop_mapping(key.as_str(), modifiers);
                RemovedBinding { removed: true, forget_stored: str_equal(id, "global_stop") }
            },
            None => RemovedBinding { removed: false, forget_stored: false },
        }
    }

    /// Gives the binding `id` another key with other modifiers, and says
    /// whether there was such a binding. The old key sets nothing off any
    /// more, and the new key now sets this binding off.
    pub fn update_binding(&mut self, id: &str, key: String, modifiers: Modifiers) -> (updated: bool)
        ensures
            final(self)@ == old(self)@.with_key(id@, key@, modifiers),
            updated == (spec_find_binding(old(self)@.bindings, id@) is Some),
    {
        match self.find_binding(id) {
            Some(k) => {
                let old_key = self.bindings[k].key.clone();
                let old_modifiers = self.bindings[k].modifiers;
                let bound_id = self.bindings[k].id.clone();
                self.drop_mapping(old_key.as_str(), old_modifiers);
                self.drop_mapping(key.as_str(), modifiers);
                self.push_mapping(key.clone(), modifiers, bound_id);
                self.rebind(id, &key, modifiers);
                proof {
                    let expected = old(self)@.with_key(id@, key@, modifiers);
                    assert(self@.bindings =~= expected.bindings);
                    assert(self@.key_map =~= expected.key_map);
                }
                true
            },
            None => false,
        }
    }

    /// Writes the new key into every binding with the id `id`.
    fn rebind(&mut self, id: &str, key: &String, modifiers: Modifiers)
        ensures
            final(self)@.bindings == old(self)@.bindings.map_values(
                |b: BindingView|
                    if b.id == id@ {
                        BindingView { key: key@, modifiers, ..b }
                    } else {
                        b
                    },
            ),
            final(self)@.key_map == old(self)@.key_map,
            final(self)@.modifier_state == old(self)@.modifier_state,
    {
        let ghost before = self@.bindings;
        let ghost view_of = |b: HotkeyBinding| b@;
        let mut all: Vec<HotkeyBinding> = Vec::new();
        std::mem::swap(&mut self.bindings, &mut all);
        let mut updated: Vec<HotkeyBinding> = Vec::new();
        let mut n: usize = 0;
        let total: usize = all.len();
        for binding in it: all
            invariant
                n == it.index(),
                it.seq().len() == total,
                updated.len() == n,
                it.seq().map_values(view_of) == before,
                view_of == (|b: HotkeyBinding| b@),
                forall|i: int|
                    0 <= i < n ==> (#[trigger] updated[i])@ == (if before[i].id == id@ {
                        BindingView { key: key@, modifiers, ..before[i] }
                    } else {
                        before[i]
                    }),
        {
            proof {
                assert(binding@ == before[n as int]);
            }
            if str_equal(binding.id.as_str(), id) {
                updated.push(
                    HotkeyBinding {
                        id: binding.id,
                        key: key.clone(),
                        modifiers,
                        action: binding.action,
                        sound_id: binding.sound_id,
                        created_at: binding.created_at,
                    },
                );
            } else {
                updated.push(binding);
            }
            n = n + 1;
        }
        assert(updated@.map_values(view_of) =~= before.map_values(
            |b: BindingView|
                if b.id == id@ {
                    BindingView { key: key@, modifiers, ..b }
                } else {
                    b
                },
        ));
        self.bindings = updated;
    }

    /// A copy of every binding, in the order in which they were added.
    pub fn get_bindings(&self) -> (bindings: Vec<HotkeyBinding>)
        ensures
            bindings@.map_values(|b: HotkeyBinding| b@) == self@.bindings,
    {
        let mut bindings: Vec<HotkeyBinding> = Vec::new();
        let mut k: usize = 0;
        while k < self.bindings.len()
            invariant
                k <= self.bindings.len(),
                bindings.len() == k,
                forall|i: int| 0 <= i < k ==> (#[trigger] bindings[i])@ == self.bindings[i]@,
            decreases self.bindings.len() - k,
        {
            bindings.push(self.bindings[k].duplicate());
            k = k + 1;
        }
        assert(bindings@.map_values(|b: HotkeyBinding| b@) =~= self@.bindings);
        bindings
    }

    /// The modifiers that are held.
    pub fn modifier_state(&self) -> (state: Modifiers)
        ensures
            state == self@.modifier_state,
    {
        self.modifier_state
    }

    /// Takes in one keyboard event. A press or a release first updates the
    /// modifiers that are held. A pressed key that is no modifier then sets
    /// off the action of the binding that the key map names for it with the
    /// modifiers held.
    pub fn handle_event(&mut self, event: KeyEvent) -> (action: Option<HotkeyAction>)
        ensures
            final(self)@ == (HotkeysView {
                modifier_state: old(self)@.modifiers_after(event),
                ..old(self)@
            }),
            match action {
                Some(a) => final(self)@.triggered(event) == Some(a@),
                None => final(self)@.triggered(event) is None,
            },
    {
        match event {
            KeyEvent::Press(key) => {
                self.modifier_state = update_modifier_state(self.modifier_state, key, true);
                if is_modifier_key(key) {
                    return None;
                }
                let key_str = key_to_string(key);
                match self.find_mapping(key_str.as_str(), self.modifier_state) {
                    Some(m) => {
                        match self.find_binding(self.key_map[m].binding_id.as_str()) {
                            Some(k) => Some(self.bindings[k].action.duplicate()),
                            None => None,
                        }
                    },
                    None => None,
                }
            },
            KeyEvent::Release(key) => {
                self.modifier_state = update_modifier_state(self.modifier_state, key, false);
                None
            },
            KeyEvent::Other => None,
        }
    }
}

} // verus!
