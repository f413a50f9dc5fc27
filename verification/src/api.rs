//! Shared vocabulary of the framework: hotkey definitions, commands,
//! payloads and log records that extensions exchange.

use vstd::prelude::*;

verus! {

/// Defines the scope in which a hotkey is active.
#[derive(Debug, Clone, Copy, PartialEq, Eq, Structural)]
pub enum HotkeyScope {
    /// Active everywhere in the operating system.
    Global,
    /// Active when any part of this application is focused.
    OS,
    /// Active only when the specific extension is focused.
    Local,
}

/// Keyboard modifiers for hotkeys: a set of flags kept as bits.
#[derive(Debug, Clone, Copy, PartialEq, Eq, Structural)]
pub struct HotkeyModifiers {
    bits: u32,
}

impl HotkeyModifiers {
    /// No modifier (`NONE`).
    pub fn none() -> (m: HotkeyModifiers)
        ensures
            m.spec_bits() == 0,
            m == HotkeyModifiers::none_spec(),
    {
        HotkeyModifiers { bits: 0 }
    }

    /// The Shift key (`SHIFT`).
    pub fn shift() -> (m: HotkeyModifiers)
        ensures
            m.spec_bits() == 1,
            m == HotkeyModifiers::shift_spec(),
    {
        HotkeyModifiers { bits: 1 }
    }

    /// The Control key (`CTRL`).
    pub fn ctrl() -> (m: HotkeyModifiers)
        ensures
            m.spec_bits() == 2,
            m == HotkeyModifiers::ctrl_spec(),
    {
        HotkeyModifiers { bits: 2 }
    }

    /// The Alt key (`ALT`).
    pub fn alt() -> (m: HotkeyModifiers)
        ensures
            m.spec_bits() == 4,
            m == HotkeyModifiers::alt_spec(),
    {
        HotkeyModifiers { bits: 4 }
    }

    /// The Logo (Command / Windows) key (`LOGO`).
    pub fn logo() -> (m: HotkeyModifiers)
        ensures
            m.spec_bits() == 8,
            m == HotkeyModifiers::logo_spec(),
    {
        HotkeyModifiers { bits: 8 }
    }

    /// The set of no modifier.
    pub closed spec fn none_spec() -> HotkeyModifiers {
        HotkeyModifiers { bits: 0 }
    }

    /// The set of the Shift key.
    pub closed spec fn shift_spec() -> HotkeyModifiers {
        HotkeyModifiers { bits: 1 }
    }

    /// The set of the Control key.
    pub closed spec fn ctrl_spec() -> HotkeyModifiers {
        HotkeyModifiers { bits: 2 }
    }

    /// The set of the Alt key.
    pub closed spec fn alt_spec() -> HotkeyModifiers {
        HotkeyModifiers { bits: 4 }
    }

    /// The set of the Logo key.
    pub closed spec fn logo_spec() -> HotkeyModifiers {
        HotkeyModifiers { bits: 8 }
    }

    /// The raw bits of the set.
    pub closed spec fn spec_bits(self) -> u32 {
        self.bits
    }

    /// The raw bits of the set.
    pub fn bits(&self) -> (b: u32)
        ensures
            b == self.spec_bits(),
    {
        self.bits
    }

    /// The set whose bits are `bits`, kept as given.
    pub fn from_bits_retain(bits: u32) -> (m: HotkeyModifiers)
        ensures
            m.spec_bits() == bits,
    {
        HotkeyModifiers { bits }
    }

    /// The empty set.
    pub fn empty() -> (m: HotkeyModifiers)
        ensures
            m.spec_bits() == 0,
    {
        HotkeyModifiers { bits: 0 }
    }

    /// Every flag of `other` is also in `self`.
    pub open spec fn spec_contains(self, other: HotkeyModifiers) -> bool {
        self.spec_bits() & other.spec_bits() == other.spec_bits()
    }

    /// The flags of both sets.
    pub closed spec fn spec_union(self, other: HotkeyModifiers) -> HotkeyModifiers {
        HotkeyModifiers { bits: self.bits | other.bits }
    }

    /// Whether every flag of `other` is also in `self`.
    pub fn contains(&self, other: HotkeyModifiers) -> (b: bool)
        ensures
            b == self.spec_contains(other),
    {
        self.bits & other.bits == other.bits
    }

    /// The flags of both sets.
    pub fn union(self, other: HotkeyModifiers) -> (m: HotkeyModifiers)
        ensures
            m == self.spec_union(other),
            m.spec_bits() == self.spec_bits() | other.spec_bits(),
    {
        HotkeyModifiers { bits: self.bits | other.bits }
    }

    /// Whether the set has no flag.
    pub fn is_empty(&self) -> (b: bool)
        ensures
            b == (self.spec_bits() == 0),
    {
        self.bits == 0
    }
}

impl Default for HotkeyModifiers {
    fn default() -> (m: HotkeyModifiers)
        ensures
            m.spec_bits() == 0,
    {
        HotkeyModifiers::none()
    }
}

/// A set holds every flag that was joined into it.
pub proof fn law_union_contains(a: HotkeyModifiers, b: HotkeyModifiers)
    ensures
        a.spec_union(b).spec_contains(a),
        a.spec_union(b).spec_contains(b),
        a.spec_union(b) == b.spec_union(a),
{
    let x = a.spec_bits();
    let y = b.spec_bits();
    assert((x | y) & x == x) by (bit_vector);
    assert((x | y) & y == y) by (bit_vector);
    assert(x | y == y | x) by (bit_vector);
}

/// A complete hotkey definition.
#[derive(Debug, Clone)]
pub struct HotkeyDefinition {
    /// Unique identifier for this hotkey.
    pub id: String,
    /// Key name (e.g., "Space", "F1", "A").
    pub key: String,
    /// Set of modifiers required for this hotkey.
    pub modifiers: HotkeyModifiers,
    /// Scope of the hotkey.
    pub scope: HotkeyScope,
    /// Human-readable description.
    pub description: String,
    /// Internal resolved key code, as the number of the key, when known.
    pub internal_keycode: Option<u32>,
}

impl HotkeyDefinition {
    /// A hotkey definition with no resolved key code.
    pub fn new(id: &str, key: &str, modifiers: HotkeyModifiers, scope: HotkeyScope, description: &str) -> (d:
        HotkeyDefinition)
        ensures
            d.id@ == id@,
            d.key@ == key@,
            d.modifiers == modifiers,
            d.scope == scope,
            d.description@ == description@,
            d.internal_keycode is None,
    {
        HotkeyDefinition {
            id: id.to_owned(),
            key: key.to_owned(),
            modifiers,
            scope,
            description: description.to_owned(),
            internal_keycode: None,
        }
    }
}

/// `d` has exactly these fields and no resolved key code.
pub open spec fn defines(
    d: HotkeyDefinition,
    id: Seq<char>,
    key: Seq<char>,
    modifiers: HotkeyModifiers,
    scope: HotkeyScope,
    description: Seq<char>,
) -> bool {
    &&& d.id@ == id
    &&& d.key@ == key
    &&& d.modifiers == modifiers
    &&& d.scope == scope
    &&& d.description@ == description
    &&& d.internal_keycode is None
}

/// The type of data contained in a payload.
#[derive(Clone, Debug)]
pub enum PayloadData {
    /// A file, by its path.
    File(String),
    /// In-memory binary data.
    Buffer(Vec<u8>),
    /// Text.
    Text(String),
}

/// A message passed between extensions (nodes).
#[derive(Clone, Debug)]
pub struct PayloadMessage {
    pub source: String,
    pub target: String,
    pub data: PayloadData,
}

/// Audio system control commands.
#[derive(Debug, Clone, Copy, PartialEq, Eq, Structural)]
pub enum AudioCommand {
    /// Start recording audio from the default input device.
    StartRecording,
    /// Stop current audio recording.
    StopRecording,
    /// Toggle between recording and stopped states.
    ToggleRecording,
}

/// Commands that can be issued to the framework.
#[derive(Clone, Debug)]
pub enum RayCommand {
    /// Audio control commands.
    Audio(AudioCommand),
    /// Registers a new hotkey with the framework: (applet_name, definition).
    RegisterHotkey(String, HotkeyDefinition),
    /// Toggles the framework overlay mode.
    ToggleOverlay(bool),
    /// Toggles the framework mini mode (shrunk window).
    MiniMode(bool),
    /// Switches the active extension to the one with the given name.
    SelectExtension(String),
}

/// The command by which the applet `applet_name` registers `definition`
/// with the framework.
pub fn register_hotkey_command(applet_name: &str, definition: HotkeyDefinition) -> (c: RayCommand)
    ensures
        c matches RayCommand::RegisterHotkey(name, d) && name@ == applet_name@ && d == definition,
{
    RayCommand::RegisterHotkey(applet_name.to_owned(), definition)
}

/// Severity level for log messages.
#[derive(Debug, Clone, Copy, PartialEq, Eq, Structural)]
pub enum LogLevel {
    Error,
    Warn,
    Info,
    Debug,
    Trace,
}

/// The five-character label of a level, padded with a space where shorter.
pub open spec fn level_label(level: LogLevel) -> Seq<char> {
    match level {
        LogLevel::Error => seq!['E', 'R', 'R', 'O', 'R'],
        LogLevel::Warn => seq!['W', 'A', 'R', 'N', ' '],
        LogLevel::Info => seq!['I', 'N', 'F', 'O', ' '],
        LogLevel::Debug => seq!['D', 'E', 'B', 'U', 'G'],
        LogLevel::Trace => seq!['T', 'R', 'A', 'C', 'E'],
    }
}

impl LogLevel {
    /// Returns the standard string representation of the log level.
    pub fn as_str(&self) -> (s: &'static str)
        ensures
            s@ == level_label(*self),
    {
        match self {
            LogLevel::Error => {
                let s = "ERROR";
                proof {
                    reveal_strlit("ERROR");
                }
                assert(s@ =~= level_label(*self));
                s
            },
            LogLevel::Warn => {
                let s = "WARN ";
                proof {
                    reveal_strlit("WARN ");
                }
                assert(s@ =~= level_label(*self));
                s
            },
            LogLevel::Info => {
                let s = "INFO ";
                proof {
                    reveal_strlit("INFO ");
                }
                assert(s@ =~= level_label(*self));
                s
            },
            LogLevel::Debug => {
                let s = "DEBUG";
                proof {
                    reveal_strlit("DEBUG");
                }
                assert(s@ =~= level_label(*self));
                s
            },
            LogLevel::Trace => {
                let s = "TRACE";
                proof {
                    reveal_strlit("TRACE");
                }
                assert(s@ =~= level_label(*self));
                s
            },
        }
    }
}

/// A structured log event.
#[derive(Debug, Clone)]
pub struct LogEvent {
    /// Log severity.
    pub level: LogLevel,
    /// Target module or component name.
    pub target: String,
    /// The log message content.
    pub message: String,
    /// Unix timestamp or frame time, as the bits of an IEEE-754 double.
    pub timestamp: u64,
}

impl LogEvent {
    /// Convenience method to get the level string.
    pub fn level_str(&self) -> (s: &'static str)
        ensures
            s@ == level_label(self.level),
    {
        self.level.as_str()
    }
}

} // verus!
