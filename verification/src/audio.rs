//! The audio applet's decisions: recording commands, the ffmpeg capture
//! command, decoding the captured PCM stream, the rolling sample window, the
//! capped error log and the persisted input device.

use vstd::prelude::*;
use vstd::string::StringSliceAdditionalSpecFns;
use vstd::utf8::encode_utf8;
use crate::api::{defines, AudioCommand, HotkeyDefinition, HotkeyModifiers, HotkeyScope, RayCommand};
use crate::engine::RayExtension;
use crate::numbers::{decimal, fmt_i64, parse_i32, parse_i32_spec};
use crate::text::{concat2, push_char, push_str, push_string, views};

verus! {

/// The signed 16-bit little-endian sample made of the bytes `lo`, `hi`
/// (`i16::from_le_bytes([lo, hi])`).
pub open spec fn le_i16(lo: u8, hi: u8) -> int {
    lo + 256 * hi - if hi >= 128 {
        65536int
    } else {
        0int
    }
}

/// The samples of the first `n` bytes of `bytes`, two bytes each; an odd last byte is dropped.
pub open spec fn decoded(bytes: Seq<u8>, n: nat) -> Seq<i16> {
    Seq::new(n / 2, |k: int| le_i16(bytes[2 * k], bytes[2 * k + 1]) as i16)
}

/// `i16::from_le_bytes([lo, hi])`.
pub fn i16_from_le(lo: u8, hi: u8) -> (v: i16)
    ensures
        v as int == le_i16(lo, hi),
{
    let wide: i32 = (lo as i32) + (hi as i32) * 256 - if hi >= 128 {
        65536
    } else {
        0
    };
    wide as i16
}

/// Decodes the first `n` bytes of a signed 16-bit little-endian mono stream,
/// as the capture thread does with each chunk it reads.
pub fn decode_s16le(bytes: &[u8], n: usize) -> (r: Vec<i16>)
    requires
        n <= bytes@.len(),
    ensures
        r@ == decoded(bytes@, n as nat),
{
    let mut r: Vec<i16> = Vec::new();
    let half = n / 2;
    let mut k: usize = 0;
    while k < half
        invariant
            n <= bytes@.len(),
            half == n / 2,
            k <= half,
            r@.len() == k,
            forall|j: int| 0 <= j < k ==> #[trigger] r@[j] == le_i16(bytes@[2 * j], bytes@[2 * j + 1]) as i16,
        decreases half - k,
    {
        let v = i16_from_le(bytes[2 * k], bytes[2 * k + 1]);
        r.push(v);
        k += 1;
    }
    assert(r@ =~= decoded(bytes@, n as nat));
    r
}

/// The length of the rolling window after `n` samples are pushed onto a
/// window of `len` samples capped at `cap`.
pub open spec fn window_len(len: nat, n: nat, cap: nat) -> nat {
    if len >= cap {
        len
    } else if len + n <= cap {
        len + n
    } else {
        cap
    }
}

/// Pushes `samples` one by one onto the rolling window `buffer`, dropping the
/// oldest sample whenever the window grows past `cap`.
pub fn push_window<T: Copy>(buffer: &mut Vec<T>, samples: &Vec<T>, cap: usize)
    ensures
        final(buffer)@ == (old(buffer)@ + samples@).skip(
            old(buffer)@.len() + samples@.len() - window_len(
                old(buffer)@.len(),
                samples@.len(),
                cap as nat,
            ),
        ),
{
    let ghost all = old(buffer)@ + samples@;
    let ghost start = old(buffer)@.len();
    let mut i: usize = 0;
    while i < samples.len()
        invariant
            i <= samples.len(),
            all == old(buffer)@ + samples@,
            start == old(buffer)@.len(),
            buffer@ == all.subrange(
                start + i - window_len(start as nat, i as nat, cap as nat),
                start + i,
            ),
        decreases samples.len() - i,
    {
        let s = samples[i];
        let ghost before = buffer@;
        buffer.push(s);
        assert(all[start + i] == s);
        if buffer.len() > cap {
            buffer.remove(0);
        }
        assert(buffer@ =~= all.subrange(
            start + i + 1 - window_len(start as nat, (i + 1) as nat, cap as nat),
            start + i + 1,
        ));
        i += 1;
    }
    assert(all.subrange(
        start + samples.len() - window_len(start as nat, samples.len() as nat, cap as nat),
        start + samples.len(),
    ) =~= all.skip(
        start + samples.len() - window_len(start as nat, samples.len() as nat, cap as nat),
    ));
}

/// The UTF-8 bytes of a text.
pub open spec fn bytes_of(s: Seq<char>) -> Seq<u8> {
    encode_utf8(s)
}

/// Appends `line` and a newline to `log`; when the log then holds more than
/// `max` bytes, its first `cut` bytes are dropped.
pub fn append_log(log: &mut String, line: &str, max: usize, cut: usize)
    requires
        cut <= max,
        bytes_of(old(log)@ + line@ + seq!['\n']).len() <= usize::MAX,
        bytes_of(old(log)@ + line@ + seq!['\n']).len() > max ==> vstd::utf8::is_char_boundary(
            bytes_of(old(log)@ + line@ + seq!['\n']),
            cut as int,
        ),
    ensures
        bytes_of(old(log)@ + line@ + seq!['\n']).len() <= max ==> final(log)@ == old(log)@ + line@
            + seq!['\n'],
        bytes_of(old(log)@ + line@ + seq!['\n']).len() > max ==> bytes_of(final(log)@) == bytes_of(
            old(log)@ + line@ + seq!['\n'],
        ).skip(cut as int),
{
    log.append(line);
    push_char(log, '\n');
    assert(log@ =~= old(log)@ + line@ + seq!['\n']);
    let whole = log.as_str();
    assert(whole.spec_bytes() == bytes_of(old(log)@ + line@ + seq!['\n']));
    let n = whole.len();
    if n > max {
        let (_, rest) = whole.split_at(cut);
        let kept = rest.to_owned();
        assert(bytes_of(kept@) == rest.spec_bytes());
        assert(rest.spec_bytes() =~= bytes_of(old(log)@ + line@ + seq!['\n']).skip(cut as int));
        *log = kept;
    }
}

/// What a recording command asks of the capture process.
#[derive(Debug, Clone, Copy, PartialEq, Eq, Structural)]
pub enum AudioAction {
    /// Start capturing.
    Start,
    /// Stop capturing (also when nothing runs).
    Stop,
    /// Nothing to do.
    Nothing,
}

/// What `cmd` asks when the applet is (or is not) recording.
pub open spec fn command_action(recording: bool, cmd: AudioCommand) -> AudioAction {
    match cmd {
        AudioCommand::StartRecording => if recording {
            AudioAction::Nothing
        } else {
            AudioAction::Start
        },
        AudioCommand::StopRecording => AudioAction::Stop,
        AudioCommand::ToggleRecording => if recording {
            AudioAction::Stop
        } else {
            AudioAction::Start
        },
    }
}

/// The ffmpeg arguments that capture input device `device` as 44.1 kHz mono
/// signed 16-bit samples on standard output.
pub open spec fn capture_args(device: i32) -> Seq<Seq<char>> {
    seq![
        "-f"@,
        "avfoundation"@,
        "-i"@,
        "none:"@ + decimal(device as int),
        "-f"@,
        "s16le"@,
        "-ac"@,
        "1"@,
        "-ar"@,
        "44100"@,
        "-"@,
    ]
}

/// The ffmpeg arguments that list the input devices.
pub open spec fn list_devices_args() -> Seq<Seq<char>> {
    seq!["-f"@, "avfoundation"@, "-list_devices"@, "true"@, "-i"@, ""@]
}

/// The device index read back from the stored value, if there is one; 1 otherwise.
pub open spec fn stored_device_index(value: Option<Seq<char>>) -> i32 {
    match value {
        Some(v) => match parse_i32_spec(v) {
            Some(i) => i,
            None => 1,
        },
        None => 1,
    }
}

/// The state of the audio applet that its decisions read and change.
pub struct AudioApplet {
    /// A capture process runs.
    pub is_recording: bool,
    /// How many samples the rolling window shows.
    pub samples_to_show: usize,
    /// The avfoundation input device.
    pub device_index: i32,
    /// The capture process's error output, capped.
    pub error_log: String,
}

impl AudioApplet {
    /// An idle applet on device 1 showing 1024 samples.
    pub fn new() -> (a: Self)
        ensures
            !a.is_recording,
            a.samples_to_show == 1024,
            a.device_index == 1,
            a.error_log@ == Seq::<char>::empty(),
    {
        AudioApplet { is_recording: false, samples_to_show: 1024, device_index: 1, error_log: String::new() }
    }

    /// The command the applet's hotkey sends, if `id` is its hotkey.
    pub fn on_hotkey(&self, id: &str) -> (r: Option<RayCommand>)
        ensures
            id@ == "toggle_recording"@ ==> r == Some(RayCommand::Audio(AudioCommand::ToggleRecording)),
            id@ != "toggle_recording"@ ==> r is None,
    {
        let mine = "toggle_recording".to_owned();
        let given = id.to_owned();
        if given == mine {
            Some(RayCommand::Audio(AudioCommand::ToggleRecording))
        } else {
            None
        }
    }

    /// What a recording command asks of the capture process.
    pub fn command_action(&self, cmd: AudioCommand) -> (a: AudioAction)
        ensures
            a == command_action(self.is_recording, cmd),
    {
        match cmd {
            AudioCommand::StartRecording => if self.is_recording {
                AudioAction::Nothing
            } else {
                AudioAction::Start
            },
            AudioCommand::StopRecording => AudioAction::Stop,
            AudioCommand::ToggleRecording => if self.is_recording {
                AudioAction::Stop
            } else {
                AudioAction::Start
            },
        }
    }

    /// The ffmpeg arguments that capture the selected device.
    pub fn capture_args(&self) -> (r: Vec<String>)
        ensures
            views(r@) == capture_args(self.device_index),
    {
        let mut r: Vec<String> = Vec::new();
        push_str(&mut r, "-f");
        push_str(&mut r, "avfoundation");
        push_str(&mut r, "-i");
        let num = fmt_i64(self.device_index as i64);
        push_string(&mut r, concat2("none:", num.as_str()));
        push_str(&mut r, "-f");
        push_str(&mut r, "s16le");
        push_str(&mut r, "-ac");
        push_str(&mut r, "1");
        push_str(&mut r, "-ar");
        push_str(&mut r, "44100");
        push_str(&mut r, "-");
        assert(views(r@) =~= capture_args(self.device_index));
        r
    }

    /// The ffmpeg arguments that list the input devices.
    pub fn list_devices_args() -> (r: Vec<String>)
        ensures
            views(r@) == list_devices_args(),
    {
        let mut r: Vec<String> = Vec::new();
        push_str(&mut r, "-f");
        push_str(&mut r, "avfoundation");
        push_str(&mut r, "-list_devices");
        push_str(&mut r, "true");
        push_str(&mut r, "-i");
        push_str(&mut r, "");
        assert(views(r@) =~= list_devices_args());
        r
    }

    /// Prepares to start capturing: `None` when already recording; otherwise
    /// the error log is cleared and the capture arguments are returned.
    pub fn start_plan(&mut self) -> (r: Option<Vec<String>>)
        ensures
            old(self).is_recording ==> r is None && *final(self) == *old(self),
            !old(self).is_recording ==> (r matches Some(args) && views(args@) == capture_args(
                old(self).device_index,
            ) && final(self).error_log@ == Seq::<char>::empty()),
            final(self).is_recording == old(self).is_recording,
            final(self).device_index == old(self).device_index,
            final(self).samples_to_show == old(self).samples_to_show,
    {
        if self.is_recording {
            return None;
        }
        self.error_log = String::new();
        Some(self.capture_args())
    }

    /// The capture process has started.
    pub fn recording_started(&mut self)
        ensures
            final(self).is_recording,
            final(self).device_index == old(self).device_index,
            final(self).samples_to_show == old(self).samples_to_show,
            final(self).error_log == old(self).error_log,
    {
        self.is_recording = true;
    }

    /// The capture process was stopped.
    pub fn recording_stopped(&mut self)
        ensures
            !final(self).is_recording,
            final(self).device_index == old(self).device_index,
            final(self).samples_to_show == old(self).samples_to_show,
            final(self).error_log == old(self).error_log,
    {
        self.is_recording = false;
    }

    /// Selects input device `index`; returns whether it changed (and must be
    /// saved and announced).
    pub fn set_device_index(&mut self, index: i32) -> (changed: bool)
        ensures
            final(self).device_index == index,
            changed == (old(self).device_index != index),
            final(self).is_recording == old(self).is_recording,
            final(self).samples_to_show == old(self).samples_to_show,
            final(self).error_log == old(self).error_log,
    {
        let changed = self.device_index != index;
        self.device_index = index;
        changed
    }

    /// The row the device index is stored as: key and decimal text.
    pub fn device_index_row(&self) -> (r: (String, String))
        ensures
            r.0@ == "device_index"@,
            r.1@ == decimal(self.device_index as int),
    {
        ("device_index".to_owned(), fmt_i64(self.device_index as i64))
    }

    /// The device index read back from the stored value, when one was found;
    /// an unreadable or missing value reads as device 1.
    pub fn device_index_from(value: Option<&str>) -> (i: i32)
        ensures
            i == stored_device_index(
                match value {
                    Some(v) => Some(v@),
                    None => None,
                },
            ),
    {
        match value {
            Some(v) => match parse_i32(v) {
                Some(i) => i,
                None => 1,
            },
            None => 1,
        }
    }

    /// Adds a line of the capture process's error output; the log keeps at
    /// most 5000 bytes by dropping its first 1000 when it grows past that.
    pub fn log_error(&mut self, line: &str)
        requires
            bytes_of(old(self).error_log@ + line@ + seq!['\n']).len() <= usize::MAX,
            bytes_of(old(self).error_log@ + line@ + seq!['\n']).len() > 5000 ==> vstd::utf8::is_char_boundary(
                bytes_of(old(self).error_log@ + line@ + seq!['\n']),
                1000,
            ),
        ensures
            bytes_of(old(self).error_log@ + line@ + seq!['\n']).len() <= 5000 ==> final(self).error_log@ == old(self).error_log@ + line@ + seq!['\n'],
            bytes_of(old(self).error_log@ + line@ + seq!['\n']).len() > 5000 ==> bytes_of(final(self).error_log@) == bytes_of(
                old(self).error_log@ + line@ + seq!['\n'],
            ).skip(1000),
            final(self).is_recording == old(self).is_recording,
            final(self).device_index == old(self).device_index,
            final(self).samples_to_show == old(self).samples_to_show,
    {
        append_log(&mut self.error_log, line, 5000, 1000);
    }
}

impl AudioApplet {
    /// The hotkey the audio applet registers: Ctrl+R toggles recording,
    /// active everywhere.
    pub fn hotkeys() -> (v: Vec<HotkeyDefinition>)
        ensures
            v@.len() == 1,
            defines(
                v@[0],
                "toggle_recording"@,
                "R"@,
                HotkeyModifiers::ctrl_spec(),
                HotkeyScope::Global,
                "Toggle Audio Recording"@,
            ),
    {
        let mut v: Vec<HotkeyDefinition> = Vec::new();
        v.push(
            HotkeyDefinition::new(
                "toggle_recording",
                "R",
                HotkeyModifiers::ctrl(),
                HotkeyScope::Global,
                "Toggle Audio Recording",
            ),
        );
        v
    }
}

impl RayExtension for AudioApplet {
    fn name(&self) -> (n: &str)
        ensures
            n@ == "Audio"@,
    {
        "Audio"
    }
}

/// Storing the device index and reading it back gives the same device.
pub proof fn law_device_index_round_trip(index: i32)
    ensures
        stored_device_index(Some(decimal(index as int))) == index,
{
    crate::numbers::law_i32_text_round_trip(index);
}

/// A start command never starts a second capture, and toggling twice from
/// any state ends where it began.
pub proof fn law_command_toggle(recording: bool)
    ensures
        command_action(true, AudioCommand::StartRecording) == AudioAction::Nothing,
        command_action(recording, AudioCommand::ToggleRecording) == (if recording {
            AudioAction::Stop
        } else {
            AudioAction::Start
        }),
        command_action(!recording, AudioCommand::ToggleRecording) != command_action(
            recording,
            AudioCommand::ToggleRecording,
        ),
{
}

/// The rolling window never holds more than its cap once it has reached it,
/// and always ends with the newest samples.
pub proof fn law_window_keeps_newest(len: nat, n: nat, cap: nat)
    ensures
        len <= cap ==> window_len(len, n, cap) <= cap,
        window_len(len, n, cap) <= len + n,
        n <= cap && len + n >= cap ==> window_len(len, n, cap) >= n,
{
}

} // verus!
