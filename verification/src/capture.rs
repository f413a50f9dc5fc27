//! The capture applet's decisions: region screenshots, region video and
//! standalone audio recording, and the settings it keeps.

use vstd::prelude::*;
use crate::api::{defines, AudioCommand, HotkeyDefinition, HotkeyModifiers, HotkeyScope, RayCommand};
use crate::engine::RayExtension;
use crate::numbers::{bool_text, decimal, fmt_bool, fmt_i64, fmt_u64, parse_bool, parse_bool_spec};
use crate::imaging::{region_pixels, Snapshot};
use crate::paths::{join_path, joined};
use crate::text::{concat2, push_str, push_string, views};

verus! {

/// What the capture overlay is selecting a region for.
#[derive(Debug, Clone, Copy, PartialEq, Eq, Structural)]
pub enum CaptureMode {
    Screenshot,
    Video,
    Audio,
}

/// Container of standalone audio recordings.
#[derive(Debug, Clone, Copy, PartialEq, Eq, Structural)]
pub enum AudioFormat {
    Mp3,
    Ogg,
    Wav,
}

/// The file extension of a format.
pub open spec fn format_ext(f: AudioFormat) -> Seq<char> {
    match f {
        AudioFormat::Mp3 => "mp3"@,
        AudioFormat::Ogg => "ogg"@,
        AudioFormat::Wav => "wav"@,
    }
}

/// The name of a format as `{:?}` writes it, which the settings store holds.
pub open spec fn format_name(f: AudioFormat) -> Seq<char> {
    match f {
        AudioFormat::Mp3 => "Mp3"@,
        AudioFormat::Ogg => "Ogg"@,
        AudioFormat::Wav => "Wav"@,
    }
}

/// The encoder options ffmpeg gets for a format (WAV keeps its default PCM).
pub open spec fn format_encoder(f: AudioFormat) -> Seq<Seq<char>> {
    match f {
        AudioFormat::Mp3 => seq!["-c:a"@, "libmp3lame"@],
        AudioFormat::Ogg => seq!["-c:a"@, "libvorbis"@],
        AudioFormat::Wav => Seq::empty(),
    }
}

impl AudioFormat {
    /// The file extension of the format.
    pub fn ext(&self) -> (s: &'static str)
        ensures
            s@ == format_ext(*self),
    {
        match self {
            AudioFormat::Mp3 => "mp3",
            AudioFormat::Ogg => "ogg",
            AudioFormat::Wav => "wav",
        }
    }

    /// The name of the format as the settings store holds it.
    pub fn name(&self) -> (s: &'static str)
        ensures
            s@ == format_name(*self),
    {
        match self {
            AudioFormat::Mp3 => "Mp3",
            AudioFormat::Ogg => "Ogg",
            AudioFormat::Wav => "Wav",
        }
    }

    /// The position of the format in the settings combo box (MP3, OGG, WAV).
    pub fn index(&self) -> (i: usize)
        ensures
            i == format_index(*self),
    {
        match self {
            AudioFormat::Mp3 => 0,
            AudioFormat::Ogg => 1,
            AudioFormat::Wav => 2,
        }
    }

    /// The format at a combo box position; unknown positions give MP3.
    pub fn from_index(i: usize) -> (f: AudioFormat)
        ensures
            f == format_at(i),
    {
        match i {
            1 => AudioFormat::Ogg,
            2 => AudioFormat::Wav,
            _ => AudioFormat::Mp3,
        }
    }
}

/// The combo box position of a format.
pub open spec fn format_index(f: AudioFormat) -> usize {
    match f {
        AudioFormat::Mp3 => 0,
        AudioFormat::Ogg => 1,
        AudioFormat::Wav => 2,
    }
}

/// The format at a combo box position.
pub open spec fn format_at(i: usize) -> AudioFormat {
    if i == 1 {
        AudioFormat::Ogg
    } else if i == 2 {
        AudioFormat::Wav
    } else {
        AudioFormat::Mp3
    }
}

/// The format a stored name stands for, if any.
pub open spec fn format_named(s: Seq<char>) -> Option<AudioFormat> {
    if s == "Mp3"@ {
        Some(AudioFormat::Mp3)
    } else if s == "Ogg"@ {
        Some(AudioFormat::Ogg)
    } else if s == "Wav"@ {
        Some(AudioFormat::Wav)
    } else {
        None
    }
}

/// The format a stored name stands for, if any.
pub fn format_from_name(s: &str) -> (r: Option<AudioFormat>)
    ensures
        r == format_named(s@),
{
    let mp3 = "Mp3";
    let ogg = "Ogg";
    let wav = "Wav";
    if str_eq(s, mp3) {
        Some(AudioFormat::Mp3)
    } else if str_eq(s, ogg) {
        Some(AudioFormat::Ogg)
    } else if str_eq(s, wav) {
        Some(AudioFormat::Wav)
    } else {
        None
    }
}

/// Whether two texts are equal.
pub fn str_eq(a: &str, b: &str) -> (r: bool)
    ensures
        r == (a@ == b@),
{
    let x = a.to_owned();
    let y = b.to_owned();
    x == y
}

/// Reading a format back from the name it is stored under gives the format.
pub proof fn law_format_name_round_trip(f: AudioFormat)
    ensures
        format_named(format_name(f)) == Some(f),
{
    reveal_strlit("Mp3");
    reveal_strlit("Ogg");
    reveal_strlit("Wav");
    assert("Mp3"@[0] != "Ogg"@[0]);
    assert("Mp3"@[0] != "Wav"@[0]);
    assert("Ogg"@[0] != "Wav"@[0]);
}

/// The combo box position of a format selects that format again.
pub proof fn law_format_index_round_trip(f: AudioFormat)
    ensures
        format_at(format_index(f)) == f,
{
}

/// The settings the capture applet persists: whether video includes audio,
/// where captures are saved, and the standalone audio format.
pub type CaptureSettings = (bool, Seq<char>, AudioFormat);

/// The settings after the stored row `(key, value)` is read back.
pub open spec fn with_setting(s: CaptureSettings, key: Seq<char>, value: Seq<char>) -> CaptureSettings {
    if key == "audio_enabled"@ {
        (
            match parse_bool_spec(value) {
                Some(b) => b,
                None => false,
            },
            s.1,
            s.2,
        )
    } else if key == "save_dir"@ {
        (s.0, value, s.2)
    } else if key == "standalone_audio_format"@ {
        match format_named(value) {
            Some(f) => (s.0, s.1, f),
            None => s,
        }
    } else {
        s
    }
}

/// The settings after every stored row is read back, in order.
pub open spec fn with_settings(s: CaptureSettings, rows: Seq<(Seq<char>, Seq<char>)>) -> CaptureSettings
    decreases rows.len(),
{
    if rows.len() == 0 {
        s
    } else {
        with_settings(with_setting(s, rows[0].0, rows[0].1), rows.drop_first())
    }
}

/// The rows the settings are stored as, in the order they are written.
pub open spec fn settings_rows_spec(s: CaptureSettings) -> Seq<(Seq<char>, Seq<char>)> {
    seq![
        ("audio_enabled"@, bool_text(s.0)),
        ("standalone_audio_format"@, format_name(s.2)),
        ("save_dir"@, s.1),
    ]
}

/// One action the frame loop performs for the capture applet, in order; when
/// an outside step fails, the remaining ones are not performed.
#[derive(Debug)]
pub enum CaptureAction {
    /// Send a command on the event bus.
    Send(RayCommand),
    /// Close the pipe that feeds audio samples to the recorder.
    ClosePipe,
    /// Wait for the video recorder to finish, then forget it.
    WaitVideoRecorder,
    /// Wait for the standalone audio recorder to finish, then forget it.
    WaitAudioRecorder,
    /// Take a full-screen snapshot to select a region on.
    TakeScreenshot,
    /// Forget the selected region.
    ClearSelection,
    /// Forget the snapshot.
    ClearSnapshot,
    /// Start an ffmpeg recorder with these arguments.
    SpawnRecorder(RecorderPlan),
}

/// How to start an ffmpeg recorder.
#[derive(Debug)]
pub struct RecorderPlan {
    /// The ffmpeg arguments.
    pub args: Vec<String>,
    /// The file it writes.
    pub output: String,
    /// Whether it reads audio samples from its standard input.
    pub pipe_audio: bool,
    /// Whether it records video (otherwise audio only).
    pub video: bool,
}

/// The actions that stop running recorders.
pub open spec fn stop_actions(recording: bool, audio_recording: bool) -> Seq<CaptureAction> {
    seq![CaptureAction::ClosePipe] + (if recording {
        seq![CaptureAction::WaitVideoRecorder, CaptureAction::Send(RayCommand::MiniMode(false))]
    } else {
        Seq::empty()
    }) + (if audio_recording {
        seq![CaptureAction::WaitAudioRecorder, CaptureAction::Send(RayCommand::MiniMode(false))]
    } else {
        Seq::empty()
    })
}

/// The action asks the framework to focus the capture applet.
pub open spec fn selects_capture(a: CaptureAction) -> bool {
    a matches CaptureAction::Send(RayCommand::SelectExtension(n)) && n@ == "Capture"@
}

/// The actions that open the overlay on a fresh snapshot.
pub open spec fn snapshot_actions() -> Seq<CaptureAction> {
    seq![
        CaptureAction::Send(RayCommand::ToggleOverlay(true)),
        CaptureAction::Send(RayCommand::ToggleOverlay(true)),
        CaptureAction::TakeScreenshot,
        CaptureAction::Send(RayCommand::ToggleOverlay(false)),
        CaptureAction::ClearSelection,
    ]
}

/// The ffmpeg arguments of a standalone audio recording into `output`.
pub open spec fn audio_args(format: AudioFormat, output: Seq<char>) -> Seq<Seq<char>> {
    seq!["-y"@, "-f"@, "f32le"@, "-ar"@, "44100"@, "-ac"@, "1"@, "-i"@, "-"@] + format_encoder(
        format,
    ) + seq![output]
}

/// The ffmpeg arguments of a region video recording.
pub open spec fn video_args(
    input_format: Seq<char>,
    input_device: Seq<char>,
    fps: i32,
    crf: i32,
    audio: bool,
    x: u32,
    y: u32,
    w: u32,
    h: u32,
    output: Seq<char>,
) -> Seq<Seq<char>> {
    seq!["-f"@, input_format, "-framerate"@, decimal(fps as int), "-i"@, input_device] + (if audio {
        seq!["-f"@, "f32le"@, "-ar"@, "44100"@, "-ac"@, "1"@, "-i"@, "-"@]
    } else {
        Seq::empty()
    }) + seq![
        "-vf"@,
        crop_filter(x, y, w, h),
        "-c:v"@,
        "libx264"@,
        "-crf"@,
        decimal(crf as int),
        "-pix_fmt"@,
        "yuv420p"@,
    ] + (if audio {
        seq!["-c:a"@, "aac"@, "-shortest"@, "-map"@, "0:v"@, "-map"@, "1:a"@]
    } else {
        Seq::empty()
    }) + seq![output]
}

/// The ffmpeg crop filter `crop=w:h:x:y`.
pub open spec fn crop_filter(x: u32, y: u32, w: u32, h: u32) -> Seq<char> {
    "crop="@ + decimal(w as int) + ":"@ + decimal(h as int) + ":"@ + decimal(x as int) + ":"@
        + decimal(y as int)
}

/// The state of the capture applet that its decisions read and change.
pub struct CaptureApplet {
    /// The overlay is open or a recording was started from it.
    pub active: bool,
    pub mode: CaptureMode,
    /// A video recorder is running.
    pub recording: bool,
    /// A standalone audio recorder is running.
    pub audio_recording: bool,
    /// The file the running video recorder writes.
    pub recording_filename: Option<String>,
    /// Video quality (lower is better).
    pub crf: i32,
    /// Video frame rate.
    pub fps: i32,
    /// Where captures are saved.
    pub save_dir: String,
    /// Video recordings include audio.
    pub audio_enabled: bool,
    pub standalone_audio_format: AudioFormat,
}

impl CaptureApplet {
    /// The persisted settings.
    pub open spec fn settings(&self) -> CaptureSettings {
        (self.audio_enabled, self.save_dir@, self.standalone_audio_format)
    }

    /// A video file name is known exactly while a video recorder runs.
    pub open spec fn wf(&self) -> bool {
        self.recording_filename is Some <==> self.recording
    }

    /// A recorder of either kind is running.
    pub open spec fn busy(&self) -> bool {
        self.recording || self.audio_recording
    }

    /// An idle applet saving to `save_dir`, with the default settings.
    pub fn new(save_dir: String) -> (a: Self)
        ensures
            !a.active,
            a.mode == CaptureMode::Screenshot,
            !a.recording,
            !a.audio_recording,
            a.recording_filename is None,
            a.crf == 23,
            a.fps == 30,
            a.save_dir@ == save_dir@,
            !a.audio_enabled,
            a.standalone_audio_format == AudioFormat::Mp3,
            a.wf(),
    {
        CaptureApplet {
            active: false,
            mode: CaptureMode::Screenshot,
            recording: false,
            audio_recording: false,
            recording_filename: None,
            crf: 23,
            fps: 30,
            save_dir,
            audio_enabled: false,
            standalone_audio_format: AudioFormat::Mp3,
        }
    }

    /// Reads back one stored settings row; unknown keys and format names are ignored,
    /// and an unreadable flag reads as off.
    pub fn apply_setting(&mut self, key: &str, value: &str)
        ensures
            final(self).settings() == with_setting(old(self).settings(), key@, value@),
            final(self).active == old(self).active,
            final(self).mode == old(self).mode,
            final(self).recording == old(self).recording,
            final(self).audio_recording == old(self).audio_recording,
            final(self).recording_filename == old(self).recording_filename,
            final(self).crf == old(self).crf,
            final(self).fps == old(self).fps,
    {
        if str_eq(key, "audio_enabled") {
            self.audio_enabled = match parse_bool(value) {
                Some(b) => b,
                None => false,
            };
        } else if str_eq(key, "save_dir") {
            self.save_dir = value.to_owned();
        } else if str_eq(key, "standalone_audio_format") {
            match format_from_name(value) {
                Some(f) => {
                    self.standalone_audio_format = f;
                },
                None => {},
            }
        }
    }

    /// The rows the settings are stored as: `(key, value)` in write order.
    pub fn settings_rows(&self) -> (r: Vec<(String, String)>)
        ensures
            r@.map_values(|p: (String, String)| (p.0@, p.1@)) == settings_rows_spec(self.settings()),
    {
        let mut r: Vec<(String, String)> = Vec::new();
        r.push(("audio_enabled".to_owned(), fmt_bool(self.audio_enabled)));
        r.push(("standalone_audio_format".to_owned(), self.standalone_audio_format.name().to_owned()));
        r.push(("save_dir".to_owned(), self.save_dir.clone()));
        assert(r@.map_values(|p: (String, String)| (p.0@, p.1@)) =~= settings_rows_spec(
            self.settings(),
        ));
        r
    }
}

/// Reading back the stored rows restores the saved settings, whatever the
/// settings were before.
pub proof fn law_settings_round_trip(saved: CaptureSettings, before: CaptureSettings)
    ensures
        with_settings(before, settings_rows_spec(saved)) == saved,
{
    reveal_strlit("audio_enabled");
    reveal_strlit("save_dir");
    reveal_strlit("standalone_audio_format");
    crate::numbers::law_bool_text_round_trip(saved.0);
    law_format_name_round_trip(saved.2);
    let rows = settings_rows_spec(saved);
    assert("audio_enabled"@[0] != "save_dir"@[0]);
    assert("standalone_audio_format"@[1] != "save_dir"@[1]);
    assert("audio_enabled"@.len() != "standalone_audio_format"@.len());
    let s1 = with_setting(before, rows[0].0, rows[0].1);
    assert(s1 == (saved.0, before.1, before.2));
    let s2 = with_setting(s1, rows[1].0, rows[1].1);
    assert(s2 == (saved.0, before.1, saved.2));
    let s3 = with_setting(s2, rows[2].0, rows[2].1);
    assert(s3 == saved);
    assert(rows.drop_first().drop_first().drop_first() =~= Seq::<(Seq<char>, Seq<char>)>::empty());
    assert(with_settings(before, rows) == with_settings(s1, rows.drop_first()));
    assert(with_settings(s1, rows.drop_first()) == with_settings(s2, rows.drop_first().drop_first()));
    assert(with_settings(s2, rows.drop_first().drop_first()) == with_settings(
        s3,
        rows.drop_first().drop_first().drop_first(),
    ));
}

impl CaptureApplet {
    /// Stops whatever recorders run: the audio pipe closes first, then each
    /// recorder is waited for and mini mode left. The applet becomes inactive.
    pub fn stop_recording(&mut self) -> (r: Vec<CaptureAction>)
        ensures
            r@ == stop_actions(old(self).recording, old(self).audio_recording),
            !final(self).active,
            !final(self).recording,
            !final(self).audio_recording,
            final(self).recording_filename == (if old(self).recording {
                None
            } else {
                old(self).recording_filename
            }),
            final(self).mode == old(self).mode,
            final(self).settings() == old(self).settings(),
            final(self).crf == old(self).crf,
            final(self).fps == old(self).fps,
            old(self).wf() ==> final(self).wf(),
    {
        let mut r: Vec<CaptureAction> = Vec::new();
        r.push(CaptureAction::ClosePipe);
        if self.recording {
            r.push(CaptureAction::WaitVideoRecorder);
            r.push(CaptureAction::Send(RayCommand::MiniMode(false)));
            self.recording = false;
            self.recording_filename = None;
        }
        if self.audio_recording {
            r.push(CaptureAction::WaitAudioRecorder);
            r.push(CaptureAction::Send(RayCommand::MiniMode(false)));
            self.audio_recording = false;
        }
        self.active = false;
        assert(r@ =~= stop_actions(old(self).recording, old(self).audio_recording));
        r
    }

    /// Opens the selection overlay for `mode` on a fresh snapshot.
    fn begin_selection(&mut self, mode: CaptureMode) -> (r: Vec<CaptureAction>)
        ensures
            r@.len() == 6,
            selects_capture(r@[0]),
            r@.subrange(1, 6) == snapshot_actions(),
            final(self).active,
            final(self).mode == mode,
            final(self).recording == old(self).recording,
            final(self).audio_recording == old(self).audio_recording,
            final(self).recording_filename == old(self).recording_filename,
            final(self).settings() == old(self).settings(),
            final(self).crf == old(self).crf,
            final(self).fps == old(self).fps,
    {
        self.active = true;
        self.mode = mode;
        let mut r: Vec<CaptureAction> = Vec::new();
        let name = "Capture".to_owned();
        r.push(CaptureAction::Send(RayCommand::SelectExtension(name)));
        r.push(CaptureAction::Send(RayCommand::ToggleOverlay(true)));
        r.push(CaptureAction::Send(RayCommand::ToggleOverlay(true)));
        r.push(CaptureAction::TakeScreenshot);
        r.push(CaptureAction::Send(RayCommand::ToggleOverlay(false)));
        r.push(CaptureAction::ClearSelection);
        assert(r@.subrange(1, 6) =~= snapshot_actions());
        r
    }

    /// The ffmpeg arguments of a standalone audio recording into `output`.
    pub fn audio_recording_args(&self, output: &str) -> (r: Vec<String>)
        ensures
            views(r@) == audio_args(self.standalone_audio_format, output@),
    {
        let mut r: Vec<String> = Vec::new();
        push_str(&mut r, "-y");
        push_str(&mut r, "-f");
        push_str(&mut r, "f32le");
        push_str(&mut r, "-ar");
        push_str(&mut r, "44100");
        push_str(&mut r, "-ac");
        push_str(&mut r, "1");
        push_str(&mut r, "-i");
        push_str(&mut r, "-");
        match self.standalone_audio_format {
            AudioFormat::Mp3 => {
                push_str(&mut r, "-c:a");
                push_str(&mut r, "libmp3lame");
            },
            AudioFormat::Ogg => {
                push_str(&mut r, "-c:a");
                push_str(&mut r, "libvorbis");
            },
            AudioFormat::Wav => {},
        }
        push_str(&mut r, output);
        assert(views(r@) =~= audio_args(self.standalone_audio_format, output@));
        r
    }

    /// The name of the standalone audio file recorded at `timestamp`.
    pub fn audio_file_name(&self, timestamp: &str) -> (r: String)
        ensures
            r@ == "audio_"@ + timestamp@ + "."@ + format_ext(self.standalone_audio_format),
    {
        let mut r = concat2("audio_", timestamp);
        r.append(".");
        r.append(self.standalone_audio_format.ext());
        r
    }

    /// Reacts to a triggered hotkey: the two region hotkeys stop running
    /// recorders or else open the overlay; the audio hotkey focuses the applet
    /// and stops running recorders or else plans a standalone audio recording
    /// stamped `timestamp`. Other ids change nothing.
    pub fn on_hotkey(&mut self, id: &str, timestamp: &str) -> (r: Vec<CaptureAction>)
        ensures
            id@ == "region_screenshot"@ || id@ == "region_video"@ ==> if old(self).busy() {
                r@ == stop_actions(old(self).recording, old(self).audio_recording)
                    && !final(self).active && !final(self).busy()
            } else {
                &&& r@.len() == 6
                &&& selects_capture(r@[0])
                &&& r@.subrange(1, 6) == snapshot_actions()
                &&& final(self).active
                &&& final(self).mode == (if id@ == "region_screenshot"@ {
                    CaptureMode::Screenshot
                } else {
                    CaptureMode::Video
                })
            },
            id@ == "capture_pure_audio"@ ==> r@.len() > 0 && selects_capture(r@[0]) && if old(
                self,
            ).busy() {
                r@.drop_first() == stop_actions(old(self).recording, old(self).audio_recording)
                    && !final(self).active && !final(self).busy()
            } else {
                &&& r@.len() == 2
                &&& final(self).active
                &&& final(self).mode == CaptureMode::Audio
                &&& r@[1] matches CaptureAction::SpawnRecorder(plan) && plan.pipe_audio
                    && !plan.video && views(plan.args@) == audio_args(
                    old(self).standalone_audio_format,
                    plan.output@,
                ) && joined(
                    old(self).save_dir@,
                    "audio_"@ + timestamp@ + "."@ + format_ext(old(self).standalone_audio_format),
                    plan.output@,
                )
            },
            old(self).busy() ==> final(self).mode == old(self).mode,
            id@ != "region_screenshot"@ && id@ != "region_video"@ && id@ != "capture_pure_audio"@
                ==> r@.len() == 0 && *final(self) == *old(self),
            !old(self).busy() ==> final(self).recording == old(self).recording
                && final(self).audio_recording == old(self).audio_recording
                && final(self).recording_filename == old(self).recording_filename,
            final(self).settings() == old(self).settings(),
            final(self).crf == old(self).crf,
            final(self).fps == old(self).fps,
            old(self).wf() ==> final(self).wf(),
    {
        proof {
            reveal_strlit("region_screenshot");
            reveal_strlit("region_video");
            reveal_strlit("capture_pure_audio");
            assert("region_screenshot"@[0] != "capture_pure_audio"@[0]);
            assert("region_video"@[0] != "capture_pure_audio"@[0]);
            assert("region_screenshot"@[7] != "region_video"@[7]);
        }
        let screenshot = str_eq(id, "region_screenshot");
        let video = str_eq(id, "region_video");
        if screenshot || video {
            if self.recording || self.audio_recording {
                self.stop_recording()
            } else {
                let mode = if screenshot {
                    CaptureMode::Screenshot
                } else {
                    CaptureMode::Video
                };
                self.begin_selection(mode)
            }
        } else if str_eq(id, "capture_pure_audio") {
            let mut r: Vec<CaptureAction> = Vec::new();
            let name = "Capture".to_owned();
            r.push(CaptureAction::Send(RayCommand::SelectExtension(name)));
            if self.recording || self.audio_recording {
                let stops = self.stop_recording();
                let ghost first = r@;
                let mut rest = stops;
                r.append(&mut rest);
                assert(r@.drop_first() =~= stop_actions(old(self).recording, old(self).audio_recording));
            } else {
                self.active = true;
                self.mode = CaptureMode::Audio;
                let file = self.audio_file_name(timestamp);
                let output = join_path(self.save_dir.as_str(), file.as_str());
                let args = self.audio_recording_args(output.as_str());
                r.push(CaptureAction::SpawnRecorder(RecorderPlan { args, output, pipe_audio: true, video: false }));
            }
            r
        } else {
            Vec::new()
        }
    }

    /// The standalone audio recorder has started: the applet records, asks the
    /// audio extension for samples and shrinks the window.
    pub fn audio_recorder_started(&mut self) -> (r: Vec<CaptureAction>)
        ensures
            r@ == seq![
                CaptureAction::Send(RayCommand::Audio(AudioCommand::StartRecording)),
                CaptureAction::Send(RayCommand::MiniMode(true)),
            ],
            final(self).audio_recording,
            final(self).active == old(self).active,
            final(self).mode == old(self).mode,
            final(self).recording == old(self).recording,
            final(self).recording_filename == old(self).recording_filename,
            final(self).settings() == old(self).settings(),
            final(self).crf == old(self).crf,
            final(self).fps == old(self).fps,
            old(self).wf() ==> final(self).wf(),
    {
        self.audio_recording = true;
        let mut r: Vec<CaptureAction> = Vec::new();
        r.push(CaptureAction::Send(RayCommand::Audio(AudioCommand::StartRecording)));
        r.push(CaptureAction::Send(RayCommand::MiniMode(true)));
        assert(r@ =~= seq![
            CaptureAction::Send(RayCommand::Audio(AudioCommand::StartRecording)),
            CaptureAction::Send(RayCommand::MiniMode(true)),
        ]);
        r
    }
}

impl CaptureApplet {
    /// The video recorder exited by itself: forget it, leave mini mode, go inactive.
    pub fn video_recorder_exited(&mut self) -> (r: Vec<CaptureAction>)
        ensures
            r@ == seq![CaptureAction::Send(RayCommand::MiniMode(false))],
            !final(self).recording,
            final(self).recording_filename is None,
            !final(self).active,
            final(self).audio_recording == old(self).audio_recording,
            final(self).mode == old(self).mode,
            final(self).settings() == old(self).settings(),
            final(self).crf == old(self).crf,
            final(self).fps == old(self).fps,
            final(self).wf(),
    {
        self.recording = false;
        self.recording_filename = None;
        self.active = false;
        let mut r: Vec<CaptureAction> = Vec::new();
        r.push(CaptureAction::Send(RayCommand::MiniMode(false)));
        assert(r@ =~= seq![CaptureAction::Send(RayCommand::MiniMode(false))]);
        r
    }

    /// The standalone audio recorder exited by itself: forget it, leave mini mode, go inactive.
    pub fn audio_recorder_exited(&mut self) -> (r: Vec<CaptureAction>)
        ensures
            r@ == seq![CaptureAction::Send(RayCommand::MiniMode(false))],
            !final(self).audio_recording,
            !final(self).active,
            final(self).recording == old(self).recording,
            final(self).recording_filename == old(self).recording_filename,
            final(self).mode == old(self).mode,
            final(self).settings() == old(self).settings(),
            final(self).crf == old(self).crf,
            final(self).fps == old(self).fps,
            old(self).wf() ==> final(self).wf(),
    {
        self.audio_recording = false;
        self.active = false;
        let mut r: Vec<CaptureAction> = Vec::new();
        r.push(CaptureAction::Send(RayCommand::MiniMode(false)));
        assert(r@ =~= seq![CaptureAction::Send(RayCommand::MiniMode(false))]);
        r
    }

    /// Whether the frame loop follows the mouse to select a region.
    pub fn tracks_selection(&self) -> (b: bool)
        ensures
            b == (self.active && self.mode != CaptureMode::Audio),
    {
        self.active && self.mode != CaptureMode::Audio
    }

    /// Escape was pressed while selecting: close the overlay and drop the snapshot.
    pub fn on_escape(&mut self) -> (r: Vec<CaptureAction>)
        ensures
            r@ == seq![CaptureAction::ClearSnapshot, CaptureAction::Send(RayCommand::ToggleOverlay(false))],
            !final(self).active,
            final(self).mode == old(self).mode,
            final(self).recording == old(self).recording,
            final(self).audio_recording == old(self).audio_recording,
            final(self).recording_filename == old(self).recording_filename,
            final(self).settings() == old(self).settings(),
            final(self).crf == old(self).crf,
            final(self).fps == old(self).fps,
    {
        self.active = false;
        let mut r: Vec<CaptureAction> = Vec::new();
        r.push(CaptureAction::ClearSnapshot);
        r.push(CaptureAction::Send(RayCommand::ToggleOverlay(false)));
        assert(r@ =~= seq![
            CaptureAction::ClearSnapshot,
            CaptureAction::Send(RayCommand::ToggleOverlay(false)),
        ]);
        r
    }

    /// The selected region was handled (saved or recording): close the overlay
    /// and drop the snapshot.
    pub fn finish_selection(&mut self) -> (r: Vec<CaptureAction>)
        ensures
            r@ == seq![CaptureAction::Send(RayCommand::ToggleOverlay(false)), CaptureAction::ClearSnapshot],
            !final(self).active,
            final(self).mode == old(self).mode,
            final(self).recording == old(self).recording,
            final(self).audio_recording == old(self).audio_recording,
            final(self).recording_filename == old(self).recording_filename,
            final(self).settings() == old(self).settings(),
            final(self).crf == old(self).crf,
            final(self).fps == old(self).fps,
    {
        self.active = false;
        let mut r: Vec<CaptureAction> = Vec::new();
        r.push(CaptureAction::Send(RayCommand::ToggleOverlay(false)));
        r.push(CaptureAction::ClearSnapshot);
        assert(r@ =~= seq![
            CaptureAction::Send(RayCommand::ToggleOverlay(false)),
            CaptureAction::ClearSnapshot,
        ]);
        r
    }

    /// The ffmpeg crop filter for a region.
    pub fn crop_filter(x: u32, y: u32, w: u32, h: u32) -> (r: String)
        ensures
            r@ == crop_filter(x, y, w, h),
    {
        let mut r = "crop=".to_owned();
        r.append(fmt_u64(w as u64).as_str());
        r.append(":");
        r.append(fmt_u64(h as u64).as_str());
        r.append(":");
        r.append(fmt_u64(x as u64).as_str());
        r.append(":");
        r.append(fmt_u64(y as u64).as_str());
        r
    }

    /// The ffmpeg arguments of a region video recording into `output`,
    /// grabbing the screen with `input_format` from `input_device`.
    pub fn video_recording_args(
        &self,
        input_format: &str,
        input_device: &str,
        x: u32,
        y: u32,
        w: u32,
        h: u32,
        output: &str,
    ) -> (r: Vec<String>)
        ensures
            views(r@) == video_args(
                input_format@,
                input_device@,
                self.fps,
                self.crf,
                self.audio_enabled,
                x,
                y,
                w,
                h,
                output@,
            ),
    {
        let mut r: Vec<String> = Vec::new();
        push_str(&mut r, "-f");
        push_str(&mut r, input_format);
        push_str(&mut r, "-framerate");
        push_string(&mut r, fmt_i64(self.fps as i64));
        push_str(&mut r, "-i");
        push_str(&mut r, input_device);
        if self.audio_enabled {
            push_str(&mut r, "-f");
            push_str(&mut r, "f32le");
            push_str(&mut r, "-ar");
            push_str(&mut r, "44100");
            push_str(&mut r, "-ac");
            push_str(&mut r, "1");
            push_str(&mut r, "-i");
            push_str(&mut r, "-");
        }
        push_str(&mut r, "-vf");
        push_string(&mut r, CaptureApplet::crop_filter(x, y, w, h));
        push_str(&mut r, "-c:v");
        push_str(&mut r, "libx264");
        push_str(&mut r, "-crf");
        push_string(&mut r, fmt_i64(self.crf as i64));
        push_str(&mut r, "-pix_fmt");
        push_str(&mut r, "yuv420p");
        if self.audio_enabled {
            push_str(&mut r, "-c:a");
            push_str(&mut r, "aac");
            push_str(&mut r, "-shortest");
            push_str(&mut r, "-map");
            push_str(&mut r, "0:v");
            push_str(&mut r, "-map");
            push_str(&mut r, "1:a");
        }
        push_str(&mut r, output);
        assert(views(r@) =~= video_args(
            input_format@,
            input_device@,
            self.fps,
            self.crf,
            self.audio_enabled,
            x,
            y,
            w,
            h,
            output@,
        ));
        r
    }

    /// The name of the video file recorded at `timestamp`.
    pub fn video_file_name(timestamp: &str) -> (r: String)
        ensures
            r@ == "recording_"@ + timestamp@ + ".mp4"@,
    {
        let mut r = concat2("recording_", timestamp);
        r.append(".mp4");
        r
    }

    /// The name of the screenshot file taken at `timestamp`.
    pub fn screenshot_file_name(timestamp: &str) -> (r: String)
        ensures
            r@ == "screenshot_"@ + timestamp@ + ".png"@,
    {
        let mut r = concat2("screenshot_", timestamp);
        r.append(".png");
        r
    }

    /// What starting a video recording of the region takes: nothing when the
    /// region is 10 pixels wide or high or smaller; otherwise, when audio is
    /// included, first asking the audio extension for samples, then starting
    /// the recorder into a file stamped `timestamp` in the save directory.
    pub fn video_recording_plan(
        &self,
        x: u32,
        y: u32,
        w: u32,
        h: u32,
        timestamp: &str,
        input_format: &str,
        input_device: &str,
    ) -> (r: Vec<CaptureAction>)
        ensures
            !(w > 10 && h > 10) ==> r@.len() == 0,
            w > 10 && h > 10 ==> {
                &&& r@.len() == (if self.audio_enabled { 2int } else { 1int })
                &&& self.audio_enabled ==> r@[0] == CaptureAction::Send(
                    RayCommand::Audio(AudioCommand::StartRecording),
                )
                &&& r@.last() matches CaptureAction::SpawnRecorder(plan) && plan.video
                    && plan.pipe_audio == self.audio_enabled && views(plan.args@) == video_args(
                    input_format@,
                    input_device@,
                    self.fps,
                    self.crf,
                    self.audio_enabled,
                    x,
                    y,
                    w,
                    h,
                    plan.output@,
                ) && joined(self.save_dir@, "recording_"@ + timestamp@ + ".mp4"@, plan.output@)
            },
    {
        let mut r: Vec<CaptureAction> = Vec::new();
        if w > 10 && h > 10 {
            let file = CaptureApplet::video_file_name(timestamp);
            let output = join_path(self.save_dir.as_str(), file.as_str());
            if self.audio_enabled {
                r.push(CaptureAction::Send(RayCommand::Audio(AudioCommand::StartRecording)));
            }
            let args = self.video_recording_args(input_format, input_device, x, y, w, h, output.as_str());
            r.push(
                CaptureAction::SpawnRecorder(
                    RecorderPlan { args, output, pipe_audio: self.audio_enabled, video: true },
                ),
            );
        }
        r
    }

    /// The video recorder has started writing `filename`: the applet records
    /// and shrinks the window.
    pub fn video_recorder_started(&mut self, filename: String) -> (r: Vec<CaptureAction>)
        ensures
            r@ == seq![CaptureAction::Send(RayCommand::MiniMode(true))],
            final(self).recording,
            final(self).recording_filename == Some(filename),
            final(self).audio_recording == old(self).audio_recording,
            final(self).active == old(self).active,
            final(self).mode == old(self).mode,
            final(self).settings() == old(self).settings(),
            final(self).crf == old(self).crf,
            final(self).fps == old(self).fps,
            final(self).wf(),
    {
        self.recording = true;
        self.recording_filename = Some(filename);
        let mut r: Vec<CaptureAction> = Vec::new();
        r.push(CaptureAction::Send(RayCommand::MiniMode(true)));
        assert(r@ =~= seq![CaptureAction::Send(RayCommand::MiniMode(true))]);
        r
    }
}

impl CaptureApplet {
    /// The region `x, y, w, h` (in snapshot pixels) cut out of the snapshot,
    /// with the file in the save directory it is saved to, stamped
    /// `timestamp`; `None` when the region is empty.
    pub fn screenshot_plan(
        &self,
        snapshot: &Snapshot,
        x: u32,
        y: u32,
        w: u32,
        h: u32,
        timestamp: &str,
    ) -> (r: Option<(Snapshot, String)>)
        requires
            snapshot.wf(),
            w > 0 && h > 0 ==> x + w <= snapshot.width && y + h <= snapshot.height,
        ensures
            r is Some <==> (w > 0 && h > 0),
            r matches Some((img, _)) ==> img.wf() && img.width == w && img.height == h
                && img.pixels@ == region_pixels(
                snapshot.pixels@,
                snapshot.width as nat,
                x as nat,
                y as nat,
                w as nat,
                h as nat,
            ),
            r matches Some((_, path)) ==> joined(
                self.save_dir@,
                "screenshot_"@ + timestamp@ + ".png"@,
                path@,
            ),
    {
        if w > 0 && h > 0 {
            let img = snapshot.crop(x, y, w, h);
            let file = CaptureApplet::screenshot_file_name(timestamp);
            let path = join_path(self.save_dir.as_str(), file.as_str());
            Some((img, path))
        } else {
            None
        }
    }
}

impl CaptureApplet {
    /// The hotkeys the capture applet registers: region screenshot, region
    /// video and standalone audio, each on Ctrl+Shift and active everywhere.
    pub fn hotkeys() -> (v: Vec<HotkeyDefinition>)
        ensures
            v@.len() == 3,
            defines(
                v@[0],
                "region_screenshot"@,
                "X"@,
                HotkeyModifiers::ctrl_spec().spec_union(HotkeyModifiers::shift_spec()),
                HotkeyScope::Global,
                "Capture Region Screenshot"@,
            ),
            defines(
                v@[1],
                "region_video"@,
                "R"@,
                HotkeyModifiers::ctrl_spec().spec_union(HotkeyModifiers::shift_spec()),
                HotkeyScope::Global,
                "Capture Region Video"@,
            ),
            defines(
                v@[2],
                "capture_pure_audio"@,
                "A"@,
                HotkeyModifiers::ctrl_spec().spec_union(HotkeyModifiers::shift_spec()),
                HotkeyScope::Global,
                "Capture Standalone Audio"@,
            ),
    {
        let mods = HotkeyModifiers::ctrl().union(HotkeyModifiers::shift());
        let mut v: Vec<HotkeyDefinition> = Vec::new();
        v.push(
            HotkeyDefinition::new(
                "region_screenshot",
                "X",
                mods,
                HotkeyScope::Global,
                "Capture Region Screenshot",
            ),
        );
        v.push(
            HotkeyDefinition::new(
                "region_video",
                "R",
                mods,
                HotkeyScope::Global,
                "Capture Region Video",
            ),
        );
        v.push(
            HotkeyDefinition::new(
                "capture_pure_audio",
                "A",
                mods,
                HotkeyScope::Global,
                "Capture Standalone Audio",
            ),
        );
        v
    }
}

impl RayExtension for CaptureApplet {
    fn name(&self) -> (n: &str)
        ensures
            n@ == "Capture"@,
    {
        "Capture"
    }
}

} // verus!
