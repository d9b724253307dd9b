//! The recording engine's decision core: device resolution, stream
//! configuration negotiation, and the session state machine.
//!
//! The platform audio host, the worker thread and the file system live
//! outside the library. The driver enumerates device names and supported
//! configurations into plain values, lets these functions pick the device
//! and configuration and advance the session state, and performs the
//! stream, thread and file work those decisions call for.

use crate::text::eq_ignore_ascii_case;
use crate::text::str_eq;
use crate::text::str_eq_ignore_ascii_case;
use vstd::prelude::*;

verus! {

/// Errors of the recording engine.
#[derive(Debug, Clone)]
pub enum RecorderError {
    /// The platform audio host could not enumerate input devices.
    DeviceEnumerationError { message: String },
    /// No input device bears the requested name.
    DeviceNotFoundError { name: String },
    /// The device reports no input configurations at all.
    NoSupportedConfigError,
    /// No configuration uses a sample format the engine can record.
    NoCompatibleFormatError,
    /// The output path exists and is not a directory.
    InvalidOutputPathError { path: String },
    /// A command was issued with no session initialized.
    NoActiveSessionError,
    /// Writing samples to the sink failed.
    SinkWriteError { message: String },
    /// Finalizing the sink failed.
    SinkFinalizeError { message: String },
}

/// Sample formats a platform stream can deliver.
#[derive(Clone, Copy, Debug, PartialEq, Eq, Structural)]
pub enum StreamSampleFormat {
    F32,
    I16,
    U16,
    /// Any format the engine does not record.
    Other,
}

/// One supported input configuration reported by a device.
#[derive(Clone, Copy, Debug, PartialEq, Eq, Structural)]
pub struct ConfigRange {
    pub channels: u16,
    pub min_sample_rate: u32,
    pub max_sample_rate: u32,
    pub sample_format: StreamSampleFormat,
}

/// The configuration a session records with.
#[derive(Clone, Copy, Debug, PartialEq, Eq, Structural)]
pub struct NegotiatedConfig {
    pub channels: u16,
    pub sample_rate: u32,
    pub sample_format: StreamSampleFormat,
}

/// How the driver should pick the capture device.
#[derive(Clone, Copy, Debug, PartialEq, Eq, Structural)]
pub enum DeviceSelection {
    /// Use the host's default input device.
    UseDefault,
    /// Use the device at this position of the enumerated list.
    Index(usize),
}

/// Whether the request names the default-device sentinel.
pub open spec fn is_default_request(s: Seq<char>) -> bool {
    eq_ignore_ascii_case(s, "default"@)
}

/// Index of the first device in `names[0..upto]` named `req`.
pub open spec fn spec_first_name_match(names: Seq<String>, req: Seq<char>, upto: int) -> Option<
    int,
>
    decreases upto,
{
    if upto <= 0 {
        None
    } else {
        match spec_first_name_match(names, req, upto - 1) {
            Some(j) => Some(j),
            None => if names[upto - 1]@ == req {
                Some(upto - 1)
            } else {
                None
            },
        }
    }
}

/// A first-match scan that ruled out every earlier index and hits at
/// `i` yields `i` for every larger prefix.
proof fn lemma_first_name_match_extend(names: Seq<String>, req: Seq<char>, i: int, upto: int)
    requires
        0 <= i < upto <= names.len(),
        spec_first_name_match(names, req, i) is None,
        names[i]@ == req,
    ensures
        spec_first_name_match(names, req, upto) == Some(i),
    decreases upto,
{
    if upto > i + 1 {
        lemma_first_name_match_extend(names, req, i, upto - 1);
    }
}

/// Resolves the requested device against the enumerated input devices:
/// the sentinel "default" (in any ASCII case) picks the host default,
/// any other name picks the first device with exactly that name.
pub fn find_device(device_names: &Vec<String>, requested: &str) -> (r: Result<
    DeviceSelection,
    RecorderError,
>)
    ensures
        is_default_request(requested@) ==> r == Ok::<DeviceSelection, RecorderError>(
            DeviceSelection::UseDefault,
        ),
        !is_default_request(requested@) ==> match r {
            Ok(DeviceSelection::Index(i)) => spec_first_name_match(
                device_names@,
                requested@,
                device_names@.len() as int,
            ) == Some(i as int),
            Ok(DeviceSelection::UseDefault) => false,
            Err(RecorderError::DeviceNotFoundError { .. }) => spec_first_name_match(
                device_names@,
                requested@,
                device_names@.len() as int,
            ) is None,
            Err(_) => false,
        },
{
    if str_eq_ignore_ascii_case(requested, "default") {
        return Ok(DeviceSelection::UseDefault);
    }
    let n = device_names.len();
    let mut i: usize = 0;
    while i < n
        invariant
            !is_default_request(requested@),
            n == device_names@.len(),
            i <= n,
            spec_first_name_match(device_names@, requested@, i as int) is None,
        decreases n - i,
    {
        if str_eq(device_names[i].as_str(), requested) {
            proof {
                lemma_first_name_match_extend(device_names@, requested@, i as int, n as int);
            }
            return Ok(DeviceSelection::Index(i));
        }
        i += 1;
    }
    Err(RecorderError::DeviceNotFoundError { name: requested.to_owned() })
}

/// Whether the engine records this sample format.
pub open spec fn format_supported(f: StreamSampleFormat) -> bool {
    f is F32 || f is I16 || f is U16
}

/// Whether a configuration's rate range covers the target rate.
pub open spec fn covers(c: ConfigRange, t: int) -> bool {
    c.min_sample_rate <= t <= c.max_sample_rate
}

/// The target rate clamped into a configuration's range.
pub open spec fn clamp_rate(c: ConfigRange, t: int) -> int {
    if t < c.min_sample_rate {
        c.min_sample_rate as int
    } else if t > c.max_sample_rate {
        c.max_sample_rate as int
    } else {
        t
    }
}

/// Distance from the target rate to a configuration's range.
pub open spec fn rate_diff(c: ConfigRange, t: int) -> int {
    if t < c.min_sample_rate {
        c.min_sample_rate - t
    } else if t > c.max_sample_rate {
        t - c.max_sample_rate
    } else {
        0
    }
}

/// First index in `cs[0..upto]` with a supported sample format.
pub open spec fn first_compat_upto(cs: Seq<ConfigRange>, upto: int) -> Option<int>
    decreases upto,
{
    if upto <= 0 {
        None
    } else {
        match first_compat_upto(cs, upto - 1) {
            Some(j) => Some(j),
            None => if format_supported(cs[upto - 1].sample_format) {
                Some(upto - 1)
            } else {
                None
            },
        }
    }
}

/// First index in `cs[0..upto]` of a supported mono configuration whose
/// range covers the target rate.
pub open spec fn first_mono_cover_upto(cs: Seq<ConfigRange>, t: int, upto: int) -> Option<int>
    decreases upto,
{
    if upto <= 0 {
        None
    } else {
        match first_mono_cover_upto(cs, t, upto - 1) {
            Some(j) => Some(j),
            None => if format_supported(cs[upto - 1].sample_format) && cs[upto - 1].channels == 1
                && covers(cs[upto - 1], t) {
                Some(upto - 1)
            } else {
                None
            },
        }
    }
}

/// First index in `cs[0..upto]` of a supported configuration (any
/// channel count) whose range covers the target rate.
pub open spec fn first_cover_upto(cs: Seq<ConfigRange>, t: int, upto: int) -> Option<int>
    decreases upto,
{
    if upto <= 0 {
        None
    } else {
        match first_cover_upto(cs, t, upto - 1) {
            Some(j) => Some(j),
            None => if format_supported(cs[upto - 1].sample_format) && covers(cs[upto - 1], t) {
                Some(upto - 1)
            } else {
                None
            },
        }
    }
}

/// The supported mono configuration in `cs[0..upto]` whose clamped rate
/// is closest to the target; the earliest one wins ties.
pub open spec fn best_mono_upto(cs: Seq<ConfigRange>, t: int, upto: int) -> Option<int>
    decreases upto,
{
    if upto <= 0 {
        None
    } else {
        let prev = best_mono_upto(cs, t, upto - 1);
        let i = upto - 1;
        if format_supported(cs[i].sample_format) && cs[i].channels == 1 {
            match prev {
                None => Some(i),
                Some(j) => if rate_diff(cs[i], t) < rate_diff(cs[j], t) {
                    Some(i)
                } else {
                    Some(j)
                },
            }
        } else {
            prev
        }
    }
}

/// A mono-cover scan that ruled out every earlier index and hits at `i`
/// yields `i` for every larger prefix.
proof fn lemma_first_mono_cover_extend(cs: Seq<ConfigRange>, t: int, i: int, upto: int)
    requires
        0 <= i < upto <= cs.len(),
        first_mono_cover_upto(cs, t, i) is None,
        format_supported(cs[i].sample_format),
        cs[i].channels == 1,
        covers(cs[i], t),
    ensures
        first_mono_cover_upto(cs, t, upto) == Some(i),
    decreases upto,
{
    if upto > i + 1 {
        lemma_first_mono_cover_extend(cs, t, i, upto - 1);
    }
}

/// A cover scan that ruled out every earlier index and hits at `i`
/// yields `i` for every larger prefix.
proof fn lemma_first_cover_extend(cs: Seq<ConfigRange>, t: int, i: int, upto: int)
    requires
        0 <= i < upto <= cs.len(),
        first_cover_upto(cs, t, i) is None,
        format_supported(cs[i].sample_format),
        covers(cs[i], t),
    ensures
        first_cover_upto(cs, t, upto) == Some(i),
    decreases upto,
{
    if upto > i + 1 {
        lemma_first_cover_extend(cs, t, i, upto - 1);
    }
}

/// The configuration negotiation, in preference order: (1) a mono
/// configuration covering the target rate exactly; (2) any configuration
/// covering the target; (3) the mono configuration with the closest
/// clamped rate; (4) the first supported configuration, at the target
/// rate if covered and its minimum rate otherwise. An empty list has no
/// supported configurations; a nonempty list may still offer no
/// compatible sample format.
pub open spec fn spec_optimal_config(cs: Seq<ConfigRange>, preferred: Option<u32>) -> Result<
    NegotiatedConfig,
    RecorderError,
> {
    let t = (match preferred {
        Some(r) => r,
        None => 16000u32,
    }) as int;
    let n = cs.len() as int;
    if n == 0 {
        Err(RecorderError::NoSupportedConfigError)
    } else {
        match first_compat_upto(cs, n) {
            None => Err(RecorderError::NoCompatibleFormatError),
            Some(c0) => match first_mono_cover_upto(cs, t, n) {
                Some(i) => Ok(
                    NegotiatedConfig {
                        channels: cs[i].channels,
                        sample_rate: t as u32,
                        sample_format: cs[i].sample_format,
                    },
                ),
                None => match first_cover_upto(cs, t, n) {
                    Some(i) => Ok(
                        NegotiatedConfig {
                            channels: cs[i].channels,
                            sample_rate: t as u32,
                            sample_format: cs[i].sample_format,
                        },
                    ),
                    None => match best_mono_upto(cs, t, n) {
                        Some(i) => Ok(
                            NegotiatedConfig {
                                channels: cs[i].channels,
                                sample_rate: clamp_rate(cs[i], t) as u32,
                                sample_format: cs[i].sample_format,
                            },
                        ),
                        None => Ok(
                            NegotiatedConfig {
                                channels: cs[c0].channels,
                                sample_rate: if covers(cs[c0], t) {
                                    t as u32
                                } else {
                                    cs[c0].min_sample_rate
                                },
                                sample_format: cs[c0].sample_format,
                            },
                        ),
                    },
                },
            },
        }
    }
}

/// Negotiates the stream configuration for voice capture, mirroring
/// `spec_optimal_config`. The target rate is the preferred rate, or
/// 16 kHz when none is given.
pub fn get_optimal_config(configs: &Vec<ConfigRange>, preferred_sample_rate: Option<u32>) -> (r:
    Result<NegotiatedConfig, RecorderError>)
    ensures
        r == spec_optimal_config(configs@, preferred_sample_rate),
{
    let t: u32 = match preferred_sample_rate {
        Some(r) => r,
        None => 16000,
    };
    let n = configs.len();
    if n == 0 {
        return Err(RecorderError::NoSupportedConfigError);
    }
    // Pass 1: the first compatible configuration, if any.
    let mut first_compat: Option<usize> = None;
    let mut i: usize = 0;
    while i < n
        invariant
            n == configs@.len(),
            i <= n,
            match first_compat {
                Some(c) => first_compat_upto(configs@, i as int) == Some(c as int) && c < n,
                None => first_compat_upto(configs@, i as int) is None,
            },
        decreases n - i,
    {
        let f = configs[i].sample_format;
        let supported = match f {
            StreamSampleFormat::F32 => true,
            StreamSampleFormat::I16 => true,
            StreamSampleFormat::U16 => true,
            StreamSampleFormat::Other => false,
        };
        if supported && first_compat.is_none() {
            first_compat = Some(i);
        }
        i += 1;
    }
    let c0 = match first_compat {
        Some(c) => c,
        None => {
            return Err(RecorderError::NoCompatibleFormatError);
        },
    };
    // Pass 2: a mono configuration covering the target rate.
    let mut i: usize = 0;
    while i < n
        invariant
            n == configs@.len(),
            1 <= n,
            t == (match preferred_sample_rate {
                Some(r) => r,
                None => 16000u32,
            }),
            first_compat_upto(configs@, n as int) == Some(c0 as int),
            i <= n,
            first_mono_cover_upto(configs@, t as int, i as int) is None,
        decreases n - i,
    {
        let c = configs[i];
        let supported = match c.sample_format {
            StreamSampleFormat::F32 => true,
            StreamSampleFormat::I16 => true,
            StreamSampleFormat::U16 => true,
            StreamSampleFormat::Other => false,
        };
        if supported && c.channels == 1 && c.min_sample_rate <= t && t <= c.max_sample_rate {
            proof {
                lemma_first_mono_cover_extend(configs@, t as int, i as int, n as int);
            }
            return Ok(
                NegotiatedConfig {
                    channels: c.channels,
                    sample_rate: t,
                    sample_format: c.sample_format,
                },
            );
        }
        i += 1;
    }
    // Pass 3: any configuration covering the target rate.
    let mut i: usize = 0;
    while i < n
        invariant
            n == configs@.len(),
            1 <= n,
            t == (match preferred_sample_rate {
                Some(r) => r,
                None => 16000u32,
            }),
            first_compat_upto(configs@, n as int) == Some(c0 as int),
            i <= n,
            first_mono_cover_upto(configs@, t as int, n as int) is None,
            first_cover_upto(configs@, t as int, i as int) is None,
        decreases n - i,
    {
        let c = configs[i];
        let supported = match c.sample_format {
            StreamSampleFormat::F32 => true,
            StreamSampleFormat::I16 => true,
            StreamSampleFormat::U16 => true,
            StreamSampleFormat::Other => false,
        };
        if supported && c.min_sample_rate <= t && t <= c.max_sample_rate {
            proof {
                lemma_first_cover_extend(configs@, t as int, i as int, n as int);
            }
            return Ok(
                NegotiatedConfig {
                    channels: c.channels,
                    sample_rate: t,
                    sample_format: c.sample_format,
                },
            );
        }
        i += 1;
    }
    // Pass 4: the mono configuration with the closest clamped rate.
    let mut best: Option<usize> = None;
    let mut i: usize = 0;
    while i < n
        invariant
            n == configs@.len(),
            1 <= n,
            t == (match preferred_sample_rate {
                Some(r) => r,
                None => 16000u32,
            }),
            first_compat_upto(configs@, n as int) == Some(c0 as int),
            c0 < n,
            first_mono_cover_upto(configs@, t as int, n as int) is None,
            first_cover_upto(configs@, t as int, n as int) is None,
            i <= n,
            match best {
                Some(b) => best_mono_upto(configs@, t as int, i as int) == Some(b as int) && b < n,
                None => best_mono_upto(configs@, t as int, i as int) is None,
            },
        decreases n - i,
    {
        let c = configs[i];
        let supported = match c.sample_format {
            StreamSampleFormat::F32 => true,
            StreamSampleFormat::I16 => true,
            StreamSampleFormat::U16 => true,
            StreamSampleFormat::Other => false,
        };
        if supported && c.channels == 1 {
            let diff: u32 = if t < c.min_sample_rate {
                c.min_sample_rate - t
            } else if t > c.max_sample_rate {
                t - c.max_sample_rate
            } else {
                0
            };
            match best {
                None => {
                    best = Some(i);
                },
                Some(b) => {
                    let cb = configs[b];
                    let bdiff: u32 = if t < cb.min_sample_rate {
                        cb.min_sample_rate - t
                    } else if t > cb.max_sample_rate {
                        t - cb.max_sample_rate
                    } else {
                        0
                    };
                    if diff < bdiff {
                        best = Some(i);
                    }
                },
            }
        }
        i += 1;
    }
    match best {
        Some(b) => {
            let c = configs[b];
            let rate: u32 = if t < c.min_sample_rate {
                c.min_sample_rate
            } else if t > c.max_sample_rate {
                c.max_sample_rate
            } else {
                t
            };
            Ok(
                NegotiatedConfig {
                    channels: c.channels,
                    sample_rate: rate,
                    sample_format: c.sample_format,
                },
            )
        },
        None => {
            // Pass 5: fall back to the first compatible configuration.
            let c = configs[c0];
            let rate: u32 = if c.min_sample_rate <= t && t <= c.max_sample_rate {
                t
            } else {
                c.min_sample_rate
            };
            Ok(
                NegotiatedConfig {
                    channels: c.channels,
                    sample_rate: rate,
                    sample_format: c.sample_format,
                },
            )
        },
    }
}


/// The fields of one initialized recording session.
pub struct SessionInfo {
    pub recording_id: String,
    pub file_path: String,
    pub sample_rate: u32,
    pub channels: u16,
}

/// Metadata of one finished recording.
#[derive(Debug)]
pub struct AudioRecording {
    pub sample_rate: u32,
    pub channels: u16,
    /// Whole sample frames written to the container.
    pub total_frames: u64,
    pub file_path: Option<String>,
}

/// The recording engine's session state: at most one session, recording
/// or not. The driver owns the worker thread, the stream and the sink;
/// this state machine decides what each command means and is the single
/// source of truth for the session's identity and format.
pub struct RecorderState {
    pub session: Option<SessionInfo>,
    pub recording: bool,
}

/// A recorder is well formed when it only ever records inside a session.
pub open spec fn recorder_wf(s: RecorderState) -> bool {
    s.recording ==> s.session is Some
}

/// The state every teardown path ends in.
pub open spec fn spec_closed_state(s: RecorderState) -> RecorderState {
    RecorderState { session: None, recording: false }
}

/// Closing a session is idempotent: a second close (of any state, and in
/// particular of an already-closed one) ends in the same closed state.
pub proof fn lemma_close_session_idempotent(s: RecorderState)
    ensures
        spec_closed_state(spec_closed_state(s)) == spec_closed_state(s),
        spec_closed_state(s).session is None,
        !spec_closed_state(s).recording,
{
}

impl RecorderState {
    /// A recorder with no session.
    pub fn new() -> (r: RecorderState)
        ensures
            r.session is None,
            !r.recording,
            recorder_wf(r),
    {
        RecorderState { session: None, recording: false }
    }

    /// Installs a fresh session (replacing any previous one) with the
    /// negotiated format and output file; recording is not yet started.
    pub fn init_session(
        &mut self,
        recording_id: String,
        file_path: String,
        sample_rate: u32,
        channels: u16,
    )
        ensures
            final(self).session == Some(
                SessionInfo { recording_id, file_path, sample_rate, channels },
            ),
            !final(self).recording,
            recorder_wf(*final(self)),
    {
        self.session = Some(SessionInfo { recording_id, file_path, sample_rate, channels });
        self.recording = false;
    }

    /// Starts capture: fails exactly when no session is initialized, and
    /// otherwise sets the recording flag and changes nothing else.
    pub fn start_recording(&mut self) -> (r: Result<(), RecorderError>)
        ensures
            match r {
                Ok(_) => old(self).session is Some && final(self).session == old(self).session
                    && final(self).recording,
                Err(RecorderError::NoActiveSessionError) => old(self).session is None
                    && final(self).session == old(self).session
                    && final(self).recording == old(self).recording,
                Err(_) => false,
            },
            recorder_wf(*old(self)) ==> recorder_wf(*final(self)),
    {
        if self.session.is_some() {
            self.recording = true;
            Ok(())
        } else {
            Err(RecorderError::NoActiveSessionError)
        }
    }

    /// Stops capture and reports the session's metadata with the frame
    /// count the finalized sink measured; with no session, an empty
    /// recording is reported. The session stays installed until closed.
    pub fn stop_recording(&mut self, total_frames: u64) -> (rec: AudioRecording)
        ensures
            !final(self).recording,
            final(self).session == old(self).session,
            recorder_wf(*final(self)),
            match old(self).session {
                Some(info) => {
                    &&& rec.sample_rate == info.sample_rate
                    &&& rec.channels == info.channels
                    &&& rec.total_frames == total_frames
                    &&& rec.file_path matches Some(p) && p@ == info.file_path@
                },
                None => {
                    &&& rec.sample_rate == 0
                    &&& rec.channels == 0
                    &&& rec.total_frames == 0
                    &&& rec.file_path is None
                },
            },
    {
        self.recording = false;
        match &self.session {
            Some(info) => AudioRecording {
                sample_rate: info.sample_rate,
                channels: info.channels,
                total_frames,
                file_path: Some(info.file_path.clone()),
            },
            None => AudioRecording {
                sample_rate: 0,
                channels: 0,
                total_frames: 0,
                file_path: None,
            },
        }
    }

    /// Cancels the session: capture stops, the session is torn down, and
    /// the path of the partial file to delete is handed back.
    pub fn cancel_recording(&mut self) -> (deleted: Option<String>)
        ensures
            *final(self) == spec_closed_state(*old(self)),
            match old(self).session {
                Some(info) => deleted matches Some(p) && p@ == info.file_path@,
                None => deleted is None,
            },
    {
        let deleted = match &self.session {
            Some(info) => Some(info.file_path.clone()),
            None => None,
        };
        self.session = None;
        self.recording = false;
        deleted
    }

    /// Tears the session down. Idempotent: whatever the state, the
    /// recorder ends closed, so a second call is a no-op.
    pub fn close_session(&mut self)
        ensures
            *final(self) == spec_closed_state(*old(self)),
            final(self).session is None,
            !final(self).recording,
            recorder_wf(*final(self)),
    {
        self.session = None;
        self.recording = false;
    }

    /// The session id, only while actively recording: `None` both before
    /// `start_recording` and after `stop_recording`.
    pub fn get_current_recording_id(&self) -> (r: Option<String>)
        requires
            recorder_wf(*self),
        ensures
            self.recording ==> (r matches Some(id) && self.session matches Some(info) && id@
                == info.recording_id@),
            !self.recording ==> r is None,
    {
        if self.recording {
            match &self.session {
                Some(info) => Some(info.recording_id.clone()),
                None => None,
            }
        } else {
            None
        }
    }
}

} // verus!

