//! The video recorder's state machine and the capture configurations.
//!
//! The encoder itself is an external collaborator; what is verified here
//! is the recorder's lifecycle: when recording starts and stops, which
//! file it records to, and that configuration cannot change mid-recording.

use vstd::prelude::*;
use vstd::string::StringExecFns;

use crate::paths::join_path;

verus! {

/// What can go wrong around capture and recording.
#[derive(Debug, Clone, PartialEq, Eq)]
pub enum Error {
    /// A camera device problem.
    CameraDevice(String),
    /// A video-processing problem, such as reconfiguring mid-recording.
    VideoProcessing(String),
    /// A configuration problem.
    Config(String),
    /// An underlying I/O problem.
    Io(String),
    /// Anything else.
    Other(String),
}

/// How a camera is opened.
#[derive(Debug, Clone)]
pub struct CameraConfig {
    /// Device path, such as `/dev/video0`.
    pub device_path: String,
    /// Capture width in pixels.
    pub width: u32,
    /// Capture height in pixels.
    pub height: u32,
    /// Frames per second.
    pub fps: u32,
    /// Pixel format, such as `YUYV` or `MJPG`.
    pub pixel_format: String,
}

impl Default for CameraConfig {
    /// 1080p at 30 fps in YUYV on the first device.
    fn default() -> (r: Self)
        ensures
            r.device_path@ == "/dev/video0"@,
            r.width == 1920,
            r.height == 1080,
            r.fps == 30,
            r.pixel_format@ == "YUYV"@,
    {
        CameraConfig {
            device_path: String::from_str("/dev/video0"),
            width: 1920,
            height: 1080,
            fps: 30,
            pixel_format: String::from_str("YUYV"),
        }
    }
}

/// How recordings are encoded and where they go.
#[derive(Debug, Clone)]
pub struct RecordingConfig {
    /// Directory recordings are written under.
    pub output_dir: String,
    /// Video encoder, such as `h264`.
    pub encoder: String,
    /// Container format, such as `mp4`.
    pub container: String,
    /// Bitrate in bits per second.
    pub bitrate: u32,
}

impl Default for RecordingConfig {
    /// H.264 in MP4 at 4 Mbps under `./recordings`.
    fn default() -> (r: Self)
        ensures
            r.output_dir@ == "./recordings"@,
            r.encoder@ == "h264"@,
            r.container@ == "mp4"@,
            r.bitrate == 4000000,
    {
        RecordingConfig {
            output_dir: String::from_str("./recordings"),
            encoder: String::from_str("h264"),
            container: String::from_str("mp4"),
            bitrate: 4000000,
        }
    }
}

/// Relies on chrono::Local::now, formatted year-to-second. The clock and
/// time zone are machine state, so nothing is promised of the value.
#[verifier::external_body]
fn local_timestamp_compact() -> String {
    chrono::Local::now().format("%Y%m%d_%H%M%S").to_string()
}

/// The video recorder: one recording at a time into one file.
pub struct VideoRecorder {
    config: RecordingConfig,
    recording: bool,
    current_file: Option<String>,
}

impl VideoRecorder {
    /// Whether a recording is in progress.
    pub closed spec fn spec_recording(&self) -> bool {
        self.recording
    }

    /// The file the current (or last) recording goes to.
    pub closed spec fn spec_current_file(&self) -> Option<String> {
        self.current_file
    }

    /// The recorder's configuration.
    pub closed spec fn spec_config(&self) -> RecordingConfig {
        self.config
    }

    /// Makes an idle recorder under the given configuration.
    pub fn new(config: RecordingConfig) -> (r: Self)
        ensures
            r.spec_config() == config,
            !r.spec_recording(),
            r.spec_current_file() is None,
    {
        VideoRecorder { config, recording: false, current_file: None }
    }

    /// Starts a recording into a fresh timestamped file under the output
    /// directory, named `video_<timestamp>.<container>`; when one is
    /// already in progress its path comes back unchanged. The caller is
    /// expected to have created the output directory.
    pub fn start_recording(&mut self) -> (r: Result<String, Error>)
        ensures
            old(self).spec_recording() && old(self).spec_current_file() is Some ==> {
                &&& *final(self) == *old(self)
                &&& old(self).spec_current_file() matches Some(f)
                    && (r matches Ok(p) && p@ == f@)
            },
            !(old(self).spec_recording() && old(self).spec_current_file() is Some) ==> {
                &&& final(self).spec_recording()
                &&& final(self).spec_config() == old(self).spec_config()
                &&& r is Ok
            },
            !(old(self).spec_recording() && old(self).spec_current_file() is Some) ==> (r matches Ok(
                p,
            ) ==> final(self).spec_current_file() == Some(p)),
            !(old(self).spec_recording() && old(self).spec_current_file() is Some) ==> (r matches Ok(
                p,
            ) ==> exists|ts: Seq<char>|
                p@ == old(self).spec_config().output_dir@ + "/"@ + "video_"@ + ts + "."@ + old(
                    self,
                ).spec_config().container@),
    {
        if self.recording {
            match &self.current_file {
                Some(path) => {
                    return Ok(path.clone());
                },
                None => {},
            }
        }
        let ts = local_timestamp_compact();
        let filename = String::from_str("video_").concat(ts.as_str()).concat(".").concat(
            self.config.container.as_str(),
        );
        let output_path = join_path(self.config.output_dir.as_str(), filename.as_str());
        self.recording = true;
        self.current_file = Some(output_path.clone());
        proof {
            assert(output_path@ =~= old(self).spec_config().output_dir@ + "/"@ + "video_"@ + ts@
                + "."@ + old(self).spec_config().container@);
            assert(exists|w: Seq<char>|
                output_path@ == old(self).spec_config().output_dir@ + "/"@ + "video_"@ + w + "."@
                    + old(self).spec_config().container@) by {
                assert(output_path@ == old(self).spec_config().output_dir@ + "/"@ + "video_"@ + ts@
                    + "."@ + old(self).spec_config().container@);
            }
        }
        Ok(output_path)
    }

    /// Stops the recording, handing back the file it went to; stopping an
    /// idle recorder is a no-op that hands back nothing.
    pub fn stop_recording(&mut self) -> (r: Result<Option<String>, Error>)
        ensures
            !old(self).spec_recording() ==> (r matches Ok(o) && o is None) && *final(self) == *old(self),
            old(self).spec_recording() ==> {
                &&& !final(self).spec_recording()
                &&& final(self).spec_current_file() == old(self).spec_current_file()
                &&& final(self).spec_config() == old(self).spec_config()
                &&& r matches Ok(o) && (o is Some <==> old(self).spec_current_file() is Some) && (
                o matches Some(p) ==> old(self).spec_current_file() matches Some(f) && p@ == f@)
            },
    {
        if !self.recording {
            return Ok(None);
        }
        let result = match &self.current_file {
            Some(p) => Some(p.clone()),
            None => None,
        };
        self.recording = false;
        Ok(result)
    }

    /// Whether a recording is in progress.
    pub fn is_recording(&self) -> (r: bool)
        ensures
            r == self.spec_recording(),
    {
        self.recording
    }

    /// The file the current (or last) recording goes to, if any.
    pub fn current_file(&self) -> (r: Option<&String>)
        ensures
            r is Some <==> self.spec_current_file() is Some,
            r matches Some(p) ==> self.spec_current_file() == Some(*p),
    {
        self.current_file.as_ref()
    }

    /// The recorder's configuration.
    pub fn config(&self) -> (r: &RecordingConfig)
        ensures
            *r == self.spec_config(),
    {
        &self.config
    }

    /// Replaces the configuration; refused while a recording is in
    /// progress, which changes nothing.
    pub fn set_config(&mut self, config: RecordingConfig) -> (r: Result<(), Error>)
        ensures
            old(self).spec_recording() ==> (r matches Err(e) && e is VideoProcessing) && *final(self) == *old(self),
            !old(self).spec_recording() ==> r is Ok && final(self).spec_config() == config && final(self).spec_recording() == old(self).spec_recording() && final(self).spec_current_file()
                == old(self).spec_current_file(),
    {
        if self.recording {
            return Err(
                Error::VideoProcessing(
                    String::from_str("the configuration cannot change while recording"),
                ),
            );
        }
        self.config = config;
        Ok(())
    }
}

} // verus!
