//! Audio capture settings and the check that something is to be captured.
use vstd::prelude::*;

verus! {

/// Why audio capture could not start.
#[derive(Debug, PartialEq, Eq)]
pub enum AudioError {
    PermissionDenied,
    NothingToCaptureError,
    DeviceError(String),
    StreamError(String),
}

/// Which audio sources to capture and in what shape.
#[derive(Debug, Clone, Copy, PartialEq, Eq)]
pub struct AudioConfig {
    pub capture_microphone: bool,
    pub capture_system_audio: bool,
    pub sample_rate: u32,
    pub channels: u8,
}

impl Default for AudioConfig {
    fn default() -> (r: Self)
        ensures
            !r.capture_microphone,
            !r.capture_system_audio,
            r.sample_rate == 44100,
            r.channels == 2,
    {
        AudioConfig {
            capture_microphone: false,
            capture_system_audio: false,
            sample_rate: 44100,
            channels: 2,
        }
    }
}

/// Where captured audio comes from.
#[derive(Debug, Clone, Copy, PartialEq, Eq)]
pub enum AudioSource {
    /// The default input device.
    Microphone,
    /// System audio, for which a silent stream stands in.
    SystemSilent,
}

/// An audio capturer with at least one source enabled.
#[derive(Debug)]
pub struct AudioCapturer {
    config: AudioConfig,
}

impl AudioCapturer {
    pub closed spec fn config_spec(self) -> AudioConfig {
        self.config
    }

    /// Fails when neither the microphone nor system audio is enabled.
    pub fn new(config: AudioConfig) -> (r: Result<Self, AudioError>)
        ensures
            match r {
                Ok(c) => (config.capture_microphone || config.capture_system_audio)
                    && c.config_spec() == config,
                Err(e) => !config.capture_microphone && !config.capture_system_audio && e
                    == AudioError::NothingToCaptureError,
            },
    {
        if !config.capture_microphone && !config.capture_system_audio {
            return Err(AudioError::NothingToCaptureError);
        }
        Ok(AudioCapturer { config })
    }

    pub fn config(&self) -> (c: AudioConfig)
        ensures
            c == self.config_spec(),
    {
        self.config
    }

    /// The source capture starts from: the microphone when it is enabled,
    /// otherwise the (silent) system audio stand-in.
    pub fn source(&self) -> (s: AudioSource)
        ensures
            s == (if self.config_spec().capture_microphone {
                AudioSource::Microphone
            } else {
                AudioSource::SystemSilent
            }),
    {
        if self.config.capture_microphone {
            AudioSource::Microphone
        } else {
            AudioSource::SystemSilent
        }
    }
}

} // verus!
