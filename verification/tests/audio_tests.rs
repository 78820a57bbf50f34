use captura::audio::{AudioCapturer, AudioConfig, AudioError, AudioSource};

#[test]
fn default_audio_config() {
    let c = AudioConfig::default();
    assert!(!c.capture_microphone);
    assert!(!c.capture_system_audio);
    assert_eq!(c.sample_rate, 44100);
    assert_eq!(c.channels, 2);
}

#[test]
fn nothing_to_capture_is_refused() {
    assert_eq!(AudioCapturer::new(AudioConfig::default()).unwrap_err(), AudioError::NothingToCaptureError);
}

#[test]
fn source_follows_the_settings() {
    let mic = AudioConfig { capture_microphone: true, ..AudioConfig::default() };
    assert_eq!(AudioCapturer::new(mic).unwrap().source(), AudioSource::Microphone);
    let system = AudioConfig { capture_system_audio: true, ..AudioConfig::default() };
    let c = AudioCapturer::new(system).unwrap();
    assert_eq!(c.source(), AudioSource::SystemSilent);
    assert_eq!(c.config(), system);
}
