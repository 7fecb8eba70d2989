//! The media of one app: its settings, and what runs.
use vstd::prelude::*;
use vstd::string::*;

use crate::config::Config;
use crate::media::AudioFormat;

verus! {

/// How noise is suppressed.
#[derive(Debug, Clone, Copy, PartialEq, Eq, Structural)]
pub enum NoiseSuppressionMode {
    /// Not at all.
    Off,
    /// In the classic way.
    Classic,
    /// With a neural net.
    Ai,
}

/// The settings of the media.
#[derive(Debug, Clone, PartialEq, Eq)]
pub struct MediaConfig {
    /// Capture device.
    pub input_device: String,
    /// Playback device.
    pub output_device: String,
    /// Samples of a mic frame.
    pub frame_samples: usize,
    /// Screen frames per second: the bits of an IEEE 754 single.
    pub screen_fps_bits: u32,
    /// Limit of the longest edge of a screen frame, in pixels.
    pub screen_max_width: u32,
    /// Quality of a screen frame, 1 to 100.
    pub screen_quality: u8,
    /// Subtract what is played from what is heard.
    pub echo_cancellation: bool,
    /// Remove what is too low to hear.
    pub high_pass_filter: bool,
    /// How noise is suppressed.
    pub noise_suppression: NoiseSuppressionMode,
    /// Level the microphone automatically.
    pub auto_gain: bool,
    /// Compress and limit what is sent.
    pub leveler_enabled: bool,
}

impl MediaConfig {
    /// Whether these are the media settings of a configuration.
    pub open spec fn of(self, config: Config) -> bool {
        &&& self.input_device@ == config.media.audio.input_device@
        &&& self.output_device@ == config.media.audio.output_device@
        &&& self.frame_samples == 16_000 * config.media.audio.frame_ms / 1000
        &&& self.screen_fps_bits == config.media.screen.fps_bits
        &&& self.screen_max_width == config.media.screen.max_width
        &&& self.screen_quality == config.media.screen.quality
        &&& self.echo_cancellation == config.media.audio.echo_cancellation
        &&& self.high_pass_filter
        &&& self.noise_suppression == if config.media.audio.noise_suppression {
            NoiseSuppressionMode::Classic
        } else {
            NoiseSuppressionMode::Off
        }
        &&& self.auto_gain == config.media.audio.auto_gain
        &&& self.leveler_enabled
    }

    /// The media settings of a configuration.
    pub fn from_config(config: &Config) -> (r: MediaConfig)
        requires
            16_000 * config.media.audio.frame_ms / 1000 <= usize::MAX,
        ensures
            r.of(*config),
    {
        let audio = &config.media.audio;
        MediaConfig {
            input_device: audio.input_device.clone(),
            output_device: audio.output_device.clone(),
            frame_samples: AudioFormat::input().samples_per_frame(audio.frame_ms),
            screen_fps_bits: config.media.screen.fps_bits,
            screen_max_width: config.media.screen.max_width,
            screen_quality: config.media.screen.quality,
            echo_cancellation: audio.echo_cancellation,
            high_pass_filter: true,
            noise_suppression: if audio.noise_suppression {
                NoiseSuppressionMode::Classic
            } else {
                NoiseSuppressionMode::Off
            },
            auto_gain: audio.auto_gain,
            leveler_enabled: true,
        }
    }
}

/// A failure of the media.
#[derive(Debug, PartialEq, Eq)]
pub enum MediaError {
    /// No default output device.
    NoOutputDevice,
    /// No default input device.
    NoInputDevice,
    /// The device's sample format is not one that is rendered.
    UnsupportedFormat(String),
    /// The backend failed.
    Backend(String),
}

impl MediaError {
    /// The words of the error.
    pub open spec fn words(&self) -> Seq<char> {
        match self {
            MediaError::NoOutputDevice => "no default audio output device"@,
            MediaError::NoInputDevice => "no default audio input device"@,
            MediaError::UnsupportedFormat(f) => "unsupported sample format: "@ + f@,
            MediaError::Backend(e) => "audio backend error: "@ + e@,
        }
    }

    /// The error as one line for a person.
    pub fn to_string(&self) -> (r: String)
        ensures
            r@ == self.words(),
    {
        match self {
            MediaError::NoOutputDevice => "no default audio output device".to_owned(),
            MediaError::NoInputDevice => "no default audio input device".to_owned(),
            MediaError::UnsupportedFormat(f) => crate::text::join2(
                "unsupported sample format: ",
                f.as_str(),
            ),
            MediaError::Backend(e) => crate::text::join2("audio backend error: ", e.as_str()),
        }
    }
}

/// What runs of the media.
#[derive(Debug, Clone, Copy, PartialEq, Eq, Structural)]
pub struct MediaEngine {
    /// Whether echo is to be cancelled.
    pub echo_cancellation: bool,
    /// Whether the microphone is captured.
    pub capturing: bool,
    /// Whether the screen is captured.
    pub sharing: bool,
    /// Whether the microphone is muted.
    pub mic_muted: bool,
    /// Whether the playback hands on what it plays.
    pub render_enabled: bool,
    /// The playback device's rate, or zero before it is known.
    pub playback_rate: u32,
}

/// A capture to begin. What was played before is dropped first.
#[derive(Debug, Clone, Copy, PartialEq, Eq, Structural)]
pub struct CaptureStart {
    /// The rate of what is played.
    pub render_rate: u32,
}

impl MediaEngine {
    /// Nothing runs.
    pub fn new(config: &MediaConfig) -> (r: Self)
        ensures
            r == (MediaEngine {
                echo_cancellation: config.echo_cancellation,
                capturing: false,
                sharing: false,
                mic_muted: false,
                render_enabled: false,
                playback_rate: 0,
            }),
    {
        MediaEngine {
            echo_cancellation: config.echo_cancellation,
            capturing: false,
            sharing: false,
            mic_muted: false,
            render_enabled: false,
            playback_rate: 0,
        }
    }

    /// The playback began at a device's rate.
    pub fn playback_started(&mut self, rate: u32)
        ensures
            *final(self) == (MediaEngine { playback_rate: rate, ..*old(self) }),
    {
        self.playback_rate = rate;
    }

    /// Begin to capture the microphone. Where it is captured already, nothing is to be done.
    pub fn start_capture(&mut self) -> (r: Option<CaptureStart>)
        ensures
            r == if old(self).capturing {
                None::<CaptureStart>
            } else {
                Some(
                    CaptureStart {
                        render_rate: if old(self).playback_rate == 0 {
                            24_000
                        } else {
                            old(self).playback_rate
                        },
                    },
                )
            },
            *final(self) == if old(self).capturing {
                *old(self)
            } else {
                MediaEngine {
                    capturing: true,
                    render_enabled: old(self).echo_cancellation,
                    ..*old(self)
                }
            },
    {
        if self.capturing {
            return None;
        }
        self.capturing = true;
        self.render_enabled = self.echo_cancellation;
        let render_rate: u32 = if self.playback_rate == 0 {
            AudioFormat::output().sample_rate
        } else {
            self.playback_rate
        };
        Some(CaptureStart { render_rate })
    }

    /// Stop capturing the microphone.
    pub fn stop_capture(&mut self)
        ensures
            *final(self) == (MediaEngine { capturing: false, render_enabled: false, ..*old(self) }),
    {
        self.capturing = false;
        self.render_enabled = false;
    }

    /// Mute or unmute the microphone, whether a session runs or not.
    pub fn set_mic_muted(&mut self, muted: bool)
        ensures
            *final(self) == (MediaEngine { mic_muted: muted, ..*old(self) }),
    {
        self.mic_muted = muted;
    }

    /// Begin to capture the screen, and say whether there is anything to do.
    pub fn start_screenshare(&mut self) -> (r: bool)
        ensures
            r == !old(self).sharing,
            *final(self) == (MediaEngine { sharing: true, ..*old(self) }),
    {
        let begin: bool = !self.sharing;
        self.sharing = true;
        begin
    }

    /// Stop capturing the screen.
    pub fn stop_screenshare(&mut self)
        ensures
            *final(self) == (MediaEngine { sharing: false, ..*old(self) }),
    {
        self.sharing = false;
    }
}

/// The media take their settings from the configuration: a mic frame of so many milliseconds at 16 kHz,
/// noise suppressed in the classic way where it is to be, and always filtered and leveled.
pub proof fn law_media_settings(m: MediaConfig, config: Config)
    requires
        m.of(config),
    ensures
        m.input_device@ == config.media.audio.input_device@,
        m.output_device@ == config.media.audio.output_device@,
        m.frame_samples == 16 * config.media.audio.frame_ms,
        m.screen_fps_bits == config.media.screen.fps_bits,
        m.screen_max_width == config.media.screen.max_width,
        m.screen_quality == config.media.screen.quality,
        m.echo_cancellation == config.media.audio.echo_cancellation,
        m.auto_gain == config.media.audio.auto_gain,
        config.media.audio.noise_suppression ==> m.noise_suppression is Classic,
        !config.media.audio.noise_suppression ==> m.noise_suppression is Off,
        m.high_pass_filter,
        m.leveler_enabled,
{
}

/// How each failure of the media reads.
pub proof fn law_media_failures_in_words(s: String)
    ensures
        MediaError::NoOutputDevice.words() == "no default audio output device"@,
        MediaError::NoInputDevice.words() == "no default audio input device"@,
        MediaError::UnsupportedFormat(s).words() == "unsupported sample format: "@ + s@,
        MediaError::Backend(s).words() == "audio backend error: "@ + s@,
{
}

} // verus!
