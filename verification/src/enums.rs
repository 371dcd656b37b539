//! The enumerations that select what the transcoder is asked to do.

use vstd::prelude::*;

verus! {

/// The high-level operation the user selects.
#[derive(Debug, Clone, Copy, PartialEq, Eq, Structural)]
pub enum FunctionType {
    ExtractAudio,
    CompressVideo,
    ConvertToMp4,
}

impl Default for FunctionType {
    fn default() -> (r: Self)
        ensures
            r == FunctionType::ExtractAudio,
    {
        FunctionType::ExtractAudio
    }
}

impl FunctionType {
    /// Whether the audio options apply to this operation.
    pub fn show_audio_options(&self) -> (r: bool)
        ensures
            r == (*self == FunctionType::ExtractAudio || *self == FunctionType::CompressVideo),
    {
        matches!(self, Self::ExtractAudio | Self::CompressVideo)
    }

    /// Whether the video options apply to this operation.
    pub fn show_video_options(&self) -> (r: bool)
        ensures
            r == (*self == FunctionType::CompressVideo),
    {
        matches!(self, Self::CompressVideo)
    }

    /// Whether an output container can be chosen for this operation.
    pub fn show_output_format(&self) -> (r: bool)
        ensures
            r == (*self != FunctionType::ExtractAudio),
    {
        !matches!(self, Self::ExtractAudio)
    }

    /// One-line description of the operation.
    pub fn description(&self) -> (r: &'static str)
        ensures
            r@ == self.spec_description(),
    {
        match self {
            Self::ExtractAudio => "Extract audio from video file.",
            Self::CompressVideo => "Compress video with advanced options.",
            Self::ConvertToMp4 => "Convert video to MP4/MKV without re-encoding.",
        }
    }

    pub open spec fn spec_description(self) -> Seq<char> {
        match self {
            FunctionType::ExtractAudio => "Extract audio from video file."@,
            FunctionType::CompressVideo => "Compress video with advanced options."@,
            FunctionType::ConvertToMp4 => "Convert video to MP4/MKV without re-encoding."@,
        }
    }
}

/// The audio codecs the command builder knows.
#[derive(Debug, Clone, Copy, PartialEq, Eq, Structural)]
pub enum AudioFormat {
    MP3,
    WAV,
    FLAC,
    AAC,
    OPUS,
}

impl Default for AudioFormat {
    fn default() -> (r: Self)
        ensures
            r == AudioFormat::MP3,
    {
        AudioFormat::MP3
    }
}

impl AudioFormat {
    pub open spec fn spec_ext(self) -> Seq<char> {
        match self {
            AudioFormat::MP3 => "mp3"@,
            AudioFormat::WAV => "wav"@,
            AudioFormat::FLAC => "flac"@,
            AudioFormat::AAC => "m4a"@,
            AudioFormat::OPUS => "opus"@,
        }
    }

    /// File extension used for outputs in this codec.
    pub fn ext(&self) -> (r: &'static str)
        ensures
            r@ == self.spec_ext(),
    {
        match self {
            Self::MP3 => "mp3",
            Self::WAV => "wav",
            Self::FLAC => "flac",
            // AAC is commonly stored in .m4a containers
            Self::AAC => "m4a",
            Self::OPUS => "opus",
        }
    }

    pub open spec fn spec_codec(self) -> Seq<char> {
        match self {
            AudioFormat::MP3 => "libmp3lame"@,
            AudioFormat::WAV => "pcm_s16le"@,
            AudioFormat::FLAC => "flac"@,
            AudioFormat::AAC => "aac"@,
            AudioFormat::OPUS => "libopus"@,
        }
    }

    /// Encoder name handed to the transcoder for this codec.
    pub fn codec(&self) -> (r: &'static str)
        ensures
            r@ == self.spec_codec(),
    {
        match self {
            Self::MP3 => "libmp3lame",
            // Uncompressed WAV
            Self::WAV => "pcm_s16le",
            Self::FLAC => "flac",
            Self::AAC => "aac",
            Self::OPUS => "libopus",
        }
    }

    pub open spec fn spec_display_name(self) -> Seq<char> {
        match self {
            AudioFormat::MP3 => "MP3"@,
            AudioFormat::WAV => "WAV"@,
            AudioFormat::FLAC => "FLAC"@,
            AudioFormat::AAC => "AAC"@,
            AudioFormat::OPUS => "Opus"@,
        }
    }

    /// Name shown to the user for this codec.
    pub fn display_name(&self) -> (r: &'static str)
        ensures
            r@ == self.spec_display_name(),
    {
        match self {
            Self::MP3 => "MP3",
            Self::WAV => "WAV",
            Self::FLAC => "FLAC",
            Self::AAC => "AAC",
            Self::OPUS => "Opus",
        }
    }

    /// Every codec, in the order they are offered.
    pub fn all() -> (r: [AudioFormat; 5])
        ensures
            r@ == seq![
                AudioFormat::MP3,
                AudioFormat::WAV,
                AudioFormat::FLAC,
                AudioFormat::AAC,
                AudioFormat::OPUS,
            ],
    {
        [
            AudioFormat::MP3,
            AudioFormat::WAV,
            AudioFormat::FLAC,
            AudioFormat::AAC,
            AudioFormat::OPUS,
        ]
    }
}

/// Constant versus variable frame-rate timing for video output.
#[derive(Debug, Clone, Copy, PartialEq, Eq, Structural)]
pub enum FrameRateMode {
    CFR,
    VFR,
}

impl Default for FrameRateMode {
    fn default() -> (r: Self)
        ensures
            r == FrameRateMode::CFR,
    {
        FrameRateMode::CFR
    }
}

/// The output containers offered for video operations.
#[derive(Debug, Clone, Copy, PartialEq, Eq, Structural)]
pub enum OutputFormat {
    Mp4,
    Mkv,
}

impl Default for OutputFormat {
    fn default() -> (r: Self)
        ensures
            r == OutputFormat::Mp4,
    {
        OutputFormat::Mp4
    }
}

impl OutputFormat {
    pub open spec fn spec_ext(self) -> Seq<char> {
        match self {
            OutputFormat::Mp4 => "mp4"@,
            OutputFormat::Mkv => "mkv"@,
        }
    }

    /// File extension for this container.
    pub fn ext(&self) -> (r: &'static str)
        ensures
            r@ == self.spec_ext(),
    {
        match self {
            OutputFormat::Mp4 => "mp4",
            OutputFormat::Mkv => "mkv",
        }
    }

    pub open spec fn spec_display_name(self) -> Seq<char> {
        match self {
            OutputFormat::Mp4 => "MP4"@,
            OutputFormat::Mkv => "MKV"@,
        }
    }

    /// Name shown to the user for this container.
    pub fn display_name(&self) -> (r: &'static str)
        ensures
            r@ == self.spec_display_name(),
    {
        match self {
            Self::Mp4 => "MP4",
            Self::Mkv => "MKV",
        }
    }

    /// Every container, in the order they are offered.
    pub fn all() -> (r: [OutputFormat; 2])
        ensures
            r@ == seq![OutputFormat::Mp4, OutputFormat::Mkv],
    {
        [OutputFormat::Mp4, OutputFormat::Mkv]
    }
}

} // verus!
