//! What the workers report to the user, besides what their own modules word.

#[allow(unused_imports)]
use vstd::prelude::*;

use crate::number::write_u64;
#[allow(unused_imports)]
use crate::number::decimal;

verus! {

/// Work that failed.
#[derive(Debug, Clone, Copy, PartialEq, Eq, Structural)]
pub enum Failure {
    Llm,
    Database,
    SummaryModel,
    Compress,
    OverviewUpdate,
    OverviewWrite,
    Summary,
    Chat,
    ChatContext,
    Export,
    MergedAudio,
    AudioCompression,
    ClipExport,
    DiagnosticExport,
    KbExport,
    KbExportDatabase,
    SemanticModel,
    SemanticQuery,
    Embedding,
    SoundModel,
    EmotionModel,
    Timeline,
    ReadingAudio,
    SpeakerModels,
    Diarizer,
    Diarization,
    Voiceprints,
    TranscriptionModel,
    Transcriber,
    SystemAudio,
    Transcription,
    Discord,
    Integration,
    DatabaseOpen,
    Model,
    Whisper,
}

impl Failure {
    /// What the report of a failure starts with.
    pub open spec fn head(self) -> Seq<char> {
        match self {
            Failure::Llm => "LLM"@,
            Failure::Database => "db"@,
            Failure::SummaryModel => "summary model"@,
            Failure::Compress => "compress failed"@,
            Failure::OverviewUpdate => "overview update failed"@,
            Failure::OverviewWrite => "overview write failed"@,
            Failure::Summary => "summary failed"@,
            Failure::Chat => "chat"@,
            Failure::ChatContext => "chat context"@,
            Failure::Export => "export failed"@,
            Failure::MergedAudio => "merged audio failed"@,
            Failure::AudioCompression => "audio compression"@,
            Failure::ClipExport => "export clip failed"@,
            Failure::DiagnosticExport => "diagnostic export failed"@,
            Failure::KbExport => "kb export"@,
            Failure::KbExportDatabase => "kb export db"@,
            Failure::SemanticModel => "Semantic search model failed to load"@,
            Failure::SemanticQuery => "Semantic query failed"@,
            Failure::Embedding => "embed"@,
            Failure::SoundModel => "YAMNet download failed"@,
            Failure::EmotionModel => "Emotion model download failed"@,
            Failure::Timeline => "Timeline playback"@,
            Failure::ReadingAudio => "reading audio"@,
            Failure::SpeakerModels => "speaker models"@,
            Failure::Diarizer => "diarizer"@,
            Failure::Diarization => "diarization failed"@,
            Failure::Voiceprints => "voiceprints"@,
            Failure::TranscriptionModel => "transcription model"@,
            Failure::Transcriber => "transcriber"@,
            Failure::SystemAudio => "System audio off"@,
            Failure::Transcription => "transcribe error"@,
            Failure::Discord => "Discord"@,
            Failure::Integration => "integration error"@,
            Failure::DatabaseOpen => "db open failed"@,
            Failure::Model => "model"@,
            Failure::Whisper => "whisper"@,
        }
    }

    /// The report: what failed, and why.
    pub fn text(self, why: &str) -> (r: String)
        ensures
            r@ == self.head() + ": "@ + why@,
    {
        let head: &str = match self {
            Failure::Llm => "LLM",
            Failure::Database => "db",
            Failure::SummaryModel => "summary model",
            Failure::Compress => "compress failed",
            Failure::OverviewUpdate => "overview update failed",
            Failure::OverviewWrite => "overview write failed",
            Failure::Summary => "summary failed",
            Failure::Chat => "chat",
            Failure::ChatContext => "chat context",
            Failure::Export => "export failed",
            Failure::MergedAudio => "merged audio failed",
            Failure::AudioCompression => "audio compression",
            Failure::ClipExport => "export clip failed",
            Failure::DiagnosticExport => "diagnostic export failed",
            Failure::KbExport => "kb export",
            Failure::KbExportDatabase => "kb export db",
            Failure::SemanticModel => "Semantic search model failed to load",
            Failure::SemanticQuery => "Semantic query failed",
            Failure::Embedding => "embed",
            Failure::SoundModel => "YAMNet download failed",
            Failure::EmotionModel => "Emotion model download failed",
            Failure::Timeline => "Timeline playback",
            Failure::ReadingAudio => "reading audio",
            Failure::SpeakerModels => "speaker models",
            Failure::Diarizer => "diarizer",
            Failure::Diarization => "diarization failed",
            Failure::Voiceprints => "voiceprints",
            Failure::TranscriptionModel => "transcription model",
            Failure::Transcriber => "transcriber",
            Failure::SystemAudio => "System audio off",
            Failure::Transcription => "transcribe error",
            Failure::Discord => "Discord",
            Failure::Integration => "integration error",
            Failure::DatabaseOpen => "db open failed",
            Failure::Model => "model",
            Failure::Whisper => "whisper",
        };
        let mut r = head.to_string();
        r.push_str(": ");
        r.push_str(why);
        r
    }
}

/// A report without details.
#[derive(Debug, Clone, Copy, PartialEq, Eq, Structural)]
pub enum Report {
    AlreadyCompressed,
    NoKbFolder,
    NoKeptAudio,
    NoTracks,
    RangeCancelled,
    SpeakerModels,
    Reidentifying,
}

impl Report {
    /// The text of a report.
    pub fn text(self) -> (r: &'static str)
        ensures
            r@ == (match self {
                Report::AlreadyCompressed => "Nothing to compress — kept audio is already Opus."@,
                Report::NoKbFolder => "Set a knowledge-base folder first (Settings → Files)."@,
                Report::NoKeptAudio => "This session has no kept audio to re-transcribe."@,
                Report::NoTracks => "No audio tracks found."@,
                Report::RangeCancelled => "Re-transcription cancelled."@,
                Report::SpeakerModels => "Downloading speaker models…"@,
                Report::Reidentifying => "Re-identifying speakers on the new transcript…"@,
            }),
    {
        match self {
            Report::AlreadyCompressed => "Nothing to compress — kept audio is already Opus.",
            Report::NoKbFolder => "Set a knowledge-base folder first (Settings → Files).",
            Report::NoKeptAudio => "This session has no kept audio to re-transcribe.",
            Report::NoTracks => "No audio tracks found.",
            Report::RangeCancelled => "Re-transcription cancelled.",
            Report::SpeakerModels => "Downloading speaker models…",
            Report::Reidentifying => "Re-identifying speakers on the new transcript…",
        }
    }
}

/// The report after every transcript was compressed again.
pub fn recompressed_text(count: usize) -> (r: String)
    ensures
        r@ == "Re-compressed "@ + decimal(count as nat) + " session(s)."@,
{
    let mut r = "Re-compressed ".to_string();
    r.push_str(&write_u64(count as u64));
    r.push_str(" session(s).");
    r
}

/// The report while a selection is transcribed again with a model.
pub fn selection_text(model: &str) -> (r: String)
    ensures
        r@ == "Re-transcribing selection with "@ + model@ + "…"@,
{
    let mut r = "Re-transcribing selection with ".to_string();
    r.push_str(model);
    r.push_str("…");
    r
}

} // verus!
