//! The user's settings, as far as decisions depend on them.

use vstd::prelude::*;

verus! {

/// Persisted settings. Gains and thresholds are bit patterns.
#[derive(Debug, Clone)]
pub struct Settings {
    pub model: String,
    pub retranscribe_model: String,
    pub live_transcription: bool,
    pub auto_transcribe: bool,
    pub transcribe_workers: u32,
    pub keep_audio: bool,
    pub input_device: Option<String>,
    /// "both", "mic", "system" or "app".
    pub capture_mode: String,
    pub capture_app_id: String,
    pub capture_app_name: String,
    /// The mode to go back to when the per-app capture is left.
    pub capture_mode_before_app: String,
    pub mic_level_mode: String,
    pub others_level_mode: String,
    pub mic_gain_db: u32,
    pub others_gain_db: u32,
    /// Days after which kept audio is deleted; never if absent.
    pub auto_delete_days: Option<u32>,
    /// Days after which kept audio is compressed; off if absent.
    pub compress_after_days: Option<u32>,
    pub compress_quality: String,
    pub kb_export_dir: String,
    /// "local" or "external".
    pub llm_backend: String,
    pub llm_base_url: String,
    pub llm_api_key: String,
    pub llm_model: String,
    pub llm_timeout_secs: u64,
    pub summary_model: String,
    pub summary_preset: String,
    /// The user's own prompt; the one of the preset if absent.
    pub summary_prompt: Option<String>,
    pub auto_title: bool,
    pub compress_ctx: u32,
    pub overview_auto: bool,
    pub overview_ctx: u32,
    pub diarize_auto: bool,
    pub diarize_live: bool,
    pub diarize_num_speakers: u32,
    pub diarize_threshold: u32,
    pub diarize_segmentation_model: String,
    pub diarize_embedding_model: String,
    pub voiceprints_enabled: bool,
    pub bookmark_phrases: Vec<String>,
    pub bookmark_back_offset_secs: u32,
    pub discord_bot_token: String,
    pub discord_user_id: String,
    pub discord_announce: bool,
    pub discord_record_button: bool,
    pub encrypted: bool,
    pub encrypt_pending: bool,
    pub decrypt_pending: bool,
    pub theme_accent: String,
    pub theme_me: String,
    pub theme_others: String,
    pub badge_tint: bool,
    pub check_updates: bool,
    pub setup_complete: bool,
    pub sidebar_width: u32,
}

impl Settings {
    /// Chooses the model of the external server.
    pub fn choose_llm_model(&mut self, name: &String)
        ensures
            *final(self) == (Settings { llm_model: *name, ..*old(self) }),
    {
        self.llm_model = name.clone();
    }
}

} // verus!
