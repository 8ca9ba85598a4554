//! The decision core of the Zord desktop application.

pub mod actions;
pub mod dates;
pub mod db;
pub mod diagnostics;
pub mod diarize;
pub mod find;
pub mod gate;
pub mod icons;
pub mod job_keys;
pub mod jobs;
pub mod kb;
pub mod kb_note;
pub mod labels;
pub mod llm;
pub mod model;
pub mod models;
pub mod notices;
pub mod number;
pub mod order;
pub mod overview;
pub mod panels;
pub mod pattern;
pub mod pipeline;
pub mod playback;
pub mod preferences;
pub mod profile;
pub mod recording;
pub mod search;
pub mod semantic;
pub mod settings;
pub mod sidebar;
pub mod text;
pub mod theme;
pub mod toolbar;
pub mod tracks;
pub mod transcribe;
pub mod ui;
pub mod workers;
