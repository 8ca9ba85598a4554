//! Edits of the settings: what each control of the settings pages changes.

#[allow(unused_imports)]
use crate::number::{decimal, read_u32, spelled, write_u64};
use crate::settings::Settings;
#[allow(unused_imports)]
use crate::sidebar::{app_name, find_app};
#[allow(unused_imports)]
use crate::text::{blank, is_blank, same, trim, trimmed};
use vstd::prelude::*;

verus! {

/// The switches of the settings pages.
#[derive(Debug, Clone, Copy, PartialEq, Eq, Structural)]
pub enum Switch {
    LiveTranscription,
    AutoTranscribe,
    AutoTitle,
    OverviewAuto,
    DiarizeAuto,
    DiarizeLive,
    KeepAudio,
    BadgeTint,
    CheckUpdates,
    RecordButton,
    Announce,
}

/// The position of a switch.
pub open spec fn switched(s: Settings, w: Switch) -> bool {
    match w {
        Switch::LiveTranscription => s.live_transcription,
        Switch::AutoTranscribe => s.auto_transcribe,
        Switch::AutoTitle => s.auto_title,
        Switch::OverviewAuto => s.overview_auto,
        Switch::DiarizeAuto => s.diarize_auto,
        Switch::DiarizeLive => s.diarize_live,
        Switch::KeepAudio => s.keep_audio,
        Switch::BadgeTint => s.badge_tint,
        Switch::CheckUpdates => s.check_updates,
        Switch::RecordButton => s.discord_record_button,
        Switch::Announce => s.discord_announce,
    }
}

/// The settings with one switch in this position.
pub open spec fn with_switch(s: Settings, w: Switch, on: bool) -> Settings {
    match w {
        Switch::LiveTranscription => Settings { live_transcription: on, ..s },
        Switch::AutoTranscribe => Settings { auto_transcribe: on, ..s },
        Switch::AutoTitle => Settings { auto_title: on, ..s },
        Switch::OverviewAuto => Settings { overview_auto: on, ..s },
        Switch::DiarizeAuto => Settings { diarize_auto: on, ..s },
        Switch::DiarizeLive => Settings { diarize_live: on, ..s },
        Switch::KeepAudio => Settings { keep_audio: on, ..s },
        Switch::BadgeTint => Settings { badge_tint: on, ..s },
        Switch::CheckUpdates => Settings { check_updates: on, ..s },
        Switch::RecordButton => Settings { discord_record_button: on, ..s },
        Switch::Announce => Settings { discord_announce: on, ..s },
    }
}

/// A number between two bounds.
pub open spec fn between(n: int, lo: int, hi: int) -> int {
    if n < lo {
        lo
    } else if n > hi {
        hi
    } else {
        n
    }
}

/// The number of days that a field holds; nothing unless it is a number.
pub open spec fn days_in(text: Seq<char>) -> Option<int> {
    spelled(trimmed(text), 0, u32::MAX as int)
}

fn read_days(text: &str) -> (r: Option<u32>)
    ensures
        match r {
            Some(n) => days_in(text@) == Some(n as int),
            None => days_in(text@) is None,
        },
{
    read_u32(&trim(text))
}

impl Settings {
    fn flip_live_transcription(&mut self)
        ensures
            *final(self) == (Settings { live_transcription: !old(self).live_transcription, ..*old(self) }),
    {
        self.live_transcription = !self.live_transcription;
    }

    fn flip_auto_transcribe(&mut self)
        ensures
            *final(self) == (Settings { auto_transcribe: !old(self).auto_transcribe, ..*old(self) }),
    {
        self.auto_transcribe = !self.auto_transcribe;
    }

    fn flip_auto_title(&mut self)
        ensures
            *final(self) == (Settings { auto_title: !old(self).auto_title, ..*old(self) }),
    {
        self.auto_title = !self.auto_title;
    }

    fn flip_overview_auto(&mut self)
        ensures
            *final(self) == (Settings { overview_auto: !old(self).overview_auto, ..*old(self) }),
    {
        self.overview_auto = !self.overview_auto;
    }

    fn flip_diarize_auto(&mut self)
        ensures
            *final(self) == (Settings { diarize_auto: !old(self).diarize_auto, ..*old(self) }),
    {
        self.diarize_auto = !self.diarize_auto;
    }

    fn flip_diarize_live(&mut self)
        ensures
            *final(self) == (Settings { diarize_live: !old(self).diarize_live, ..*old(self) }),
    {
        self.diarize_live = !self.diarize_live;
    }

    fn flip_keep_audio(&mut self)
        ensures
            *final(self) == (Settings { keep_audio: !old(self).keep_audio, ..*old(self) }),
    {
        self.keep_audio = !self.keep_audio;
    }

    fn flip_badge_tint(&mut self)
        ensures
            *final(self) == (Settings { badge_tint: !old(self).badge_tint, ..*old(self) }),
    {
        self.badge_tint = !self.badge_tint;
    }

    fn flip_check_updates(&mut self)
        ensures
            *final(self) == (Settings { check_updates: !old(self).check_updates, ..*old(self) }),
    {
        self.check_updates = !self.check_updates;
    }

    fn flip_discord_record_button(&mut self)
        ensures
            *final(self) == (Settings { discord_record_button: !old(self).discord_record_button, ..*old(self) }),
    {
        self.discord_record_button = !self.discord_record_button;
    }

    fn flip_discord_announce(&mut self)
        ensures
            *final(self) == (Settings { discord_announce: !old(self).discord_announce, ..*old(self) }),
    {
        self.discord_announce = !self.discord_announce;
    }

    /// Flips a switch.
    pub fn flip(&mut self, w: Switch)
        ensures
            *final(self) == with_switch(*old(self), w, !switched(*old(self), w)),
    {
        match w {
            Switch::LiveTranscription => self.flip_live_transcription(),
            Switch::AutoTranscribe => self.flip_auto_transcribe(),
            Switch::AutoTitle => self.flip_auto_title(),
            Switch::OverviewAuto => self.flip_overview_auto(),
            Switch::DiarizeAuto => self.flip_diarize_auto(),
            Switch::DiarizeLive => self.flip_diarize_live(),
            Switch::KeepAudio => self.flip_keep_audio(),
            Switch::BadgeTint => self.flip_badge_tint(),
            Switch::CheckUpdates => self.flip_check_updates(),
            Switch::RecordButton => self.flip_discord_record_button(),
            Switch::Announce => self.flip_discord_announce(),
        }
    }

    /// Sets how many tracks are transcribed at once: one to four, and one for
    /// what is no number.
    pub fn set_workers(&mut self, text: &str)
        ensures
            *final(self) == (Settings {
                transcribe_workers: between(
                    match spelled(text@, 0, u32::MAX as int) {
                        Some(n) => n,
                        None => 1,
                    },
                    1,
                    4,
                ) as u32,
                ..*old(self)
            }),
    {
        let n: u32 = match read_u32(text) {
            Some(n) => n,
            None => 1,
        };
        self.transcribe_workers = if n < 1 {
            1
        } else if n > 4 {
            4
        } else {
            n
        };
    }

    /// Sets the context window of the compression; what is no number changes
    /// nothing.
    pub fn set_compress_ctx(&mut self, text: &str) -> (r: bool)
        ensures
            r == (days_in(text@) is Some),
            *final(self) == (match days_in(text@) {
                Some(n) => Settings {
                    compress_ctx: between(n, 8192, 131072) as u32,
                    ..*old(self)
                },
                None => *old(self),
            }),
    {
        match read_days(text) {
            Some(n) => {
                self.compress_ctx = if n < 8192 {
                    8192
                } else if n > 131072 {
                    131072
                } else {
                    n
                };
                true
            },
            None => false,
        }
    }

    /// Sets after how many days kept audio is deleted; zero, and what is no
    /// number, mean never.
    pub fn set_auto_delete(&mut self, text: &str)
        ensures
            *final(self) == (Settings {
                auto_delete_days: match days_in(text@) {
                    Some(n) => if n > 0 {
                        Some(n as u32)
                    } else {
                        None
                    },
                    None => None,
                },
                ..*old(self)
            }),
    {
        self.auto_delete_days = match read_days(text) {
            Some(n) => if n > 0 {
                Some(n)
            } else {
                None
            },
            None => None,
        };
    }

    /// Sets after how many days kept audio is compressed; zero means at once,
    /// and what is no number means never.
    pub fn set_compress_after(&mut self, text: &str)
        ensures
            *final(self) == (Settings {
                compress_after_days: match days_in(text@) {
                    Some(n) => Some(n as u32),
                    None => None,
                },
                ..*old(self)
            }),
    {
        self.compress_after_days = read_days(text);
    }

    /// Picks the microphone.
    pub fn set_input_device(&mut self, value: String)
        ensures
            *final(self) == (Settings {
                input_device: if value@ == "__default__"@ {
                    None
                } else {
                    Some(value)
                },
                ..*old(self)
            }),
    {
        self.input_device = if same(&value, "__default__") {
            None
        } else {
            Some(value)
        };
    }

    /// Picks what is captured. Who enters the capture of one application comes
    /// back to the mode from before. Returns whether the list of applications is
    /// needed.
    pub fn set_capture_mode(&mut self, mode: String) -> (r: bool)
        ensures
            r == (mode@ == "app"@),
            *final(self) == (Settings {
                capture_mode: mode,
                capture_mode_before_app: if mode@ == "app"@ && old(self).capture_mode@ != "app"@ {
                    old(self).capture_mode
                } else {
                    old(self).capture_mode_before_app
                },
                ..*old(self)
            }),
    {
        let app = same(&mode, "app");
        if app && !same(&self.capture_mode, "app") {
            self.capture_mode_before_app = self.capture_mode.clone();
        }
        self.capture_mode = mode;
        app
    }

    /// Picks the application to capture, with its name from the list.
    pub fn choose_app(&mut self, id: String, apps: &Vec<(String, String)>)
        ensures
            final(self).capture_app_id == id,
            final(self).capture_app_name@ == app_name(apps@, id@),
            *final(self) == (Settings {
                capture_app_id: id,
                capture_app_name: final(self).capture_app_name,
                ..*old(self)
            }),
    {
        self.capture_app_name = find_app(apps, id.as_str());
        self.capture_app_id = id;
    }

    /// Sets the bot token.
    pub fn set_bot_token(&mut self, text: &str)
        ensures
            final(self).discord_bot_token@ == trimmed(text@),
            *final(self) == (Settings {
                discord_bot_token: final(self).discord_bot_token,
                ..*old(self)
            }),
    {
        self.discord_bot_token = trim(text);
    }

    /// Sets the user to follow.
    pub fn set_user_id(&mut self, text: &str)
        ensures
            final(self).discord_user_id@ == trimmed(text@),
            *final(self) == (Settings {
                discord_user_id: final(self).discord_user_id,
                ..*old(self)
            }),
    {
        self.discord_user_id = trim(text);
    }

    /// Sets the folder of the notes.
    pub fn set_kb_dir(&mut self, text: &str)
        ensures
            final(self).kb_export_dir@ == trimmed(text@),
            *final(self) == (Settings { kb_export_dir: final(self).kb_export_dir, ..*old(self) }),
    {
        self.kb_export_dir = trim(text);
    }

    /// Picks a preset; the user's own prompt goes.
    pub fn choose_preset(&mut self, preset: String)
        ensures
            *final(self) == (Settings {
                summary_preset: preset,
                summary_prompt: None,
                ..*old(self)
            }),
    {
        self.summary_preset = preset;
        self.summary_prompt = None;
    }

    /// Edits the prompt, or goes back to the one of the preset.
    pub fn set_prompt(&mut self, prompt: Option<String>)
        ensures
            *final(self) == (Settings { summary_prompt: prompt, ..*old(self) }),
    {
        self.summary_prompt = prompt;
    }

    /// Asks for the encryption to be removed at the next launch.
    pub fn disable_encryption(&mut self)
        ensures
            *final(self) == (Settings { decrypt_pending: true, ..*old(self) }),
    {
        self.decrypt_pending = true;
    }

    /// Asks for the encryption to be applied at the next launch.
    pub fn enable_encryption(&mut self)
        ensures
            *final(self) == (Settings { encrypt_pending: true, ..*old(self) }),
    {
        self.encrypt_pending = true;
    }
}

/// What a retention field shows.
pub fn days_text(days: Option<u32>) -> (r: String)
    ensures
        r@ == (match days {
            Some(n) => decimal(n as nat),
            None => Seq::empty(),
        }),
{
    match days {
        Some(n) => write_u64(n as u64),
        None => {
            let r = String::new();
            assert(r@ =~= Seq::<char>::empty());
            r
        },
    }
}

/// Why a passphrase is not taken.
#[derive(Debug, Clone, Copy, PartialEq, Eq, Structural)]
pub enum PassError {
    Empty,
    Different,
}

impl PassError {
    /// The notice about it.
    pub fn text(self) -> (r: &'static str)
        ensures
            r@ == (match self {
                PassError::Empty => "Passphrase must not be empty."@,
                PassError::Different => "Passphrases do not match."@,
            }),
    {
        match self {
            PassError::Empty => "Passphrase must not be empty.",
            PassError::Different => "Passphrases do not match.",
        }
    }
}

/// Whether a passphrase is taken: it is not empty, and was typed twice.
pub fn accept_passphrase(first: &str, second: &str) -> (r: Result<(), PassError>)
    ensures
        r == (if first@.len() == 0 {
            Err::<(), PassError>(PassError::Empty)
        } else if first@ != second@ {
            Err::<(), PassError>(PassError::Different)
        } else {
            Ok::<(), PassError>(())
        }),
{
    if first.unicode_len() == 0 {
        Err(PassError::Empty)
    } else if !same(first, second) {
        Err(PassError::Different)
    } else {
        Ok(())
    }
}

/// The rights that the bot asks for: to see channels, to send messages and to
/// connect.
pub const INVITE_PERMISSIONS: u64 = 1_051_648;

/// The page on which the bot is invited to a server.
pub fn invite_url(app: &str) -> (r: String)
    ensures
        r@ == "https://discord.com/oauth2/authorize?client_id="@ + app@ + "&scope=bot&permissions="@
            + decimal(INVITE_PERMISSIONS as nat),
{
    let mut r = "https://discord.com/oauth2/authorize?client_id=".to_string();
    r.push_str(app);
    r.push_str("&scope=bot&permissions=");
    r.push_str(&write_u64(INVITE_PERMISSIONS));
    r
}

/// What a test of the bot token, or an invitation, gave.
#[derive(Debug, Clone)]
pub enum BotAnswer {
    NoToken,
    Valid { name: String },
    Rejected { why: String },
    InviteOpened,
    InviteFailed { url: String },
    NoApplication { why: String },
}

/// The notice about it.
pub fn bot_notice(a: &BotAnswer) -> (r: String)
    ensures
        r@ == (match *a {
            BotAnswer::NoToken => "Paste a bot token first."@,
            BotAnswer::Valid { name } => "Connected — bot \""@ + name@ + "\" is valid ✓"@,
            BotAnswer::Rejected { why } => "Discord rejected the token: "@ + why@,
            BotAnswer::InviteOpened =>
                "Opened the invite page — pick your server and approve."@,
            BotAnswer::InviteFailed { url } => "Couldn't open a browser — visit: "@ + url@,
            BotAnswer::NoApplication { why } => "Couldn't read the bot's application id: "@ + why@,
        }),
{
    match a {
        BotAnswer::NoToken => "Paste a bot token first.".to_string(),
        BotAnswer::Valid { name } => {
            let mut r = "Connected — bot \"".to_string();
            r.push_str(name);
            r.push_str("\" is valid ✓");
            r
        },
        BotAnswer::Rejected { why } => {
            let mut r = "Discord rejected the token: ".to_string();
            r.push_str(why);
            r
        },
        BotAnswer::InviteOpened =>
            "Opened the invite page — pick your server and approve.".to_string(),
        BotAnswer::InviteFailed { url } => {
            let mut r = "Couldn't open a browser — visit: ".to_string();
            r.push_str(url);
            r
        },
        BotAnswer::NoApplication { why } => {
            let mut r = "Couldn't read the bot's application id: ".to_string();
            r.push_str(why);
            r
        },
    }
}

/// Whether the notes can be exported now, and the notice about it.
pub fn export_request(settings: &Settings) -> (r: (bool, &'static str))
    ensures
        r.0 == !is_blank(settings.kb_export_dir@),
        r.1@ == (if r.0 {
            "Exporting knowledge base in the background — progress in the jobs panel."@
        } else {
            "Set a knowledge-base folder path first."@
        }),
{
    if blank(&settings.kb_export_dir) {
        (false, "Set a knowledge-base folder path first.")
    } else {
        (true, "Exporting knowledge base in the background — progress in the jobs panel.")
    }
}

/// This switch sets its own setting and leaves every other switch as it is.
pub proof fn only_live_transcription_is_switched(s: Settings, v: Switch, on: bool)
    ensures
        switched(with_switch(s, Switch::LiveTranscription, on), v) == (if v == Switch::LiveTranscription {
            on
        } else {
            switched(s, v)
        }),
{
}

/// This switch sets its own setting and leaves every other switch as it is.
pub proof fn only_auto_transcribe_is_switched(s: Settings, v: Switch, on: bool)
    ensures
        switched(with_switch(s, Switch::AutoTranscribe, on), v) == (if v == Switch::AutoTranscribe {
            on
        } else {
            switched(s, v)
        }),
{
}

/// This switch sets its own setting and leaves every other switch as it is.
pub proof fn only_auto_title_is_switched(s: Settings, v: Switch, on: bool)
    ensures
        switched(with_switch(s, Switch::AutoTitle, on), v) == (if v == Switch::AutoTitle {
            on
        } else {
            switched(s, v)
        }),
{
}

/// This switch sets its own setting and leaves every other switch as it is.
pub proof fn only_overview_auto_is_switched(s: Settings, v: Switch, on: bool)
    ensures
        switched(with_switch(s, Switch::OverviewAuto, on), v) == (if v == Switch::OverviewAuto {
            on
        } else {
            switched(s, v)
        }),
{
}

/// This switch sets its own setting and leaves every other switch as it is.
pub proof fn only_diarize_auto_is_switched(s: Settings, v: Switch, on: bool)
    ensures
        switched(with_switch(s, Switch::DiarizeAuto, on), v) == (if v == Switch::DiarizeAuto {
            on
        } else {
            switched(s, v)
        }),
{
}

/// This switch sets its own setting and leaves every other switch as it is.
pub proof fn only_diarize_live_is_switched(s: Settings, v: Switch, on: bool)
    ensures
        switched(with_switch(s, Switch::DiarizeLive, on), v) == (if v == Switch::DiarizeLive {
            on
        } else {
            switched(s, v)
        }),
{
}

/// This switch sets its own setting and leaves every other switch as it is.
pub proof fn only_keep_audio_is_switched(s: Settings, v: Switch, on: bool)
    ensures
        switched(with_switch(s, Switch::KeepAudio, on), v) == (if v == Switch::KeepAudio {
            on
        } else {
            switched(s, v)
        }),
{
}

/// This switch sets its own setting and leaves every other switch as it is.
pub proof fn only_badge_tint_is_switched(s: Settings, v: Switch, on: bool)
    ensures
        switched(with_switch(s, Switch::BadgeTint, on), v) == (if v == Switch::BadgeTint {
            on
        } else {
            switched(s, v)
        }),
{
}

/// This switch sets its own setting and leaves every other switch as it is.
pub proof fn only_check_updates_is_switched(s: Settings, v: Switch, on: bool)
    ensures
        switched(with_switch(s, Switch::CheckUpdates, on), v) == (if v == Switch::CheckUpdates {
            on
        } else {
            switched(s, v)
        }),
{
}

/// This switch sets its own setting and leaves every other switch as it is.
pub proof fn only_discord_record_button_is_switched(s: Settings, v: Switch, on: bool)
    ensures
        switched(with_switch(s, Switch::RecordButton, on), v) == (if v == Switch::RecordButton {
            on
        } else {
            switched(s, v)
        }),
{
}

/// This switch sets its own setting and leaves every other switch as it is.
pub proof fn only_discord_announce_is_switched(s: Settings, v: Switch, on: bool)
    ensures
        switched(with_switch(s, Switch::Announce, on), v) == (if v == Switch::Announce {
            on
        } else {
            switched(s, v)
        }),
{
}

/// Every switch is the setting that it is named after.
pub proof fn switches_set_their_setting(s: Settings, on: bool)
    ensures
        with_switch(s, Switch::LiveTranscription, on).live_transcription == on,
        with_switch(s, Switch::AutoTranscribe, on).auto_transcribe == on,
        with_switch(s, Switch::AutoTitle, on).auto_title == on,
        with_switch(s, Switch::OverviewAuto, on).overview_auto == on,
        with_switch(s, Switch::DiarizeAuto, on).diarize_auto == on,
        with_switch(s, Switch::DiarizeLive, on).diarize_live == on,
        with_switch(s, Switch::KeepAudio, on).keep_audio == on,
        with_switch(s, Switch::BadgeTint, on).badge_tint == on,
        with_switch(s, Switch::CheckUpdates, on).check_updates == on,
        with_switch(s, Switch::RecordButton, on).discord_record_button == on,
        with_switch(s, Switch::Announce, on).discord_announce == on,
{
}

/// A number is moved into its bounds by the shortest way.
pub proof fn numbers_stay_in_bounds(n: int, lo: int, hi: int, m: int)
    requires
        lo <= m <= hi,
    ensures
        lo <= between(n, lo, hi) <= hi,
        n <= m ==> between(n, lo, hi) <= m,
        n >= m ==> between(n, lo, hi) >= m,
        lo <= n <= hi ==> between(n, lo, hi) == n,
{
}

/// A number of days is read as it is written, whatever white space surrounds it.
pub proof fn typed_days_are_read(n: u32, text: Seq<char>)
    ensures
        trimmed(text) == crate::number::decimal(n as nat) ==> days_in(text) == Some(n as int),
        days_in(text) matches Some(d) ==> 0 <= d <= u32::MAX,
        trimmed(text).len() == 0 ==> days_in(text) is None,
{
    crate::number::written_number_reads_back(n as int, 0, u32::MAX as int);
    crate::number::only_numbers_are_read(trimmed(text), 0, u32::MAX as int);
}

} // verus!
