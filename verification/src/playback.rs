//! Playback: the replay of one line, and the mixed playback of a session's
//! tracks on the timeline. One output serves both; starting one stops the other.
//!
//! The clock is in nanoseconds from an arbitrary origin. Playback rates are bit
//! patterns; the caller scales elapsed time by the rate and hands it in as
//! `played_ms`.

use crate::model::PlayCmd;
use vstd::prelude::*;

verus! {

/// The bit pattern of the normal playback rate.
pub const NORMAL_SPEED: u32 = 0x3f80_0000;

/// How many blocks the output should have queued.
pub const TARGET_QUEUED: usize = 3;

/// Milliseconds between two position reports.
pub const TICK_MS: u64 = 250;

/// A timeline playback.
#[derive(Debug, Clone)]
pub struct TimelineState {
    /// The tracks that are mixed; a seek starts them again.
    pub paths: Vec<String>,
    /// Where playback started.
    pub start_ms: u64,
    /// When playback started or was last resumed.
    pub resumed_ns: u64,
    /// Time played before that, scaled by the rate.
    pub elapsed_before_resume: u64,
    pub paused: bool,
    /// When the position was last reported.
    pub last_tick_ns: u64,
    /// Every track is read to its end; only queued audio is left.
    pub exhausted: bool,
    pub speed: u32,
}

/// What a [`TimelineState`] holds.
#[verifier::ext_equal]
pub struct TimelineView {
    pub paths: Seq<String>,
    pub start_ms: u64,
    pub resumed_ns: u64,
    pub elapsed_before_resume: u64,
    pub paused: bool,
    pub last_tick_ns: u64,
    pub exhausted: bool,
    pub speed: u32,
}

impl View for TimelineState {
    type V = TimelineView;

    open spec fn view(&self) -> TimelineView {
        TimelineView {
            paths: self.paths@,
            start_ms: self.start_ms,
            resumed_ns: self.resumed_ns,
            elapsed_before_resume: self.elapsed_before_resume,
            paused: self.paused,
            last_tick_ns: self.last_tick_ns,
            exhausted: self.exhausted,
            speed: self.speed,
        }
    }
}

impl TimelineView {
    /// The playhead, where `played` is the scaled time since the last resume.
    pub open spec fn position(self, played: nat) -> nat {
        if self.paused {
            self.start_ms as nat + self.elapsed_before_resume as nat
        } else {
            self.start_ms as nat + self.elapsed_before_resume as nat + played
        }
    }

    /// The playhead can be written down.
    pub open spec fn in_range(self, played: nat) -> bool {
        self.start_ms + self.elapsed_before_resume + played <= u64::MAX
    }

    /// The state with the time since the last resume booked.
    pub open spec fn flushed(self, now_ns: u64, played: nat) -> TimelineView {
        if self.paused {
            self
        } else {
            TimelineView {
                elapsed_before_resume: (self.elapsed_before_resume + played) as u64,
                resumed_ns: now_ns,
                ..self
            }
        }
    }
}

impl TimelineState {
    /// The playhead in milliseconds, where `played_ms` is the scaled time since
    /// the last resume.
    pub fn position_ms(&self, played_ms: u64) -> (r: u64)
        requires
            self@.in_range(played_ms as nat),
        ensures
            r == self@.position(played_ms as nat),
    {
        if self.paused {
            self.start_ms + self.elapsed_before_resume
        } else {
            self.start_ms + self.elapsed_before_resume + played_ms
        }
    }

    /// Books the time since the last resume, so that a pause or a new rate
    /// starts from a fresh baseline.
    pub fn flush_elapsed(&mut self, now_ns: u64, played_ms: u64)
        requires
            old(self)@.in_range(played_ms as nat),
        ensures
            final(self)@ == old(self)@.flushed(now_ns, played_ms as nat),
    {
        if !self.paused {
            self.elapsed_before_resume = self.elapsed_before_resume + played_ms;
            self.resumed_ns = now_ns;
        }
    }
}

/// Notices of the player.
#[derive(Debug, Clone, Copy, PartialEq, Eq, Structural)]
pub enum PlayNotice {
    NoDevice,
    UnreadableLine,
    NotPlaying,
}

impl PlayNotice {
    /// The text of a notice.
    pub open spec fn message(self) -> Seq<char> {
        match self {
            PlayNotice::NoDevice => "No audio output device available."@,
            PlayNotice::UnreadableLine => "Couldn't read this line's audio."@,
            PlayNotice::NotPlaying => "Timeline isn't playing — press Play on the timeline first."@,
        }
    }

    /// The text of a notice.
    pub fn text(self) -> (r: &'static str)
        ensures
            r@ == self.message(),
    {
        match self {
            PlayNotice::NoDevice => "No audio output device available.",
            PlayNotice::UnreadableLine => "Couldn't read this line's audio.",
            PlayNotice::NotPlaying => "Timeline isn't playing — press Play on the timeline first.",
        }
    }
}

/// What the caller does next, in order.
#[derive(Debug, Clone)]
pub enum PlayStep {
    /// Silence the output and drop what it has queued.
    StopSink,
    PauseSink,
    ResumeSink,
    SetSpeed(u32),
    /// Report the line that plays.
    Playing(Option<i64>),
    /// Report the playhead.
    Position(Option<u64>),
    Notice(PlayNotice),
    /// The mix could not be opened, for this reason.
    MixFailed(String),
    /// Read a line's audio and queue it; then call [`Player::line_opened`].
    OpenLine { wav: String, start_ms: u64, end_ms: u64 },
    /// Open the wanted tracks as one mix; then call [`Player::mix_opened`].
    OpenMix { start_ms: u64, speed: u32 },
}

/// How opening a line went.
#[derive(Debug, Clone, Copy, PartialEq, Eq, Structural)]
pub enum LineOutcome {
    NoDevice,
    Unreadable,
    Queued,
}

/// How opening a mix went.
#[derive(Debug, Clone)]
pub enum MixOutcome {
    NoDevice,
    Failed(String),
    Ready,
}

/// The state of the player.
pub struct Player {
    /// Audio is attached to the output.
    pub sink: bool,
    /// The line that plays.
    pub current: Option<i64>,
    pub tl: Option<TimelineState>,
    /// The tracks of the mix to open.
    pub wanted: Vec<String>,
    /// The rate for the next timeline playback.
    pub next_speed: u32,
}

/// What a [`Player`] holds.
#[verifier::ext_equal]
pub struct PlayerView {
    pub sink: bool,
    pub current: Option<i64>,
    pub tl: Option<TimelineView>,
    pub wanted: Seq<String>,
    pub next_speed: u32,
}

impl View for Player {
    type V = PlayerView;

    open spec fn view(&self) -> PlayerView {
        PlayerView {
            sink: self.sink,
            current: self.current,
            tl: match self.tl {
                Some(t) => Some(t@),
                None => None,
            },
            wanted: self.wanted@,
            next_speed: self.next_speed,
        }
    }
}

/// One step if a condition holds.
pub open spec fn step_if(c: bool, s: PlayStep) -> Seq<PlayStep> {
    if c {
        seq![s]
    } else {
        Seq::empty()
    }
}

impl PlayerView {
    /// Nothing plays.
    pub open spec fn idle() -> PlayerView {
        PlayerView {
            sink: false,
            current: None,
            tl: None,
            wanted: Seq::empty(),
            next_speed: NORMAL_SPEED,
        }
    }

    /// A line plays or a timeline is loaded.
    pub open spec fn busy(self) -> bool {
        self.current is Some || self.tl is Some
    }

    /// At most one of the two modes is on, and the output is attached exactly
    /// while one is.
    pub open spec fn one_mode(self) -> bool {
        &&& !(self.current is Some && self.tl is Some)
        &&& self.sink == self.busy()
    }

    /// The rate of the next mix: that of the running one carries over.
    pub open spec fn carried_speed(self) -> u32 {
        match self.tl {
            Some(t) => t.speed,
            None => self.next_speed,
        }
    }

    /// The state while a line is being opened.
    pub open spec fn opening_line(self) -> PlayerView {
        PlayerView { sink: false, current: None, tl: None, ..self }
    }

    /// The steps that open a line.
    pub open spec fn line_steps(self, wav: String, start_ms: u64, end_ms: u64) -> Seq<PlayStep> {
        step_if(self.sink, PlayStep::StopSink) + step_if(
            self.tl is Some,
            PlayStep::Position(None),
        ) + seq![PlayStep::OpenLine { wav, start_ms, end_ms }]
    }

    /// The state while a mix is being opened.
    pub open spec fn opening_mix(self, paths: Seq<String>) -> PlayerView {
        PlayerView {
            sink: false,
            current: None,
            tl: None,
            wanted: paths,
            next_speed: NORMAL_SPEED,
        }
    }

    /// The steps that open a mix.
    pub open spec fn mix_steps(self, start_ms: u64) -> Seq<PlayStep> {
        step_if(self.sink, PlayStep::StopSink) + step_if(
            self.current is Some,
            PlayStep::Playing(None),
        ) + seq![PlayStep::OpenMix { start_ms, speed: self.carried_speed() }]
    }

    /// The state after a command.
    pub open spec fn commanded(self, cmd: PlayCmd, now_ns: u64, played: nat) -> PlayerView {
        match cmd {
            PlayCmd::Play { segment_id, wav, start_ms, end_ms } => self.opening_line(),
            PlayCmd::Stop => PlayerView { sink: false, current: None, tl: None, ..self },
            PlayCmd::TimelinePlay { paths, start_ms } => self.opening_mix(paths@),
            PlayCmd::TimelineSeek { start_ms } => match self.tl {
                Some(t) => self.opening_mix(t.paths),
                None => self,
            },
            PlayCmd::TimelinePause => match self.tl {
                Some(t) => PlayerView {
                    tl: Some(TimelineView { paused: true, ..t.flushed(now_ns, played) }),
                    ..self
                },
                None => self,
            },
            PlayCmd::TimelineResume => match self.tl {
                Some(t) => if t.paused {
                    PlayerView {
                        tl: Some(TimelineView { paused: false, resumed_ns: now_ns, ..t }),
                        ..self
                    }
                } else {
                    self
                },
                None => self,
            },
            PlayCmd::TimelineSpeed(speed) => match self.tl {
                Some(t) => PlayerView {
                    tl: Some(TimelineView { speed, ..t.flushed(now_ns, played) }),
                    ..self
                },
                None => PlayerView { next_speed: speed, ..self },
            },
        }
    }

    /// What a command makes the caller do.
    pub open spec fn command_steps(self, cmd: PlayCmd) -> Seq<PlayStep> {
        match cmd {
            PlayCmd::Play { segment_id, wav, start_ms, end_ms } => self.line_steps(
                wav,
                start_ms,
                end_ms,
            ),
            PlayCmd::Stop => step_if(self.sink, PlayStep::StopSink) + step_if(
                self.current is Some,
                PlayStep::Playing(None),
            ) + step_if(self.tl is Some, PlayStep::Position(None)),
            PlayCmd::TimelinePlay { paths, start_ms } => self.mix_steps(start_ms),
            PlayCmd::TimelineSeek { start_ms } => if self.tl is Some {
                self.mix_steps(start_ms)
            } else {
                seq![PlayStep::Notice(PlayNotice::NotPlaying)]
            },
            PlayCmd::TimelinePause => step_if(
                self.tl is Some && !self.tl->0.paused && self.sink,
                PlayStep::PauseSink,
            ),
            PlayCmd::TimelineResume => step_if(
                self.tl is Some && self.tl->0.paused && self.sink,
                PlayStep::ResumeSink,
            ),
            PlayCmd::TimelineSpeed(speed) => step_if(
                self.tl is Some && self.sink,
                PlayStep::SetSpeed(speed),
            ),
        }
    }

    /// The state after the answer to [`PlayStep::OpenLine`].
    pub open spec fn after_line(self, segment_id: i64, o: LineOutcome) -> PlayerView {
        match o {
            LineOutcome::Queued => PlayerView { sink: true, current: Some(segment_id), ..self },
            _ => self,
        }
    }

    /// The state after the answer to [`PlayStep::OpenMix`].
    pub open spec fn after_mix(
        self,
        start_ms: u64,
        speed: u32,
        now_ns: u64,
        o: MixOutcome,
    ) -> PlayerView {
        match o {
            MixOutcome::Ready => PlayerView {
                sink: true,
                tl: Some(
                    TimelineView {
                        paths: self.wanted,
                        start_ms,
                        resumed_ns: now_ns,
                        elapsed_before_resume: 0,
                        paused: false,
                        last_tick_ns: now_ns,
                        exhausted: false,
                        speed,
                    },
                ),
                wanted: Seq::empty(),
                ..self
            },
            _ => PlayerView { wanted: Seq::empty(), ..self },
        }
    }

    /// The line has played out.
    pub open spec fn line_done(self, empty: bool) -> bool {
        self.current is Some && self.sink && empty
    }

    /// The state after the poll of the line.
    pub open spec fn polled_line(self, empty: bool) -> PlayerView {
        if self.line_done(empty) {
            PlayerView { sink: false, current: None, ..self }
        } else {
            self
        }
    }

    /// The mix has played out.
    pub open spec fn mix_done(self, hit_end: bool, empty: bool) -> bool {
        &&& self.tl matches Some(t)
        &&& !t.paused
        &&& t.exhausted || hit_end
        &&& self.sink && empty
    }

    /// A position report is due.
    pub open spec fn tick_due(self, hit_end: bool, empty: bool, now_ns: u64) -> bool {
        &&& self.tl matches Some(t)
        &&& !t.paused
        &&& !self.mix_done(hit_end, empty)
        &&& now_ns >= t.last_tick_ns
        &&& (now_ns - t.last_tick_ns) / 1_000_000 >= 250
    }

    /// The state after the poll of the mix.
    pub open spec fn polled_mix(self, hit_end: bool, empty: bool, now_ns: u64) -> PlayerView {
        match self.tl {
            Some(t) => if t.paused {
                self
            } else if self.mix_done(hit_end, empty) {
                PlayerView { tl: None, sink: false, ..self }
            } else {
                PlayerView {
                    tl: Some(
                        TimelineView {
                            exhausted: t.exhausted || hit_end,
                            last_tick_ns: if self.tick_due(hit_end, empty, now_ns) {
                                now_ns
                            } else {
                                t.last_tick_ns
                            },
                            ..t
                        },
                    ),
                    ..self
                }
            },
            None => if self.sink && self.current is None && empty {
                PlayerView { sink: false, ..self }
            } else {
                self
            },
        }
    }

    /// What the poll of the mix makes the caller do.
    pub open spec fn poll_steps(
        self,
        hit_end: bool,
        empty: bool,
        now_ns: u64,
        played: nat,
    ) -> Seq<PlayStep> {
        if self.mix_done(hit_end, empty) {
            seq![PlayStep::StopSink, PlayStep::Position(None)]
        } else if self.tick_due(hit_end, empty, now_ns) {
            seq![PlayStep::Position(Some(self.tl->0.position(played) as u64))]
        } else {
            Seq::empty()
        }
    }
}

impl Player {
    /// A player with nothing to play.
    pub fn new() -> (r: Player)
        ensures
            r@ == PlayerView::idle(),
    {
        Player {
            sink: false,
            current: None,
            tl: None,
            wanted: Vec::new(),
            next_speed: NORMAL_SPEED,
        }
    }

    /// Whether the player has to be polled.
    pub fn busy(&self) -> (r: bool)
        ensures
            r == self@.busy(),
    {
        self.current.is_some() || self.tl.is_some()
    }

    fn stop_sink(&mut self, steps: &mut Vec<PlayStep>)
        ensures
            final(self)@ == (PlayerView { sink: false, ..old(self)@ }),
            final(steps)@ == old(steps)@ + step_if(old(self).sink, PlayStep::StopSink),
    {
        if self.sink {
            self.sink = false;
            steps.push(PlayStep::StopSink);
        }
    }

    fn start_mix(&mut self, paths: Vec<String>, start_ms: u64) -> (steps: Vec<PlayStep>)
        ensures
            final(self)@ == old(self)@.opening_mix(paths@),
            steps@ == old(self)@.mix_steps(start_ms),
    {
        let mut steps: Vec<PlayStep> = Vec::new();
        self.stop_sink(&mut steps);
        if self.current.is_some() {
            self.current = None;
            steps.push(PlayStep::Playing(None));
        }
        let speed: u32 = match &self.tl {
            Some(t) => t.speed,
            None => self.next_speed,
        };
        self.tl = None;
        self.wanted = paths;
        self.next_speed = NORMAL_SPEED;
        steps.push(PlayStep::OpenMix { start_ms, speed });
        steps
    }

    /// Takes a command. `played_ms` is the scaled time since the last resume.
    pub fn command(&mut self, cmd: PlayCmd, now_ns: u64, played_ms: u64) -> (steps: Vec<PlayStep>)
        requires
            old(self)@.tl matches Some(t) ==> t.in_range(played_ms as nat),
        ensures
            final(self)@ == old(self)@.commanded(cmd, now_ns, played_ms as nat),
            steps@ == old(self)@.command_steps(cmd),
    {
        let mut steps: Vec<PlayStep> = Vec::new();
        match cmd {
            PlayCmd::Play { segment_id: _, wav, start_ms, end_ms } => {
                self.stop_sink(&mut steps);
                if self.tl.is_some() {
                    self.tl = None;
                    steps.push(PlayStep::Position(None));
                }
                self.current = None;
                steps.push(PlayStep::OpenLine { wav, start_ms, end_ms });
                steps
            },
            PlayCmd::Stop => {
                self.stop_sink(&mut steps);
                if self.current.is_some() {
                    self.current = None;
                    steps.push(PlayStep::Playing(None));
                }
                if self.tl.is_some() {
                    self.tl = None;
                    steps.push(PlayStep::Position(None));
                }
                steps
            },
            PlayCmd::TimelinePlay { paths, start_ms } => self.start_mix(paths, start_ms),
            PlayCmd::TimelineSeek { start_ms } => {
                let paths = match &self.tl {
                    Some(t) => Some(crate::text::copy_all(&t.paths)),
                    None => None,
                };
                match paths {
                    Some(p) => self.start_mix(p, start_ms),
                    None => {
                        steps.push(PlayStep::Notice(PlayNotice::NotPlaying));
                        steps
                    },
                }
            },
            PlayCmd::TimelinePause => {
                if let Some(mut t) = self.tl.take() {
                    if !t.paused {
                        t.flush_elapsed(now_ns, played_ms);
                        t.paused = true;
                        if self.sink {
                            steps.push(PlayStep::PauseSink);
                        }
                    }
                    self.tl = Some(t);
                }
                steps
            },
            PlayCmd::TimelineResume => {
                if let Some(mut t) = self.tl.take() {
                    if t.paused {
                        t.resumed_ns = now_ns;
                        t.paused = false;
                        if self.sink {
                            steps.push(PlayStep::ResumeSink);
                        }
                    }
                    self.tl = Some(t);
                }
                steps
            },
            PlayCmd::TimelineSpeed(speed) => {
                match self.tl.take() {
                    Some(mut t) => {
                        t.flush_elapsed(now_ns, played_ms);
                        t.speed = speed;
                        if self.sink {
                            steps.push(PlayStep::SetSpeed(speed));
                        }
                        self.tl = Some(t);
                    },
                    None => {
                        self.next_speed = speed;
                    },
                }
                steps
            },
        }
    }

    /// Takes the answer to [`PlayStep::OpenLine`].
    pub fn line_opened(&mut self, segment_id: i64, outcome: LineOutcome) -> (steps: Vec<PlayStep>)
        ensures
            final(self)@ == old(self)@.after_line(segment_id, outcome),
            steps@ == (match outcome {
                LineOutcome::NoDevice => seq![
                    PlayStep::Notice(PlayNotice::NoDevice),
                    PlayStep::Playing(None),
                ],
                LineOutcome::Unreadable => seq![
                    PlayStep::Notice(PlayNotice::UnreadableLine),
                    PlayStep::Playing(None),
                ],
                LineOutcome::Queued => seq![PlayStep::Playing(Some(segment_id))],
            }),
    {
        let mut steps: Vec<PlayStep> = Vec::new();
        match outcome {
            LineOutcome::NoDevice => {
                steps.push(PlayStep::Notice(PlayNotice::NoDevice));
                steps.push(PlayStep::Playing(None));
            },
            LineOutcome::Unreadable => {
                steps.push(PlayStep::Notice(PlayNotice::UnreadableLine));
                steps.push(PlayStep::Playing(None));
            },
            LineOutcome::Queued => {
                self.sink = true;
                self.current = Some(segment_id);
                steps.push(PlayStep::Playing(Some(segment_id)));
            },
        }
        steps
    }

    /// Takes the answer to [`PlayStep::OpenMix`].
    pub fn mix_opened(
        &mut self,
        start_ms: u64,
        speed: u32,
        now_ns: u64,
        outcome: MixOutcome,
    ) -> (steps: Vec<PlayStep>)
        ensures
            final(self)@ == old(self)@.after_mix(start_ms, speed, now_ns, outcome),
            steps@ == (match outcome {
                MixOutcome::NoDevice => seq![
                    PlayStep::Notice(PlayNotice::NoDevice),
                    PlayStep::Position(None),
                ],
                MixOutcome::Failed(e) => seq![PlayStep::MixFailed(e), PlayStep::Position(None)],
                MixOutcome::Ready => seq![PlayStep::Position(Some(start_ms))],
            }),
    {
        let mut steps: Vec<PlayStep> = Vec::new();
        let mut paths: Vec<String> = Vec::new();
        paths.append(&mut self.wanted);
        match outcome {
            MixOutcome::NoDevice => {
                steps.push(PlayStep::Notice(PlayNotice::NoDevice));
                steps.push(PlayStep::Position(None));
            },
            MixOutcome::Failed(e) => {
                steps.push(PlayStep::MixFailed(e));
                steps.push(PlayStep::Position(None));
            },
            MixOutcome::Ready => {
                self.sink = true;
                self.tl = Some(
                    TimelineState {
                        paths,
                        start_ms,
                        resumed_ns: now_ns,
                        elapsed_before_resume: 0,
                        paused: false,
                        last_tick_ns: now_ns,
                        exhausted: false,
                        speed,
                    },
                );
                steps.push(PlayStep::Position(Some(start_ms)));
            },
        }
        steps
    }

    /// First part of a poll: a line that has played out is over. `sink_empty`
    /// says that the output has nothing left.
    pub fn poll_line(&mut self, sink_empty: bool) -> (steps: Vec<PlayStep>)
        ensures
            final(self)@ == old(self)@.polled_line(sink_empty),
            steps@ == step_if(old(self)@.line_done(sink_empty), PlayStep::Playing(None)),
    {
        let mut steps: Vec<PlayStep> = Vec::new();
        if self.current.is_some() && self.sink && sink_empty {
            self.sink = false;
            self.current = None;
            steps.push(PlayStep::Playing(None));
        }
        steps
    }

    /// Second part of a poll: how many blocks to read from the mix, with
    /// `queued` blocks in the output.
    pub fn blocks_wanted(&self, queued: usize) -> (r: usize)
        ensures
            r == (match self@.tl {
                Some(t) => if t.paused || t.exhausted || queued >= 3 {
                    0
                } else {
                    3 - queued
                },
                None => 0,
            }),
    {
        match &self.tl {
            Some(t) => if t.paused || t.exhausted || queued >= TARGET_QUEUED {
                0
            } else {
                TARGET_QUEUED - queued
            },
            None => 0,
        }
    }

    /// Third part of a poll. `hit_end` says that the mix had no more blocks (or
    /// could not be read on), `sink_empty` that the output has nothing left.
    pub fn poll_mix(&mut self, hit_end: bool, sink_empty: bool, now_ns: u64, played_ms: u64) -> (
    steps: Vec<PlayStep>)
        requires
            old(self)@.tl matches Some(t) ==> t.in_range(played_ms as nat),
        ensures
            final(self)@ == old(self)@.polled_mix(hit_end, sink_empty, now_ns),
            steps@ == old(self)@.poll_steps(hit_end, sink_empty, now_ns, played_ms as nat),
    {
        let mut steps: Vec<PlayStep> = Vec::new();
        match self.tl.take() {
            Some(mut t) => {
                if t.paused {
                    self.tl = Some(t);
                    return steps;
                }
                if hit_end {
                    t.exhausted = true;
                }
                if t.exhausted && self.sink && sink_empty {
                    self.sink = false;
                    steps.push(PlayStep::StopSink);
                    steps.push(PlayStep::Position(None));
                    return steps;
                }
                if now_ns >= t.last_tick_ns && (now_ns - t.last_tick_ns) / 1_000_000 >= TICK_MS {
                    t.last_tick_ns = now_ns;
                    steps.push(PlayStep::Position(Some(t.position_ms(played_ms))));
                }
                self.tl = Some(t);
            },
            None => {
                if self.sink && self.current.is_none() && sink_empty {
                    self.sink = false;
                }
            },
        }
        steps
    }
}

// ---------------------------------------------------------------------------
// What holds of the player
// ---------------------------------------------------------------------------

/// A line and a timeline never play together, and nothing stays attached to the
/// output that does not play: every command, answer and poll keeps this.
pub proof fn one_mode_at_a_time(
    p: PlayerView,
    cmd: PlayCmd,
    now_ns: u64,
    played: nat,
    segment_id: i64,
    line: LineOutcome,
    start_ms: u64,
    speed: u32,
    mix: MixOutcome,
    hit_end: bool,
    empty: bool,
)
    requires
        p.one_mode(),
    ensures
        p.commanded(cmd, now_ns, played).one_mode(),
        !p.busy() ==> p.after_line(segment_id, line).one_mode(),
        !p.busy() ==> p.after_mix(start_ms, speed, now_ns, mix).one_mode(),
        cmd is Play || cmd is TimelinePlay ==> !p.commanded(cmd, now_ns, played).busy(),
        p.polled_line(empty).one_mode(),
        p.polled_mix(hit_end, empty, now_ns).one_mode(),
{
}

/// Booking the elapsed time does not move the playhead: with the scaled time
/// starting again from zero it is where it was.
pub proof fn flushing_keeps_the_position(t: TimelineView, now_ns: u64, played: nat)
    requires
        t.in_range(played),
    ensures
        t.flushed(now_ns, played).position(0) == t.position(played),
        t.flushed(now_ns, played).in_range(0),
{
}

/// A pause holds the playhead, however long it lasts, and a resume goes on from
/// there.
pub proof fn pause_holds_the_position(
    p: PlayerView,
    now_ns: u64,
    played: nat,
    later_ns: u64,
    wait: nat,
)
    requires
        p.tl matches Some(t) && t.in_range(played),
    ensures
        ({
            let q = p.commanded(PlayCmd::TimelinePause, now_ns, played);
            let r = q.commanded(PlayCmd::TimelineResume, later_ns, wait);
            &&& q.tl matches Some(a)
            &&& r.tl matches Some(b)
            &&& a.paused
            &&& a.position(wait) == p.tl->0.position(played)
            &&& !b.paused
            &&& b.position(0) == p.tl->0.position(played)
        }),
{
}

/// A new rate does not move the playhead either.
pub proof fn speed_change_keeps_the_position(
    p: PlayerView,
    speed: u32,
    now_ns: u64,
    played: nat,
)
    requires
        p.tl matches Some(t) && t.in_range(played),
    ensures
        ({
            let q = p.commanded(PlayCmd::TimelineSpeed(speed), now_ns, played);
            &&& q.tl matches Some(a)
            &&& a.speed == speed
            &&& a.position(0) == p.tl->0.position(played)
        }),
{
}

/// A seek starts the same tracks again at the new place, at the rate that was
/// set.
pub proof fn seek_keeps_tracks_and_speed(
    p: PlayerView,
    start_ms: u64,
    now_ns: u64,
    played: nat,
    later_ns: u64,
)
    requires
        p.tl is Some,
    ensures
        ({
            let t = p.tl->0;
            let q = p.commanded((PlayCmd::TimelineSeek { start_ms }), now_ns, played);
            let steps = p.command_steps((PlayCmd::TimelineSeek { start_ms }));
            let r = q.after_mix(start_ms, t.speed, later_ns, MixOutcome::Ready);
            &&& steps.last() == (PlayStep::OpenMix { start_ms, speed: t.speed })
            &&& r.tl matches Some(u)
            &&& u.paths == t.paths
            &&& u.speed == t.speed
            &&& u.position(0) == start_ms
        }),
{
}

/// A rate set while nothing plays is the rate of the next playback.
pub proof fn idle_speed_is_remembered(
    p: PlayerView,
    speed: u32,
    paths: Vec<String>,
    start_ms: u64,
    now_ns: u64,
    played: nat,
)
    requires
        p.tl is None,
    ensures
        p.commanded(PlayCmd::TimelineSpeed(speed), now_ns, played).command_steps(
            (PlayCmd::TimelinePlay { paths, start_ms }),
        ).last() == (PlayStep::OpenMix { start_ms, speed }),
{
}

/// The playhead of a running timeline moves with the time played, from the place it
/// was started at; that of a paused one stands.
pub proof fn the_playhead_moves_with_the_sound(t: TimelineView, played: nat, more: nat)
    ensures
        !t.paused ==> t.position(played + more) == t.position(played) + more,
        t.paused ==> t.position(played) == t.position(more),
        t.elapsed_before_resume == 0 ==> t.position(0) == t.start_ms,
        t.position(0) - t.start_ms == t.elapsed_before_resume,
        t.in_range(played) <==> t.position(0) + played <= u64::MAX,
{
}

/// Playing a line opens that line, at its times, and plays it once it is queued; what
/// played before is silenced, and a timeline's playhead is cleared.
pub proof fn lines_are_opened_as_asked(
    p: PlayerView,
    segment_id: i64,
    wav: String,
    start_ms: u64,
    end_ms: u64,
    now_ns: u64,
    played: nat,
)
    ensures
        ({
            let cmd = PlayCmd::Play { segment_id, wav, start_ms, end_ms };
            let steps = p.command_steps(cmd);
            let q = p.commanded(cmd, now_ns, played);
            &&& steps.last() == (PlayStep::OpenLine { wav, start_ms, end_ms })
            &&& (steps[0] == PlayStep::StopSink <==> p.sink)
            &&& (steps.contains(PlayStep::Position(None)) <==> p.tl is Some)
            &&& !q.busy() && !q.sink && q.next_speed == p.next_speed
            &&& q.after_line(segment_id, LineOutcome::Queued).current == Some(segment_id)
            &&& q.after_line(segment_id, LineOutcome::Queued).sink
            &&& q.after_line(segment_id, LineOutcome::NoDevice) == q
            &&& q.after_line(segment_id, LineOutcome::Unreadable) == q
        }),
{
    let steps = p.line_steps(wav, start_ms, end_ms);
    if p.tl is Some {
        assert(steps[(if p.sink { 1int } else { 0int })] == PlayStep::Position(None));
    }
}

/// A stop ends whatever plays, and everything that was shown as playing is cleared; the
/// rate set for the next playback stays.
pub proof fn a_stop_ends_everything(p: PlayerView, now_ns: u64, played: nat)
    ensures
        ({
            let steps = p.command_steps(PlayCmd::Stop);
            let q = p.commanded(PlayCmd::Stop, now_ns, played);
            &&& !q.busy() && !q.sink && q.next_speed == p.next_speed && q.wanted == p.wanted
            &&& (steps.contains(PlayStep::StopSink) <==> p.sink)
            &&& (steps.contains(PlayStep::Playing(None)) <==> p.current is Some)
            &&& (steps.contains(PlayStep::Position(None)) <==> p.tl is Some)
        }),
{
    let a = if p.sink { 1int } else { 0int };
    let b = if p.current is Some { 1int } else { 0int };
    let steps = p.command_steps(PlayCmd::Stop);
    if p.sink {
        assert(steps[0] == PlayStep::StopSink);
    }
    if p.current is Some {
        assert(steps[a] == PlayStep::Playing(None));
    }
    if p.tl is Some {
        assert(steps[a + b] == PlayStep::Position(None));
    }
}

/// A timeline plays the tracks it was given, from where it was told to, and a mix that
/// does not open leaves nothing playing.
pub proof fn timelines_are_opened_as_asked(
    p: PlayerView,
    paths: Vec<String>,
    start_ms: u64,
    now_ns: u64,
    played: nat,
    later_ns: u64,
    speed: u32,
    e: String,
)
    ensures
        ({
            let cmd = PlayCmd::TimelinePlay { paths, start_ms };
            let steps = p.command_steps(cmd);
            let q = p.commanded(cmd, now_ns, played);
            let r = q.after_mix(start_ms, speed, later_ns, MixOutcome::Ready);
            &&& steps.last() == (PlayStep::OpenMix { start_ms, speed: p.carried_speed() })
            &&& (p.tl matches Some(t) ==> p.carried_speed() == t.speed)
            &&& (p.tl is None ==> p.carried_speed() == p.next_speed)
            &&& (steps[0] == PlayStep::StopSink <==> p.sink)
            &&& (steps.contains(PlayStep::Playing(None)) <==> p.current is Some)
            &&& !q.busy() && q.next_speed == NORMAL_SPEED
            &&& r.tl matches Some(t)
            &&& t.paths == paths@ && t.position(0) == start_ms && t.speed == speed
            &&& !t.paused && !t.exhausted && t.last_tick_ns == later_ns && t.resumed_ns == later_ns
            &&& r.sink && r.current is None && r.wanted.len() == 0
            &&& !q.after_mix(start_ms, speed, later_ns, MixOutcome::NoDevice).busy()
            &&& !q.after_mix(start_ms, speed, later_ns, MixOutcome::Failed(e)).busy()
            &&& !q.after_mix(start_ms, speed, later_ns, MixOutcome::NoDevice).sink
            &&& !q.after_mix(start_ms, speed, later_ns, MixOutcome::Failed(e)).sink
        }),
{
    let steps = p.mix_steps(start_ms);
    if p.current is Some {
        assert(steps[(if p.sink { 1int } else { 0int })] == PlayStep::Playing(None));
    }
}

/// Without a timeline a seek only says so, and pause and resume do nothing; with one,
/// the output is halted and let go on exactly when the playback is.
pub proof fn controls_need_a_timeline(p: PlayerView, start_ms: u64, now_ns: u64, played: nat)
    ensures
        p.tl is None ==> {
            &&& p.commanded((PlayCmd::TimelineSeek { start_ms }), now_ns, played) == p
            &&& p.command_steps((PlayCmd::TimelineSeek { start_ms })) == seq![
                PlayStep::Notice(PlayNotice::NotPlaying),
            ]
            &&& p.commanded(PlayCmd::TimelinePause, now_ns, played) == p
            &&& p.commanded(PlayCmd::TimelineResume, now_ns, played) == p
        },
        p.one_mode() ==> {
            &&& p.command_steps(PlayCmd::TimelinePause) == (if p.tl is Some && !p.tl->0.paused {
                seq![PlayStep::PauseSink]
            } else {
                Seq::empty()
            })
            &&& p.command_steps(PlayCmd::TimelineResume) == (if p.tl is Some && p.tl->0.paused {
                seq![PlayStep::ResumeSink]
            } else {
                Seq::empty()
            })
        },
        p.tl is Some && p.tl->0.paused ==> p.commanded(PlayCmd::TimelineResume, now_ns, played).tl->0.resumed_ns
            == now_ns,
        p.tl is Some && !p.tl->0.paused ==> p.commanded(PlayCmd::TimelineResume, now_ns, played) == p,
{
}

/// A poll ends a line or a mix exactly when its sound has run out, reports the playhead
/// four times a second while a mix runs, and leaves a paused one alone.
pub proof fn polls_end_what_is_over(
    p: PlayerView,
    hit_end: bool,
    empty: bool,
    now_ns: u64,
    played: nat,
)
    requires
        p.one_mode(),
        p.tl matches Some(t) ==> t.in_range(played) && t.last_tick_ns <= now_ns,
    ensures
        p.current is Some ==> (p.polled_line(empty).busy() <==> !empty),
        p.current is None || !empty ==> p.polled_line(empty) == p,
        p.tl matches Some(t) && t.paused ==> p.polled_mix(hit_end, empty, now_ns) == p
            && p.poll_steps(hit_end, empty, now_ns, played).len() == 0,
        p.tl matches Some(t) ==> (!t.paused ==> (p.polled_mix(hit_end, empty, now_ns).tl is None
            <==> empty && (hit_end || t.exhausted))),
        p.tl is Some && p.polled_mix(hit_end, empty, now_ns).tl is None ==> p.poll_steps(
            hit_end,
            empty,
            now_ns,
            played,
        ) == seq![PlayStep::StopSink, PlayStep::Position(None)],
        p.tl is Some && !p.tl->0.paused && p.polled_mix(hit_end, empty, now_ns).tl is Some ==> {
            let t = p.tl->0;
            let q = p.polled_mix(hit_end, empty, now_ns).tl->0;
            &&& q.exhausted <==> t.exhausted || hit_end
            &&& q.position(played) == t.position(played)
            &&& q.paths == t.paths && q.speed == t.speed
            &&& now_ns - t.last_tick_ns >= 250_000_000 ==> q.last_tick_ns == now_ns && p.poll_steps(
                hit_end,
                empty,
                now_ns,
                played,
            ) == seq![PlayStep::Position(Some(t.position(played) as u64))]
            &&& now_ns - t.last_tick_ns < 250_000_000 ==> q.last_tick_ns == t.last_tick_ns
                && p.poll_steps(hit_end, empty, now_ns, played).len() == 0
        },
        p.tl is None ==> p.polled_mix(hit_end, empty, now_ns) == p && p.poll_steps(
            hit_end,
            empty,
            now_ns,
            played,
        ).len() == 0,
{
}

/// A new player plays nothing, at the normal rate.
pub proof fn new_players_are_silent()
    ensures
        !PlayerView::idle().busy() && !PlayerView::idle().sink && PlayerView::idle().one_mode(),
        PlayerView::idle().wanted.len() == 0,
        PlayerView::idle().carried_speed() == NORMAL_SPEED,
{
}

} // verus!
