//! The life of the engine: what it starts with, what its loop does and how often, and
//! how it ends.
//!
//! The caller runs the loop and carries out what a pass calls for. Times are in
//! milliseconds where nothing else is said.

use crate::config::{same_stt, VoiceConfig};
use crate::config_gate::{
    file_changed, full_duplex_wanted, helper_needed, helper_preloads_tts, helper_stt_provider,
    helper_uses_stt, normalize_long_press, overlaps, reload_step, reload_tick,
    should_reload_on_mtime, speaks, system_stt_needs_authorization, transcribes, tts_model_present,
    HelperStt, NativeShims, ReloadTick, TtsFiles, DEFAULT_LONG_PRESS_MS,
};
use crate::text::{
    chars_of, decimal, decimal_digits, first_of, is_space, join, join3, join_path,
    lemma_decimal_parses, lemma_first_of, parse_number, parsed_number, path_join, position_of,
    same_text, str_opt, text_of, text_opt, texts, trim, trimmed,
};
use vstd::prelude::*;

verus! {

/// How often the loop passes.
pub const POLL_MS: u64 = 30;

/// How long the settings must be quiet before they are read.
pub const RELOAD_QUIET_WINDOW: u64 = 750;

/// How often the leave of the operating system is looked at.
pub const AX_PROBE_INTERVAL: u64 = 2_000;

/// How often missing models are asked for.
pub const AUTO_DL_RETRY_INTERVAL: u64 = 20_000;

/// How often the progress of downloads is shown.
pub const DL_PROGRESS_BUMP_INTERVAL: u64 = 400;

/// How often the settings file is looked at.
pub const MTIME_CHECK_INTERVAL: u64 = 3_000;

/// How often the engine may start itself again within [`CAPS_RELAUNCH_WINDOW`].
pub const MAX_CAPS_RELAUNCHES: u64 = 3;

/// How long a start of itself counts, in seconds.
pub const CAPS_RELAUNCH_WINDOW: u64 = 120;

// ── Failing to start ─────────────────────────────────────────────────────────

/// Why the engine did not start.
#[derive(Debug, PartialEq, Eq)]
pub enum EngineError {
    /// There is no home directory.
    HomeUnresolved,
    /// The platform is not usable, for this reason.
    PlatformInit(String),
}

/// The reason in words.
pub open spec fn error_text(e: EngineError) -> Seq<char> {
    match e {
        EngineError::HomeUnresolved => "cannot resolve $HOME"@,
        EngineError::PlatformInit(m) => "platform init: "@ + m@,
    }
}

impl EngineError {
    /// The reason in words.
    pub fn to_string(&self) -> (r: String)
        ensures
            r@ == error_text(*self),
    {
        match self {
            EngineError::HomeUnresolved => "cannot resolve $HOME".to_owned(),
            EngineError::PlatformInit(m) => join("platform init: ", m.as_str()),
        }
    }
}

/// Whether the engine can start, given the home directory and the platform.
pub fn startup(has_home: bool, platform: Result<(), String>) -> (r: Result<(), EngineError>)
    ensures
        match r {
            Ok(_) => has_home && platform is Ok,
            Err(EngineError::HomeUnresolved) => !has_home,
            Err(EngineError::PlatformInit(m)) => has_home && platform == Err::<(), String>(m),
        },
{
    if !has_home {
        return Err(EngineError::HomeUnresolved);
    }
    match platform {
        Ok(_) => Ok(()),
        Err(m) => Err(EngineError::PlatformInit(m)),
    }
}

// ── Starting ─────────────────────────────────────────────────────────────────

/// What the engine starts with.
#[derive(Debug, Clone, Copy, PartialEq, Eq, Structural)]
pub struct BootPlan {
    /// How long a press must be held to cancel.
    pub long_press_ms: u64,
    /// The operating system is asked for leave to transcribe.
    pub authorize: bool,
    /// The helper listens and speaks at the same time.
    pub full_duplex: bool,
    /// What the helper transcribes with.
    pub stt: HelperStt,
    /// The helper loads the transcribing model.
    pub load_stt: bool,
    /// The helper loads the speaking model.
    pub load_tts: bool,
    /// The helper runs.
    pub run_helper: bool,
}

/// What the engine starts with.
pub fn boot_plan(cfg: &VoiceConfig, shims: NativeShims, files: TtsFiles, system_ready: bool) -> (r:
    BootPlan)
    ensures
        r == (BootPlan {
            long_press_ms: if cfg.long_press_ms == 0 {
                DEFAULT_LONG_PRESS_MS
            } else {
                cfg.long_press_ms
            },
            authorize: cfg.stt == Some(crate::config::SttEngine::System) && !system_ready,
            full_duplex: overlaps(*cfg),
            stt: if cfg.stt == Some(crate::config::SttEngine::System) {
                HelperStt::System
            } else {
                HelperStt::Runtime(cfg.stt_provider)
            },
            load_stt: transcribes(*cfg),
            load_tts: speaks(*cfg) && tts_model_present(*cfg, shims, files),
            run_helper: speaks(*cfg) || transcribes(*cfg),
        }),
{
    BootPlan {
        long_press_ms: normalize_long_press(cfg.long_press_ms),
        authorize: system_stt_needs_authorization(cfg, system_ready),
        full_duplex: full_duplex_wanted(cfg),
        stt: helper_stt_provider(cfg),
        load_stt: helper_uses_stt(cfg),
        load_tts: helper_preloads_tts(cfg, shims, files),
        run_helper: helper_needed(cfg),
    }
}

/// The path of a program that ships with the engine: beside it where it is there, else
/// wherever the system finds it.
pub fn install_bin(name: &str, exe_dir: Option<&str>, sibling_exists: bool) -> (r: String)
    ensures
        r@ == (match str_opt(exe_dir) {
            Some(dir) => if sibling_exists {
                path_join(dir, name@)
            } else {
                name@
            },
            None => name@,
        }),
{
    match exe_dir {
        Some(dir) => if sibling_exists {
            join_path(dir, name)
        } else {
            name.to_owned()
        },
        None => name.to_owned(),
    }
}

// ── The loop ─────────────────────────────────────────────────────────────────

/// What the loop remembers from pass to pass.
#[derive(Debug, Clone, Copy, PartialEq, Eq, Structural)]
pub struct MainLoop {
    /// When the leave of the operating system was last looked at.
    pub last_ax_probe: u64,
    /// When missing models were last asked for.
    pub last_auto_dl: u64,
    /// When the progress of downloads was last shown.
    pub last_dl_bump: u64,
    /// A download ran when it was.
    pub dl_was_active: bool,
    /// When the settings file was last looked at.
    pub last_mtime_check: u64,
    /// The time of the settings file that was read.
    pub last_seen: Option<u128>,
    /// The time of the settings file that the last look saw.
    pub current: Option<u128>,
    /// That look saw a change.
    pub mtime_changed: bool,
    /// Since when a change of the settings waits for quiet.
    pub pending_reload_since: Option<u64>,
}

/// What a pass calls for.
#[derive(Debug, Clone, Copy, PartialEq, Eq, Structural)]
pub struct PassPlan {
    /// Look at the leave of the operating system.
    pub probe_ax: bool,
    /// Ask for missing models, and make the helper hold what is selected.
    pub auto_download: bool,
    /// Show the progress of downloads.
    pub bump: bool,
    /// Look at the settings file.
    pub stat_config: bool,
}

/// Whether something that was last done at `last` is to be done again.
pub open spec fn due(last: u64, now: u64, interval: u64) -> bool {
    now.saturating_sub(last) >= interval
}

fn is_due(last: u64, now: u64, interval: u64) -> (r: bool)
    ensures
        r == due(last, now, interval),
{
    now.saturating_sub(last) >= interval
}

/// A time before `now` that makes something due at once, where there is one.
pub open spec fn overdue(now: u64, interval: u64) -> u64 {
    if now >= interval {
        (now - interval) as u64
    } else {
        now
    }
}

/// What a pass calls for.
pub open spec fn pass_plan(l: MainLoop, now: u64, downloading: bool) -> PassPlan {
    PassPlan {
        probe_ax: due(l.last_ax_probe, now, AX_PROBE_INTERVAL),
        auto_download: due(l.last_auto_dl, now, AUTO_DL_RETRY_INTERVAL),
        bump: due(l.last_dl_bump, now, DL_PROGRESS_BUMP_INTERVAL) && (downloading
            || l.dl_was_active),
        stat_config: due(l.last_mtime_check, now, MTIME_CHECK_INTERVAL),
    }
}

/// What the loop remembers after a pass.
pub open spec fn after_pass(l: MainLoop, now: u64, downloading: bool) -> MainLoop {
    let p = pass_plan(l, now, downloading);
    let shown = due(l.last_dl_bump, now, DL_PROGRESS_BUMP_INTERVAL);
    MainLoop {
        last_ax_probe: if p.probe_ax {
            now
        } else {
            l.last_ax_probe
        },
        last_auto_dl: if p.auto_download {
            now
        } else {
            l.last_auto_dl
        },
        last_dl_bump: if shown {
            now
        } else {
            l.last_dl_bump
        },
        dl_was_active: if shown {
            downloading
        } else {
            l.dl_was_active
        },
        last_mtime_check: if p.stat_config {
            now
        } else {
            l.last_mtime_check
        },
        ..l
    }
}

/// What the loop remembers once it has decided about the settings: `statted` is the time
/// of the settings file, where this pass looked at it, and `hup` that they were said to
/// have changed.
pub open spec fn after_decision(l: MainLoop, hup: bool, statted: Option<Option<u128>>, now: u64)
    -> MainLoop {
    let current = match statted {
        Some(t) => t,
        None => l.last_seen,
    };
    let changed = statted is Some && file_changed(l.last_seen, current);
    MainLoop {
        current,
        mtime_changed: changed,
        pending_reload_since: reload_step(
            hup || changed,
            now,
            l.pending_reload_since,
            RELOAD_QUIET_WINDOW,
        ).1,
        ..l
    }
}

impl MainLoop {
    /// The loop before its first pass, which looks at the leave of the operating system
    /// and at the settings file at once.
    pub fn new(now: u64, last_seen: Option<u128>) -> (r: Self)
        ensures
            r == (MainLoop {
                last_ax_probe: overdue(now, AX_PROBE_INTERVAL),
                last_auto_dl: now,
                last_dl_bump: now,
                dl_was_active: false,
                last_mtime_check: overdue(now, MTIME_CHECK_INTERVAL),
                last_seen,
                current: last_seen,
                mtime_changed: false,
                pending_reload_since: None,
            }),
    {
        MainLoop {
            last_ax_probe: if now >= AX_PROBE_INTERVAL {
                now - AX_PROBE_INTERVAL
            } else {
                now
            },
            last_auto_dl: now,
            last_dl_bump: now,
            dl_was_active: false,
            last_mtime_check: if now >= MTIME_CHECK_INTERVAL {
                now - MTIME_CHECK_INTERVAL
            } else {
                now
            },
            last_seen,
            current: last_seen,
            mtime_changed: false,
            pending_reload_since: None,
        }
    }

    /// A pass. The progress of downloads is shown while one runs, and once more when the
    /// last has ended.
    pub fn pass(&mut self, now: u64, downloading: bool) -> (r: PassPlan)
        ensures
            r == pass_plan(*old(self), now, downloading),
            *final(self) == after_pass(*old(self), now, downloading),
    {
        let probe_ax = is_due(self.last_ax_probe, now, AX_PROBE_INTERVAL);
        if probe_ax {
            self.last_ax_probe = now;
        }
        let auto_download = is_due(self.last_auto_dl, now, AUTO_DL_RETRY_INTERVAL);
        if auto_download {
            self.last_auto_dl = now;
        }
        let mut bump = false;
        if is_due(self.last_dl_bump, now, DL_PROGRESS_BUMP_INTERVAL) {
            bump = downloading || self.dl_was_active;
            self.dl_was_active = downloading;
            self.last_dl_bump = now;
        }
        let stat_config = is_due(self.last_mtime_check, now, MTIME_CHECK_INTERVAL);
        if stat_config {
            self.last_mtime_check = now;
        }
        PassPlan { probe_ax, auto_download, bump, stat_config }
    }

    /// Decides whether the settings are read now.
    pub fn decide_reload(&mut self, hup: bool, statted: Option<Option<u128>>, now: u64) -> (r:
        ReloadTick)
        ensures
            *final(self) == after_decision(*old(self), hup, statted, now),
            r == reload_step(
                hup || final(self).mtime_changed,
                now,
                old(self).pending_reload_since,
                RELOAD_QUIET_WINDOW,
            ).0,
    {
        match statted {
            Some(t) => {
                self.current = t;
                self.mtime_changed = should_reload_on_mtime(self.last_seen, t);
            },
            None => {
                self.current = self.last_seen;
                self.mtime_changed = false;
            },
        }
        let (tick, pending) = reload_tick(
            hup || self.mtime_changed,
            now,
            self.pending_reload_since,
            RELOAD_QUIET_WINDOW,
        );
        self.pending_reload_since = pending;
        tick
    }

    /// The settings were read; `watermark` is the time under which their file is
    /// remembered.
    pub fn reloaded(&mut self, watermark: Option<u128>)
        ensures
            *final(self) == (MainLoop { last_seen: watermark, ..*old(self) }),
    {
        self.last_seen = watermark;
    }
}

/// What a change of the settings calls for besides the engine's own doing.
#[derive(Debug, Clone, Copy, PartialEq, Eq, Structural)]
pub struct ReloadPlan {
    /// What was measured of the transcription is forgotten.
    pub reset_stt_stats: bool,
    /// The clients are wired anew.
    pub reconcile_wire: bool,
    /// The operating system is asked for leave to transcribe.
    pub authorize: bool,
}

/// What a change of the settings calls for: measurements are forgotten when another
/// engine transcribes, and the clients are wired anew only when others are left out.
pub fn reload_plan(
    new: &VoiceConfig,
    before: &VoiceConfig,
    excluded_now: &Vec<String>,
    excluded_before: &Vec<String>,
    system_ready: bool,
) -> (r: ReloadPlan)
    ensures
        r == (ReloadPlan {
            reset_stt_stats: new.stt != before.stt,
            reconcile_wire: texts(excluded_now@) != texts(excluded_before@),
            authorize: new.stt == Some(crate::config::SttEngine::System) && !system_ready,
        }),
{
    ReloadPlan {
        reset_stt_stats: !same_stt(new.stt, before.stt),
        reconcile_wire: !same_list(excluded_now, excluded_before),
        authorize: system_stt_needs_authorization(new, system_ready),
    }
}

fn same_list(a: &Vec<String>, b: &Vec<String>) -> (r: bool)
    ensures
        r == (texts(a@) == texts(b@)),
{
    if a.len() != b.len() {
        assert(texts(a@).len() != texts(b@).len());
        return false;
    }
    let mut i: usize = 0;
    while i < a.len()
        invariant
            i <= a.len(),
            a@.len() == b@.len(),
            forall|k: int| 0 <= k < i ==> (#[trigger] a@[k])@ == b@[k]@,
        decreases a.len() - i,
    {
        if !same_text(a[i].as_str(), b[i].as_str()) {
            assert(texts(a@)[i as int] != texts(b@)[i as int]);
            return false;
        }
        i += 1;
    }
    assert(texts(a@) =~= texts(b@));
    true
}

// ── Ending ───────────────────────────────────────────────────────────────────

/// Whether the engine ends in order to start itself again: the key is stuck, and nobody
/// else has ended it already.
pub fn should_relaunch(needs_relaunch: bool, was_running: bool) -> (r: bool)
    ensures
        r == (needs_relaunch && was_running),
{
    needs_relaunch && was_running
}

/// Whether the file that names the running engine is this engine's to remove.
pub fn owns_pidfile(recorded: Option<u32>, own: u32) -> (r: bool)
    ensures
        r == (recorded == Some(own)),
{
    match recorded {
        Some(pid) => pid == own,
        None => false,
    }
}

/// What a marker says: how often the engine has started itself, and when it last did.
pub open spec fn marker_of(s: Seq<char>) -> Option<(int, int)> {
    let n = first_of(s, ' ');
    if n >= s.len() {
        None
    } else {
        match (
            parsed_number(s.take(n), 10, u32::MAX as int),
            parsed_number(s.skip(n + 1), 10, u64::MAX as int),
        ) {
            (Some(count), Some(at)) => Some((count, at)),
            _ => None,
        }
    }
}

/// How often the engine has started itself of late, by a marker.
pub open spec fn recent_count(s: Seq<char>, now: u64) -> int {
    match marker_of(s) {
        Some(m) => if now - m.1 <= CAPS_RELAUNCH_WINDOW {
            m.0
        } else {
            0
        },
        None => 0,
    }
}

/// A marker.
pub open spec fn marker_text(count: nat, now: nat) -> Seq<char> {
    decimal_digits(count) + " "@ + decimal_digits(now)
}

/// How often the engine has started itself of late, by what is left of the marker once
/// it is trimmed.
fn read_marker(s: &str, now: u64) -> (r: u64)
    ensures
        r == recent_count(s@, now),
        r <= u32::MAX,
{
    let v = chars_of(s);
    let n: usize = position_of(&v, ' ');
    proof {
        lemma_first_of(s@, ' ');
    }
    if n >= v.len() {
        return 0;
    }
    let count = text_of(&v, 0, n);
    let at = text_of(&v, n + 1, v.len());
    assert(v@.subrange(0, n as int) =~= s@.take(n as int));
    assert(v@.subrange(n + 1, v@.len() as int) =~= s@.skip(n + 1));
    match (
        parse_number(count.as_str(), 10, u32::MAX as u64),
        parse_number(at.as_str(), 10, u64::MAX),
    ) {
        (Some(c), Some(t)) => if now.saturating_sub(t) <= CAPS_RELAUNCH_WINDOW {
            c
        } else {
            0
        },
        _ => 0,
    }
}

/// The marker to write when the engine is about to start itself again at `now`, in
/// seconds; none where it has done so too often of late, and the marker then stays.
pub open spec fn next_marker(marker: Option<Seq<char>>, now: u64) -> Option<Seq<char>> {
    let count = match marker {
        Some(s) => recent_count(trim(s), now),
        None => 0,
    };
    if count >= MAX_CAPS_RELAUNCHES {
        None
    } else {
        Some(marker_text((count + 1) as nat, now as nat))
    }
}

/// The marker to write when the engine is about to start itself again; see
/// [`next_marker`].
pub fn caps_relaunch_budget(marker: Option<&str>, now: u64) -> (r: Option<String>)
    ensures
        text_opt(r) == next_marker(str_opt(marker), now),
{
    let count: u64 = match marker {
        Some(s) => {
            let t = trimmed(s);
            read_marker(t.as_str(), now)
        },
        None => 0,
    };
    if count >= MAX_CAPS_RELAUNCHES {
        return None;
    }
    let c = decimal(count + 1);
    let t = decimal(now);
    Some(join3(c.as_str(), " ", t.as_str()))
}

// ── Laws ─────────────────────────────────────────────────────────────────────

/// A marker that was written is read back: it counts for [`CAPS_RELAUNCH_WINDOW`], and
/// not longer.
pub proof fn law_marker_is_read_back(count: u32, at: u64, now: u64)
    ensures
        recent_count(trim(marker_text(count as nat, at as nat)), now) == (if now - at
            <= CAPS_RELAUNCH_WINDOW {
            count as int
        } else {
            0
        }),
{
    reveal_strlit(" ");
    let c = decimal_digits(count as nat);
    let t = decimal_digits(at as nat);
    let s = marker_text(count as nat, at as nat);
    lemma_decimal_parses(count as nat, u32::MAX as int);
    lemma_decimal_parses(at as nat, u64::MAX as int);
    lemma_digits_only(count as nat);
    lemma_digits_only(at as nat);
    lemma_first_of(s, ' ');
    assert(s[0] == c[0]);
    assert(s.last() == t.last());
    assert(trim(s) == s);
    assert(s[c.len() as int] == ' ');
    assert forall|k: int| 0 <= k < c.len() implies s[k] != ' ' by {
        assert(s[k] == c[k]);
    }
    assert(first_of(s, ' ') == c.len());
    assert(s.take(c.len() as int) =~= c);
    assert(s.skip(c.len() as int + 1) =~= t);
}

/// A number in decimal has digits, and no white space among them.
proof fn lemma_digits_only(n: nat)
    ensures
        decimal_digits(n).len() > 0,
        forall|k: int|
            0 <= k < decimal_digits(n).len() ==> !is_space(#[trigger] decimal_digits(n)[k]),
    decreases n,
{
    let last = (n % 10) as int;
    assert(!is_space(crate::text::hex_digit(last))) by {
        assert(('0' as int + last) as char as int == '0' as int + last);
    }
    let d = decimal_digits(n);
    if n >= 10 {
        lemma_digits_only(n / 10);
        let head = decimal_digits(n / 10);
        assert(d == head.push(crate::text::hex_digit(last)));
        assert forall|k: int| 0 <= k < d.len() implies !is_space(#[trigger] d[k]) by {
            if k < head.len() {
                assert(d[k] == head[k]);
            }
        }
    } else {
        assert(d == seq![crate::text::hex_digit(last)]);
    }
}

/// The engine does not start itself for ever: after [`MAX_CAPS_RELAUNCHES`] starts, each
/// within the window of the one before, it gives up, and stays so while the last counts.
pub proof fn law_relaunches_are_bounded(a: u64, b: u64, c: u64, d: u64)
    requires
        a <= b <= c <= d,
        b - a <= CAPS_RELAUNCH_WINDOW,
        c - b <= CAPS_RELAUNCH_WINDOW,
        d - c <= CAPS_RELAUNCH_WINDOW,
    ensures
        ({
            let first = next_marker(None, a);
            let second = next_marker(first, b);
            let third = next_marker(second, c);
            &&& first is Some
            &&& second is Some
            &&& third is Some
            &&& next_marker(third, d) is None
        }),
{
    law_marker_is_read_back(1, a, b);
    law_marker_is_read_back(2, b, c);
    law_marker_is_read_back(3, c, d);
}

/// A change of the settings file is read once: a look that sees the file as it was read
/// calls for nothing.
pub proof fn law_seen_file_is_not_read_again(l: MainLoop, now: u64)
    requires
        l.pending_reload_since is None,
    ensures
        !after_decision(l, false, Some(l.last_seen), now).mtime_changed,
        after_decision(l, false, Some(l.last_seen), now).pending_reload_since is None,
{
}

/// The end of the downloads is shown: the pass that shows progress after the last one
/// has ended shows it once more, and the next does not.
pub proof fn law_end_of_downloads_is_shown_once(l: MainLoop, now: u64, later: u64)
    requires
        l.dl_was_active,
        due(l.last_dl_bump, now, DL_PROGRESS_BUMP_INTERVAL),
    ensures
        pass_plan(l, now, false).bump,
        !pass_plan(after_pass(l, now, false), later, false).bump,
{
}

/// How often the loop does what: it looks at the leave of the operating system every two
/// seconds, asks for missing models every twenty, looks at the settings file every three,
/// and shows the progress of downloads every four tenths, while one runs and once after.
pub proof fn law_how_often_the_loop_acts(l: MainLoop, now: u64, downloading: bool)
    requires
        l.last_ax_probe <= now,
        l.last_auto_dl <= now,
        l.last_dl_bump <= now,
        l.last_mtime_check <= now,
    ensures
        ({
            let p = pass_plan(l, now, downloading);
            &&& p.probe_ax <==> now - l.last_ax_probe >= 2_000
            &&& p.auto_download <==> now - l.last_auto_dl >= 20_000
            &&& p.bump <==> now - l.last_dl_bump >= 400 && (downloading || l.dl_was_active)
            &&& p.stat_config <==> now - l.last_mtime_check >= 3_000
        }),
{
}

/// What was done in a pass is due again an interval later, and what was not done stays
/// due: a pass remembers exactly what it did.
pub proof fn law_pass_remembers_what_it_did(l: MainLoop, now: u64, downloading: bool)
    requires
        l.last_dl_bump <= now,
    ensures
        ({
            let p = pass_plan(l, now, downloading);
            let n = after_pass(l, now, downloading);
            &&& n.last_ax_probe == (if p.probe_ax {
                now
            } else {
                l.last_ax_probe
            })
            &&& n.last_auto_dl == (if p.auto_download {
                now
            } else {
                l.last_auto_dl
            })
            &&& n.last_mtime_check == (if p.stat_config {
                now
            } else {
                l.last_mtime_check
            })
            &&& now - l.last_dl_bump >= 400 ==> n.last_dl_bump == now && n.dl_was_active
                == downloading
            &&& now - l.last_dl_bump < 400 ==> n.last_dl_bump == l.last_dl_bump
                && n.dl_was_active == l.dl_was_active
            &&& n.last_seen == l.last_seen && n.pending_reload_since == l.pending_reload_since
                && n.current == l.current && n.mtime_changed == l.mtime_changed
            &&& !pass_plan(n, now, downloading).probe_ax && !pass_plan(
                n,
                now,
                downloading,
            ).auto_download && !pass_plan(n, now, downloading).bump && !pass_plan(
                n,
                now,
                downloading,
            ).stat_config
        }),
{
}

/// What has never been done is due at once, once as much time has passed as lies between
/// two times.
pub proof fn law_first_look_is_at_once(now: u64)
    requires
        now >= 3_000,
    ensures
        due(overdue(now, AX_PROBE_INTERVAL), now, AX_PROBE_INTERVAL),
        due(overdue(now, MTIME_CHECK_INTERVAL), now, MTIME_CHECK_INTERVAL),
        overdue(now, 2_000) == now - 2_000,
{
}

/// The settings are read three quarters of a second after the last sign that they have
/// changed: a signal, or a look that sees a newer file. Without such a sign nothing is
/// read.
pub proof fn law_settings_are_read_after_quiet(
    l: MainLoop,
    seen: u128,
    newer: u128,
    t: u64,
    now: u64,
)
    requires
        t <= now,
        l.last_seen == Some(seen),
    ensures
        ({
            let told = after_decision(l, true, None, t);
            let looked = after_decision(l, false, Some(Some(newer)), t);
            &&& told.pending_reload_since == Some(t)
            &&& !told.mtime_changed
            &&& newer > seen ==> looked.mtime_changed && looked.current == Some(newer)
                && looked.pending_reload_since == Some(t)
            &&& newer <= seen ==> !looked.mtime_changed && (l.pending_reload_since is None
                ==> looked.pending_reload_since is None)
            &&& after_decision(told, false, None, now).pending_reload_since == (if now - t >= 750 {
                None
            } else {
                Some(t)
            })
            &&& reload_step(false, now, Some(t), RELOAD_QUIET_WINDOW).0 == (if now - t >= 750 {
                ReloadTick::Run
            } else {
                ReloadTick::Defer
            })
            &&& told.last_seen == l.last_seen && looked.last_seen == l.last_seen
        }),
{
}

/// The engine starts itself again at most three times, each within two minutes of the one
/// before: the marker counts up by one, begins anew with one where the last start is
/// longer ago, and is not written where the three are used up.
pub proof fn law_marker_counts_up(count: u32, at: u64, now: u64)
    requires
        at <= now,
    ensures
        ({
            let next = next_marker(Some(marker_text(count as nat, at as nat)), now);
            &&& now - at > 120 ==> next == Some(marker_text(1, now as nat))
            &&& now - at <= 120 && count < 3 ==> next == Some(
                marker_text((count + 1) as nat, now as nat),
            )
            &&& now - at <= 120 && count >= 3 ==> next is None
        }),
        next_marker(None, now) == Some(marker_text(1, now as nat)),
        marker_text(count as nat, at as nat) == decimal_digits(count as nat) + " "@
            + decimal_digits(at as nat),
{
    law_marker_is_read_back(count, at, now);
}

/// What is said of an engine that did not start.
pub proof fn law_failed_start_is_explained(m: String)
    ensures
        error_text(EngineError::HomeUnresolved) == "cannot resolve $HOME"@,
        error_text(EngineError::PlatformInit(m)) == "platform init: "@ + m@,
{
}

} // verus!
