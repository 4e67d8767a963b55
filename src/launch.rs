//! Launch sequencing: the channel checks made before a launch, the guard-file
//! handoff and restore, and the watchdog that decides when to restore.
use vstd::prelude::*;
use crate::InstallType;

verus! {

/// Why a launch was refused or failed to start.
#[derive(Clone, Copy, Debug, PartialEq, Eq, Structural)]
pub enum LaunchError {
    /// The game was not installed through Steam.
    NotSteam,
    /// The Steam library or the game directory cannot be accessed.
    DirectoryUnavailable,
    /// On a non-Windows host, no compatibility tool is configured for the game.
    NoCompatTool,
    /// On a non-Windows host, the configured compatibility tool is not NorthstarProton.
    WrongCompatTool,
    /// The launch protocol could not be invoked.
    StartFailed,
}

/// The message shown to the user for each error.
pub open spec fn message_spec(e: LaunchError) -> Seq<char> {
    match e {
        LaunchError::NotSteam => "Titanfall2 was not installed via Steam"@,
        LaunchError::DirectoryUnavailable => "Couldn't access Titanfall2 directory"@,
        LaunchError::NoCompatTool => "Titanfall2 was not configured to use a compatibility tool"@,
        LaunchError::WrongCompatTool => "Titanfall2 was not configured to use NorthstarProton"@,
        LaunchError::StartFailed => "Failed to launch Titanfall 2 via Steam"@,
    }
}

impl LaunchError {
    /// The message shown to the user.
    pub fn message(&self) -> (r: String)
        ensures
            r@ == message_spec(*self),
    {
        let s = match self {
            LaunchError::NotSteam => "Titanfall2 was not installed via Steam",
            LaunchError::DirectoryUnavailable => "Couldn't access Titanfall2 directory",
            LaunchError::NoCompatTool => "Titanfall2 was not configured to use a compatibility tool",
            LaunchError::WrongCompatTool => "Titanfall2 was not configured to use NorthstarProton",
            LaunchError::StartFailed => "Failed to launch Titanfall 2 via Steam",
        };
        String::from_str(s)
    }
}

/// `c` equals the lower-case ASCII letter or other character `p`, ignoring ASCII case.
pub open spec fn eq_ignore_ascii_case(c: char, p: char) -> bool {
    c == p || ('a' <= p <= 'z' && c as u32 + 32 == p as u32)
}

/// `pat` (in lower case) occurs in `s` at index `i`, ignoring ASCII case.
pub open spec fn occurs_at(s: Seq<char>, pat: Seq<char>, i: int) -> bool {
    0 <= i && i + pat.len() <= s.len() && forall|j: int|
        0 <= j < pat.len() ==> eq_ignore_ascii_case(#[trigger] s[i + j], pat[j])
}

/// `pat` (in lower case) occurs in `s`, ignoring ASCII case.
pub open spec fn contains_ignore_ascii_case(s: Seq<char>, pat: Seq<char>) -> bool {
    exists|i: int| occurs_at(s, pat, i)
}

/// Whether the lower-case pattern `pat` occurs in `s`, ignoring ASCII case.
pub fn contains_lowercase(s: &str, pat: &str) -> (r: bool)
    ensures
        r == contains_ignore_ascii_case(s@, pat@),
{
    let n = s.unicode_len();
    let m = pat.unicode_len();
    if m > n {
        assert forall|i: int| !occurs_at(s@, pat@, i) by {}
        return false;
    }
    let mut i: usize = 0;
    while i <= n - m
        invariant
            n == s@.len(),
            m == pat@.len(),
            m <= n,
            i <= n - m + 1,
            forall|k: int| 0 <= k < i ==> !occurs_at(s@, pat@, k),
        decreases n - m + 1 - i,
    {
        let mut j: usize = 0;
        let mut ok = true;
        while j < m
            invariant
                n == s@.len(),
                m == pat@.len(),
                i + m <= n,
                j <= m,
                ok == forall|k: int| 0 <= k < j ==> eq_ignore_ascii_case(#[trigger] s@[i + k], pat@[k]),
            decreases m - j,
        {
            let c = s.get_char(i + j);
            let p = pat.get_char(j);
            let same = c == p || ('a' <= p && p <= 'z' && c as u32 + 32 == p as u32);
            if !same {
                ok = false;
            }
            j = j + 1;
        }
        if ok {
            assert(occurs_at(s@, pat@, i as int));
            return true;
        }
        i = i + 1;
    }
    assert forall|i: int| !occurs_at(s@, pat@, i) by {}
    false
}

/// Name fragment of the compatibility tool that the game needs off Windows.
pub open spec fn proton_tool_name() -> Seq<char> {
    seq!['n', 'o', 'r', 't', 'h', 's', 't', 'a', 'r', 'p', 'r', 'o', 't', 'o', 'n']
}

/// What `check_launch_preconditions` decides.
pub open spec fn preconditions_spec(
    install_type: InstallType,
    steam_found: bool,
    host_is_windows: bool,
    compat_tool_name: Option<Seq<char>>,
) -> Result<(), LaunchError> {
    if install_type != InstallType::STEAM {
        Err(LaunchError::NotSteam)
    } else if !steam_found {
        Err(LaunchError::DirectoryUnavailable)
    } else if host_is_windows {
        Ok(())
    } else {
        match compat_tool_name {
            None => Err(LaunchError::NoCompatTool),
            Some(name) => if contains_ignore_ascii_case(name, proton_tool_name()) {
                Ok(())
            } else {
                Err(LaunchError::WrongCompatTool)
            },
        }
    }
}

/// Checks that a launch through Steam may go ahead: the install channel is
/// Steam, the Steam library was found, and off Windows the game is configured
/// with a compatibility tool whose name holds `northstarproton` in any ASCII case.
pub fn check_launch_preconditions(
    install_type: InstallType,
    steam_found: bool,
    host_is_windows: bool,
    compat_tool_name: Option<String>,
) -> (r: Result<(), LaunchError>)
    ensures
        r == preconditions_spec(
            install_type,
            steam_found,
            host_is_windows,
            match compat_tool_name {
                Some(n) => Some(n@),
                None => None,
            },
        ),
{
    if install_type != InstallType::STEAM {
        return Err(LaunchError::NotSteam);
    }
    if !steam_found {
        return Err(LaunchError::DirectoryUnavailable);
    }
    if host_is_windows {
        return Ok(());
    }
    match compat_tool_name {
        None => Err(LaunchError::NoCompatTool),
        Some(name) => {
            let pat = "northstarproton";
            proof {
                reveal_strlit("northstarproton");
                assert(pat@ =~= proton_tool_name());
            }
            if contains_lowercase(name.as_str(), pat) {
                Ok(())
            } else {
                Err(LaunchError::WrongCompatTool)
            }
        }
    }
}

/// Content written to a fresh guard file.
pub const GUARD_SENTINEL: u8 = 49;

/// The two guard files in the install root: the canonical one, whose presence
/// makes the launcher skip its argument prompt, and its backup. `None` is a
/// file that does not exist.
#[derive(Clone, Debug)]
pub struct GuardFiles {
    pub guard: Option<Vec<u8>>,
    pub backup: Option<Vec<u8>>,
}

/// A single file-system step on the guard files.
#[derive(Clone, Copy, Debug, PartialEq, Eq, Structural)]
pub enum GuardOp {
    /// Rename the guard file onto its backup, replacing any backup.
    MoveGuardToBackup,
    /// Create or truncate the guard file and write the sentinel byte.
    WriteGuard,
    /// Delete the guard file; a failure is ignored.
    RemoveGuard,
    /// Rename the backup back onto the guard file.
    MoveBackupToGuard,
}

pub open spec fn opt_view(o: Option<Vec<u8>>) -> Option<Seq<u8>> {
    match o {
        Some(v) => Some(v@),
        None => None,
    }
}

impl View for GuardFiles {
    type V = (Option<Seq<u8>>, Option<Seq<u8>>);

    open spec fn view(&self) -> Self::V {
        (opt_view(self.guard), opt_view(self.backup))
    }
}

/// The effect of one step. A rename of a file that is absent changes nothing.
pub open spec fn apply_op(
    s: (Option<Seq<u8>>, Option<Seq<u8>>),
    op: GuardOp,
) -> (Option<Seq<u8>>, Option<Seq<u8>>) {
    match op {
        GuardOp::MoveGuardToBackup => if s.0.is_some() {
            (None, s.0)
        } else {
            s
        },
        GuardOp::WriteGuard => (Some(seq![GUARD_SENTINEL]), s.1),
        GuardOp::RemoveGuard => (None, s.1),
        GuardOp::MoveBackupToGuard => if s.1.is_some() {
            (s.1, None)
        } else {
            s
        },
    }
}

/// The effect of a sequence of steps, in order.
pub open spec fn apply_ops(
    s: (Option<Seq<u8>>, Option<Seq<u8>>),
    ops: Seq<GuardOp>,
) -> (Option<Seq<u8>>, Option<Seq<u8>>)
    decreases ops.len(),
{
    if ops.len() == 0 {
        s
    } else {
        apply_ops(apply_op(s, ops[0]), ops.skip(1))
    }
}

/// Before the launch: an existing guard file becomes the backup (replacing a
/// stale one), then a fresh guard file holds the sentinel.
pub open spec fn handoff_spec(s: (Option<Seq<u8>>, Option<Seq<u8>>)) -> (
    Option<Seq<u8>>,
    Option<Seq<u8>>,
) {
    (Some(seq![GUARD_SENTINEL]), if s.0.is_some() { s.0 } else { s.1 })
}

/// After the watch: the guard file is gone, and a backup takes its place.
pub open spec fn restore_spec(s: (Option<Seq<u8>>, Option<Seq<u8>>)) -> (
    Option<Seq<u8>>,
    Option<Seq<u8>>,
) {
    (s.1, None)
}

/// The steps of the handoff, given whether the guard file exists.
pub fn handoff_ops(guard_exists: bool) -> (r: Vec<GuardOp>)
    ensures
        forall|s: (Option<Seq<u8>>, Option<Seq<u8>>)|
            s.0.is_some() == guard_exists ==> #[trigger] apply_ops(s, r@) == handoff_spec(s),
{
    let mut r: Vec<GuardOp> = Vec::new();
    if guard_exists {
        r.push(GuardOp::MoveGuardToBackup);
    }
    r.push(GuardOp::WriteGuard);
    proof {
        reveal_with_fuel(apply_ops, 3);
        assert forall|s: (Option<Seq<u8>>, Option<Seq<u8>>)|
            s.0.is_some() == guard_exists implies #[trigger] apply_ops(s, r@) == handoff_spec(s) by {
            if guard_exists {
                assert(r@.skip(1) =~= seq![GuardOp::WriteGuard]);
                assert(r@.skip(1).skip(1) =~= Seq::<GuardOp>::empty());
            } else {
                assert(r@.skip(1) =~= Seq::<GuardOp>::empty());
            }
        }
    }
    r
}

/// The steps of the restore: the guard file is removed first, then the backup
/// is moved back where one exists.
pub fn restore_ops(backup_exists: bool) -> (r: Vec<GuardOp>)
    ensures
        forall|s: (Option<Seq<u8>>, Option<Seq<u8>>)|
            s.1.is_some() == backup_exists ==> #[trigger] apply_ops(s, r@) == restore_spec(s),
{
    let mut r: Vec<GuardOp> = Vec::new();
    r.push(GuardOp::RemoveGuard);
    if backup_exists {
        r.push(GuardOp::MoveBackupToGuard);
    }
    proof {
        reveal_with_fuel(apply_ops, 3);
        assert forall|s: (Option<Seq<u8>>, Option<Seq<u8>>)|
            s.1.is_some() == backup_exists implies #[trigger] apply_ops(s, r@) == restore_spec(s) by {
            if backup_exists {
                assert(r@.skip(1) =~= seq![GuardOp::MoveBackupToGuard]);
                assert(r@.skip(1).skip(1) =~= Seq::<GuardOp>::empty());
            } else {
                assert(r@.skip(1) =~= Seq::<GuardOp>::empty());
            }
        }
    }
    r
}

impl GuardFiles {
    /// Performs one step on files held in memory.
    pub fn apply(&mut self, op: GuardOp)
        ensures
            final(self)@ == apply_op(old(self)@, op),
    {
        match op {
            GuardOp::MoveGuardToBackup => {
                if self.guard.is_some() {
                    self.backup = self.guard.take();
                }
            },
            GuardOp::WriteGuard => {
                self.guard = Some(vec![GUARD_SENTINEL]);
                assert(opt_view(self.guard) =~= Some(seq![GUARD_SENTINEL]));
            },
            GuardOp::RemoveGuard => {
                self.guard = None;
            },
            GuardOp::MoveBackupToGuard => {
                if self.backup.is_some() {
                    self.guard = self.backup.take();
                }
            },
        }
    }

    /// Performs a sequence of steps on files held in memory, in order.
    pub fn apply_all(&mut self, ops: &Vec<GuardOp>)
        ensures
            final(self)@ == apply_ops(old(self)@, ops@),
    {
        let mut i: usize = 0;
        assert(ops@.skip(0) =~= ops@);
        while i < ops.len()
            invariant
                i <= ops@.len(),
                apply_ops(self@, ops@.skip(i as int)) == apply_ops(old(self)@, ops@),
            decreases ops@.len() - i,
        {
            assert(ops@.skip(i as int).skip(1) =~= ops@.skip(i + 1));
            self.apply(ops[i]);
            i = i + 1;
        }
    }
}

/// A handoff followed by a restore leaves the guard files as they were, where
/// no backup existed before the launch: a missing guard file stays missing, and
/// an existing one gets its content back, with no backup left behind.
pub proof fn lemma_handoff_then_restore(s: (Option<Seq<u8>>, Option<Seq<u8>>))
    requires
        s.1.is_none(),
    ensures
        restore_spec(handoff_spec(s)) == s,
{
}

/// Number of polls for the game process before the watchdog gives up.
pub const POLL_LIMIT: u32 = 180;

/// Pause between two polls, in milliseconds.
pub const POLL_INTERVAL_MS: u64 = 1000;

/// Pause after the watch, for the game to read the guard file, in milliseconds.
pub const GRACE_MS: u64 = 2000;

/// Where the watchdog stands.
#[derive(Clone, Copy, Debug, PartialEq, Eq, Structural)]
pub enum WatchPhase {
    Polling,
    Grace,
    Finished,
}

/// What the caller does next for the watchdog.
#[derive(Clone, Copy, Debug, PartialEq, Eq, Structural)]
pub enum WatchAction {
    /// Sleep this many milliseconds, then step again.
    Sleep(u64),
    /// Restore the guard files; the watch is over.
    Restore,
    /// Nothing is left to do.
    Idle,
}

/// The watchdog that runs after a launch: it polls for the game process once a
/// second, up to `POLL_LIMIT` times, stops early once the process is seen or at
/// once when the launch failed to start, waits a grace period, then restores
/// the guard files. Its outcome is not reported to the launcher's caller.
#[derive(Clone, Copy, Debug)]
pub struct Watchdog {
    pub remaining: u32,
    pub start_failed: bool,
    pub phase: WatchPhase,
}

impl Watchdog {
    /// Steps that remain before the restore has been handed out.
    pub open spec fn steps_left(&self) -> nat {
        match self.phase {
            WatchPhase::Polling => self.remaining as nat + 2,
            WatchPhase::Grace => 1,
            WatchPhase::Finished => 0,
        }
    }

    /// A watchdog for a launch whose start call failed or succeeded.
    pub fn new(start_failed: bool) -> (r: Watchdog)
        ensures
            r.remaining == POLL_LIMIT,
            r.start_failed == start_failed,
            r.phase == WatchPhase::Polling,
            r.steps_left() == POLL_LIMIT + 2,
    {
        Watchdog { remaining: POLL_LIMIT, start_failed, phase: WatchPhase::Polling }
    }

    /// One step, given whether the game process is running now (read only
    /// while polling). Every step but the last brings the restore closer; the
    /// restore is handed out exactly once.
    pub fn step(&mut self, process_running: bool) -> (r: WatchAction)
        ensures
            final(self).start_failed == old(self).start_failed,
            old(self).phase == WatchPhase::Polling ==> {
                if old(self).remaining > 0 && !process_running && !old(self).start_failed {
                    &&& r == WatchAction::Sleep(POLL_INTERVAL_MS)
                    &&& final(self).phase == WatchPhase::Polling
                    &&& final(self).remaining == old(self).remaining - 1
                } else {
                    &&& r == WatchAction::Sleep(GRACE_MS)
                    &&& final(self).phase == WatchPhase::Grace
                }
            },
            old(self).phase == WatchPhase::Grace ==> r == WatchAction::Restore && final(self).phase
                == WatchPhase::Finished,
            old(self).phase == WatchPhase::Finished ==> r == WatchAction::Idle && *final(self)
                == *old(self),
            old(self).steps_left() > 0 ==> final(self).steps_left() < old(self).steps_left(),
    {
        match self.phase {
            WatchPhase::Polling => {
                if self.remaining > 0 && !process_running && !self.start_failed {
                    self.remaining = self.remaining - 1;
                    WatchAction::Sleep(POLL_INTERVAL_MS)
                } else {
                    self.phase = WatchPhase::Grace;
                    WatchAction::Sleep(GRACE_MS)
                }
            },
            WatchPhase::Grace => {
                self.phase = WatchPhase::Finished;
                WatchAction::Restore
            },
            WatchPhase::Finished => WatchAction::Idle,
        }
    }
}

/// Where a launch attempt stands.
#[derive(Clone, Copy, Debug, PartialEq, Eq, Structural)]
pub enum LaunchPhase {
    Idle,
    /// The channel checks passed.
    Prepared,
    /// The guard file is in place; the launch protocol is being invoked.
    Handoff,
    /// The watchdog is running.
    Watching,
    /// The guard files are back in their pre-launch state.
    Restored,
    /// The channel checks failed; nothing was touched.
    Refused,
}

/// One launch attempt, from the channel checks to the restore of the guard
/// files. Every transition is a call; the caller performs the file and
/// process work that each returns.
#[derive(Clone, Copy, Debug)]
pub struct LaunchSequencer {
    pub phase: LaunchPhase,
    pub watchdog: Watchdog,
}

impl LaunchSequencer {
    pub fn new() -> (r: LaunchSequencer)
        ensures
            r.phase == LaunchPhase::Idle,
    {
        LaunchSequencer { phase: LaunchPhase::Idle, watchdog: Watchdog::new(false) }
    }

    /// The channel checks. A refusal is final: the attempt never reaches the handoff.
    pub fn prepare(
        &mut self,
        install_type: InstallType,
        steam_found: bool,
        host_is_windows: bool,
        compat_tool_name: Option<String>,
    ) -> (r: Result<(), LaunchError>)
        requires
            old(self).phase == LaunchPhase::Idle,
        ensures
            r == preconditions_spec(
                install_type,
                steam_found,
                host_is_windows,
                match compat_tool_name {
                    Some(n) => Some(n@),
                    None => None,
                },
            ),
            final(self).phase == if r is Ok {
                LaunchPhase::Prepared
            } else {
                LaunchPhase::Refused
            },
    {
        let r = check_launch_preconditions(install_type, steam_found, host_is_windows, compat_tool_name);
        self.phase = if r.is_ok() {
            LaunchPhase::Prepared
        } else {
            LaunchPhase::Refused
        };
        r
    }

    /// The guard-file steps before the launch, given whether the guard file exists.
    pub fn handoff(&mut self, guard_exists: bool) -> (r: Vec<GuardOp>)
        requires
            old(self).phase == LaunchPhase::Prepared,
        ensures
            final(self).phase == LaunchPhase::Handoff,
            forall|s: (Option<Seq<u8>>, Option<Seq<u8>>)|
                s.0.is_some() == guard_exists ==> #[trigger] apply_ops(s, r@) == handoff_spec(s),
    {
        self.phase = LaunchPhase::Handoff;
        handoff_ops(guard_exists)
    }

    /// Records whether the launch protocol started the game, and starts the
    /// watchdog, which fast-fails when it did not. The result is all that the
    /// launcher's caller learns.
    pub fn launched(&mut self, started: bool) -> (r: Result<String, LaunchError>)
        requires
            old(self).phase == LaunchPhase::Handoff,
        ensures
            final(self).phase == LaunchPhase::Watching,
            final(self).watchdog.remaining == POLL_LIMIT,
            final(self).watchdog.start_failed == !started,
            final(self).watchdog.phase == WatchPhase::Polling,
            started ==> (r matches Ok(m) && m@ == "Started game"@),
            !started ==> r == Err::<String, LaunchError>(LaunchError::StartFailed),
    {
        self.phase = LaunchPhase::Watching;
        self.watchdog = Watchdog::new(!started);
        if started {
            Ok(String::from_str("Started game"))
        } else {
            Err(LaunchError::StartFailed)
        }
    }

    /// One watchdog step, given whether the game process is running now.
    pub fn watch(&mut self, process_running: bool) -> (r: WatchAction)
        requires
            old(self).phase == LaunchPhase::Watching,
        ensures
            final(self).phase == LaunchPhase::Watching,
            r == WatchAction::Restore <==> (old(self).watchdog.phase == WatchPhase::Grace),
            final(self).watchdog.steps_left() < old(self).watchdog.steps_left() || old(
                self,
            ).watchdog.steps_left() == 0,
            final(self).watchdog.phase == WatchPhase::Finished <==> (old(self).watchdog.phase
                != WatchPhase::Polling),
    {
        self.watchdog.step(process_running)
    }

    /// The guard-file steps of the restore, given whether the backup exists.
    pub fn restore(&mut self, backup_exists: bool) -> (r: Vec<GuardOp>)
        requires
            old(self).phase == LaunchPhase::Watching,
            old(self).watchdog.phase == WatchPhase::Finished,
        ensures
            final(self).phase == LaunchPhase::Restored,
            forall|s: (Option<Seq<u8>>, Option<Seq<u8>>)|
                s.1.is_some() == backup_exists ==> #[trigger] apply_ops(s, r@) == restore_spec(s),
    {
        self.phase = LaunchPhase::Restored;
        restore_ops(backup_exists)
    }
}

} // verus!
