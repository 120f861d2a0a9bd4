use vstd::prelude::*;
use crate::zoom::{AdjustOp, FontAdjustment};

verus! {

/// The observed state of the remote-control link to one process.
#[derive(Debug, Clone, Copy, PartialEq, Eq, Structural)]
pub enum KittyConnectionStatus {
    Ready,
    NoSocket,
    NotConfigured,
    Failed,
}

/// What one font command came to.
#[derive(Debug, Clone, PartialEq, Eq)]
pub enum ZoomingResult {
    Success { pid: i32, font_adjustment: String },
    NotConfigured,
    ConnectionFailed,
    AuthFailed,
    Failed,
}

/// Each attempt sends this many adjustments of one step.
pub const STEPS_PER_COMMAND: u32 = 3;

/// The pause in milliseconds before the connection attempt that follows
/// `attempts` earlier ones: none before the first two, then 100, then 200.
pub open spec fn retry_delay(attempts: u32) -> u64 {
    if attempts <= 1 {
        0
    } else if attempts == 2 {
        100
    } else {
        200
    }
}

pub fn retry_delay_ms(attempts: u32) -> (r: u64)
    ensures
        r == retry_delay(attempts),
{
    if attempts <= 1 {
        0
    } else if attempts == 2 {
        100
    } else {
        200
    }
}

/// `pat` occurs in `s` as a contiguous run.
pub open spec fn occurs_in(s: Seq<char>, pat: Seq<char>) -> bool {
    exists|i: int| 0 <= i <= s.len() - pat.len() && #[trigger] s.subrange(i, i + pat.len()) == pat
}

/// An error text that speaks of authentication.
pub open spec fn is_auth_text(s: Seq<char>) -> bool {
    occurs_in(s, "auth"@) || occurs_in(s, "password"@)
}

fn matches_at(s: &str, s_len: usize, pat: &str, i: usize) -> (r: bool)
    requires
        s_len == s@.len(),
        i + pat@.len() <= s@.len(),
    ensures
        r == (s@.subrange(i as int, i + pat@.len()) == pat@),
{
    let n = pat.unicode_len();
    let mut k: usize = 0;
    while k < n
        invariant
            n == pat@.len(),
            s_len == s@.len(),
            i + n <= s@.len(),
            k <= n,
            forall|j: int| 0 <= j < k ==> s@[i + j] == pat@[j],
        decreases n - k,
    {
        if s.get_char(i + k) != pat.get_char(k) {
            assert(s@.subrange(i as int, i + n)[k as int] != pat@[k as int]);
            return false;
        }
        k = k + 1;
    }
    assert(s@.subrange(i as int, i + n) =~= pat@);
    true
}

/// Whether `pat` occurs in `s`.
pub fn contains_text(s: &str, pat: &str) -> (r: bool)
    ensures
        r == occurs_in(s@, pat@),
{
    let n = s.unicode_len();
    let m = pat.unicode_len();
    if m > n {
        return false;
    }
    if m == 0 {
        assert(s@.subrange(0, 0 + pat@.len() as int) =~= pat@);
        return true;
    }
    let mut i: usize = 0;
    while i <= n - m
        invariant
            n == s@.len(),
            m == pat@.len(),
            1 <= m <= n,
            i <= n - m + 1,
            forall|j: int| 0 <= j < i ==> #[trigger] s@.subrange(j, j + m) != pat@,
        decreases n - m + 1 - i,
    {
        if matches_at(s, n, pat, i) {
            return true;
        }
        i = i + 1;
    }
    false
}

/// Whether an error text speaks of authentication.
pub fn is_auth_error(msg: &str) -> (r: bool)
    ensures
        r == is_auth_text(msg@),
{
    contains_text(msg, "auth") || contains_text(msg, "password")
}

/// The adjustment text reported on success: the direction, then the count.
pub open spec fn adjustment_text(increase: bool) -> Seq<char> {
    if increase {
        "+3"@
    } else {
        "-3"@
    }
}

/// One step of one point up or down: what a font command sends each time.
pub open spec fn unit_step(increase: bool) -> FontAdjustment {
    FontAdjustment {
        op: if increase {
            AdjustOp::Increase
        } else {
            AdjustOp::Decrease
        },
        numerator: 1,
        denominator: 1,
    }
}

pub fn step_adjustment(increase: bool) -> (r: FontAdjustment)
    ensures
        r == unit_step(increase),
{
    FontAdjustment {
        op: if increase {
            AdjustOp::Increase
        } else {
            AdjustOp::Decrease
        },
        numerator: 1,
        denominator: 1,
    }
}

pub open spec fn op_text(op: AdjustOp) -> Seq<char> {
    match op {
        AdjustOp::Increase => "+"@,
        AdjustOp::Decrease => "-"@,
        AdjustOp::Multiply => "*"@,
        AdjustOp::Divide => "/"@,
    }
}

fn op_string(op: AdjustOp) -> (r: String)
    ensures
        r@ == op_text(op),
{
    match op {
        AdjustOp::Increase => String::from_str("+"),
        AdjustOp::Decrease => String::from_str("-"),
        AdjustOp::Multiply => String::from_str("*"),
        AdjustOp::Divide => String::from_str("/"),
    }
}

/// The text reported on success: for a font command of three steps, the
/// direction and the count; for a single adjustment, its kind.
pub open spec fn success_text(increase: bool, adjustment: FontAdjustment, steps: u32) -> Seq<char> {
    if steps == STEPS_PER_COMMAND {
        adjustment_text(increase)
    } else {
        op_text(adjustment.op)
    }
}

#[derive(Debug, Clone, Copy, PartialEq, Eq, Structural)]
pub enum RunPhase {
    Connecting,
    Sending,
    Finished,
}

/// What the caller of a [`FontCommandRun`] is to do next.
#[derive(Debug, Clone, Copy, PartialEq, Eq, Structural)]
pub enum RunAction {
    /// Wait `delay_ms`, then obtain a session for `pid`, reusing a pooled one.
    Connect { pid: i32, delay_ms: u64 },
    /// Send this font adjustment over the session.
    Send { pid: i32, adjustment: FontAdjustment },
    /// Nothing is left to do: read the outcome.
    Finish,
}

/// One font command on one process, from its preconditions through its
/// connection attempts: the caller performs each action and reports back.
pub struct FontCommandRun {
    origin_pid: i32,
    kitty_pid: i32,
    increase: bool,
    adjustment: FontAdjustment,
    steps: u32,
    max_retries: u32,
    attempts: u32,
    sent: u32,
    phase: RunPhase,
    last_error: Option<String>,
    outcome: Option<ZoomingResult>,
    status: Option<KittyConnectionStatus>,
}

impl FontCommandRun {
    pub closed spec fn origin_pid_spec(&self) -> i32 {
        self.origin_pid
    }

    pub closed spec fn kitty_pid_spec(&self) -> i32 {
        self.kitty_pid
    }

    pub closed spec fn increase_spec(&self) -> bool {
        self.increase
    }

    /// The adjustment sent each time.
    pub closed spec fn adjustment_spec(&self) -> FontAdjustment {
        self.adjustment
    }

    /// How many acknowledged adjustments make an attempt a success.
    pub closed spec fn steps_spec(&self) -> u32 {
        self.steps
    }

    pub closed spec fn max_retries_spec(&self) -> u32 {
        self.max_retries
    }

    /// Connection attempts made so far.
    pub closed spec fn attempts_spec(&self) -> u32 {
        self.attempts
    }

    /// Adjustments acknowledged within the current attempt.
    pub closed spec fn sent_spec(&self) -> u32 {
        self.sent
    }

    pub closed spec fn phase_spec(&self) -> RunPhase {
        self.phase
    }

    pub closed spec fn outcome_spec(&self) -> Option<ZoomingResult> {
        self.outcome
    }

    pub closed spec fn status_spec(&self) -> Option<KittyConnectionStatus> {
        self.status
    }

    pub closed spec fn last_error_spec(&self) -> Option<Seq<char>> {
        match self.last_error {
            Some(e) => Some(e@),
            None => None,
        }
    }

    /// The failure reported once the attempts are used up.
    pub open spec fn failure_of(last_error: Option<Seq<char>>) -> ZoomingResult {
        match last_error {
            Some(e) => if is_auth_text(e) {
                ZoomingResult::AuthFailed
            } else {
                ZoomingResult::ConnectionFailed
            },
            None => ZoomingResult::ConnectionFailed,
        }
    }

    pub open spec fn is_success_for(r: ZoomingResult, pid: i32, text: Seq<char>) -> bool {
        match r {
            ZoomingResult::Success { pid: p, font_adjustment } => p == pid && font_adjustment@ == text,
            _ => false,
        }
    }

    /// Attempts never exceed the retry limit; adjustments are sent only
    /// within an attempt and never more than the run's step count; a
    /// success follows exactly that many acknowledged adjustments.
    pub open spec fn well_formed(&self) -> bool {
        &&& self.attempts_spec() <= self.max_retries_spec()
        &&& self.steps_spec() >= 1
        &&& self.sent_spec() <= self.steps_spec()
        &&& self.phase_spec() == RunPhase::Connecting ==> self.attempts_spec() < self.max_retries_spec()
            && self.sent_spec() == 0 && self.outcome_spec() is None
        &&& self.phase_spec() == RunPhase::Sending ==> self.attempts_spec() >= 1 && self.sent_spec()
            < self.steps_spec() && self.outcome_spec() is None
        &&& self.phase_spec() == RunPhase::Finished ==> self.outcome_spec() is Some
        &&& (self.outcome_spec() matches Some(ZoomingResult::Success { .. })) ==> self.sent_spec()
            == self.steps_spec() && self.attempts_spec() >= 1 && Self::is_success_for(
            self.outcome_spec().unwrap(),
            self.origin_pid_spec(),
            success_text(self.increase_spec(), self.adjustment_spec(), self.steps_spec()),
        ) && self.status_spec() == Some(KittyConnectionStatus::Ready)
    }

    /// How a run starts: without a terminal process, a credential or a
    /// socket it ends at once, with no connection attempt; with no retries
    /// it fails at once; otherwise it connects first.
    pub open spec fn started(
        &self,
        origin_pid: i32,
        kitty_pid: Option<i32>,
        credential_present: bool,
        socket_present: bool,
        max_retries: u32,
    ) -> bool {
        &&& self.well_formed()
        &&& self.origin_pid_spec() == origin_pid
        &&& self.max_retries_spec() == max_retries
        &&& self.attempts_spec() == 0
        &&& self.sent_spec() == 0
        &&& self.last_error_spec() is None
        &&& kitty_pid is Some ==> self.kitty_pid_spec() == kitty_pid.unwrap()
        &&& kitty_pid is None ==> self.phase_spec() == RunPhase::Finished && self.outcome_spec() == Some(
            ZoomingResult::NotConfigured,
        ) && self.status_spec() == Some(KittyConnectionStatus::NoSocket)
        &&& kitty_pid is Some && !credential_present ==> self.phase_spec() == RunPhase::Finished
            && self.outcome_spec() == Some(ZoomingResult::NotConfigured) && self.status_spec() == Some(
            KittyConnectionStatus::NotConfigured,
        )
        &&& kitty_pid is Some && credential_present && !socket_present ==> self.phase_spec()
            == RunPhase::Finished && self.outcome_spec() == Some(ZoomingResult::NotConfigured)
            && self.status_spec() == Some(KittyConnectionStatus::NoSocket)
        &&& kitty_pid is Some && credential_present && socket_present && max_retries == 0
            ==> self.phase_spec() == RunPhase::Finished && self.outcome_spec() == Some(
            ZoomingResult::ConnectionFailed,
        ) && self.status_spec() == Some(KittyConnectionStatus::Failed)
        &&& kitty_pid is Some && credential_present && socket_present && max_retries > 0
            ==> self.phase_spec() == RunPhase::Connecting && self.status_spec() is None
    }

    /// Starts a font command for the shell process `origin_pid`, whose
    /// terminal process was resolved to `kitty_pid` (none if it could not
    /// be found): three steps of one point, up or down.
    pub fn new(
        origin_pid: i32,
        kitty_pid: Option<i32>,
        credential_present: bool,
        socket_present: bool,
        increase: bool,
        max_retries: u32,
    ) -> (r: Self)
        ensures
            r.started(origin_pid, kitty_pid, credential_present, socket_present, max_retries),
            r.increase_spec() == increase,
            r.adjustment_spec() == unit_step(increase),
            r.steps_spec() == STEPS_PER_COMMAND,
    {
        let adjustment = step_adjustment(increase);
        Self::start(
            origin_pid,
            kitty_pid,
            credential_present,
            socket_present,
            increase,
            adjustment,
            STEPS_PER_COMMAND,
            max_retries,
        )
    }

    /// Starts a run that sends one planned adjustment to the terminal of
    /// `origin_pid`, under the same checks and retries as a font command.
    pub fn for_adjustment(
        origin_pid: i32,
        kitty_pid: Option<i32>,
        credential_present: bool,
        socket_present: bool,
        adjustment: FontAdjustment,
        max_retries: u32,
    ) -> (r: Self)
        ensures
            r.started(origin_pid, kitty_pid, credential_present, socket_present, max_retries),
            r.adjustment_spec() == adjustment,
            r.steps_spec() == 1,
    {
        let increase = match adjustment.op {
            AdjustOp::Increase => true,
            _ => false,
        };
        Self::start(origin_pid, kitty_pid, credential_present, socket_present, increase, adjustment, 1, max_retries)
    }

    fn start(
        origin_pid: i32,
        kitty_pid: Option<i32>,
        credential_present: bool,
        socket_present: bool,
        increase: bool,
        adjustment: FontAdjustment,
        steps: u32,
        max_retries: u32,
    ) -> (r: Self)
        requires
            steps >= 1,
        ensures
            r.started(origin_pid, kitty_pid, credential_present, socket_present, max_retries),
            r.increase_spec() == increase,
            r.adjustment_spec() == adjustment,
            r.steps_spec() == steps,
    {
        let mut run = FontCommandRun {
            origin_pid,
            kitty_pid: match kitty_pid {
                Some(k) => k,
                None => origin_pid,
            },
            increase,
            adjustment,
            steps,
            max_retries,
            attempts: 0,
            sent: 0,
            phase: RunPhase::Finished,
            last_error: None,
            outcome: Some(ZoomingResult::NotConfigured),
            status: None,
        };
        if kitty_pid.is_none() {
            run.status = Some(KittyConnectionStatus::NoSocket);
        } else if !credential_present {
            run.status = Some(KittyConnectionStatus::NotConfigured);
        } else if !socket_present {
            run.status = Some(KittyConnectionStatus::NoSocket);
        } else if max_retries == 0 {
            run.outcome = Some(ZoomingResult::ConnectionFailed);
            run.status = Some(KittyConnectionStatus::Failed);
        } else {
            run.phase = RunPhase::Connecting;
            run.outcome = None;
        }
        run
    }

    pub fn phase(&self) -> (r: RunPhase)
        ensures
            r == self.phase_spec(),
    {
        self.phase
    }

    pub fn attempts(&self) -> (r: u32)
        ensures
            r == self.attempts_spec(),
    {
        self.attempts
    }

    pub fn kitty_pid(&self) -> (r: i32)
        ensures
            r == self.kitty_pid_spec(),
    {
        self.kitty_pid
    }

    pub fn origin_pid(&self) -> (r: i32)
        ensures
            r == self.origin_pid_spec(),
    {
        self.origin_pid
    }

    /// The result, once the run is finished.
    pub fn outcome(&self) -> (r: Option<ZoomingResult>)
        ensures
            r is Some <==> self.outcome_spec() is Some,
            r is Some ==> (r.unwrap() matches ZoomingResult::Success { .. }) == (
            self.outcome_spec().unwrap() matches ZoomingResult::Success { .. }),
            self.outcome_spec() matches Some(ZoomingResult::Success { pid, font_adjustment })
                ==> r matches Some(ZoomingResult::Success { pid: p, font_adjustment: a }) && p == pid
                && a@ == font_adjustment@,
            !(self.outcome_spec() matches Some(ZoomingResult::Success { .. })) ==> r
                == self.outcome_spec(),
    {
        match &self.outcome {
            Some(ZoomingResult::Success { pid, font_adjustment }) => {
                Some(ZoomingResult::Success { pid: *pid, font_adjustment: copy_text(font_adjustment) })
            },
            Some(ZoomingResult::NotConfigured) => Some(ZoomingResult::NotConfigured),
            Some(ZoomingResult::ConnectionFailed) => Some(ZoomingResult::ConnectionFailed),
            Some(ZoomingResult::AuthFailed) => Some(ZoomingResult::AuthFailed),
            Some(ZoomingResult::Failed) => Some(ZoomingResult::Failed),
            None => None,
        }
    }

    /// The status to record for the shell process once the run is finished.
    pub fn status(&self) -> (r: Option<KittyConnectionStatus>)
        ensures
            r == self.status_spec(),
    {
        self.status
    }

    /// The next thing to do.
    pub fn next_action(&self) -> (r: RunAction)
        requires
            self.well_formed(),
        ensures
            self.phase_spec() == RunPhase::Connecting ==> r == (RunAction::Connect {
                pid: self.kitty_pid_spec(),
                delay_ms: retry_delay(self.attempts_spec()),
            }),
            self.phase_spec() == RunPhase::Sending ==> r == (RunAction::Send {
                pid: self.kitty_pid_spec(),
                adjustment: self.adjustment_spec(),
            }),
            self.phase_spec() == RunPhase::Finished ==> r == RunAction::Finish,
    {
        match self.phase {
            RunPhase::Connecting => RunAction::Connect {
                pid: self.kitty_pid,
                delay_ms: retry_delay_ms(self.attempts),
            },
            RunPhase::Sending => RunAction::Send { pid: self.kitty_pid, adjustment: self.adjustment },
            RunPhase::Finished => RunAction::Finish,
        }
    }

    fn give_up(&mut self)
        requires
            old(self).attempts_spec() == old(self).max_retries_spec(),
            old(self).steps_spec() >= 1,
        ensures
            final(self).phase_spec() == RunPhase::Finished,
            final(self).outcome_spec() == Some(Self::failure_of(old(self).last_error_spec())),
            final(self).status_spec() == Some(KittyConnectionStatus::Failed),
            final(self).attempts_spec() == old(self).attempts_spec(),
            final(self).sent_spec() == 0,
            final(self).last_error_spec() == old(self).last_error_spec(),
            final(self).origin_pid_spec() == old(self).origin_pid_spec(),
            final(self).kitty_pid_spec() == old(self).kitty_pid_spec(),
            final(self).increase_spec() == old(self).increase_spec(),
            final(self).adjustment_spec() == old(self).adjustment_spec(),
            final(self).steps_spec() == old(self).steps_spec(),
            final(self).max_retries_spec() == old(self).max_retries_spec(),
            final(self).well_formed(),
    {
        let auth = match &self.last_error {
            Some(e) => is_auth_error(e.as_str()),
            None => false,
        };
        self.outcome = Some(if auth { ZoomingResult::AuthFailed } else { ZoomingResult::ConnectionFailed });
        self.status = Some(KittyConnectionStatus::Failed);
        self.phase = RunPhase::Finished;
        self.sent = 0;
    }

    /// Reports how a connection attempt went: with a session the
    /// adjustments follow; after a failure the next attempt follows, or,
    /// when the attempts are used up, the run fails.
    pub fn on_connect_result(&mut self, result: Result<(), String>)
        requires
            old(self).well_formed(),
            old(self).phase_spec() == RunPhase::Connecting,
        ensures
            final(self).well_formed(),
            final(self).attempts_spec() == old(self).attempts_spec() + 1,
            final(self).origin_pid_spec() == old(self).origin_pid_spec(),
            final(self).kitty_pid_spec() == old(self).kitty_pid_spec(),
            final(self).increase_spec() == old(self).increase_spec(),
            final(self).adjustment_spec() == old(self).adjustment_spec(),
            final(self).steps_spec() == old(self).steps_spec(),
            final(self).max_retries_spec() == old(self).max_retries_spec(),
            final(self).sent_spec() == 0,
            result is Ok ==> final(self).phase_spec() == RunPhase::Sending
                && final(self).last_error_spec() == old(self).last_error_spec(),
            result matches Err(e) ==> final(self).last_error_spec() == Some(e@),
            result is Err && final(self).attempts_spec() < final(self).max_retries_spec()
                ==> final(self).phase_spec() == RunPhase::Connecting,
            result matches Err(e) ==> (final(self).attempts_spec() == final(self).max_retries_spec()
                ==> final(self).phase_spec() == RunPhase::Finished && final(self).outcome_spec()
                == Some(Self::failure_of(Some(e@))) && final(self).status_spec() == Some(
                KittyConnectionStatus::Failed,
            )),
    {
        self.attempts = self.attempts + 1;
        match result {
            Ok(()) => {
                self.sent = 0;
                self.phase = RunPhase::Sending;
            },
            Err(e) => {
                self.last_error = Some(e);
                if self.attempts == self.max_retries {
                    self.give_up();
                }
            },
        }
    }

    /// Reports how one adjustment went: the third success in an attempt ends
    /// the run in success; a failure ends the attempt.
    pub fn on_command_result(&mut self, result: Result<(), String>)
        requires
            old(self).well_formed(),
            old(self).phase_spec() == RunPhase::Sending,
        ensures
            final(self).well_formed(),
            final(self).attempts_spec() == old(self).attempts_spec(),
            final(self).origin_pid_spec() == old(self).origin_pid_spec(),
            final(self).kitty_pid_spec() == old(self).kitty_pid_spec(),
            final(self).increase_spec() == old(self).increase_spec(),
            final(self).adjustment_spec() == old(self).adjustment_spec(),
            final(self).steps_spec() == old(self).steps_spec(),
            final(self).max_retries_spec() == old(self).max_retries_spec(),
            result is Ok ==> final(self).sent_spec() == old(self).sent_spec() + 1
                && final(self).last_error_spec() == old(self).last_error_spec(),
            result is Ok && final(self).sent_spec() < final(self).steps_spec() ==> final(self).phase_spec()
                == RunPhase::Sending,
            result is Ok && final(self).sent_spec() == final(self).steps_spec() ==> final(self).phase_spec()
                == RunPhase::Finished && Self::is_success_for(
                final(self).outcome_spec().unwrap(),
                final(self).origin_pid_spec(),
                success_text(final(self).increase_spec(), final(self).adjustment_spec(), final(self).steps_spec()),
            ) && final(self).status_spec() == Some(KittyConnectionStatus::Ready),
            result matches Err(e) ==> final(self).last_error_spec() == Some(e@) && final(self).sent_spec()
                == 0,
            result is Err && final(self).attempts_spec() < final(self).max_retries_spec()
                ==> final(self).phase_spec() == RunPhase::Connecting,
            result matches Err(e) ==> (final(self).attempts_spec() == final(self).max_retries_spec()
                ==> final(self).phase_spec() == RunPhase::Finished && final(self).outcome_spec()
                == Some(Self::failure_of(Some(e@))) && final(self).status_spec() == Some(
                KittyConnectionStatus::Failed,
            )),
    {
        match result {
            Ok(()) => {
                self.sent = self.sent + 1;
                if self.sent == self.steps {
                    let text = if self.steps != STEPS_PER_COMMAND {
                        op_string(self.adjustment.op)
                    } else if self.increase {
                        String::from_str("+3")
                    } else {
                        String::from_str("-3")
                    };
                    self.outcome = Some(
                        ZoomingResult::Success { pid: self.origin_pid, font_adjustment: text },
                    );
                    self.status = Some(KittyConnectionStatus::Ready);
                    self.phase = RunPhase::Finished;
                }
            },
            Err(e) => {
                self.last_error = Some(e);
                self.sent = 0;
                if self.attempts == self.max_retries {
                    self.give_up();
                } else {
                    self.phase = RunPhase::Connecting;
                }
            },
        }
    }
}

/// A run never makes more connection attempts than its retry limit, and
/// it succeeds only after exactly its step count of adjustments (three for
/// a font command, see `new`) were acknowledged within one attempt.
pub proof fn lemma_run_bounded(run: FontCommandRun)
    requires
        run.well_formed(),
    ensures
        run.attempts_spec() <= run.max_retries_spec(),
        run.outcome_spec() matches Some(ZoomingResult::Success { .. }) ==> run.sent_spec() == run.steps_spec()
            && run.attempts_spec() >= 1,
        run.phase_spec() == RunPhase::Connecting ==> run.attempts_spec() < run.max_retries_spec(),
        run.outcome_spec() is Some ==> run.phase_spec() == RunPhase::Finished,
{
}

fn copy_text(s: &String) -> (r: String)
    ensures
        r@ == s@,
{
    s.as_str().to_owned()
}

} // verus!
