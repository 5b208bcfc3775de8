use vstd::prelude::*;

verus! {

/// Number of additional attempts after the first one.
pub const MAX_RETRIES: u32 = 5;

/// Delay before the first retry of a transient failure.
pub const INITIAL_BACKOFF_SECS: u64 = 2;

/// Upper bound of the exponential backoff delay.
pub const MAX_BACKOFF_SECS: u64 = 32;

/// Cooldown applied after an anti-automation block.
pub const BLOCK_COOLDOWN_SECS: u64 = 60;

/// A failed remote call, as first seen at the boundary with the service.
#[derive(Debug, Clone, PartialEq, Eq)]
pub enum RemoteError {
    /// The service's anti-automation layer refused the request.
    Block,
    /// The service answered with an HTTP status.
    Status { code: u16, detail: String },
    /// A failure without a structured status; only its message is known.
    Transport { message: String },
}

/// What a failure means for the retry policy and for the accounting.
#[derive(Debug, Clone, Copy, PartialEq, Eq)]
pub enum FailureClass {
    Block,
    Conflict,
    Transient,
    Permanent,
}

/// `s` holds `p` as a contiguous run of characters.
pub open spec fn has_substring(s: Seq<char>, p: Seq<char>) -> bool {
    exists|i: int| 0 <= i <= s.len() - p.len() && #[trigger] s.subrange(i, i + p.len()) == p
}

/// Relies on `str::contains` with a `&str` pattern: true exactly when the
/// pattern occurs as a substring.
#[verifier::external_body]
fn str_contains(s: &str, pat: &str) -> (r: bool)
    ensures
        r == has_substring(s@, pat@),
{
    s.contains(pat)
}

pub open spec fn transient_status(code: u16) -> bool {
    code == 429 || (500 <= code && code <= 599)
}

/// The status-like fragments and keyword that mark an opaque failure as transient.
pub open spec fn transient_message(m: Seq<char>) -> bool {
    has_substring(m, "429"@) || has_substring(m, "500"@) || has_substring(m, "502"@)
        || has_substring(m, "503"@) || has_substring(m, "504"@) || has_substring(m, "timeout"@)
}

pub open spec fn spec_is_block(e: RemoteError) -> bool {
    e is Block
}

pub open spec fn spec_is_conflict(e: RemoteError) -> bool {
    match e {
        RemoteError::Status { code, .. } => code == 409,
        _ => false,
    }
}

pub open spec fn spec_is_transient(e: RemoteError) -> bool {
    match e {
        RemoteError::Block => false,
        RemoteError::Status { code, .. } => transient_status(code),
        RemoteError::Transport { message } => transient_message(message@),
    }
}

/// Classification in priority order: block, conflict, transient, anything else.
pub open spec fn class_of(e: RemoteError) -> FailureClass {
    if spec_is_block(e) {
        FailureClass::Block
    } else if spec_is_conflict(e) {
        FailureClass::Conflict
    } else if spec_is_transient(e) {
        FailureClass::Transient
    } else {
        FailureClass::Permanent
    }
}

impl RemoteError {
    /// An opaque failure known only by its message.
    pub fn transport(message: &str) -> (r: RemoteError)
        ensures
            r is Transport && r->message@ == message@,
    {
        RemoteError::Transport { message: String::from_str(message) }
    }
}

pub fn is_cloudflare_block(e: &RemoteError) -> (r: bool)
    ensures
        r == spec_is_block(*e),
{
    matches!(e, RemoteError::Block)
}

pub fn is_conflict(e: &RemoteError) -> (r: bool)
    ensures
        r == spec_is_conflict(*e),
{
    match e {
        RemoteError::Status { code, .. } => *code == 409,
        _ => false,
    }
}

pub fn is_transient(e: &RemoteError) -> (r: bool)
    ensures
        r == spec_is_transient(*e),
{
    match e {
        RemoteError::Block => false,
        RemoteError::Status { code, .. } => *code == 429 || (500 <= *code && *code <= 599),
        RemoteError::Transport { message } => {
            let m = message.as_str();
            str_contains(m, "429") || str_contains(m, "500") || str_contains(m, "502")
                || str_contains(m, "503") || str_contains(m, "504") || str_contains(m, "timeout")
        },
    }
}

pub fn classify(e: &RemoteError) -> (r: FailureClass)
    ensures
        r == class_of(*e),
{
    if is_cloudflare_block(e) {
        FailureClass::Block
    } else if is_conflict(e) {
        FailureClass::Conflict
    } else if is_transient(e) {
        FailureClass::Transient
    } else {
        FailureClass::Permanent
    }
}


/// Where a retried operation stands: how many attempts have failed so far and
/// the delay the next transient failure waits for.
#[derive(Debug, Clone, Copy, PartialEq, Eq)]
pub struct RetryState {
    pub attempt: u32,
    pub delay_secs: u64,
}

/// What to do after an attempt.
#[derive(Debug, PartialEq, Eq)]
pub enum RetryStep {
    /// Stop and hand this result to the caller.
    Finish(Result<(), RemoteError>),
    /// Wait `secs` seconds, then make another attempt from `next`.
    Sleep { secs: u64, next: RetryState },
}

pub open spec fn min_nat(a: nat, b: nat) -> nat {
    if a <= b { a } else { b }
}

/// The state in which a fresh operation starts.
pub open spec fn initial_retry() -> RetryState {
    RetryState { attempt: 0, delay_secs: INITIAL_BACKOFF_SECS }
}

/// After a failure of class `c` in state `st`: the wait and the next state, or
/// `None` when the failure is final.
pub open spec fn retry_after(st: RetryState, c: FailureClass) -> Option<(u64, RetryState)> {
    if st.attempt >= MAX_RETRIES {
        None
    } else {
        match c {
            FailureClass::Block => Some(
                (BLOCK_COOLDOWN_SECS, RetryState { attempt: (st.attempt + 1) as u32, delay_secs: st.delay_secs }),
            ),
            FailureClass::Transient => Some(
                (
                    st.delay_secs,
                    RetryState {
                        attempt: (st.attempt + 1) as u32,
                        delay_secs: min_nat((2 * st.delay_secs) as nat, MAX_BACKOFF_SECS as nat) as u64,
                    },
                ),
            ),
            _ => None,
        }
    }
}

/// The step taken after an attempt that returned `outcome`.
pub open spec fn step_spec(st: RetryState, outcome: Result<(), RemoteError>) -> RetryStep {
    match outcome {
        Ok(()) => RetryStep::Finish(Ok(())),
        Err(e) => match retry_after(st, class_of(e)) {
            None => RetryStep::Finish(Err(e)),
            Some(p) => RetryStep::Sleep { secs: p.0, next: p.1 },
        },
    }
}

impl RetryState {
    pub open spec fn wf(self) -> bool {
        self.attempt <= MAX_RETRIES && INITIAL_BACKOFF_SECS <= self.delay_secs <= MAX_BACKOFF_SECS
    }

    pub fn new() -> (r: RetryState)
        ensures
            r == initial_retry(),
            r.wf(),
    {
        RetryState { attempt: 0, delay_secs: INITIAL_BACKOFF_SECS }
    }

    /// Decides what follows an attempt: success and non-retryable failures
    /// finish at once; blocks and transient failures sleep and retry until the
    /// retries are spent.
    pub fn step(self, outcome: Result<(), RemoteError>) -> (r: RetryStep)
        requires
            self.wf(),
        ensures
            r == step_spec(self, outcome),
            r matches RetryStep::Sleep { next, .. } ==> next.wf(),
    {
        match outcome {
            Ok(()) => RetryStep::Finish(Ok(())),
            Err(e) => {
                if self.attempt >= MAX_RETRIES {
                    RetryStep::Finish(Err(e))
                } else {
                    match classify(&e) {
                        FailureClass::Block => RetryStep::Sleep {
                            secs: BLOCK_COOLDOWN_SECS,
                            next: RetryState { attempt: self.attempt + 1, delay_secs: self.delay_secs },
                        },
                        FailureClass::Transient => {
                            let doubled = 2 * self.delay_secs;
                            let capped = if doubled <= MAX_BACKOFF_SECS { doubled } else { MAX_BACKOFF_SECS };
                            RetryStep::Sleep {
                                secs: self.delay_secs,
                                next: RetryState { attempt: self.attempt + 1, delay_secs: capped },
                            }
                        },
                        _ => RetryStep::Finish(Err(e)),
                    }
                }
            },
        }
    }
}

/// One attempt's outcome as the policy sees it: `None` for success, else the
/// class of the failure.
pub open spec fn step_class(st: RetryState, o: Option<FailureClass>) -> Option<(u64, RetryState)> {
    match o {
        None => None,
        Some(c) => retry_after(st, c),
    }
}

/// Number of attempts made when the attempts return `outs` in turn, starting
/// from `st`; stops at the first finishing outcome or when `outs` runs out.
pub open spec fn run_attempts(st: RetryState, outs: Seq<Option<FailureClass>>) -> nat
    decreases outs.len(),
{
    if outs.len() == 0 {
        0
    } else {
        match step_class(st, outs[0]) {
            None => 1,
            Some(p) => 1 + run_attempts(p.1, outs.drop_first()),
        }
    }
}

/// The result of such a run: `Some(true)` on success, `Some(false)` when a
/// failure was final, `None` when `outs` ran out first.
pub open spec fn run_result(st: RetryState, outs: Seq<Option<FailureClass>>) -> Option<bool>
    decreases outs.len(),
{
    if outs.len() == 0 {
        None
    } else {
        match step_class(st, outs[0]) {
            None => Some(outs[0] is None),
            Some(p) => run_result(p.1, outs.drop_first()),
        }
    }
}

/// The waits of such a run, in order.
pub open spec fn run_waits(st: RetryState, outs: Seq<Option<FailureClass>>) -> Seq<u64>
    decreases outs.len(),
{
    if outs.len() == 0 {
        Seq::empty()
    } else {
        match step_class(st, outs[0]) {
            None => Seq::empty(),
            Some(p) => seq![p.0].add(run_waits(p.1, outs.drop_first())),
        }
    }
}

/// The `k`-th backoff delay (from zero): 2 s doubled `k` times, capped at 32 s.
pub open spec fn backoff_delay(k: nat) -> nat {
    min_nat(INITIAL_BACKOFF_SECS as nat * vstd::arithmetic::power2::pow2(k), MAX_BACKOFF_SECS as nat)
}

/// The state after `k` transient failures from the start.
pub open spec fn after_transients(k: nat) -> RetryState
    decreases k,
{
    if k == 0 {
        initial_retry()
    } else {
        let prev = after_transients((k - 1) as nat);
        RetryState {
            attempt: (prev.attempt + 1) as u32,
            delay_secs: min_nat((2 * prev.delay_secs) as nat, MAX_BACKOFF_SECS as nat) as u64,
        }
    }
}

/// The backoff schedule: after `k` transient failures the next wait is
/// `min(2 * 2^k, 32)` seconds, so the waits run 2, 4, 8, 16, 32, 32, ...
pub proof fn lemma_backoff_schedule(k: nat)
    ensures
        after_transients(k).delay_secs == backoff_delay(k),
        k <= MAX_RETRIES ==> after_transients(k).attempt == k,
    decreases k,
{
    vstd::arithmetic::power2::lemma_pow2_unfold(k + 1);
    if k == 0 {
        vstd::arithmetic::power2::lemma2_to64();
    } else {
        lemma_backoff_schedule((k - 1) as nat);
        vstd::arithmetic::power2::lemma_pow2_unfold(k);
        vstd::arithmetic::power2::lemma_pow2_pos((k - 1) as nat);
    }
}


/// `m` transient failures in a row.
pub open spec fn transient_run(m: nat) -> Seq<Option<FailureClass>> {
    Seq::new(m, |i: int| Some(FailureClass::Transient))
}

proof fn lemma_transients_then_success_from(j: nat, m: nat)
    requires
        j + m <= MAX_RETRIES,
    ensures
        run_attempts(after_transients(j), transient_run(m).push(None)) == m + 1,
        run_result(after_transients(j), transient_run(m).push(None)) == Some(true),
        run_waits(after_transients(j), transient_run(m).push(None)) =~= Seq::new(
            m,
            |i: int| backoff_delay(j + i as nat) as u64,
        ),
    decreases m,
{
    let outs = transient_run(m).push(None);
    lemma_backoff_schedule(j);
    if m > 0 {
        lemma_transients_then_success_from(j + 1, (m - 1) as nat);
        assert(outs.drop_first() =~= transient_run((m - 1) as nat).push(None));
        assert(step_class(after_transients(j), outs[0]) == Some(
            (after_transients(j).delay_secs, after_transients(j + 1)),
        ));
        let w = run_waits(after_transients(j), outs);
        assert forall|i: int| 0 <= i < m implies w[i] == backoff_delay(j + i as nat) as u64 by {
            if i > 0 {
                assert(w[i] == run_waits(after_transients(j + 1), outs.drop_first())[i - 1]);
                assert(j + 1 + (i - 1) as nat == j + i as nat);
            }
        }
    }
}

/// Transient failures followed by a success: with `k` failures (within the
/// retry budget) the operation succeeds after exactly `k + 1` attempts, having
/// waited the backoff delays 2 s, 4 s, ... in turn.
pub proof fn lemma_retry_transients_then_success(k: nat)
    requires
        k <= MAX_RETRIES,
    ensures
        run_attempts(initial_retry(), transient_run(k).push(None)) == k + 1,
        run_result(initial_retry(), transient_run(k).push(None)) == Some(true),
        run_waits(initial_retry(), transient_run(k).push(None)) =~= Seq::new(
            k,
            |i: int| backoff_delay(i as nat) as u64,
        ),
{
    lemma_transients_then_success_from(0, k);
    assert(after_transients(0) == initial_retry());
    assert(Seq::new(k, |i: int| backoff_delay(0 + i as nat) as u64) =~= Seq::new(
        k,
        |i: int| backoff_delay(i as nat) as u64,
    ));
}

/// A failure that is neither a block nor transient ends the operation after
/// that single attempt, with no wait.
pub proof fn lemma_retry_stops_on_final_failure(st: RetryState, outs: Seq<Option<FailureClass>>)
    requires
        outs.len() > 0,
        outs[0] == Some(FailureClass::Permanent) || outs[0] == Some(FailureClass::Conflict),
    ensures
        run_attempts(st, outs) == 1,
        run_result(st, outs) == Some(false),
        run_waits(st, outs) == Seq::<u64>::empty(),
{
}

/// Whatever the attempts return, an operation started from `st` is over
/// after at most `MAX_RETRIES + 1 - st.attempt` attempts.
pub proof fn lemma_retry_bounded(st: RetryState, outs: Seq<Option<FailureClass>>)
    requires
        st.attempt <= MAX_RETRIES,
        outs.len() >= MAX_RETRIES + 1 - st.attempt,
    ensures
        run_result(st, outs) is Some,
        1 <= run_attempts(st, outs) <= MAX_RETRIES + 1 - st.attempt,
    decreases outs.len(),
{
    match step_class(st, outs[0]) {
        None => {},
        Some(p) => {
            lemma_retry_bounded(p.1, outs.drop_first());
        },
    }
}

} // verus!
