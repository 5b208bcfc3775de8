use crunchyroll_migrate::retry::{
    classify, is_cloudflare_block, is_conflict, is_transient, FailureClass, RemoteError, RetryState, RetryStep,
};

/// Runs `op` under the retry policy; returns the result, the number of
/// attempts and the waits in seconds.
fn drive(mut op: impl FnMut(u32) -> Result<(), RemoteError>) -> (Result<(), RemoteError>, u32, Vec<u64>) {
    let mut state = RetryState::new();
    let mut attempts = 0;
    let mut waits = Vec::new();
    loop {
        let outcome = op(attempts);
        attempts += 1;
        match state.step(outcome) {
            RetryStep::Finish(r) => return (r, attempts, waits),
            RetryStep::Sleep { secs, next } => {
                waits.push(secs);
                state = next;
            }
        }
    }
}

#[test]
fn is_transient_matches_status_strings() {
    assert!(is_transient(&RemoteError::transport("server returned 429")));
    assert!(is_transient(&RemoteError::transport("got 500 internal")));
    assert!(is_transient(&RemoteError::transport("502 bad gateway")));
    assert!(is_transient(&RemoteError::transport("503 unavailable")));
    assert!(is_transient(&RemoteError::transport("504 gateway timeout")));
    assert!(is_transient(&RemoteError::transport("connection timeout")));
}

#[test]
fn is_transient_rejects_non_transient() {
    assert!(!is_transient(&RemoteError::transport("not found")));
    assert!(!is_transient(&RemoteError::transport("forbidden")));
    assert!(!is_transient(&RemoteError::transport("400 bad request")));
}

#[test]
fn is_transient_reads_structured_status() {
    let status = |code| RemoteError::Status { code, detail: String::new() };
    assert!(is_transient(&status(429)));
    assert!(is_transient(&status(500)));
    assert!(is_transient(&status(599)));
    assert!(!is_transient(&status(409)));
    assert!(!is_transient(&status(404)));
    assert!(!is_transient(&status(600)));
    assert!(!is_transient(&RemoteError::Block));
}

#[test]
fn is_conflict_rejects_plain_errors() {
    assert!(!is_conflict(&RemoteError::transport("409 conflict")));
    assert!(!is_conflict(&RemoteError::transport("something else")));
    assert!(is_conflict(&RemoteError::Status { code: 409, detail: String::new() }));
}

#[test]
fn is_cloudflare_block_rejects_plain_errors() {
    assert!(!is_cloudflare_block(&RemoteError::transport("blocked")));
    assert!(!is_cloudflare_block(&RemoteError::transport("cloudflare")));
    assert!(is_cloudflare_block(&RemoteError::Block));
}

#[test]
fn classify_in_priority_order() {
    assert_eq!(classify(&RemoteError::Block), FailureClass::Block);
    assert_eq!(classify(&RemoteError::Status { code: 409, detail: String::new() }), FailureClass::Conflict);
    assert_eq!(classify(&RemoteError::Status { code: 503, detail: String::new() }), FailureClass::Transient);
    assert_eq!(classify(&RemoteError::transport("timeout")), FailureClass::Transient);
    assert_eq!(classify(&RemoteError::transport("400 bad request")), FailureClass::Permanent);
}

#[test]
fn retry_succeeds_immediately() {
    let (result, attempts, waits) = drive(|_| Ok(()));
    assert!(result.is_ok());
    assert_eq!(attempts, 1);
    assert!(waits.is_empty());
}

#[test]
fn retry_succeeds_after_transient_failure() {
    let (result, attempts, waits) =
        drive(|n| if n < 2 { Err(RemoteError::transport("server returned 429")) } else { Ok(()) });
    assert!(result.is_ok());
    assert_eq!(attempts, 3);
    assert_eq!(waits, vec![2, 4]);
}

#[test]
fn retry_gives_up_on_permanent_error() {
    let (result, attempts, waits) = drive(|_| Err(RemoteError::transport("400 bad request")));
    assert!(result.is_err());
    assert_eq!(attempts, 1);
    assert!(waits.is_empty());
}

#[test]
fn retry_does_not_repeat_a_conflict() {
    let conflict = RemoteError::Status { code: 409, detail: "already exists".to_string() };
    let (result, attempts, _) = drive(|_| Err(conflict.clone()));
    assert_eq!(result, Err(conflict));
    assert_eq!(attempts, 1);
}

#[test]
fn retry_backoff_doubles_then_caps() {
    let (result, attempts, waits) = drive(|_| Err(RemoteError::Status { code: 503, detail: String::new() }));
    assert!(result.is_err());
    assert_eq!(attempts, 6);
    assert_eq!(waits, vec![2, 4, 8, 16, 32]);
    let mut state = RetryState { attempt: 0, delay_secs: 32 };
    match state.step(Err(RemoteError::transport("timeout"))) {
        RetryStep::Sleep { secs, next } => {
            assert_eq!(secs, 32);
            state = next;
        }
        other => panic!("unexpected {:?}", other),
    }
    assert_eq!(state.delay_secs, 32);
}

#[test]
fn retry_block_waits_cooldown_without_growing_backoff() {
    let (result, attempts, waits) =
        drive(|n| if n == 0 { Err(RemoteError::Block) } else if n == 1 { Err(RemoteError::transport("timeout")) } else { Ok(()) });
    assert!(result.is_ok());
    assert_eq!(attempts, 3);
    assert_eq!(waits, vec![60, 2]);
}
