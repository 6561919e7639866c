use vmux_desktop::service_connect::{
    connect_step, unavailable_notice, ConnectAttempt, ConnectRetry, ConnectStep,
};

#[test]
fn retries_double_the_delay_then_give_up() {
    let mut retry = ConnectRetry::new();
    assert_eq!(retry.next_delay_ms, 50);
    assert_eq!(retry.remaining_attempts, 6);
    let mut delays = Vec::new();
    loop {
        let (step, next) = connect_step(retry, ConnectAttempt::NoSocket);
        retry = next;
        match step {
            ConnectStep::Retry { delay_ms } => delays.push(delay_ms),
            ConnectStep::GiveUp => break,
            ConnectStep::Connected => panic!("no connection was made"),
        }
    }
    assert_eq!(delays, vec![100, 200, 400, 800, 1600]);
    assert_eq!(retry.remaining_attempts, 0);
}

#[test]
fn failed_connection_counts_like_a_missing_socket() {
    let retry = ConnectRetry { next_delay_ms: 1600, remaining_attempts: 3 };
    let (step, next) = connect_step(retry, ConnectAttempt::Failed);
    assert_eq!(step, ConnectStep::Retry { delay_ms: 1600 });
    assert_eq!(next.remaining_attempts, 2);
    let (step, _) = connect_step(ConnectRetry { next_delay_ms: 50, remaining_attempts: 1 }, ConnectAttempt::Failed);
    assert_eq!(step, ConnectStep::GiveUp);
    let (step, _) = connect_step(ConnectRetry { next_delay_ms: 50, remaining_attempts: 0 }, ConnectAttempt::NoSocket);
    assert_eq!(step, ConnectStep::GiveUp);
}

#[test]
fn a_connection_ends_the_retries() {
    let (step, next) = connect_step(ConnectRetry::new(), ConnectAttempt::Connected);
    assert_eq!(step, ConnectStep::Connected);
    assert_eq!(next.remaining_attempts, 5);
    // Even the last attempt connects rather than giving up.
    let (step, _) = connect_step(ConnectRetry { next_delay_ms: 800, remaining_attempts: 1 }, ConnectAttempt::Connected);
    assert_eq!(step, ConnectStep::Connected);
    assert_eq!(
        unavailable_notice(),
        "vmux service unavailable \u{2014} run `vmux service logs` for details."
    );
}
