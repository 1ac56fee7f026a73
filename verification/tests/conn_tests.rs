use sensor_central::conn::{classify, BleError, BleSensors, ConnectionError, DisconnectedDevice,
    MAX_RETRY_DELAY_SECS, RETRY_DELAY_INC_SECS};

#[test]
fn every_listed_fault_classifies_to_exactly_one_outcome() {
    let unrecoverable = [
        BleError::AuthenticationFailed,
        BleError::UuidNotFound,
        BleError::NoFdReturned,
        BleError::InvalidLength,
    ];
    for err in unrecoverable {
        match classify(err) {
            Some(ConnectionError::Unrecoverable(inner)) => assert_eq!(inner, err),
            other => panic!("{err:?} classified as {other:?}"),
        }
    }
    let recoverable = [
        BleError::DbusConnectionError { timed_out: true },
        BleError::CouldNotConnectToBus,
        BleError::CharacteristicNotFound,
        BleError::AuthenticationCanceled,
        BleError::BluezFailed,
        BleError::CouldNotConnectToDevice,
        BleError::InProgress,
        BleError::PairingTimeOut,
    ];
    for err in recoverable {
        match classify(err) {
            Some(ConnectionError::Recoverable(inner)) => assert_eq!(inner, err),
            other => panic!("{err:?} classified as {other:?}"),
        }
    }
}

#[test]
fn faults_outside_the_table_are_surfaced_not_swallowed() {
    assert_eq!(classify(BleError::Other), None);
    assert_eq!(classify(BleError::DbusConnectionError { timed_out: false }), None);
}

#[test]
fn is_recoverable_reads_the_classification() {
    assert!(ConnectionError::Recoverable(BleError::PairingTimeOut).is_recoverable());
    assert!(!ConnectionError::Unrecoverable(BleError::UuidNotFound).is_recoverable());
}

#[test]
fn backoff_grows_linearly_then_caps() {
    let mut d = DisconnectedDevice::fresh(0, 0);
    let mut previous = 0u64;
    for attempt in 1u64..=100 {
        d.schedule_retry(attempt);
        let expected = (attempt * RETRY_DELAY_INC_SECS).min(MAX_RETRY_DELAY_SECS);
        assert_eq!(d.next_try, expected);
        assert!(d.next_try >= previous, "delay shrank at attempt {attempt}");
        assert!(d.next_try <= MAX_RETRY_DELAY_SECS);
        previous = d.next_try;
    }
    // 100 failed attempts: the cap holds the delay at 1800 s, not 3000 s.
    assert_eq!(d.number_retries, 100);
    assert_eq!(d.next_try, 1800);
}

#[test]
fn should_retry_waits_out_the_delay() {
    let mut d = DisconnectedDevice::fresh(2, 1000);
    assert!(d.should_retry(1001));
    d.schedule_retry(1001);
    assert_eq!(d.next_try, 30);
    assert!(!d.should_retry(1031));
    assert!(d.should_retry(1032));
}

#[test]
fn pools_start_all_disconnected_and_due() {
    let pools = BleSensors::new(3, 50);
    assert_eq!(pools.connected.len(), 0);
    assert_eq!(pools.disconnected.len(), 3);
    for (i, d) in pools.disconnected.iter().enumerate() {
        assert_eq!(d.device, i);
        assert!(d.recoverable);
        assert_eq!(d.number_retries, 0);
        assert_eq!(d.next_try, 0);
    }
    assert_eq!(pools.due_retries(51), vec![0, 1, 2]);
    assert_eq!(pools.due_retries(50), vec![]);
}

#[test]
fn successful_connect_moves_the_peripheral_over() {
    let mut pools = BleSensors::new(3, 0);
    pools.on_connect_success(1);
    assert_eq!(pools.connected, vec![1]);
    assert_eq!(pools.disconnected.len(), 2);
    assert_eq!(pools.disconnected[0].device, 0);
    assert_eq!(pools.disconnected[1].device, 2);
}

#[test]
fn recoverable_failure_rearms_the_backoff() {
    let mut pools = BleSensors::new(2, 0);
    pools.on_connect_failure(1, true, 7);
    assert_eq!(pools.disconnected.len(), 2);
    assert_eq!(pools.disconnected[1].number_retries, 1);
    assert_eq!(pools.disconnected[1].next_try, 30);
    assert_eq!(pools.disconnected[1].last_try, 7);
    // Not due again until the delay passes.
    assert_eq!(pools.due_retries(30), vec![0]);
    assert_eq!(pools.due_retries(38), vec![0, 1]);
}

#[test]
fn unrecoverable_failure_drops_the_peripheral_for_good() {
    let mut pools = BleSensors::new(2, 0);
    pools.on_connect_failure(0, false, 7);
    assert_eq!(pools.disconnected.len(), 1);
    assert_eq!(pools.disconnected[0].device, 1);
    assert_eq!(pools.connected.len(), 0);
}

#[test]
fn link_loss_returns_the_peripheral_with_fresh_state() {
    let mut pools = BleSensors::new(2, 0);
    pools.on_connect_success(0);
    pools.on_connect_success(0);
    assert_eq!(pools.connected, vec![0, 1]);
    pools.on_disconnect(0, 99);
    assert_eq!(pools.connected, vec![1]);
    assert_eq!(pools.disconnected.len(), 1);
    let d = pools.disconnected[0];
    assert_eq!(d.device, 0);
    assert_eq!(d.number_retries, 0);
    assert_eq!(d.next_try, 0);
    assert_eq!(d.last_try, 99);
    // Reset means the very next tick may retry it.
    assert_eq!(pools.due_retries(100), vec![0]);
}
