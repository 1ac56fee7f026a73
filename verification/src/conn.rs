//! Peripheral connection lifecycle: error classification and retry state.
//!
//! Every fault the Bluetooth transport can report during connect, pairing
//! or subscribe classifies to exactly one outcome: *recoverable* faults are
//! retried with capped linear backoff, *unrecoverable* faults drop the
//! peripheral for good.  A fault outside the classification table is a
//! defect and is surfaced as data rather than swallowed or crashed on.
//! The transport itself lives outside; it hands these functions plain
//! fault kinds and timestamps.

use vstd::prelude::*;
use vstd::arithmetic::mul::lemma_mul_inequality;

verus! {

/// Fault kinds the Bluetooth transport reports.
#[derive(Clone, Copy, PartialEq, Eq, Structural, Debug)]
pub enum BleError {
    AuthenticationFailed,
    UuidNotFound,
    NoFdReturned,
    InvalidLength,
    /// Fault of the D-Bus link itself; a timeout there is transient.
    DbusConnectionError { timed_out: bool },
    CouldNotConnectToBus,
    CharacteristicNotFound,
    AuthenticationCanceled,
    BluezFailed,
    CouldNotConnectToDevice,
    InProgress,
    PairingTimeOut,
    /// Any fault the connection path is not expected to see.
    Other,
}

/// A classified connection fault.
#[derive(Clone, Copy, PartialEq, Eq, Structural, Debug)]
pub enum ConnectionError {
    Recoverable(BleError),
    Unrecoverable(BleError),
}

impl ConnectionError {
    /// Whether this fault leaves the peripheral in the retry pool.
    pub fn is_recoverable(&self) -> (r: bool)
        ensures
            r == (*self is Recoverable),
    {
        match self {
            ConnectionError::Recoverable(_) => true,
            ConnectionError::Unrecoverable(_) => false,
        }
    }
}

/// The classification table: which outcome each transport fault maps to,
/// or `None` for a fault the connection path is not expected to see.
pub open spec fn spec_classify(err: BleError) -> Option<ConnectionError> {
    match err {
        BleError::AuthenticationFailed => Some(ConnectionError::Unrecoverable(err)),
        BleError::UuidNotFound => Some(ConnectionError::Unrecoverable(err)),
        BleError::NoFdReturned => Some(ConnectionError::Unrecoverable(err)),
        BleError::InvalidLength => Some(ConnectionError::Unrecoverable(err)),
        BleError::DbusConnectionError { timed_out } => if timed_out {
            Some(ConnectionError::Recoverable(err))
        } else {
            None
        },
        BleError::CouldNotConnectToBus => Some(ConnectionError::Recoverable(err)),
        BleError::CharacteristicNotFound => Some(ConnectionError::Recoverable(err)),
        BleError::AuthenticationCanceled => Some(ConnectionError::Recoverable(err)),
        BleError::BluezFailed => Some(ConnectionError::Recoverable(err)),
        BleError::CouldNotConnectToDevice => Some(ConnectionError::Recoverable(err)),
        BleError::InProgress => Some(ConnectionError::Recoverable(err)),
        BleError::PairingTimeOut => Some(ConnectionError::Recoverable(err)),
        BleError::Other => None,
    }
}

/// Classifies a transport fault.  `None` marks a fault outside the table:
/// a defect for the caller to surface, never to swallow.
pub fn classify(err: BleError) -> (r: Option<ConnectionError>)
    ensures
        r == spec_classify(err),
{
    match err {
        BleError::AuthenticationFailed
        | BleError::UuidNotFound
        | BleError::NoFdReturned
        | BleError::InvalidLength => Some(ConnectionError::Unrecoverable(err)),
        BleError::DbusConnectionError { timed_out } => if timed_out {
            Some(ConnectionError::Recoverable(err))
        } else {
            None
        },
        BleError::CouldNotConnectToBus
        | BleError::CharacteristicNotFound
        | BleError::AuthenticationCanceled
        | BleError::BluezFailed
        | BleError::CouldNotConnectToDevice
        | BleError::InProgress
        | BleError::PairingTimeOut => Some(ConnectionError::Recoverable(err)),
        BleError::Other => None,
    }
}

/// Law: the classification is total on the fault table and each listed
/// fault maps to exactly one outcome, which wraps the fault it classified;
/// only the two faults outside the table are left unclassified.
pub proof fn lemma_classification_exact(err: BleError)
    ensures
        spec_classify(err) is None <==> (err == BleError::Other || err == (
        BleError::DbusConnectionError { timed_out: false })),
        spec_classify(err) matches Some(c) ==> (c matches ConnectionError::Recoverable(e) && e
            == err) || (c matches ConnectionError::Unrecoverable(e) && e == err),
{
}

/// Seconds added to the retry delay per failed attempt.
pub const RETRY_DELAY_INC_SECS: u64 = 30;

/// Ceiling of the retry delay, in seconds.
pub const MAX_RETRY_DELAY_SECS: u64 = 1800;

/// Linear backoff with a ceiling: the delay before retry `n`.
pub open spec fn spec_retry_delay(n: nat) -> nat {
    if n * 30 > 1800 {
        1800
    } else {
        n * 30
    }
}

/// Law: the backoff delay never decreases with the retry count and never
/// exceeds the ceiling.
pub proof fn lemma_backoff_monotone(n1: nat, n2: nat)
    requires
        n1 <= n2,
    ensures
        spec_retry_delay(n1) <= spec_retry_delay(n2),
        spec_retry_delay(n2) <= 1800,
{
    lemma_mul_inequality(n1 as int, n2 as int, 30);
}

/// Retry bookkeeping of one peripheral that is currently disconnected.
#[derive(Clone, Copy, PartialEq, Eq, Structural, Debug)]
pub struct DisconnectedDevice {
    /// Index of the peripheral in the catalog.
    pub device: usize,
    /// False once an unrecoverable fault was seen.
    pub recoverable: bool,
    /// When the last connect attempt was made, in seconds.
    pub last_try: u64,
    /// Seconds to wait after `last_try` before the next attempt.
    pub next_try: u64,
    /// Failed attempts since the peripheral was last seen connected.
    pub number_retries: u64,
}

impl DisconnectedDevice {
    /// Fresh retry state for a peripheral that just became disconnected:
    /// no failed attempts yet, next attempt due immediately.
    pub fn fresh(device: usize, now: u64) -> (r: DisconnectedDevice)
        ensures
            r == (DisconnectedDevice {
                device,
                recoverable: true,
                last_try: now,
                next_try: 0,
                number_retries: 0,
            }),
    {
        DisconnectedDevice { device, recoverable: true, last_try: now, next_try: 0, number_retries: 0 }
    }

    /// Books one failed attempt: bumps the retry count, recomputes the
    /// capped linear backoff delay and records the attempt time.
    pub fn schedule_retry(&mut self, now: u64)
        requires
            old(self).number_retries < u64::MAX,
        ensures
            final(self).device == old(self).device,
            final(self).recoverable == old(self).recoverable,
            final(self).number_retries == old(self).number_retries + 1,
            final(self).next_try == spec_retry_delay(final(self).number_retries as nat),
            final(self).last_try == now,
    {
        self.number_retries = self.number_retries + 1;
        self.next_try = if self.number_retries > 60 {
            MAX_RETRY_DELAY_SECS
        } else {
            self.number_retries * RETRY_DELAY_INC_SECS
        };
        self.last_try = now;
    }

    /// Whether the backoff delay has elapsed and a connect attempt is due.
    pub fn should_retry(&self, now: u64) -> (r: bool)
        requires
            self.last_try <= now,
        ensures
            r == (now - self.last_try > self.next_try),
    {
        now - self.last_try > self.next_try
    }
}

/// The two connection pools: which peripherals are connected, and the
/// retry bookkeeping of those that are not.  Catalog indices are the
/// stable names of peripherals.
pub struct BleSensors {
    pub disconnected: Vec<DisconnectedDevice>,
    pub connected: Vec<usize>,
}

impl BleSensors {
    /// Starting pools: every one of `device_count` peripherals begins
    /// disconnected with fresh retry state; none is connected.
    pub fn new(device_count: usize, now: u64) -> (r: BleSensors)
        ensures
            r.connected@.len() == 0,
            r.disconnected@.len() == device_count,
            forall|i: int|
                0 <= i < device_count ==> r.disconnected@[i] == (DisconnectedDevice {
                    device: i as usize,
                    recoverable: true,
                    last_try: now,
                    next_try: 0,
                    number_retries: 0,
                }),
    {
        let mut disconnected: Vec<DisconnectedDevice> = Vec::new();
        let mut i: usize = 0;
        while i < device_count
            invariant
                i <= device_count,
                disconnected@.len() == i,
                forall|k: int|
                    0 <= k < i ==> disconnected@[k] == (DisconnectedDevice {
                        device: k as usize,
                        recoverable: true,
                        last_try: now,
                        next_try: 0,
                        number_retries: 0,
                    }),
            decreases device_count - i,
        {
            disconnected.push(DisconnectedDevice::fresh(i, now));
            i = i + 1;
        }
        BleSensors { disconnected, connected: Vec::new() }
    }

    /// Indices into the disconnected pool whose backoff has elapsed, in
    /// pool order.
    pub fn due_retries(&self, now: u64) -> (r: Vec<usize>)
        requires
            forall|i: int|
                0 <= i < self.disconnected@.len() ==> (#[trigger] self.disconnected@[i]).last_try
                    <= now,
        ensures
            forall|k: int|
                0 <= k < r@.len() ==> 0 <= #[trigger] r@[k] < self.disconnected@.len(),
            forall|k: int|
                0 <= k < r@.len() ==> now - self.disconnected@[#[trigger] r@[k] as int].last_try
                    > self.disconnected@[r@[k] as int].next_try,
            forall|i: int|
                0 <= i < self.disconnected@.len() && now - (
                #[trigger] self.disconnected@[i]).last_try > self.disconnected@[i].next_try
                    ==> r@.contains(i as usize),
            forall|k1: int, k2: int| 0 <= k1 < k2 < r@.len() ==> #[trigger] r@[k1] < #[trigger] r@[k2],
    {
        let mut due: Vec<usize> = Vec::new();
        let n = self.disconnected.len();
        let mut i: usize = 0;
        while i < n
            invariant
                n == self.disconnected@.len(),
                i <= n,
                forall|i2: int|
                    0 <= i2 < self.disconnected@.len() ==> (
                    #[trigger] self.disconnected@[i2]).last_try <= now,
                forall|k: int| 0 <= k < due@.len() ==> 0 <= #[trigger] due@[k] < i,
                forall|k: int|
                    0 <= k < due@.len() ==> now - self.disconnected@[
                        #[trigger] due@[k] as int
                    ].last_try > self.disconnected@[due@[k] as int].next_try,
                forall|i2: int|
                    0 <= i2 < i && now - (#[trigger] self.disconnected@[i2]).last_try
                        > self.disconnected@[i2].next_try ==> due@.contains(i2 as usize),
                forall|k1: int, k2: int|
                    0 <= k1 < k2 < due@.len() ==> #[trigger] due@[k1] < #[trigger] due@[k2],
            decreases n - i,
        {
            if self.disconnected[i].should_retry(now) {
                let ghost pre = due@;
                due.push(i);
                proof {
                    assert forall|x: usize| pre.contains(x) implies due@.contains(x) by {
                        let k = choose|k: int| 0 <= k < pre.len() && pre[k] == x;
                        assert(due@[k] == x);
                    }
                    assert(due@[pre.len() as int] == i);
                    assert(due@.contains(i));
                }
            }
            i = i + 1;
        }
        due
    }

    /// Books a successful connect: the peripheral leaves the retry pool
    /// and joins the connected pool.
    pub fn on_connect_success(&mut self, i: usize)
        requires
            i < old(self).disconnected@.len(),
        ensures
            final(self).disconnected@ == old(self).disconnected@.remove(i as int),
            final(self).connected@ == old(self).connected@.push(
                old(self).disconnected@[i as int].device,
            ),
    {
        let entry = self.disconnected.remove(i);
        self.connected.push(entry.device);
    }

    /// Books a failed connect attempt.  A recoverable fault re-arms the
    /// backoff; an unrecoverable one drops the peripheral from all
    /// further retries.
    pub fn on_connect_failure(&mut self, i: usize, recoverable: bool, now: u64)
        requires
            i < old(self).disconnected@.len(),
            old(self).disconnected@[i as int].number_retries < u64::MAX,
        ensures
            final(self).connected@ == old(self).connected@,
            !recoverable ==> final(self).disconnected@ == old(self).disconnected@.remove(i as int),
            recoverable ==> final(self).disconnected@ == old(self).disconnected@.update(
                i as int,
                ({
                    let d = old(self).disconnected@[i as int];
                    DisconnectedDevice {
                        device: d.device,
                        recoverable: d.recoverable,
                        last_try: now,
                        next_try: spec_retry_delay((d.number_retries + 1) as nat) as u64,
                        number_retries: (d.number_retries + 1) as u64,
                    }
                }),
            ),
    {
        if recoverable {
            let mut entry = self.disconnected[i];
            entry.schedule_retry(now);
            self.disconnected.set(i, entry);
            proof {
                assert(spec_retry_delay(entry.number_retries as nat) <= 1800) by {
                    lemma_backoff_monotone(entry.number_retries as nat, entry.number_retries as nat);
                }
            }
        } else {
            self.disconnected.remove(i);
        }
    }

    /// Books a detected link loss: the peripheral leaves the connected
    /// pool and rejoins the retry pool with fresh state, due immediately.
    pub fn on_disconnect(&mut self, j: usize, now: u64)
        requires
            j < old(self).connected@.len(),
        ensures
            final(self).connected@ == old(self).connected@.remove(j as int),
            final(self).disconnected@ == old(self).disconnected@.push(
                DisconnectedDevice {
                    device: old(self).connected@[j as int],
                    recoverable: true,
                    last_try: now,
                    next_try: 0,
                    number_retries: 0,
                },
            ),
    {
        let device = self.connected.remove(j);
        self.disconnected.push(DisconnectedDevice::fresh(device, now));
    }
}

} // verus!
