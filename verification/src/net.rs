//! The sidecar's port and the wait for it to come up.

use vstd::prelude::*;
use crate::text::{decimal, decimal_string};

verus! {

/// The first port tried for the sidecar. The web app is served from
/// `http://127.0.0.1:<port>`, and that origin partitions the WebView's
/// stored settings, so a stable port keeps settings across restarts. The
/// scanned ports lie below 49152, where both the IANA dynamic/private block
/// and the ephemeral range that Windows hands out by default begin, so an
/// unrelated process is unlikely to be given one of them.
pub const PREFERRED_PORT: u16 = 47794;

/// How many consecutive ports are tried before falling back to an ephemeral
/// one.
pub const PORT_SCAN: u16 = 32;

/// The port tried at step `offset` of the scan, as
/// `PREFERRED_PORT.saturating_add(offset)` gives it.
pub open spec fn scan_candidate(offset: int) -> int {
    if PREFERRED_PORT + offset > u16::MAX {
        u16::MAX as int
    } else {
        PREFERRED_PORT + offset
    }
}

/// The next step of the port scan.
#[derive(Debug, Clone, Copy, PartialEq, Eq, Structural)]
pub enum ScanStep {
    /// Try to bind `port`, the candidate at step `offset`.
    Try { offset: u16, port: u16 },
    /// `port` bound: the sidecar gets it.
    Use(u16),
    /// Every candidate was busy: bind an ephemeral port (port 0) instead.
    Ephemeral,
}

/// The step after trying the candidate at `offset`, which bound or not.
pub open spec fn scan_after(offset: int, bound: bool) -> ScanStep {
    if bound {
        ScanStep::Use(scan_candidate(offset) as u16)
    } else if offset + 1 < PORT_SCAN {
        ScanStep::Try { offset: (offset + 1) as u16, port: scan_candidate(offset + 1) as u16 }
    } else {
        ScanStep::Ephemeral
    }
}

/// The scan begins with the preferred port.
pub fn scan_first() -> (s: ScanStep)
    ensures
        s == (ScanStep::Try { offset: 0, port: scan_candidate(0) as u16 }),
{
    ScanStep::Try { offset: 0, port: PREFERRED_PORT }
}

/// The step after trying the candidate at `offset` (a step of the scan):
/// a port that binds ends the scan with that port; otherwise the next
/// candidate is tried, or, after the last, an ephemeral port.
pub fn scan_next(offset: u16, bound: bool) -> (s: ScanStep)
    requires
        offset < PORT_SCAN,
    ensures
        s == scan_after(offset as int, bound),
{
    if bound {
        ScanStep::Use(PREFERRED_PORT.saturating_add(offset))
    } else if offset + 1 < PORT_SCAN {
        ScanStep::Try { offset: offset + 1, port: PREFERRED_PORT.saturating_add(offset + 1) }
    } else {
        ScanStep::Ephemeral
    }
}

/// Where the scan ends when it is at step `offset`, and `free[i]` tells
/// whether candidate `i` binds: the steps of [`scan_next`] run to the end.
pub open spec fn scan_outcome(free: Seq<bool>, offset: int) -> ScanStep
    decreases PORT_SCAN - offset,
{
    if offset < 0 || offset >= PORT_SCAN {
        ScanStep::Ephemeral
    } else {
        match scan_after(offset, free[offset]) {
            ScanStep::Try { offset: next, .. } => scan_outcome(free, next as int),
            other => other,
        }
    }
}

/// `i` is the first candidate that binds.
pub open spec fn first_free(free: Seq<bool>, i: int) -> bool {
    &&& 0 <= i < PORT_SCAN
    &&& free[i]
    &&& forall|j: int| 0 <= j < i ==> !free[j]
}

/// The scan's port is the first candidate that binds; where none binds, an
/// ephemeral port. So a free preferred port is always the one used, and
/// the origin of the web app stays the same from launch to launch.
pub proof fn lemma_scan_uses_first_free(free: Seq<bool>)
    requires
        free.len() == PORT_SCAN,
    ensures
        forall|i: int| first_free(free, i) ==> scan_outcome(free, 0) == ScanStep::Use(
            scan_candidate(i) as u16,
        ),
        (forall|i: int| 0 <= i < PORT_SCAN ==> !free[i]) ==> scan_outcome(free, 0) is Ephemeral,
{
    lemma_scan_from(free, 0);
}

proof fn lemma_scan_from(free: Seq<bool>, offset: int)
    requires
        free.len() == PORT_SCAN,
        0 <= offset < PORT_SCAN,
    ensures
        forall|i: int| offset <= i < PORT_SCAN && free[i] && (forall|j: int| offset <= j < i ==> !free[j])
            ==> scan_outcome(free, offset) == ScanStep::Use(scan_candidate(i) as u16),
        (forall|i: int| offset <= i < PORT_SCAN ==> !free[i]) ==> scan_outcome(free, offset) is Ephemeral,
    decreases PORT_SCAN - offset,
{
    if offset + 1 < PORT_SCAN {
        lemma_scan_from(free, offset + 1);
    }
    assert forall|i: int| offset <= i < PORT_SCAN && free[i] && (forall|j: int| offset <= j < i ==> !free[j])
        implies scan_outcome(free, offset) == ScanStep::Use(scan_candidate(i) as u16) by {
        if i > offset {
            assert(!free[offset]);
        }
    }
}

/// The first and last port of the scan, for the message given when all are
/// busy.
pub fn scan_range() -> (r: (u16, u16))
    ensures
        r.0 == scan_candidate(0),
        r.1 == scan_candidate(PORT_SCAN - 1),
{
    (PREFERRED_PORT, PREFERRED_PORT.saturating_add(PORT_SCAN - 1))
}

/// The port scan keeps clear of the live dsh instance: it never tries 3080,
/// only fixed ports from 3090 up, every step tries another port, and the
/// first step tries the preferred port.
pub proof fn lemma_scan_ports_safe(a: int, b: int)
    requires
        0 <= a < PORT_SCAN,
        0 <= b < PORT_SCAN,
    ensures
        scan_candidate(a) >= 3090,
        scan_candidate(a) != 3080,
        a != b ==> scan_candidate(a) != scan_candidate(b),
        scan_candidate(0) == PREFERRED_PORT,
        scan_candidate(a) <= u16::MAX,
{
}

/// The backend has this long to start listening: 90 seconds.
pub const BACKEND_START_TIMEOUT_MS: u64 = 90000;

/// The pause between two connection attempts: 150 milliseconds.
pub const PORT_POLL_INTERVAL_MS: u64 = 150;

/// The next thing to do while waiting for the backend's port.
#[derive(Debug, Clone, Copy, PartialEq, Eq, Structural)]
pub enum WaitStep {
    /// Try to connect to the port.
    Connect,
    /// Wait this many milliseconds, then look again.
    Pause(u64),
    /// The port accepts connections.
    Ready,
    /// The time is up.
    GiveUp,
}

/// One step of the wait for the backend: with `attempt` the outcome of the
/// connection attempt just made (`None` before one is made), and `elapsed_ms`
/// the time since the wait began. An attempt is made only while time is
/// left; a failed one is followed by a pause.
pub fn wait_step(elapsed_ms: u64, timeout_ms: u64, attempt: Option<bool>) -> (s: WaitStep)
    ensures
        match attempt {
            Some(true) => s is Ready,
            Some(false) => s == WaitStep::Pause(PORT_POLL_INTERVAL_MS),
            None => if elapsed_ms < timeout_ms {
                s is Connect
            } else {
                s is GiveUp
            },
        },
{
    match attempt {
        Some(true) => WaitStep::Ready,
        Some(false) => WaitStep::Pause(PORT_POLL_INTERVAL_MS),
        None => if elapsed_ms < timeout_ms {
            WaitStep::Connect
        } else {
            WaitStep::GiveUp
        },
    }
}

/// The address the window navigates to once the backend is up.
pub fn backend_url(port: u16) -> (u: String)
    ensures
        u@ == "http://127.0.0.1:"@ + decimal(port as nat),
{
    let mut u = "http://127.0.0.1:".to_owned();
    let p = decimal_string(port);
    u.append(p.as_str());
    u
}

} // verus!
