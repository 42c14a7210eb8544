use deepseek_harness_windows::net::{
    backend_url, scan_first, scan_next, scan_range, wait_step, ScanStep, WaitStep, BACKEND_START_TIMEOUT_MS,
    PORT_POLL_INTERVAL_MS, PORT_SCAN, PREFERRED_PORT,
};
use deepseek_harness_windows::text::{contains_bytes, decimal_string, log_line, same_text};

#[test]
fn decimal_rendering() {
    assert_eq!(decimal_string(0), "0");
    assert_eq!(decimal_string(7), "7");
    assert_eq!(decimal_string(10), "10");
    assert_eq!(decimal_string(47794), "47794");
    assert_eq!(decimal_string(65535), "65535");
    for n in [1u16, 99, 100, 3080, 3090, 12345, 60000] {
        assert_eq!(decimal_string(n), n.to_string());
    }
}

#[test]
fn log_lines() {
    assert_eq!(log_line("sidecar", "listening"), "[sidecar] listening");
    assert_eq!(log_line("bridge", ""), "[bridge] ");
}

#[test]
fn substring_search() {
    assert!(contains_bytes(b"abcturn-endxyz", b"turn-end"));
    assert!(contains_bytes(b"turn-end", b"turn-end"));
    assert!(!contains_bytes(b"turn-en", b"turn-end"));
    assert!(!contains_bytes(b"turn end", b"turn-end"));
    assert!(contains_bytes(b"", b""));
    assert!(contains_bytes(b"x", b""));
    assert!(!contains_bytes(b"", b"x"));
}

#[test]
fn text_equality() {
    assert!(same_text("main", "main"));
    assert!(!same_text("main", "Main"));
    assert!(!same_text("", "a"));
}

/// Runs the scan against the set of ports that bind.
fn run_scan(free: &[u16]) -> (ScanStep, Vec<u16>) {
    let mut tried = Vec::new();
    let mut step = scan_first();
    loop {
        match step {
            ScanStep::Try { offset, port } => {
                tried.push(port);
                step = scan_next(offset, free.contains(&port));
            }
            end => return (end, tried),
        }
    }
}

#[test]
fn port_scan_order() {
    assert_eq!(PREFERRED_PORT, 47794);
    assert_eq!(PORT_SCAN, 32);
    assert_eq!(scan_first(), ScanStep::Try { offset: 0, port: 47794 });
    assert_eq!(scan_next(0, false), ScanStep::Try { offset: 1, port: 47795 });
    assert_eq!(scan_next(30, false), ScanStep::Try { offset: 31, port: 47825 });
    assert_eq!(scan_next(31, false), ScanStep::Ephemeral);
    assert_eq!(scan_next(0, true), ScanStep::Use(47794));
    assert_eq!(scan_next(31, true), ScanStep::Use(47825));
    assert_eq!(scan_range(), (47794, 47825));
}

#[test]
fn free_preferred_port_is_used() {
    assert_eq!(run_scan(&[47794, 47795]), (ScanStep::Use(47794), vec![47794]));
}

#[test]
fn first_free_port_after_busy_ones_is_used() {
    assert_eq!(run_scan(&[47796, 47800]), (ScanStep::Use(47796), vec![47794, 47795, 47796]));
}

#[test]
fn all_busy_falls_back_to_ephemeral() {
    let (end, tried) = run_scan(&[3080, 47826]);
    assert_eq!(end, ScanStep::Ephemeral);
    assert_eq!(tried, (47794..=47825).collect::<Vec<u16>>());
}

#[test]
fn scanned_ports_avoid_the_live_instance() {
    let (_, tried) = run_scan(&[]);
    let mut seen = Vec::new();
    for p in tried {
        assert!(p >= 3090);
        assert_ne!(p, 3080);
        assert!(!seen.contains(&p));
        seen.push(p);
    }
    assert_eq!(seen.len(), 32);
}

#[test]
fn waiting_for_the_backend() {
    assert_eq!(BACKEND_START_TIMEOUT_MS, 90_000);
    assert_eq!(PORT_POLL_INTERVAL_MS, 150);
    assert_eq!(wait_step(0, 90_000, None), WaitStep::Connect);
    assert_eq!(wait_step(89_999, 90_000, None), WaitStep::Connect);
    assert_eq!(wait_step(90_000, 90_000, None), WaitStep::GiveUp);
    assert_eq!(wait_step(0, 90_000, Some(false)), WaitStep::Pause(150));
    assert_eq!(wait_step(95_000, 90_000, Some(true)), WaitStep::Ready);
}

#[test]
fn backend_address() {
    assert_eq!(backend_url(47794), "http://127.0.0.1:47794");
    assert_eq!(backend_url(0), "http://127.0.0.1:0");
}
