use flightcore::progress::{ProgressThrottler, EMIT_INTERVAL_MS};
use flightcore::{InstallProgress, InstallState};

#[test]
fn burst_within_fifty_ms_forwards_only_completion() {
    let mut t = ProgressThrottler::new(1_000);
    let total = 1000u64;
    let mut forwarded = Vec::new();
    for k in 1..=1000u64 {
        let now = 1_000 + k * 50 / 1000;
        if let Some(p) = t.on_chunk(1, k, total, now) {
            forwarded.push(p);
        }
    }
    assert_eq!(forwarded.len(), 1);
    assert_eq!(
        forwarded[0],
        InstallProgress { current_downloaded: total, total_size: total, state: InstallState::DOWNLOADING }
    );
}

#[test]
fn forwards_once_per_interval() {
    let mut t = ProgressThrottler::new(0);
    assert!(t.on_chunk(10, 10, 1000, 99).is_none());
    assert!(t.on_chunk(10, 20, 1000, EMIT_INTERVAL_MS).is_some());
    assert_eq!(t.last_emit_ms, 100);
    assert!(t.on_chunk(10, 30, 1000, 150).is_none());
    assert!(t.on_chunk(10, 40, 1000, 200).is_some());
}

#[test]
fn never_forwards_empty_chunks() {
    let mut t = ProgressThrottler::new(0);
    assert!(t.on_chunk(0, 10, 1000, 5000).is_none());
    assert!(t.on_chunk(0, 1000, 1000, 5000).is_none());
    assert_eq!(t.last_emit_ms, 0);
}
