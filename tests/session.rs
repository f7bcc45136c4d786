use ley::ledger::{commit_text, log_line};
use ley::lock::{marker_file_name, AcquireError, LockSet};
use ley::session::{should_record, Action, Event, Phase, Supervisor};
use ley::tracker::{find_auxiliary, process_matches, still_listed, ProcessInfo};

fn proc(pid: u32, name: &str, cwd: Option<&str>) -> ProcessInfo {
    ProcessInfo { pid, name: name.to_string(), cwd: cwd.map(|c| c.to_string()) }
}

const PREFIX: &str = "/home/u/games/prefix";

#[test]
fn lock_is_exclusive_per_name() {
    let mut locks = LockSet::new();
    let first = locks.acquire("game").unwrap();
    assert_eq!(first.name(), "game");
    assert!(matches!(locks.acquire("game"), Err(AcquireError::AlreadyRunning)));
    let other = locks.acquire("other").unwrap();
    assert!(locks.is_held("game") && locks.is_held("other"));
    locks.release(first);
    assert!(!locks.is_held("game"));
    assert!(locks.is_held("other"));
    assert!(locks.acquire("game").is_ok());
    locks.release(other);
    assert!(!locks.is_held("other"));
}

#[test]
fn lock_marker_name() {
    assert_eq!(marker_file_name("game"), "game.lck");
}

#[test]
fn record_threshold_boundaries() {
    assert!(!should_record(0));
    assert!(!should_record(119));
    assert!(!should_record(120));
    assert!(should_record(121));
    assert!(should_record(u64::MAX));
}

#[test]
fn auxiliary_matching() {
    let helper = proc(7, "winedevice.exe", Some("/home/u/games/prefix/drive_c/windows/system32"));
    assert!(process_matches(&helper, PREFIX));
    assert!(!process_matches(&helper, "/home/u/elsewhere"));
    assert!(!process_matches(&proc(7, "wineserver", Some(PREFIX)), PREFIX));
    assert!(!process_matches(&proc(7, "winedevice.exe", None), PREFIX));
}

#[test]
fn auxiliary_detection_needs_exactly_one_match() {
    let none = vec![proc(1, "bash", Some(PREFIX)), proc(2, "winedevice.exe", Some("/tmp"))];
    assert_eq!(find_auxiliary(&none, PREFIX), None);
    let one = vec![proc(1, "bash", Some(PREFIX)), proc(9, "winedevice.exe", Some(PREFIX))];
    assert_eq!(find_auxiliary(&one, PREFIX), Some(9));
    let two = vec![
        proc(9, "winedevice.exe", Some(PREFIX)),
        proc(10, "winedevice.exe", Some("/home/u/games/prefix/drive_c")),
    ];
    assert_eq!(find_auxiliary(&two, PREFIX), None);
    assert_eq!(find_auxiliary(&vec![], PREFIX), None);
    assert!(still_listed(&one, 9));
    assert!(!still_listed(&none, 9));
}

fn run_to_primary_exit(sup: &mut Supervisor) {
    assert_eq!(sup.handle(&Event::LockTaken), Action::Launch);
    assert_eq!(sup.handle(&Event::Launched), Action::WaitPrimary);
    assert_eq!(sup.handle(&Event::PrimaryExited), Action::ScanProcesses);
    assert_eq!(sup.phase(), Phase::AwaitingAuxiliary);
}

#[test]
fn no_auxiliary_completes_at_once() {
    let (mut sup, first) = Supervisor::new(Some(PREFIX.to_string()));
    assert_eq!(first, Action::AcquireLock);
    run_to_primary_exit(&mut sup);
    assert_eq!(sup.handle(&Event::Snapshot(vec![proc(1, "bash", None)])), Action::Finish);
    assert_eq!(sup.phase(), Phase::Completed);
}

#[test]
fn one_auxiliary_is_waited_for() {
    let (mut sup, _) = Supervisor::new(Some(PREFIX.to_string()));
    run_to_primary_exit(&mut sup);
    let table = vec![proc(4, "winedevice.exe", Some(PREFIX))];
    assert_eq!(sup.handle(&Event::Snapshot(table)), Action::PollAfterInterval);
    assert_eq!(sup.phase(), Phase::TrackingAuxiliary(4));
    for _ in 0..3 {
        let still = vec![proc(1, "bash", None), proc(4, "winedevice.exe", Some(PREFIX))];
        assert_eq!(sup.handle(&Event::Snapshot(still)), Action::PollAfterInterval);
    }
    assert_eq!(sup.handle(&Event::Snapshot(vec![proc(1, "bash", None)])), Action::Finish);
    assert_eq!(sup.phase(), Phase::Completed);
}

#[test]
fn ambiguous_auxiliary_is_skipped() {
    let (mut sup, _) = Supervisor::new(Some(PREFIX.to_string()));
    run_to_primary_exit(&mut sup);
    let table = vec![
        proc(4, "winedevice.exe", Some(PREFIX)),
        proc(5, "winedevice.exe", Some(PREFIX)),
    ];
    assert_eq!(sup.handle(&Event::Snapshot(table)), Action::Finish);
    assert_eq!(sup.phase(), Phase::Completed);
}

#[test]
fn no_prefix_skips_detection() {
    let (mut sup, _) = Supervisor::new(None);
    sup.handle(&Event::LockTaken);
    sup.handle(&Event::Launched);
    assert_eq!(sup.handle(&Event::PrimaryExited), Action::Finish);
    assert_eq!(sup.phase(), Phase::Completed);
}

#[test]
fn denied_and_failed_sessions() {
    let (mut sup, _) = Supervisor::new(None);
    assert_eq!(sup.handle(&Event::LockRefused), Action::ReportAlreadyRunning);
    assert_eq!(sup.phase(), Phase::LockDenied);
    assert_eq!(sup.handle(&Event::Launched), Action::Nothing);
    assert_eq!(sup.phase(), Phase::LockDenied);

    let (mut sup, _) = Supervisor::new(None);
    sup.handle(&Event::LockTaken);
    assert_eq!(sup.handle(&Event::LaunchFailed), Action::ReportLaunchFailure);
    assert_eq!(sup.phase(), Phase::LaunchFailed);
}

#[test]
fn end_to_end_session_of_150_seconds() {
    let mut locks = LockSet::new();
    let ledger = "[game]\nplaytime = 1000\n".to_string();
    let mut log: Vec<String> = Vec::new();

    let (mut sup, mut action) = Supervisor::new(Some(PREFIX.to_string()));
    let mut handle = None;
    let mut clock: u64 = 0;
    let mut start: u64 = 0;
    loop {
        let event = match action {
            Action::AcquireLock => match locks.acquire("game") {
                Ok(h) => {
                    handle = Some(h);
                    Event::LockTaken
                }
                Err(_) => Event::LockRefused,
            },
            Action::Launch => {
                start = clock;
                Event::Launched
            }
            Action::WaitPrimary => {
                clock += 150;
                Event::PrimaryExited
            }
            Action::ScanProcesses => Event::Snapshot(vec![proc(3, "explorer.exe", Some(PREFIX))]),
            Action::PollAfterInterval => panic!("nothing to wait for"),
            _ => break,
        };
        action = sup.handle(&event);
    }
    assert_eq!(action, Action::Finish);
    locks.release(handle.unwrap());
    let elapsed = clock - start;
    let mut stored = ledger.clone();
    if should_record(elapsed) {
        stored = commit_text(&ledger, "game", elapsed).unwrap();
        log.push(log_line("2024-05-01T10:00:00Z", "game", elapsed));
    }
    let table = stored.parse::<toml::Table>().unwrap();
    assert_eq!(table["game"]["playtime"].as_integer(), Some(1150));
    assert_eq!(log.len(), 1);
    assert!(log[0].ends_with("for 2 minutes"));
    assert!(!locks.is_held("game"));
}
