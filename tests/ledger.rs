use ley::ledger::{commit_text, log_line, session_log_line, start_timestamp, LedgerError};

fn playtime(text: &str, name: &str) -> Option<i64> {
    let table = text.parse::<toml::Table>().unwrap();
    table.get(name)?.get("playtime")?.as_integer()
}

#[test]
fn commit_creates_entry() {
    let out = commit_text("", "game", 300).unwrap();
    assert_eq!(playtime(&out, "game"), Some(300));
}

#[test]
fn commit_is_additive() {
    let once = commit_text("", "game", 30).unwrap();
    let twice = commit_text(&once, "game", 90).unwrap();
    assert_eq!(playtime(&twice, "game"), Some(120));

    let other_order = commit_text(&commit_text("", "game", 90).unwrap(), "game", 30).unwrap();
    assert_eq!(playtime(&other_order, "game"), Some(120));
}

#[test]
fn commit_keeps_other_entries_and_keys() {
    let text = "[other]\nplaytime = 7\n\n[game]\nplaytime = 100\nnote = \"x\"\n";
    let out = commit_text(text, "game", 50).unwrap();
    assert_eq!(playtime(&out, "game"), Some(150));
    assert_eq!(playtime(&out, "other"), Some(7));
    let table = out.parse::<toml::Table>().unwrap();
    assert_eq!(table["game"]["note"].as_str(), Some("x"));
}

#[test]
fn commit_adds_missing_playtime_key() {
    let out = commit_text("[game]\nnote = 1\n", "game", 130).unwrap();
    assert_eq!(playtime(&out, "game"), Some(130));
}

#[test]
fn commit_errors() {
    assert_eq!(commit_text("not toml = [", "game", 1), Err(LedgerError::Malformed));
    assert_eq!(commit_text("game = 5\n", "game", 1), Err(LedgerError::NotATable));
    assert_eq!(
        commit_text("[game]\nplaytime = \"long\"\n", "game", 1),
        Err(LedgerError::NotAnInteger)
    );
    assert_eq!(
        commit_text("[game]\nplaytime = 9223372036854775800\n", "game", 100),
        Err(LedgerError::Overflow)
    );
    assert_eq!(commit_text("", "game", u64::MAX), Err(LedgerError::Overflow));
}

#[test]
fn commit_with_negative_total_still_fits() {
    let out = commit_text("[game]\nplaytime = -10\n", "game", 9223372036854775817).unwrap();
    assert_eq!(playtime(&out, "game"), Some(i64::MAX));
}

#[test]
fn log_line_layout() {
    assert_eq!(
        log_line("2024-05-01T10:00:00Z", "game", 150),
        "2024-05-01T10:00:00Z Played game for 2 minutes"
    );
    assert_eq!(
        log_line("2024-05-01T10:00:00+02:00", "Some Game", 3661),
        "2024-05-01T10:00:00+02:00 Played Some Game for 1 hour 1 minute"
    );
}

#[test]
fn session_log_line_has_a_timestamp() {
    let line = session_log_line("game", 7200).unwrap();
    assert!(line.ends_with(" Played game for 2 hours"));
    let stamp = line.strip_suffix(" Played game for 2 hours").unwrap();
    assert!(stamp.len() >= 20, "{stamp}");
    assert!(stamp.starts_with(|c: char| c.is_ascii_digit()));
}

#[test]
fn start_timestamp_subtracts() {
    assert_eq!(start_timestamp(1_700_000_000, 150), Some(1_699_999_850));
    assert_eq!(start_timestamp(0, 0), Some(0));
    assert_eq!(start_timestamp(i64::MIN + 5, 5), Some(i64::MIN));
    assert_eq!(start_timestamp(i64::MIN + 5, 6), None);
    assert_eq!(start_timestamp(i64::MAX, u64::MAX), Some(i64::MIN));
}

#[test]
fn session_log_line_out_of_range_start() {
    assert_eq!(session_log_line("game", u64::MAX), None);
    assert_eq!(session_log_line("game", 20_000_000_000_000), None);
}
