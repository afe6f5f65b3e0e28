use campaign_viewer::diagnostics::Diagnostics;
use campaign_viewer::diff::{diff_ecu_status, diff_ecu_status_at, StateChange};
use campaign_viewer::ecu::EcuStatus;
use campaign_viewer::history::{poll_round, StatusHistory};

fn status(id: &str) -> EcuStatus {
    EcuStatus {
        id: id.to_string(),
        name: "ECU".to_string(),
        transfer_state: Some("executing".to_string()),
        activation_state: Some("executing".to_string()),
        version: Some("1.0".to_string()),
        supports_rollback: false,
        progress_bits: None,
        error: None,
        diagnostics: {
            let mut d = Diagnostics::new();
            d.insert("active_bank".to_string(), "\"A\"".to_string());
            d.insert("committed".to_string(), "true".to_string());
            d
        },
        ready: Some(true),
        boot_id: Some(11),
        hb_seq: Some(100),
        boot_count: Some(3),
    }
}

fn diff_at(prev: Option<&EcuStatus>, next: &EcuStatus) -> Vec<StateChange> {
    let mut changes = Vec::new();
    diff_ecu_status_at(&"10:00:00.000".to_string(), prev, next, &mut changes);
    changes
}

fn fields(c: &[StateChange]) -> Vec<&str> {
    c.iter().map(|c| c.field.as_str()).collect()
}

#[test]
fn first_sighting_logs_every_known_field() {
    let c = diff_at(None, &status("cvc"));
    assert_eq!(
        fields(&c),
        vec!["Transfer", "Activation", "Version", "Health", "Boot ID", "Boot Count", "active_bank", "committed"]
    );
    assert!(c.iter().all(|c| c.prev_value.is_none()));
    assert!(c.iter().all(|c| c.timestamp == "10:00:00.000" && c.ecu_id == "cvc"));
    assert_eq!(c[3].value, "ready");
    assert_eq!(c[4].value, "11");
    assert_eq!(c[6].value, "\"A\"");
}

#[test]
fn unchanged_status_logs_nothing() {
    let s = status("cvc");
    assert!(diff_at(Some(&s), &s).is_empty());
}

#[test]
fn heartbeat_and_progress_are_not_logged() {
    let prev = status("cvc");
    let mut next = status("cvc");
    next.hb_seq = Some(101);
    next.progress_bits = Some(1.0f64.to_bits());
    next.supports_rollback = true;
    assert!(diff_at(Some(&prev), &next).is_empty());
}

#[test]
fn reboot_and_health_transitions_are_logged() {
    let prev = status("cvc");
    let mut next = status("cvc");
    next.boot_id = Some(12);
    next.ready = Some(false);
    let c = diff_at(Some(&prev), &next);
    assert_eq!(fields(&c), vec!["Health", "Boot ID"]);
    assert_eq!(c[0].value, "notReady");
    assert_eq!(c[0].prev_value.as_deref(), Some("ready"));
    assert_eq!(c[1].value, "12");
    assert_eq!(c[1].prev_value.as_deref(), Some("11"));
}

#[test]
fn cleared_field_is_not_logged() {
    let prev = status("cvc");
    let mut next = status("cvc");
    next.version = None;
    next.ready = None;
    assert!(diff_at(Some(&prev), &next).is_empty());
}

#[test]
fn diagnostics_skip_null_and_hide_null_previous() {
    let mut prev = status("cvc");
    prev.diagnostics.insert("active_bank".to_string(), "null".to_string());
    let mut next = status("cvc");
    next.diagnostics.insert("active_bank".to_string(), "\"B\"".to_string());
    next.diagnostics.insert("committed".to_string(), "null".to_string());
    let c = diff_at(Some(&prev), &next);
    assert_eq!(fields(&c), vec!["active_bank"]);
    assert_eq!(c[0].value, "\"B\"");
    assert_eq!(c[0].prev_value, None);

    let mut next2 = status("cvc");
    next2.diagnostics.insert("min_security_ver".to_string(), "4".to_string());
    let c = diff_at(Some(&status("cvc")), &next2);
    assert_eq!(fields(&c), vec!["min_security_ver"]);
    assert_eq!(c[0].prev_value, None);
}

#[test]
fn error_is_logged_when_it_changes() {
    let prev = status("cvc");
    let mut next = status("cvc");
    next.error = Some("flash failed".to_string());
    let c = diff_at(Some(&prev), &next);
    assert_eq!(fields(&c), vec!["Error"]);
    assert_eq!(c[0].value, "flash failed");
    assert_eq!(c[0].prev_value, None);
    assert!(diff_at(Some(&next), &next).is_empty());
}

#[test]
fn diagnostics_insert_replaces_in_place() {
    let mut d = Diagnostics::new();
    d.insert("k".to_string(), "1".to_string());
    d.insert("j".to_string(), "3".to_string());
    d.insert("k".to_string(), "2".to_string());
    assert_eq!(d.len(), 2);
    assert_eq!(d.entry(0).key, "k");
    assert_eq!(d.entry(0).json, "2");
    assert_eq!(d.entry(1).key, "j");
    assert_eq!(d.lookup(&"k".to_string()), Some("2".to_string()));
    assert_eq!(d.lookup(&"x".to_string()), None);
    let c = d.copy();
    assert_eq!(c.len(), 2);
    assert_eq!(c.lookup(&"j".to_string()), Some("3".to_string()));
}

#[test]
fn clock_stamps_time_of_day() {
    let mut changes = Vec::new();
    diff_ecu_status(None, &status("cvc"), &mut changes);
    assert!(!changes.is_empty());
    let ts = &changes[0].timestamp;
    assert_eq!(ts.len(), 12, "{ts}");
    assert_ne!(ts, "%H:%M:%S%.3f");
    for (i, ch) in ts.chars().enumerate() {
        match i {
            2 | 5 => assert_eq!(ch, ':'),
            8 => assert_eq!(ch, '.'),
            _ => assert!(ch.is_ascii_digit(), "{ts}"),
        }
    }
}

#[test]
fn history_reads_back_what_was_recorded() {
    let mut h = StatusHistory::new();
    assert!(h.get(&"cvc".to_string()).is_none());
    h.record(status("cvc"));
    let mut other = status("bms");
    other.version = Some("9".to_string());
    h.record(other);
    let mut newer = status("cvc");
    newer.version = Some("2.0".to_string());
    h.record(newer);
    assert_eq!(h.get(&"cvc".to_string()).unwrap().version.as_deref(), Some("2.0"));
    assert_eq!(h.get(&"bms".to_string()).unwrap().version.as_deref(), Some("9"));
}

#[test]
fn repeated_round_logs_nothing() {
    let mut h = StatusHistory::new();
    let first = poll_round(&mut h, vec![status("a"), status("b")]);
    assert_eq!(first.ecus.len(), 2);
    assert_eq!(first.changes.len(), 16);
    let second = poll_round(&mut h, vec![status("a"), status("b")]);
    assert!(second.changes.is_empty());
    let mut moved = status("b");
    moved.transfer_state = Some("committed".to_string());
    let third = poll_round(&mut h, vec![status("a"), moved]);
    assert_eq!(third.changes.len(), 1);
    assert_eq!(third.changes[0].ecu_id, "b");
    assert_eq!(third.changes[0].field, "Transfer");
    assert_eq!(third.changes[0].prev_value.as_deref(), Some("executing"));
}
