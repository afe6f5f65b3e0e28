use campaign_viewer::diagnostics::Diagnostics;
use campaign_viewer::ecu::{
    assemble_status, available_params, diagnostic_params, firmware_version, firmware_version_did,
    idle_status, polled_status, route_for_component, route_for_ecu, runtime_status, EcuInfo, EcuReading,
    IdentValue, Route, RuntimeStatus, StatusReport,
};
use campaign_viewer::text::{trimmed_of_quotes, u32_to_decimal, u64_to_decimal};
use campaign_viewer::update_status::{lifecycle_of, map_update_status, UpdateStatus};

fn body(phase: &str, status: &str, awaiting: bool) -> UpdateStatus {
    UpdateStatus {
        phase: phase.to_string(),
        status: status.to_string(),
        awaiting_verdict: awaiting,
        progress_bits: Some(42.5f64.to_bits()),
        error_message: None,
    }
}

fn ecu(id: &str, gateway: &str) -> EcuInfo {
    EcuInfo {
        id: id.to_string(),
        name: format!("{id} name"),
        gateway_id: gateway.to_string(),
        diagnostic_params: vec!["active_bank".to_string()],
    }
}

#[test]
fn failed_status_wins_over_every_phase() {
    assert_eq!(map_update_status(&body("prepare", "failed", false)), "failed");
    assert_eq!(map_update_status(&body("execute", "failed", true)), "failed");
    assert_eq!(map_update_status(&body("weird", "failed", false)), "failed");
}

#[test]
fn prepare_phase_is_preparing() {
    assert_eq!(map_update_status(&body("prepare", "inProgress", false)), "preparing");
    assert_eq!(map_update_status(&body("prepare", "completed", false)), "preparing");
}

#[test]
fn execute_phase_states() {
    assert_eq!(map_update_status(&body("execute", "inProgress", true)), "awaiting-verdict");
    assert_eq!(map_update_status(&body("execute", "completed", false)), "committed");
    assert_eq!(map_update_status(&body("execute", "inProgress", false)), "executing");
}

#[test]
fn unknown_phase_lowercases_status() {
    assert_eq!(map_update_status(&body("download", "InProgress", false)), "inprogress");
    assert_eq!(map_update_status(&body("", "ÀBC", false)), "àbc");
}

#[test]
fn no_updates_is_idle() {
    let l = lifecycle_of(None);
    assert_eq!(l.transfer_state.as_deref(), Some("idle"));
    assert_eq!(l.activation_state, None);
    assert_eq!(l.progress_bits, None);
    assert_eq!(l.error, None);
    assert!(!l.supports_rollback);
}

#[test]
fn activation_mirrors_transfer_in_execute_phase() {
    let mut b = body("execute", "inProgress", true);
    b.error_message = Some("boom".to_string());
    let l = lifecycle_of(Some(&b));
    assert_eq!(l.transfer_state.as_deref(), Some("awaiting-verdict"));
    assert_eq!(l.activation_state.as_deref(), Some("awaiting-verdict"));
    assert!(l.supports_rollback);
    assert_eq!(l.error.as_deref(), Some("boom"));
    assert_eq!(l.progress_bits.map(f64::from_bits), Some(42.5));

    let l = lifecycle_of(Some(&body("prepare", "inProgress", false)));
    assert_eq!(l.transfer_state.as_deref(), Some("preparing"));
    assert_eq!(l.activation_state, None);
    assert!(!l.supports_rollback);
}

#[test]
fn idle_status_keeps_identity_only() {
    let s = idle_status(&ecu("cvc", ""));
    assert_eq!(s.id, "cvc");
    assert_eq!(s.name, "cvc name");
    assert!(s.transfer_state.is_none() && s.activation_state.is_none() && s.version.is_none());
    assert_eq!(s.diagnostics.len(), 0);
    assert!(s.ready.is_none() && s.boot_id.is_none() && s.hb_seq.is_none() && s.boot_count.is_none());
}

#[test]
fn runtime_status_truncates_to_u32() {
    let r = runtime_status(Some(StatusReport {
        ready: false,
        boot_id: Some(0x1_0000_0005),
        hb_seq: Some(7),
        boot_count: Some(0x1_0000_0005),
    }));
    assert_eq!(r.ready, Some(false));
    assert_eq!(r.boot_id, Some(5));
    assert_eq!(r.hb_seq, Some(7));
    assert_eq!(r.boot_count, Some(0x1_0000_0005));
    let r = runtime_status(None);
    assert!(r.ready.is_none() && r.boot_id.is_none() && r.hb_seq.is_none() && r.boot_count.is_none());
}

#[test]
fn assemble_status_takes_every_part() {
    let l = lifecycle_of(Some(&body("execute", "completed", false)));
    let s = assemble_status(
        &ecu("app1", "gw"),
        l,
        Some("1.2.3".to_string()),
        {
            let mut d = Diagnostics::new();
            d.insert("committed".to_string(), "true".to_string());
            d
        },
        RuntimeStatus { ready: Some(true), boot_id: Some(9), hb_seq: Some(3), boot_count: Some(4) },
    );
    assert_eq!(s.id, "app1");
    assert_eq!(s.transfer_state.as_deref(), Some("committed"));
    assert_eq!(s.activation_state.as_deref(), Some("committed"));
    assert_eq!(s.version.as_deref(), Some("1.2.3"));
    assert_eq!(s.diagnostics.len(), 1);
    assert_eq!(s.ready, Some(true));
    assert_eq!(s.boot_id, Some(9));
    assert_eq!(s.hb_seq, Some(3));
    assert_eq!(s.boot_count, Some(4));
}

#[test]
fn firmware_version_cases() {
    assert_eq!(firmware_version(IdentValue::Null), None);
    assert_eq!(firmware_version(IdentValue::Text { text: "2.0".to_string() }), Some("2.0".to_string()));
    assert_eq!(firmware_version(IdentValue::Text { text: String::new() }), Some(String::new()));
    assert_eq!(firmware_version(IdentValue::Other { json: "12".to_string() }), Some("12".to_string()));
    assert_eq!(firmware_version(IdentValue::Other { json: "[\"a\"]".to_string() }), Some("[\"a\"]".to_string()));
    assert_eq!(firmware_version_did(), "F189");
}

#[test]
fn routes() {
    match route_for_ecu(&ecu("cvc", "")) {
        Route::Direct { component } => assert_eq!(component, "cvc"),
        _ => panic!("expected a direct route"),
    }
    match route_for_ecu(&ecu("app", "gw")) {
        Route::SubEntity { gateway, app } => {
            assert_eq!(gateway, "gw");
            assert_eq!(app, "app");
        }
        _ => panic!("expected a sub-entity route"),
    }
    match route_for_component(&Some(String::new()), &"c".to_string()) {
        Route::Direct { component } => assert_eq!(component, "c"),
        _ => panic!("expected a direct route"),
    }
    match route_for_component(&None, &"c".to_string()) {
        Route::Direct { component } => assert_eq!(component, "c"),
        _ => panic!("expected a direct route"),
    }
    match route_for_component(&Some("gw".to_string()), &"c".to_string()) {
        Route::SubEntity { gateway, app } => {
            assert_eq!(gateway, "gw");
            assert_eq!(app, "c");
        }
        _ => panic!("expected a sub-entity route"),
    }
}

#[test]
fn wanted_parameters_are_kept_in_listing_order() {
    let wanted = diagnostic_params();
    assert_eq!(wanted, vec!["active_bank", "committed", "min_security_ver", "current_security_ver"]);
    let listing = Some(vec![
        "current_security_ver".to_string(),
        "boot_count".to_string(),
        "active_bank".to_string(),
    ]);
    assert_eq!(available_params(&listing, &wanted), vec!["current_security_ver", "active_bank"]);
    assert!(available_params(&None, &wanted).is_empty());
}

#[test]
fn decimal_rendering() {
    assert_eq!(u64_to_decimal(0), "0");
    assert_eq!(u64_to_decimal(10), "10");
    assert_eq!(u64_to_decimal(u64::MAX), u64::MAX.to_string());
    assert_eq!(u32_to_decimal(4_000_000_007), "4000000007");
}

#[test]
fn quotes_are_trimmed_at_both_ends_only() {
    assert_eq!(trimmed_of_quotes("\"\"abc\"d\""), "abc\"d");
    assert_eq!(trimmed_of_quotes("\"\""), "");
    assert_eq!(trimmed_of_quotes("\"\"\""), "");
    assert_eq!(trimmed_of_quotes("plain"), "plain");
    assert_eq!(trimmed_of_quotes("é\""), "é");
}

#[test]
fn polled_status_is_idle_without_an_update_resource() {
    let e = ecu("app", "gw");
    let s = polled_status(&e, None);
    assert_eq!(s.id, "app");
    assert!(s.transfer_state.is_none() && s.version.is_none() && s.ready.is_none());

    let s = polled_status(
        &e,
        Some(EcuReading {
            update: None,
            version: Some("3".to_string()),
            diagnostics: Diagnostics::new(),
            runtime: RuntimeStatus { ready: Some(false), boot_id: None, hb_seq: None, boot_count: None },
        }),
    );
    assert_eq!(s.transfer_state.as_deref(), Some("idle"));
    assert_eq!(s.activation_state, None);
    assert_eq!(s.version.as_deref(), Some("3"));
    assert_eq!(s.ready, Some(false));

    let s = polled_status(
        &e,
        Some(EcuReading {
            update: Some(body("execute", "inProgress", false)),
            version: None,
            diagnostics: Diagnostics::new(),
            runtime: RuntimeStatus { ready: None, boot_id: None, hb_seq: None, boot_count: None },
        }),
    );
    assert_eq!(s.transfer_state.as_deref(), Some("executing"));
    assert_eq!(s.activation_state.as_deref(), Some("executing"));
}
