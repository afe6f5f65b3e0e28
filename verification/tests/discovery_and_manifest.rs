use campaign_viewer::discovery::{assemble_ecus, initial_statuses, is_gateway, Entity, Probe, ProbedApp, ProbedComponent};
use campaign_viewer::manifest::{manifest_info, ManifestFields, TextComponent};

fn s(x: &str) -> String {
    x.to_string()
}

#[test]
fn gateway_needs_a_listed_app() {
    assert!(!is_gateway(&None));
    assert!(!is_gateway(&Some(vec![])));
    assert!(is_gateway(&Some(vec![Entity { id: s("a"), name: s("A") }])));
}

#[test]
fn discovery_flattens_gateways_and_direct_ecus() {
    let comps = vec![
        ProbedComponent { id: s("cvc"), name: s("CVC"), probe: Probe::Direct { params: vec![s("committed")] } },
        ProbedComponent {
            id: s("gw"),
            name: s("Gateway"),
            probe: Probe::Gateway {
                apps: vec![
                    ProbedApp { id: s("bms"), name: s("BMS"), params: vec![] },
                    ProbedApp { id: s("adas"), name: s("ADAS"), params: vec![s("active_bank")] },
                ],
            },
        },
        ProbedComponent { id: s("tcu"), name: s("TCU"), probe: Probe::Direct { params: vec![] } },
    ];
    let d = assemble_ecus(&comps);
    let ids: Vec<&str> = d.ecus.iter().map(|e| e.id.as_str()).collect();
    assert_eq!(ids, vec!["cvc", "bms", "adas", "tcu"]);
    let gws: Vec<&str> = d.ecus.iter().map(|e| e.gateway_id.as_str()).collect();
    assert_eq!(gws, vec!["", "gw", "gw", ""]);
    assert_eq!(d.ecus[2].diagnostic_params, vec![s("active_bank")]);
    assert_eq!(d.gateway_id.as_deref(), Some("gw"));

    let statuses = initial_statuses(&d.ecus);
    assert_eq!(statuses.len(), 4);
    assert_eq!(statuses[1].name, "BMS");
    assert!(statuses.iter().all(|s| s.transfer_state.is_none() && s.ready.is_none()));

    let none = assemble_ecus(&vec![]);
    assert!(none.ecus.is_empty() && none.gateway_id.is_none());
}

#[test]
fn manifest_summary() {
    let info = manifest_info(ManifestFields {
        sequence_number: 7,
        security_version: Some(5),
        component_count: 2,
        dependency_count: 1,
        has_install: false,
        has_validate: true,
        has_invoke: false,
        text: Some(TextComponent { version: Some(s("1.4")), vendor_name: Some(s("ACME")), model_name: None }),
    });
    assert_eq!(info.sequence_number, 7);
    assert_eq!(info.security_version, Some(5));
    assert_eq!(info.component_count, 2);
    assert_eq!(info.dependency_count, 1);
    assert!(info.has_firmware && info.has_validate && !info.has_install && !info.has_invoke);
    assert_eq!(info.text_version.as_deref(), Some("1.4"));
    assert_eq!(info.text_vendor_name.as_deref(), Some("ACME"));
    assert_eq!(info.text_model_name, None);

    let bare = manifest_info(ManifestFields {
        sequence_number: 1,
        security_version: None,
        component_count: 0,
        dependency_count: 0,
        has_install: false,
        has_validate: false,
        has_invoke: true,
        text: None,
    });
    assert!(!bare.has_firmware && bare.has_invoke);
    assert_eq!(bare.security_version, None);
    assert!(bare.text_version.is_none() && bare.text_vendor_name.is_none() && bare.text_model_name.is_none());
}
