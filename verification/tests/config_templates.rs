//! Application mode, configuration, and template collection tests.

use kanpe::appcfg::{AppConfig, AppMode, ConnectedClientInfo};
use kanpe::clients::ClientInfo;
use kanpe::templates::TemplateConfig;

#[test]
fn one_process_plays_one_role() {
    let mode = AppMode::NotSelected;
    let mode = mode.try_enter_server().unwrap();
    assert!(mode == AppMode::Server);
    // a server cannot also connect as a client
    assert!(mode.try_enter_client().is_none());
    // but the server role can be re-entered
    assert!(mode.try_enter_server().is_some());

    let mode = AppMode::NotSelected.try_enter_client().unwrap();
    assert!(mode == AppMode::Client);
    assert!(mode.try_enter_server().is_none());
}

#[test]
fn app_config_tracks_first_launch() {
    let mut cfg = AppConfig::default();
    assert!(cfg.is_first_launch());
    assert!(cfg.first_launch_timestamp.is_some());
    cfg.mark_donation_prompt_seen();
    assert!(!cfg.is_first_launch());
}

#[test]
fn connected_client_info_carries_identity() {
    let info = ClientInfo {
        client_id: "c-9".to_string(),
        client_name: "Actor9".to_string(),
        display_monitor_ids: vec![4, 5],
    };
    let report = ConnectedClientInfo::from_client_info(info);
    assert_eq!(report.client_id, "c-9");
    assert_eq!(report.name, "Actor9");
    assert_eq!(report.monitor_ids, vec![4, 5]);
}

#[test]
fn default_templates_are_seeded() {
    let cfg = TemplateConfig::default();
    assert_eq!(cfg.server_templates.len(), 3);
    assert_eq!(cfg.server_templates[0].content, "巻いてください");
    assert_eq!(cfg.server_templates[0].priority, "high");
    assert_eq!(cfg.client_templates.len(), 4);
    assert_eq!(cfg.client_templates[1].content, "質問があります");
    assert_eq!(cfg.client_templates[1].feedback_type, "question");
}

#[test]
fn templates_can_be_added_updated_and_deleted() {
    let mut cfg = TemplateConfig {
        server_templates: vec![],
        client_templates: vec![],
    };
    let t = cfg.add_server_template("On stage".to_string(), "normal".to_string());
    assert_eq!(cfg.server_templates.len(), 1);
    assert_eq!(t.id.len(), 36);

    assert!(cfg.update_server_template(&t.id, "Off stage".to_string(), "urgent".to_string()));
    assert_eq!(cfg.server_templates[0].content, "Off stage");
    assert_eq!(cfg.server_templates[0].priority, "urgent");

    // updating an unknown identifier changes nothing
    assert!(!cfg.update_server_template("nope", "x".to_string(), "normal".to_string()));
    assert_eq!(cfg.server_templates[0].content, "Off stage");

    cfg.delete_server_template(&t.id);
    assert!(cfg.server_templates.is_empty());

    let c = cfg.add_client_template("ready".to_string(), "ack".to_string());
    assert!(cfg.update_client_template(&c.id, "set".to_string(), "info".to_string()));
    assert_eq!(cfg.client_templates[0].content, "set");
    cfg.delete_client_template(&c.id);
    assert!(cfg.client_templates.is_empty());
}
