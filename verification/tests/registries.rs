//! Monitor and connection registry tests.

use kanpe::clients::{ClientInfo, ClientManager};
use kanpe::monitors::MonitorManager;
use kanpe::server::summarize_broadcast;

#[test]
fn add_monitor_allocates_distinct_ids() {
    let mut reg = MonitorManager::new();
    let a = reg.add_monitor("One".to_string(), None, None);
    let b = reg.add_monitor("Two".to_string(), None, None);
    let c = reg.add_monitor("Three".to_string(), None, None);
    assert_eq!(a.id, 1);
    assert_eq!(b.id, 2);
    assert_eq!(c.id, 3);
    assert_ne!(a.id, b.id);
    assert_ne!(b.id, c.id);
    assert_ne!(a.id, c.id);
}

#[test]
fn monitor_id_not_reused_after_removal() {
    let mut reg = MonitorManager::new();
    let a = reg.add_monitor("One".to_string(), None, None);
    assert!(reg.remove_monitor(a.id).is_some());
    let b = reg.add_monitor("Two".to_string(), None, None);
    assert_ne!(a.id, b.id);
}

#[test]
fn remove_then_get_returns_nothing() {
    let mut reg = MonitorManager::new();
    let m = reg.add_monitor("Gone".to_string(), None, None);
    let removed = reg.remove_monitor(m.id).unwrap();
    assert_eq!(removed.id, m.id);
    assert!(reg.get_monitor(m.id).is_none());
    // removing again is a no-op
    assert!(reg.remove_monitor(m.id).is_none());
}

#[test]
fn update_missing_monitor_does_not_insert() {
    let mut reg = MonitorManager::new();
    let ghosted = kanpe::types::VirtualMonitor {
        id: 9,
        name: "Nobody".to_string(),
        description: None,
        color: None,
    };
    assert!(!reg.update_monitor(ghosted));
    assert!(reg.get_monitor(9).is_none());
    assert_eq!(reg.get_all_monitors().len(), 0);
}

#[test]
fn update_existing_monitor_applies() {
    let mut reg = MonitorManager::new();
    let m = reg.add_monitor("Before".to_string(), None, None);
    let replacement = kanpe::types::VirtualMonitor {
        id: m.id,
        name: "After".to_string(),
        description: Some("renamed".to_string()),
        color: None,
    };
    assert!(reg.update_monitor(replacement));
    let got = reg.get_monitor(m.id).unwrap();
    assert_eq!(got.name, "After");
    assert_eq!(got.description, Some("renamed".to_string()));
}

#[test]
fn default_monitors_are_seeded_in_order() {
    let mut reg = MonitorManager::new();
    reg.initialize_default_monitors();
    let all = reg.get_all_monitors();
    assert_eq!(all.len(), 4);
    assert_eq!(all[0].id, 1);
    assert_eq!(all[0].name, "Monitor A");
    assert_eq!(all[3].id, 4);
    assert_eq!(all[3].name, "Monitor D");
}

#[test]
fn snapshot_is_ordered_by_id() {
    let mut reg = MonitorManager::new();
    reg.add_monitor_with_id(7, "Seven".to_string(), None, None);
    reg.add_monitor_with_id(2, "Two".to_string(), None, None);
    reg.add_monitor_with_id(5, "Five".to_string(), None, None);
    let all = reg.get_all_monitors();
    let ids: Vec<u64> = all.iter().map(|m| m.id).collect();
    assert_eq!(ids, vec![2, 5, 7]);
}

#[test]
fn client_registry_counts_registrations() {
    let mut reg = ClientManager::new();
    let info = ClientInfo {
        client_id: "c-1".to_string(),
        client_name: "Actor1".to_string(),
        display_monitor_ids: vec![1],
    };
    reg.add_client("c-1".to_string(), info, 10);
    assert_eq!(reg.get_all_clients().len(), 1);
    assert!(reg.has_client("c-1"));

    // re-registering the same id replaces, it does not duplicate
    let info2 = ClientInfo {
        client_id: "c-1".to_string(),
        client_name: "Actor1b".to_string(),
        display_monitor_ids: vec![2],
    };
    reg.add_client("c-1".to_string(), info2, 11);
    assert_eq!(reg.get_all_clients().len(), 1);
    assert_eq!(reg.get_all_clients()[0].client_name, "Actor1b");

    let removed = reg.remove_client("c-1").unwrap();
    assert_eq!(removed.client_name, "Actor1b");
    assert_eq!(reg.get_all_clients().len(), 0);
    assert!(reg.remove_client("c-1").is_none());
}

#[test]
fn channel_snapshot_follows_registrations() {
    let mut reg = ClientManager::new();
    for (id, ch) in [("a", 1u64), ("b", 2u64), ("c", 3u64)] {
        let info = ClientInfo {
            client_id: id.to_string(),
            client_name: id.to_string(),
            display_monitor_ids: vec![],
        };
        reg.add_client(id.to_string(), info, ch);
    }
    let sinks = reg.get_all_sinks();
    assert_eq!(sinks.len(), 3);
    assert_eq!(sinks[1].0, "b");
    assert_eq!(sinks[1].1, 2);
}

#[test]
fn one_failing_channel_does_not_stop_the_others() {
    let targets = vec![10u64, 20, 30, 40];
    let ok = vec![true, false, true, true];
    let delivered = summarize_broadcast(&targets, &ok);
    assert_eq!(delivered, vec![10, 30, 40]);
}
