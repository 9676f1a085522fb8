use paradigm_core::address::Address;
use paradigm_core::tokenomics::analytics_api::alerts_response;
use paradigm_core::tokenomics::network_analytics::{
    AlertSeverity, AlertSystem, MetricsCollector, MAX_CONTRIBUTION_EVENTS,
};
use paradigm_core::tokenomics::ContributionType;

#[test]
fn alert_system_starts_with_four_rules() {
    let mut alerts = AlertSystem::new();
    alerts.initialize();
    let rules = alerts.get_alert_rules();
    assert_eq!(rules.len(), 4);
    assert_eq!(rules[0].name, "High Error Rate");
    assert_eq!(rules[1].severity, AlertSeverity::Critical);
    assert_eq!(rules[3].name, "Low Participation");
    assert!(rules.iter().all(|r| r.enabled));
}

#[test]
fn raised_alerts_name_their_rules() {
    let mut alerts = AlertSystem::new();
    alerts.initialize();
    alerts.raise_alerts(&[false, true, false, true]);
    let active = alerts.get_active_alerts();
    assert_eq!(active.len(), 2);
    assert_eq!(active[0].message, "Alert: Low Uptime");
    assert_eq!(active[0].severity, AlertSeverity::Critical);
    assert_eq!(active[1].message, "Alert: Low Participation");
    assert!(!active[1].acknowledged);
    alerts.acknowledge_alert(active[1].id);
    let after = alerts.get_active_alerts();
    assert!(after[1].acknowledged);
    assert!(!after[0].acknowledged);
    alerts.acknowledge_alert(active[0].id.wrapping_add(12345));
    assert_eq!(alerts.get_active_alerts().len(), 2);
}

#[test]
fn many_alerts_counted_by_severity() {
    let mut alerts = AlertSystem::new();
    alerts.initialize();
    for _ in 0..300 {
        alerts.raise_alerts(&[true, true, true, true]);
    }
    let response = alerts_response(alerts.get_active_alerts());
    assert_eq!(response.total_alerts, 1200);
    assert_eq!(response.critical_alerts, 300);
    assert_eq!(response.warning_alerts, 600);
    assert_eq!(response.info_alerts, 300);
    assert_eq!(response.alerts[1].message, "Alert: Low Uptime");
}

#[test]
fn contribution_log_keeps_five_hundred_events() {
    let mut collector = MetricsCollector::new();
    for value in 0..501u64 {
        collector.record_contribution(&Address([1u8; 32]), ContributionType::DataValidation, value);
    }
    let events = collector.get_contribution_events();
    assert_eq!(events.len(), MAX_CONTRIBUTION_EVENTS);
    assert_eq!(events[0].value, 1);
    assert_eq!(events[499].value, 500);
}
