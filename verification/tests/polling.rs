use sunrisewinds::polling::{
    choose_viewline_source, plan_ovation_cycle, store_alert_after_notify, OvationPlan, SeenAlerts, SwpcAlert,
    ViewlineSource,
};

fn alert(id: &str) -> SwpcAlert {
    SwpcAlert {
        product_id: id.to_string(),
        issue_datetime: "2026-03-06 01:00:00.000".to_string(),
        message: "Space Weather Message Code: ALTK04".to_string(),
    }
}

#[test]
fn viewline_source_choice() {
    assert_eq!(choose_viewline_source(120, true), ViewlineSource::Ovation);
    assert_eq!(choose_viewline_source(120, false), ViewlineSource::Ovation);
    assert_eq!(choose_viewline_source(0, true), ViewlineSource::KpFallback);
    assert_eq!(choose_viewline_source(0, false), ViewlineSource::Unavailable);
}

fn plan(notify: bool, publish_viewline: bool, alert_active: bool) -> OvationPlan {
    OvationPlan { notify, publish_viewline, alert_active }
}

#[test]
fn ovation_cycle_plans() {
    assert_eq!(plan_ovation_cycle(false, 10, true), plan(true, true, true));
    assert_eq!(plan_ovation_cycle(true, 10, false), plan(false, true, false));
    assert_eq!(plan_ovation_cycle(true, 0, false), plan(false, false, true));
    assert_eq!(plan_ovation_cycle(false, 0, true), plan(false, false, false));
}

#[test]
fn alert_stored_when_notifiers_answered() {
    assert!(store_alert_after_notify(&Some(vec!["webhook".to_string()])));
    assert!(store_alert_after_notify(&Some(vec![])));
    assert!(!store_alert_after_notify(&None));
}

#[test]
fn seen_alerts_count_new_ones() {
    let mut seen = SeenAlerts::new();
    let first = vec![alert("K04A"), alert("K05W"), alert("K04A")];
    assert_eq!(seen.register(&first), 3);
    assert!(seen.contains("K04A"));
    assert!(seen.contains("K05W"));
    assert!(!seen.contains("EF3A"));
    assert_eq!(seen.register(&first), 0);
    let second = vec![alert("K05W"), alert("EF3A")];
    assert_eq!(seen.register(&second), 1);
    assert!(seen.contains("EF3A"));
    assert_eq!(seen.register(&vec![]), 0);
}
