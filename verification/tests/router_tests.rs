use d1doctor::router::{
    SubscriberRegistry, RoutedMessage, RouteDecision, route_orchestrator_message,
};
use d1doctor::protocol::LocalPayload;

fn msg(msg_type: &str, task_id: Option<&str>, body: &str) -> RoutedMessage {
    RoutedMessage {
        msg_type: Some(msg_type.to_string()),
        task_id: task_id.map(|s| s.to_string()),
        payload_task_id: None,
        body: body.to_string(),
    }
}

#[test]
fn test_route_delivers_only_to_registered_subscriber() {
    let mut subs = SubscriberRegistry::new();
    subs.register("T1", 7);
    subs.register("T2", 9);
    let (envelope, decision) = route_orchestrator_message(&msg("plan.proposed", Some("T1"), "{}"), &subs);
    assert!(matches!(decision, RouteDecision::Deliver { conn: 7 }));
    match envelope.payload {
        LocalPayload::Event { event_type, .. } => assert_eq!(event_type, "plan.proposed"),
        _ => panic!("expected an event payload"),
    }
}

#[test]
fn test_route_without_task_id_broadcasts() {
    let mut subs = SubscriberRegistry::new();
    subs.register("T1", 7);
    subs.register("T2", 9);
    let m = RoutedMessage {
        msg_type: Some("credits.updated".to_string()),
        task_id: None,
        payload_task_id: None,
        body: "{}".to_string(),
    };
    let (_envelope, decision) = route_orchestrator_message(&m, &subs);
    match decision {
        RouteDecision::Broadcast { conns } => {
            assert_eq!(conns, vec![7, 9]);
        }
        _ => panic!("expected a broadcast"),
    }
}

#[test]
fn test_route_unknown_task_id_drops() {
    let mut subs = SubscriberRegistry::new();
    subs.register("T1", 7);
    let (_envelope, decision) =
        route_orchestrator_message(&msg("step.started", Some("T9"), "{}"), &subs);
    assert!(matches!(decision, RouteDecision::DropNoSubscriber));
}

#[test]
fn test_route_uses_payload_task_id_when_top_level_absent() {
    let mut subs = SubscriberRegistry::new();
    subs.register("T1", 4);
    let m = RoutedMessage {
        msg_type: Some("step.completed".to_string()),
        task_id: None,
        payload_task_id: Some("T1".to_string()),
        body: "{}".to_string(),
    };
    let (_envelope, decision) = route_orchestrator_message(&m, &subs);
    assert!(matches!(decision, RouteDecision::Deliver { conn: 4 }));
}

#[test]
fn test_second_registration_overwrites() {
    let mut subs = SubscriberRegistry::new();
    subs.register("T1", 7);
    subs.register("T1", 8);
    assert_eq!(subs.lookup("T1"), Some(8));
    assert_eq!(subs.len(), 1);
}

#[test]
fn test_unregister_conn_removes_its_tasks() {
    let mut subs = SubscriberRegistry::new();
    subs.register("T1", 7);
    subs.register("T2", 9);
    subs.register("T3", 7);
    subs.unregister_conn(7);
    assert_eq!(subs.lookup("T1"), None);
    assert_eq!(subs.lookup("T3"), None);
    assert_eq!(subs.lookup("T2"), Some(9));
    assert_eq!(subs.len(), 1);
}

#[test]
fn test_route_missing_type_reports_unknown() {
    let subs = SubscriberRegistry::new();
    let m = RoutedMessage {
        msg_type: None,
        task_id: None,
        payload_task_id: None,
        body: "{}".to_string(),
    };
    let (envelope, _decision) = route_orchestrator_message(&m, &subs);
    assert_eq!(envelope.msg_type(), "unknown");
}
