use flowable_engine::events::EventSubscriptionKind;
use flowable_engine::start_subscriptions::{
    extract_event_start_subscriptions, MessageDeclaration, StartEventDefinition, StartEventModel,
};

fn start(id: &str, definitions: Vec<StartEventDefinition>) -> StartEventModel {
    StartEventModel {
        id: id.to_string(),
        name: Some(format!("{} name", id)),
        definitions,
        event_type: None,
        manual_start_correlation: false,
        event_type_text: None,
        manual_subscription: false,
        configuration: Some("{\"k\":1}".to_string()),
    }
}

#[test]
fn message_and_signal_starts_register_their_references() {
    let messages = vec![
        MessageDeclaration { id: Some("msgRef".to_string()), name: Some("orderPlaced".to_string()) },
        MessageDeclaration { id: Some("noName".to_string()), name: None },
    ];
    let starts = vec![
        start("s1", vec![StartEventDefinition::Message { message_ref: Some("msgRef".to_string()) }]),
        start("s2", vec![
            StartEventDefinition::Signal { signal_ref: Some("alarm".to_string()) },
            StartEventDefinition::Message { message_ref: Some("noName".to_string()) },
            StartEventDefinition::Message { message_ref: None },
        ]),
        start("s3", vec![StartEventDefinition::Timer]),
    ];
    let subs = extract_event_start_subscriptions("def:1", "def", Some("acme"), &starts, &messages);
    let got: Vec<(String, EventSubscriptionKind, String)> =
        subs.iter().map(|s| (s.start_event_id.clone(), s.event_kind, s.event_ref.clone())).collect();
    assert_eq!(
        got,
        vec![
            ("s1".to_string(), EventSubscriptionKind::Message, "orderPlaced".to_string()),
            ("s2".to_string(), EventSubscriptionKind::Signal, "alarm".to_string()),
            ("s2".to_string(), EventSubscriptionKind::Message, "noName".to_string()),
        ]
    );
    for s in &subs {
        assert_eq!(s.process_definition_id, "def:1");
        assert_eq!(s.process_definition_key, "def");
        assert_eq!(s.tenant_id, Some("acme".to_string()));
        assert_eq!(s.configuration, Some("{\"k\":1}".to_string()));
    }
    assert_eq!(subs[0].start_event_name, Some("s1 name".to_string()));
}

#[test]
fn event_registry_starts() {
    let mut plain = start("plain", Vec::new());
    plain.event_type = Some("orderEvent".to_string());
    let mut manual = start("manual", Vec::new());
    manual.event_type = Some("other".to_string());
    manual.manual_start_correlation = true;
    let mut timer_with_type = start("typed", vec![StartEventDefinition::Timer]);
    timer_with_type.event_type_text = Some("typedEvent".to_string());
    let mut manual_sub = start("manualSub", vec![StartEventDefinition::Other]);
    manual_sub.event_type_text = Some("skipped".to_string());
    manual_sub.manual_subscription = true;
    let subs = extract_event_start_subscriptions(
        "d",
        "k",
        None,
        &vec![plain, manual, timer_with_type, manual_sub],
        &Vec::new(),
    );
    let got: Vec<(String, EventSubscriptionKind, String)> =
        subs.iter().map(|s| (s.start_event_id.clone(), s.event_kind, s.event_ref.clone())).collect();
    assert_eq!(
        got,
        vec![
            ("plain".to_string(), EventSubscriptionKind::EventRegistry, "orderEvent".to_string()),
            ("typed".to_string(), EventSubscriptionKind::EventRegistry, "typedEvent".to_string()),
        ]
    );
    assert!(subs.iter().all(|s| s.tenant_id.is_none()));
}
