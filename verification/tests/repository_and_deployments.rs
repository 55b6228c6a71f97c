use flowable_engine::deployments::{
    same_resources, DeployCmd, Deployment, DeploymentBuilder, DeploymentResource, GetDeploymentCmd,
    GetDeploymentResourceCmd, GetDeploymentResourceNamesCmd, GetDeploymentResourcesCmd,
};
use flowable_engine::deployment_deletion::{plan_start_event_restores, DeployedDefinition};
use flowable_engine::deployments::DeleteDeploymentCmd;
use flowable_engine::entities::ProcessInstance;
use flowable_engine::error::FlowableError;
use flowable_engine::repository::{
    CreateRepositoryModelCmd, DeleteRepositoryModelCmd, GetRepositoryModelCmd, GetRepositoryModelSourceCmd,
    GetRepositoryModelsCmd, ModelRepository, RepositoryModel, UpdateRepositoryModelCmd, UpdateRepositoryModelSourceCmd,
};
use flowable_engine::store::{RuntimeStore, Table};
use flowable_engine::command::{ActivationCoordinator, CommandContext, EngineConfig};

fn model(id: &str) -> RepositoryModel {
    RepositoryModel {
        id: id.to_string(),
        name: Some("Model".to_string()),
        key: Some("key".to_string()),
        category: None,
        tenant_id: None,
        create_time: 0,
        last_update_time: 0,
        source_content_type: "application/json".to_string(),
        source_extra_content_type: "image/png".to_string(),
    }
}

#[test]
fn created_model_gets_an_id_and_times() {
    let mut repo = ModelRepository { entries: Vec::new() };
    let created = CreateRepositoryModelCmd::new(model("")).run(&mut repo, 100);
    assert!(!created.id.is_empty());
    assert_eq!(created.create_time, 100);
    assert_eq!(created.last_update_time, 100);
    let kept = CreateRepositoryModelCmd::new(model("m-1")).run(&mut repo, 5);
    assert_eq!(kept.id, "m-1");
    assert_eq!(GetRepositoryModelsCmd {}.run(&repo).len(), 2);
}

#[test]
fn update_moves_the_update_time_forward() {
    let mut repo = ModelRepository { entries: Vec::new() };
    CreateRepositoryModelCmd::new(model("m-1")).run(&mut repo, 100);
    let mut changed = model("m-1");
    changed.name = Some("Renamed".to_string());
    let updated = UpdateRepositoryModelCmd::new(changed).run(&mut repo, 50).unwrap();
    assert_eq!(updated.last_update_time, 101);
    assert_eq!(updated.name, Some("Renamed".to_string()));
    let read = GetRepositoryModelCmd::new("m-1".to_string()).run(&repo).unwrap();
    assert_eq!(read.name, Some("Renamed".to_string()));
}

#[test]
fn unknown_model_is_not_found() {
    let mut repo = ModelRepository { entries: Vec::new() };
    match DeleteRepositoryModelCmd::new("x".to_string()).run(&mut repo) {
        Err(FlowableError::NotFound(m)) => assert_eq!(m, "Model 'x' was not found"),
        other => panic!("unexpected {:?}", other),
    }
    assert!(UpdateRepositoryModelCmd::new(model("x")).run(&mut repo, 1).is_err());
}

#[test]
fn model_source_reads_back_and_delete_removes() {
    let mut repo = ModelRepository { entries: Vec::new() };
    CreateRepositoryModelCmd::new(model("m-1")).run(&mut repo, 1);
    UpdateRepositoryModelSourceCmd::new("m-1".to_string(), "text/xml".to_string(), vec![1, 2, 3]).run(&mut repo, 2).unwrap();
    let src = GetRepositoryModelSourceCmd::new("m-1".to_string()).run(&repo).unwrap();
    assert_eq!(src.bytes, vec![1, 2, 3]);
    assert_eq!(src.content_type, "text/xml");
    DeleteRepositoryModelCmd::new("m-1".to_string()).run(&mut repo).unwrap();
    assert!(GetRepositoryModelCmd::new("m-1".to_string()).run(&repo).is_err());
}

fn resource(name: &str, bytes: &[u8]) -> DeploymentResource {
    DeploymentResource { name: name.to_string(), bytes: bytes.to_vec() }
}

fn deployment(id: &str, name: &str, time: i64, resources: Vec<DeploymentResource>) -> Deployment {
    Deployment { id: id.to_string(), name: Some(name.to_string()), tenant_id: None, deployment_time: time, resources, is_new: true }
}

fn builder() -> DeploymentBuilder {
    DeploymentBuilder {
        name: Some("orders".to_string()),
        tenant_id: None,
        category: None,
        resources: vec![resource("a.bpmn", b"<a/>")],
        enable_duplicate_filtering: true,
    }
}

#[test]
fn duplicate_is_the_latest_of_the_series_with_same_resources() {
    let table = Table {
        rows: vec![
            deployment("d1", "orders", 1, vec![resource("a.bpmn", b"<a/>")]),
            deployment("d2", "orders", 2, vec![resource("a.bpmn", b"<b/>")]),
        ],
    };
    let cmd = DeployCmd::new(builder());
    let same_as_old = deployment("new", "orders", 3, vec![resource("a.bpmn", b"<a/>")]);
    // the latest (d2) differs, so nothing is a duplicate
    assert!(cmd.find_duplicate_deployment(&same_as_old, &table).is_none());
    let same_as_latest = deployment("new", "orders", 3, vec![resource("a.bpmn", b"<b/>")]);
    let dup = cmd.find_duplicate_deployment(&same_as_latest, &table).unwrap();
    assert_eq!(dup.id, "d2");
    assert!(!dup.is_new);
    let other_series = deployment("new", "other", 3, vec![resource("a.bpmn", b"<b/>")]);
    assert!(cmd.find_duplicate_deployment(&other_series, &table).is_none());
}

#[test]
fn resource_lists_compare_by_name_and_bytes() {
    assert!(same_resources(&vec![resource("a", b"1")], &vec![resource("a", b"1")]));
    assert!(!same_resources(&vec![resource("a", b"1")], &vec![resource("a", b"2")]));
    assert!(!same_resources(&vec![resource("a", b"1")], &Vec::new()));
}

#[test]
fn deployment_reads() {
    let table = Table { rows: vec![deployment("d1", "orders", 1, vec![resource("a.bpmn", b"<a/>"), resource("b.png", b"P")])] };
    assert_eq!(GetDeploymentCmd::new("d1".to_string()).run(&table).unwrap().id, "d1");
    assert!(matches!(GetDeploymentCmd::new("zz".to_string()).run(&table), Err(FlowableError::NotFound(_))));
    assert_eq!(
        GetDeploymentResourceNamesCmd::new("d1".to_string()).run(&table),
        vec!["a.bpmn".to_string(), "b.png".to_string()]
    );
    assert!(GetDeploymentResourceNamesCmd::new("zz".to_string()).run(&table).is_empty());
    assert_eq!(GetDeploymentResourcesCmd::new("d1".to_string()).run(&table).unwrap().len(), 2);
    let r = GetDeploymentResourceCmd::new("d1".to_string(), "b.png".to_string()).run(&table).unwrap();
    assert_eq!(r.bytes, b"P".to_vec());
    assert!(GetDeploymentResourceCmd::new("d1".to_string(), "c".to_string()).run(&table).is_err());
}

fn deployed(id: &str, key: &str, version: i32, deployment: &str) -> DeployedDefinition {
    DeployedDefinition {
        id: id.to_string(),
        key: key.to_string(),
        tenant_id: None,
        version,
        deployment_id: Some(deployment.to_string()),
    }
}

#[test]
fn deleting_the_latest_version_restores_the_previous_one() {
    let defs = vec![
        deployed("orders:1", "orders", 1, "d1"),
        deployed("orders:2", "orders", 2, "d2"),
        deployed("orders:3", "orders", 3, "d3"),
        deployed("billing:1", "billing", 1, "d3"),
        deployed("other:5", "other", 5, "d1"),
    ];
    // d3 holds the latest orders (previous: version 2) and the only billing version
    assert_eq!(
        plan_start_event_restores(&defs, &"d3".to_string()),
        vec![("orders:2".to_string(), "orders".to_string(), None)]
    );
    // d2 is not the latest of its series: nothing comes back
    assert!(plan_start_event_restores(&defs, &"d2".to_string()).is_empty());
}

#[test]
fn delete_plan_checks_the_deployment_and_cascades_to_instances() {
    let table = Table { rows: vec![deployment("d3", "orders", 3, Vec::new())] };
    let defs = vec![deployed("orders:2", "orders", 2, "d2"), deployed("orders:3", "orders", 3, "d3")];
    let instances = vec![
        ProcessInstance::new("pi-1".to_string(), "orders:3".to_string(), "orders".to_string()),
        ProcessInstance::new("pi-2".to_string(), "orders:2".to_string(), "orders".to_string()),
        ProcessInstance::new("pi-3".to_string(), "orders:3".to_string(), "orders".to_string()),
    ];
    let (ids, restores) = DeleteDeploymentCmd::new_with_cascade("d3".to_string(), true).plan(&table, &defs, &instances).unwrap();
    assert_eq!(ids, vec!["pi-1".to_string(), "pi-3".to_string()]);
    assert_eq!(restores, vec![("orders:2".to_string(), "orders".to_string(), None)]);
    let (ids, _) = DeleteDeploymentCmd::new("d3".to_string()).plan(&table, &defs, &instances).unwrap();
    assert!(ids.is_empty());
    match DeleteDeploymentCmd::new("zz".to_string()).plan(&table, &defs, &instances) {
        Err(FlowableError::NotFound(m)) => assert_eq!(m, "Deployment 'zz' was not found"),
        other => panic!("unexpected {:?}", other),
    }
}

fn definition(id: &str, key: &str, version: i32) -> flowable_engine::entities::ProcessDefinition {
    flowable_engine::entities::ProcessDefinition {
        id: id.to_string(),
        key: key.to_string(),
        name: None,
        version,
        is_suspended: false,
        tenant_id: None,
    }
}

fn timer_start(id: &str, definition_id: &str, key: &str) -> flowable_engine::timer_work::TimerStartSubscription {
    flowable_engine::timer_work::TimerStartSubscription {
        id: id.to_string(),
        process_definition_id: definition_id.to_string(),
        process_definition_key: key.to_string(),
        start_event_id: "start".to_string(),
        lock_owner: None,
        lock_time: None,
        due_time: Some(100),
        end_date: None,
        time_cycle: None,
        calendar_name: None,
    }
}

fn message_start(definition_id: &str, key: &str, tenant: Option<&str>) -> flowable_engine::start_subscriptions::ProcessEventStartSubscription {
    flowable_engine::start_subscriptions::ProcessEventStartSubscription {
        process_definition_id: definition_id.to_string(),
        process_definition_key: key.to_string(),
        tenant_id: tenant.map(|t| t.to_string()),
        start_event_id: "start".to_string(),
        start_event_name: None,
        event_kind: flowable_engine::events::EventSubscriptionKind::Message,
        event_ref: "order".to_string(),
        configuration: None,
    }
}

#[test]
fn deploy_stores_definitions_and_replaces_start_subscriptions_of_the_same_key() {
    let mut store = RuntimeStore::new();
    store.insert_process_definition(definition("orders:1", "orders", 1));
    let mut ctx = CommandContext::new(store, EngineConfig::new(), ActivationCoordinator::inactive(), 0);
    let mut deployments = Table { rows: vec![deployment("d1", "orders", 1, vec![resource("a.bpmn", b"<old/>")])] };
    let mut timers = vec![timer_start("t-old", "orders:1", "orders"), timer_start("t-other", "other:1", "other")];
    let mut events = vec![message_start("orders:1", "orders", None), message_start("orders:1", "orders", Some("acme"))];
    let cmd = DeployCmd::new(builder());
    let d = cmd
        .execute(
            &mut ctx,
            &mut deployments,
            vec![definition("orders:2", "orders", 2)],
            &mut timers,
            vec![timer_start("t-new", "orders:2", "orders")],
            &mut events,
            vec![message_start("orders:2", "orders", None)],
        )
        .unwrap();
    assert!(d.is_new);
    assert_eq!(d.name, Some("orders".to_string()));
    assert!(!d.id.is_empty());
    assert!(ctx.session.get_process_definition(&"orders:2".to_string()).is_some());
    assert!(ctx.session.get_process_definition(&"orders:1".to_string()).is_some());
    let timer_ids: Vec<&str> = timers.iter().map(|t| t.id.as_str()).collect();
    assert_eq!(timer_ids, vec!["t-other", "t-new"]);
    assert_eq!(events.len(), 2);
    assert_eq!(events[0].tenant_id, Some("acme".to_string()));
    assert_eq!(events[1].process_definition_id, "orders:2");
    assert_eq!(deployments.rows.len(), 2);
    assert!(deployments.rows.iter().any(|r| r.id == d.id));

    // deploying the same resources again answers the latest deployment
    let again = cmd
        .execute(&mut ctx, &mut deployments, vec![definition("orders:3", "orders", 3)], &mut timers, vec![], &mut events, vec![])
        .unwrap();
    assert_eq!(again.id, d.id);
    assert!(!again.is_new);
    assert_eq!(deployments.rows.len(), 2);
    assert!(ctx.session.get_process_definition(&"orders:3".to_string()).is_none());
    assert_eq!(timers.len(), 2);
}
