use flowable_engine::command::{ActivationCoordinator, CommandContext, EngineConfig, Command, EngineEvent, JobEventType};
use flowable_engine::entities::{Duplicate, RuntimeTimerJobState};
use flowable_engine::error::FlowableError;
use flowable_engine::failed_job::{failed_job_update, RecordFailedTimerWorkCmd, RetryCycle, FailedJobExecutionOrigin};
use flowable_engine::history_cleanup::{is_timer_family, HandleHistoryCleanupTimerJobCmd};
use flowable_engine::job_admin::{
    wrong_command_variant, ControlResultKind, PersistJobExtraFieldsCmd, RenewTimerLeaseCmd,
    RescheduleTimerJobCmd, TimerCoordinationControlCmd, UnlockOwnedJobsCmd,
};
use flowable_engine::store::RuntimeStore;
use flowable_engine::timer_execution::{
    event_subprocess_report, process_start_report, route_runtime_job, ExecuteTimerWorkCmd, TimerExecutionOutcome,
    RuntimeJobGate, RuntimeJobRoute,
};
use flowable_engine::timer_selection::{
    select_scheduled_timer_candidates, DueTimerCandidate, JobLockEligibility, ScheduledTimerCandidateKind,
};
use flowable_engine::timer_util::ResolvedTimerSchedule;
use flowable_engine::timer_work::{
    assemble_acquired_timer_work, lease_admits, sort_by_due, timer_work_is_async_job, AcquireTimerWorkCmd, EventSubprocessTimerSubscription,
    LockExclusiveJobScopeCmd, TimerCoordinatorLease, TimerStartSubscription, TimerWork,
};

fn candidate(id: &str, due: Option<i64>, locked: bool) -> DueTimerCandidate {
    DueTimerCandidate {
        id: id.to_string(),
        lock_owner: if locked { Some("other".to_string()) } else { None },
        due_time: due,
    }
}

fn job(id: &str) -> RuntimeTimerJobState {
    RuntimeTimerJobState::new(id.to_string(), "pi-1".to_string(), "ex-1".to_string(), "timer-1".to_string())
}

fn context(store: RuntimeStore, now: i64) -> CommandContext {
    CommandContext::new(store, EngineConfig::new(), ActivationCoordinator::inactive(), now)
}

#[test]
fn scheduled_timer_max_is_global_across_all_candidate_types() {
    let runtime = vec![candidate("job-b", Some(20), false), candidate("job-a", Some(10), false)];
    let starts = vec![candidate("start-1", Some(10), false), candidate("start-0", None, false)];
    let esp = vec![candidate("esp-1", Some(5), false), candidate("esp-2", Some(30), false)];
    let (r, p, e) = select_scheduled_timer_candidates(&runtime, &starts, &esp, 3, JobLockEligibility::Any);
    assert_eq!(e, vec!["esp-1".to_string()]);
    assert_eq!(r, vec!["job-a".to_string()]);
    assert_eq!(p, vec!["start-1".to_string()]);
}

#[test]
fn equal_due_times_order_by_id_then_family() {
    let runtime = vec![candidate("same", Some(7), false)];
    let starts = vec![candidate("same", Some(7), false), candidate("a", Some(7), false)];
    let (r, p, e) = select_scheduled_timer_candidates(&runtime, &starts, &vec![], 2, JobLockEligibility::Any);
    assert_eq!(p, vec!["a".to_string()]);
    assert_eq!(r, vec!["same".to_string()]);
    assert!(e.is_empty());
}

#[test]
fn unlocked_only_skips_locked_candidates() {
    let runtime = vec![candidate("locked", Some(1), true), candidate("free", Some(2), false)];
    let (r, _, _) = select_scheduled_timer_candidates(&runtime, &vec![], &vec![], 10, JobLockEligibility::UnlockedOnly);
    assert_eq!(r, vec!["free".to_string()]);
    let (r, _, _) = select_scheduled_timer_candidates(&runtime, &vec![], &vec![], 10, JobLockEligibility::Any);
    assert_eq!(r, vec!["locked".to_string(), "free".to_string()]);
    let (r, _, _) = select_scheduled_timer_candidates(&runtime, &vec![], &vec![], 0, JobLockEligibility::Any);
    assert!(r.is_empty());
    assert_eq!(ScheduledTimerCandidateKind::EventSubprocess.rank(), 2);
}

#[test]
fn lease_must_match_owner_and_token() {
    let lease = Some(TimerCoordinatorLease { owner_node_id: "node-1".to_string(), fencing_token: 4 });
    assert!(lease_admits(&lease, &"node-1".to_string(), 4));
    assert!(!lease_admits(&lease, &"node-1".to_string(), 5));
    assert!(!lease_admits(&lease, &"node-2".to_string(), 4));
    assert!(!lease_admits(&None, &"node-1".to_string(), 4));
}

#[test]
fn acquire_builder_sets_each_option() {
    let cmd = AcquireTimerWorkCmd::new("node".to_string(), 3)
        .with_tenant_ids(vec!["t".to_string()])
        .scheduled_timers_only()
        .with_max_jobs(8);
    assert_eq!(cmd.tenant_ids, vec!["t".to_string()]);
    assert_eq!(cmd.selection_limit(), Some(8));
    let plain = AcquireTimerWorkCmd::new("node".to_string(), 3).with_max_jobs(8);
    assert_eq!(plain.selection_limit(), None);
}

#[test]
fn scope_lock_prefers_the_jobs_own_lock() {
    let mut j = job("j");
    let cmd = LockExclusiveJobScopeCmd::new(j.clone_for_test(), "fallback".to_string());
    assert_eq!(cmd.scope_lock(100, 50), ("fallback".to_string(), 150));
    j.lock_owner = Some("exec".to_string());
    j.lock_expiration_time = Some(999);
    let cmd = LockExclusiveJobScopeCmd::new(j, "fallback".to_string());
    assert_eq!(cmd.scope_lock(100, 50), ("exec".to_string(), 999));
}

trait CloneForTest {
    fn clone_for_test(&self) -> Self;
}

impl CloneForTest for RuntimeTimerJobState {
    fn clone_for_test(&self) -> Self {
        Duplicate::duplicate(self)
    }
}

#[test]
fn manual_and_direct_hint_executions_skip_the_lease() {
    let manual = ExecuteTimerWorkCmd::new_manual_job(TimerWork::RuntimeJob(job("j")));
    assert_eq!(manual.owner_id, "manual-job-execution");
    assert!(manual.skip_coordinator_lease());
    let hinted = ExecuteTimerWorkCmd::new_direct_hint(TimerWork::RuntimeJob(job("j")), "exec".to_string());
    assert!(hinted.skip_coordinator_lease());
    let timer = ExecuteTimerWorkCmd::new(TimerWork::RuntimeJob(job("j")), "node".to_string(), 0);
    assert!(!timer.skip_coordinator_lease());
    let mut async_job = job("a");
    async_job.job_state = Some("async".to_string());
    assert!(timer_work_is_async_job(&TimerWork::RuntimeJob(async_job.clone_for_test())));
    let offered = ExecuteTimerWorkCmd::new(TimerWork::RuntimeJob(async_job), "node".to_string(), 0);
    assert!(offered.skip_coordinator_lease());
    assert!(!timer.lease_allows(&None));
}

#[test]
fn vanished_or_foreign_rows_are_conflicts() {
    let mut timer = job("j");
    timer.exclusive = true;
    let cmd = ExecuteTimerWorkCmd::new(TimerWork::RuntimeJob(timer.clone_for_test()), "node".to_string(), 1);
    match cmd.runtime_job_gate(&timer, &None, 0) {
        RuntimeJobGate::Conflict { release_scope_of } => assert_eq!(release_scope_of, Some("pi-1".to_string())),
        RuntimeJobGate::Proceed => panic!("a vanished row is a conflict"),
    }
    let mut current = timer.clone_for_test();
    current.lock_owner = Some("someone-else".to_string());
    assert!(matches!(cmd.runtime_job_gate(&timer, &Some(current), 0), RuntimeJobGate::Conflict { .. }));
    let mut mine = timer.clone_for_test();
    mine.lock_owner = Some("node".to_string());
    assert!(matches!(cmd.runtime_job_gate(&timer, &Some(mine), 0), RuntimeJobGate::Proceed));
}

#[test]
fn direct_hints_need_a_live_unchanged_lock() {
    let mut timer = job("j");
    timer.lock_owner = Some("exec".to_string());
    timer.lock_time = Some(1);
    timer.lock_expiration_time = Some(100);
    let cmd = ExecuteTimerWorkCmd::new_direct_hint(TimerWork::RuntimeJob(timer.clone_for_test()), "exec".to_string());
    assert!(matches!(cmd.runtime_job_gate(&timer, &Some(timer.clone_for_test()), 50), RuntimeJobGate::Proceed));
    assert!(matches!(cmd.runtime_job_gate(&timer, &Some(timer.clone_for_test()), 100), RuntimeJobGate::Conflict { .. }));
}

#[test]
fn jobs_route_by_their_kind() {
    let mut boundary = job("b");
    boundary.is_boundary = true;
    assert_eq!(route_runtime_job(&boundary, true, false), RuntimeJobRoute::BoundaryTimer);
    assert_eq!(route_runtime_job(&job("i"), true, false), RuntimeJobRoute::IntermediateTimer);
    let mut late = job("l");
    late.due_time = Some(5);
    assert_eq!(route_runtime_job(&late, false, false), RuntimeJobRoute::DropPastEndDate);
    let mut def = job("d");
    def.activity_id = "suspend-processdefinition".to_string();
    assert_eq!(route_runtime_job(&def, true, false), RuntimeJobRoute::ScheduledDefinitionAction(true));
    let mut history = job("h");
    history.job_state = Some("history".to_string());
    assert_eq!(route_runtime_job(&history, true, false), RuntimeJobRoute::History);
}

#[test]
fn fired_timer_reports_name_instance_and_event() {
    let sub = TimerStartSubscription {
        id: "s".to_string(),
        process_definition_id: "def:1".to_string(),
        process_definition_key: "def".to_string(),
        start_event_id: "start".to_string(),
        lock_owner: None,
        lock_time: None,
        due_time: None,
        end_date: None,
        time_cycle: None,
        calendar_name: None,
    };
    assert_eq!(process_start_report(&Some("pi-9".to_string()), &sub), "timer_start:pi-9:def:start");
    assert_eq!(process_start_report(&None, &sub), "timer_start_skipped_suspended:def:start");
    let esp = EventSubprocessTimerSubscription {
        subscription_id: "e".to_string(),
        process_instance_id: "pi-2".to_string(),
        start_event_id: "esp-start".to_string(),
        interrupting: false,
        lock_owner: None,
        lock_time: None,
        due_time: None,
        end_date: None,
        time_cycle: None,
        calendar_name: None,
    };
    assert_eq!(event_subprocess_report(&esp), "event_subprocess_timer:pi-2:esp-start");
}

#[test]
fn failure_counts_retries_down_to_dead_letter() {
    let mut j = job("j");
    j.lock_owner = Some("exec".to_string());
    let (first, moved) = failed_job_update(&j, None, 3, 10_000, 1_000, false, &"boom".to_string(), &"details".to_string());
    assert_eq!(first.retries, Some(2));
    assert_eq!(first.job_state, Some("timer".to_string()));
    assert_eq!(first.lock_owner, None);
    assert!(!moved);
    let (second, _) = failed_job_update(&first, None, 3, 10_000, 1_000, false, &"boom".to_string(), &"d".to_string());
    assert_eq!(second.retries, Some(1));
    let (third, moved) = failed_job_update(&second, None, 3, 10_000, 1_000, false, &"boom".to_string(), &"d".to_string());
    assert_eq!(third.retries, Some(0));
    assert_eq!(third.job_state, Some("deadletter".to_string()));
    assert!(moved);
    let (unrecoverable, moved) = failed_job_update(&j, None, 3, 10_000, 1_000, true, &"boom".to_string(), &"d".to_string());
    assert_eq!(unrecoverable.retries, Some(0));
    assert!(moved);
}

#[test]
fn failed_async_continuation_waits_for_its_retry() {
    let mut j = job("a");
    j.time_duration = Some("async-continuation".to_string());
    j.job_state = Some("async".to_string());
    let (next, _) = failed_job_update(&j, None, 3, 10_000, 1_000, false, &"x".to_string(), &"x".to_string());
    assert_eq!(next.job_state, Some("timer".to_string()));
    assert_eq!(next.due_time, Some(11_000));
    let cycle = RetryCycle { repetitions: 5, delay_ms: 60_000 };
    let (next, _) = failed_job_update(&j, Some(cycle), 3, 10_000, 1_000, false, &"x".to_string(), &"x".to_string());
    assert_eq!(next.retries, Some(4));
    assert_eq!(next.due_time, Some(61_000));
}

#[test]
fn record_failed_work_updates_the_stored_row() {
    let mut store = RuntimeStore::new();
    store.insert_timer_job_state(job("j"));
    let mut ctx = context(store, 500);
    let cmd = RecordFailedTimerWorkCmd::new_with_origin(
        TimerWork::RuntimeJob(job("j")),
        &FlowableError::ExecutionError("boom".to_string()),
        FailedJobExecutionOrigin::AutomaticExecutor,
    );
    assert_eq!(cmd.error_details, "ExecutionError(\"boom\")");
    assert!(matches!(cmd.error, FlowableError::ExecutionError(ref m) if m == "boom"));
    assert!(!cmd.unrecoverable);
    cmd.execute(&mut ctx).unwrap();
    let row = ctx.session.find_timer_job_state(&"j".to_string()).unwrap();
    assert_eq!(row.retries, Some(2));
    assert_eq!(row.error_message, Some("boom".to_string()));
    assert_eq!(ctx.events.len(), 3);
    assert!(matches!(ctx.events[2], EngineEvent::Job { event_type: JobEventType::ExecutionFailure, .. }));
}

#[test]
fn record_failed_async_job_needs_its_execution_for_a_cycle() {
    let mut j = job("a");
    j.time_duration = Some("async-continuation".to_string());
    j.time_cycle = Some("R3/PT1M".to_string());
    let mut store = RuntimeStore::new();
    store.insert_timer_job_state(j.clone_for_test());
    let mut ctx = context(store, 0);
    let cmd = RecordFailedTimerWorkCmd::new(TimerWork::RuntimeJob(j), &FlowableError::Internal("x".to_string()));
    let err = cmd.execute(&mut ctx).unwrap_err();
    assert!(matches!(err, FlowableError::NotFound(_)));
}

#[test]
fn renew_extends_only_an_owned_lock_under_the_lease() {
    let mut j = job("j");
    j.lock_owner = Some("node".to_string());
    let mut store = RuntimeStore::new();
    store.insert_timer_job_state(j.clone_for_test());
    let mut ctx = context(store, 1_000);
    let lease = Some(TimerCoordinatorLease { owner_node_id: "node".to_string(), fencing_token: 1 });
    let cmd = RenewTimerLeaseCmd::new(TimerWork::RuntimeJob(j.clone_for_test()), "node".to_string(), 1);
    assert!(cmd.renew(&mut ctx, &lease));
    let row = ctx.session.find_timer_job_state(&"j".to_string()).unwrap();
    assert_eq!(row.lock_time, Some(1_000));
    assert_eq!(row.lock_expiration_time, Some(301_000));
    let stale = RenewTimerLeaseCmd::new(TimerWork::RuntimeJob(j), "node".to_string(), 2);
    assert!(!stale.renew(&mut ctx, &lease));
}

#[test]
fn reschedule_requires_exactly_one_timer_value() {
    let none = RescheduleTimerJobCmd::new("j".to_string(), None, None, None, None, None);
    assert!(matches!(none.validate(), Err(FlowableError::ExecutionError(_))));
    let two = RescheduleTimerJobCmd::new("j".to_string(), Some("d".to_string()), Some("PT1M".to_string()), None, None, None);
    assert!(two.validate().is_err());
    let end_without_cycle = RescheduleTimerJobCmd::new("j".to_string(), None, Some("PT1M".to_string()), None, Some("e".to_string()), None);
    assert!(end_without_cycle.validate().is_err());
    let ok = RescheduleTimerJobCmd::new("j".to_string(), None, Some("PT1M".to_string()), None, None, None);
    assert!(ok.validate().is_ok());
}

#[test]
fn reschedule_rewrites_the_timer_and_clears_lock_and_error() {
    let mut j = job("j");
    j.lock_owner = Some("x".to_string());
    j.error_message = Some("old".to_string());
    let mut store = RuntimeStore::new();
    store.insert_timer_job_state(j);
    let mut ctx = context(store, 0);
    let cmd = RescheduleTimerJobCmd::new("j".to_string(), None, Some("PT1M".to_string()), None, None, Some("custom".to_string()));
    let schedule = ResolvedTimerSchedule {
        time_date: None,
        time_duration: Some("PT1M".to_string()),
        time_cycle: None,
        end_date: None,
        due_time: Some(60_000),
        calendar_name: None,
    };
    let out = cmd.execute_with_schedule(&mut ctx, Ok(schedule)).unwrap();
    assert_eq!(out.due_time, Some(60_000));
    assert_eq!(out.calendar_name, Some("custom".to_string()));
    assert_eq!(out.lock_owner, None);
    assert_eq!(out.error_message, None);
    let missing = RescheduleTimerJobCmd::new("nope".to_string(), None, Some("PT1M".to_string()), None, None, None);
    let err = missing.execute_with_schedule(&mut ctx, Err(FlowableError::Internal("unused".to_string()))).unwrap_err();
    assert!(matches!(err, FlowableError::NotFound(_)));
}

#[test]
fn extra_fields_write_only_values() {
    let cmd = PersistJobExtraFieldsCmd::new(job("j"), vec![("a".to_string(), None), ("b".to_string(), Some("1".to_string()))]);
    assert!(cmd.has_values());
    assert_eq!(cmd.written_fields(), vec![("b".to_string(), "1".to_string())]);
    let empty = PersistJobExtraFieldsCmd::new(job("j"), vec![("a".to_string(), None)]);
    assert!(!empty.has_values());
}

#[test]
fn unlock_scope_empty_tenants_means_all() {
    let cmd = UnlockOwnedJobsCmd::new("n".to_string()).with_tenant_ids(vec![]);
    assert!(cmd.tenant_filter().is_none());
    let cmd = UnlockOwnedJobsCmd::new("n".to_string()).with_tenant_ids(vec!["t".to_string()]);
    assert_eq!(cmd.tenant_filter(), Some(&vec!["t".to_string()]));
}

#[test]
fn control_commands_answer_only_their_result() {
    assert!(TimerCoordinationControlCmd::status().expect_result(ControlResultKind::CoordinatorStatus).is_ok());
    let err = TimerCoordinationControlCmd::nodes().expect_result(ControlResultKind::Release).unwrap_err();
    match err {
        FlowableError::Internal(m) => assert_eq!(m, "Wrong timer coordination command variant for ReleaseResult"),
        _ => panic!("internal error expected"),
    }
    match wrong_command_variant("X") {
        FlowableError::Internal(m) => assert_eq!(m, "Wrong timer coordination command variant for X"),
        _ => panic!("internal error expected"),
    }
}

fn cleanup(id: &str, cycle: &str) -> RuntimeTimerJobState {
    let mut j = RuntimeTimerJobState::new(id.to_string(), String::new(), String::new(), "bpmn-history-cleanup".to_string());
    j.handler_type = Some("bpmn-history-cleanup".to_string());
    j.job_state = Some("timer".to_string());
    j.time_cycle = Some(cycle.to_string());
    j
}

#[test]
fn history_cleanup_keeps_one_job_on_the_configured_cycle() {
    assert!(is_timer_family(&cleanup("c", "x")));
    let mut async_job = cleanup("a", "x");
    async_job.job_state = Some("async".to_string());
    assert!(!is_timer_family(&async_job));

    // two cleanup jobs, the first (smallest id) already on the cycle: it stays, the other goes
    let mut store = RuntimeStore::new();
    store.insert_timer_job_state(cleanup("c2", "0 0 1 * * ?"));
    store.insert_timer_job_state(cleanup("c1", "0 0 1 * * ?"));
    store.insert_timer_job_state(job("other"));
    let mut ctx = context(store, 0);
    HandleHistoryCleanupTimerJobCmd {}.run(&mut ctx, &"0 0 1 * * ?".to_string(), Some(5)).unwrap();
    assert!(ctx.session.find_timer_job_state(&"c1".to_string()).is_some());
    assert!(ctx.session.find_timer_job_state(&"c2".to_string()).is_none());
    assert!(ctx.session.find_timer_job_state(&"other".to_string()).is_some());
    assert_eq!(ctx.session.timer_jobs.rows.len(), 2);

    // a different cycle: the old job is replaced by a new one due when the calendar says
    HandleHistoryCleanupTimerJobCmd {}.run(&mut ctx, &"0 0 2 * * ?".to_string(), Some(77)).unwrap();
    assert!(ctx.session.find_timer_job_state(&"c1".to_string()).is_none());
    let created: Vec<&RuntimeTimerJobState> =
        ctx.session.timer_jobs.rows.iter().filter(|j| j.timer_job_id.starts_with("bpmn-history-cleanup:")).collect();
    assert_eq!(created.len(), 1);
    assert_eq!(created[0].due_time, Some(77));
    assert_eq!(created[0].time_cycle, Some("0 0 2 * * ?".to_string()));
    assert_eq!(created[0].calendar_name, Some("cycle".to_string()));
    assert_eq!(created[0].retries, Some(3));
    assert!(created[0].exclusive);

    // no due date for a needed new job: refused, nothing changes
    let before = ctx.session.timer_jobs.rows.len();
    match (HandleHistoryCleanupTimerJobCmd {}).run(&mut ctx, &"bad".to_string(), None) {
        Err(FlowableError::ExecutionError(m)) => {
            assert_eq!(m, "History cleaning time cycle 'bad' could not resolve a due date")
        },
        other => panic!("unexpected {:?}", other),
    }
    assert_eq!(ctx.session.timer_jobs.rows.len(), before);
}

fn due_job(id: &str, due: Option<i64>) -> RuntimeTimerJobState {
    let mut j = job(id);
    j.due_time = due;
    j
}

fn start_sub(id: &str, due: Option<i64>) -> TimerStartSubscription {
    TimerStartSubscription {
        id: id.to_string(),
        process_definition_id: "d".to_string(),
        process_definition_key: "k".to_string(),
        start_event_id: "s".to_string(),
        lock_owner: None,
        lock_time: None,
        due_time: due,
        end_date: None,
        time_cycle: None,
        calendar_name: None,
    }
}

fn work_id(w: &TimerWork) -> String {
    match w {
        TimerWork::RuntimeJob(j) => j.timer_job_id.clone(),
        TimerWork::ProcessStart(s) => s.id.clone(),
        TimerWork::EventSubprocess(s) => s.subscription_id.clone(),
    }
}

#[test]
fn acquired_work_is_sorted_stably_by_due_time() {
    let works = assemble_acquired_timer_work(
        vec![due_job("j1", Some(30)), due_job("j2", None), due_job("j3", Some(10))],
        vec![start_sub("s1", Some(10)), start_sub("s2", Some(-5))],
        Vec::new(),
    );
    let ids: Vec<String> = works.iter().map(work_id).collect();
    // no due time counts as 0; equal due times keep their acquisition order
    assert_eq!(ids, vec!["s2", "j2", "j3", "s1", "j1"]);
    assert!(sort_by_due(Vec::new()).is_empty());
}

#[test]
fn scheduled_timer_max_is_global_across_all_candidate_types_before_locking() {
    let now_ms: i64 = 1_700_000_000_000;
    let owner = "timer-max-owner".to_string();
    let timer_lock_time_ms: i64 = 5_678;
    let mut config = EngineConfig::new();
    config.timer_lock_time_ms = timer_lock_time_ms as u64;

    let mut runtime = RuntimeTimerJobState::new(
        "runtime-earliest".to_string(),
        "runtime-pi".to_string(),
        "runtime-execution".to_string(),
        "runtime-timer".to_string(),
    );
    runtime.job_state = Some("timer".to_string());
    runtime.due_time = Some(now_ms - 300);
    runtime.retries = Some(3);
    let mut store = RuntimeStore::new();
    store.insert_timer_job_state(runtime);
    let mut starts = vec![TimerStartSubscription {
        id: "process-start-middle".to_string(),
        process_definition_id: "definition-id".to_string(),
        process_definition_key: "definition-key".to_string(),
        start_event_id: "timer-start".to_string(),
        lock_owner: None,
        lock_time: None,
        due_time: Some(now_ms - 200),
        end_date: None,
        time_cycle: None,
        calendar_name: None,
    }];
    let mut subs = vec![EventSubprocessTimerSubscription {
        subscription_id: "event-subprocess-latest".to_string(),
        process_instance_id: "event-pi".to_string(),
        start_event_id: "event-timer-start".to_string(),
        interrupting: true,
        lock_owner: None,
        lock_time: None,
        due_time: Some(now_ms - 100),
        end_date: None,
        time_cycle: None,
        calendar_name: None,
    }];
    let mut ctx = CommandContext::new(store, config, ActivationCoordinator::inactive(), now_ms);
    let fencing_token: i64 = 1;
    let lease = Some(TimerCoordinatorLease { owner_node_id: owner.clone(), fencing_token });

    let cmd = AcquireTimerWorkCmd::new(owner.clone(), fencing_token).scheduled_timers_only().with_max_jobs(1);
    let works = cmd.execute(&mut ctx, &lease, &mut starts, &mut subs).unwrap();
    assert_eq!(works.len(), 1);
    assert!(matches!(&works[0], TimerWork::RuntimeJob(job) if job.timer_job_id == "runtime-earliest"));

    let locked_count = ctx.session.timer_jobs.rows.iter().filter(|job| job.lock_owner.is_some()).count()
        + starts.iter().filter(|s| s.lock_owner.is_some()).count()
        + subs.iter().filter(|s| s.lock_owner.is_some()).count();
    assert_eq!(locked_count, 1, "max=1 must persist exactly one lock");
    let locked_runtime_job = ctx.session.find_timer_job_state(&"runtime-earliest".to_string()).unwrap();
    assert_eq!(locked_runtime_job.lock_owner.as_deref(), Some("timer-max-owner"));
    assert_eq!(locked_runtime_job.lock_time, Some(now_ms));
    assert_eq!(locked_runtime_job.lock_expiration_time, Some(now_ms + timer_lock_time_ms));
    assert!(starts.iter().all(|s| s.lock_owner.is_none()));
    assert!(subs.iter().all(|s| s.lock_owner.is_none()));

    let global_command = AcquireTimerWorkCmd::new(owner.clone(), fencing_token).scheduled_timers_only().with_max_jobs(2);
    let global_works = global_command.execute(&mut ctx, &lease, &mut starts, &mut subs).unwrap();
    assert_eq!(global_works.len(), 2);
    assert!(global_works
        .iter()
        .any(|work| matches!(work, TimerWork::ProcessStart(s) if s.id == "process-start-middle")));
    assert!(global_works
        .iter()
        .any(|work| matches!(work, TimerWork::EventSubprocess(s) if s.subscription_id == "event-subprocess-latest")));
    assert_eq!(starts[0].lock_owner.as_deref(), Some("timer-max-owner"));
    assert_eq!(starts[0].lock_time, Some(now_ms));
    assert_eq!(subs[0].lock_owner.as_deref(), Some("timer-max-owner"));
    assert_eq!(subs[0].lock_time, Some(now_ms));
}

#[test]
fn scheduled_timer_selection_takes_the_earliest_across_kinds() {
    let now_ms: i64 = 1_700_000_000_000;
    let runtime = vec![candidate("runtime-earliest", Some(now_ms - 300), false)];
    let starts = vec![candidate("process-start-middle", Some(now_ms - 200), false)];
    let esp = vec![candidate("event-subprocess-latest", Some(now_ms - 100), false)];
    let (r, p, e) = select_scheduled_timer_candidates(&runtime, &starts, &esp, 1, JobLockEligibility::UnlockedOnly);
    assert_eq!(r, vec!["runtime-earliest".to_string()]);
    assert!(p.is_empty());
    assert!(e.is_empty());
    let (r, p, e) = select_scheduled_timer_candidates(&runtime, &starts, &esp, 2, JobLockEligibility::UnlockedOnly);
    assert_eq!(r, vec!["runtime-earliest".to_string()]);
    assert_eq!(p, vec!["process-start-middle".to_string()]);
    assert!(e.is_empty());
}

#[test]
fn acquisition_needs_the_lease_and_skips_locked_rows() {
    let mut j = job("due");
    j.due_time = Some(5);
    let mut store = RuntimeStore::new();
    store.insert_timer_job_state(j);
    let mut ctx = context(store, 10);
    let mut starts: Vec<TimerStartSubscription> = Vec::new();
    let mut subs: Vec<EventSubprocessTimerSubscription> = Vec::new();
    let cmd = AcquireTimerWorkCmd::new("node".to_string(), 7).scheduled_timers_only().with_max_jobs(5);
    let other = Some(TimerCoordinatorLease { owner_node_id: "node".to_string(), fencing_token: 8 });
    assert!(cmd.execute(&mut ctx, &other, &mut starts, &mut subs).unwrap().is_empty());
    assert!(cmd.execute(&mut ctx, &None, &mut starts, &mut subs).unwrap().is_empty());
    let lease = Some(TimerCoordinatorLease { owner_node_id: "node".to_string(), fencing_token: 7 });
    assert!(ctx.session.find_timer_job_state(&"due".to_string()).unwrap().lock_owner.is_none());
    let unbounded = AcquireTimerWorkCmd::new("node".to_string(), 7);
    let works = unbounded.execute(&mut ctx, &lease, &mut starts, &mut subs).unwrap();
    assert_eq!(works.len(), 1);
    let locked = ctx.session.find_timer_job_state(&"due".to_string()).unwrap();
    assert_eq!(locked.lock_owner.as_deref(), Some("node"));
    assert_eq!(locked.lock_time, Some(10));
    assert_eq!(locked.lock_expiration_time, Some(10 + 300_000));
    // a locked row is no candidate of the next round
    assert!(cmd.execute(&mut ctx, &lease, &mut starts, &mut subs).unwrap().is_empty());
}

#[test]
fn execute_timer_work_checks_lease_and_ownership_before_running() {
    let mut row = job("t1");
    row.lock_owner = Some("node".to_string());
    row.due_time = Some(5);
    row.exclusive = true;
    let mut store = RuntimeStore::new();
    store.insert_timer_job_state(row.clone_for_test());
    let mut ctx = context(store, 10);
    let lease = Some(TimerCoordinatorLease { owner_node_id: "node".to_string(), fencing_token: 1 });

    let cmd = ExecuteTimerWorkCmd::new(TimerWork::RuntimeJob(row.clone_for_test()), "node".to_string(), 1);
    let skipped = cmd.execute(&mut ctx, &None, true, false).unwrap();
    assert!(matches!(skipped, TimerExecutionOutcome::Skipped { release_scope_of: None }));

    let other = ExecuteTimerWorkCmd::new(TimerWork::RuntimeJob(row.clone_for_test()), "other".to_string(), 1);
    let other_lease = Some(TimerCoordinatorLease { owner_node_id: "other".to_string(), fencing_token: 1 });
    let conflict = other.execute(&mut ctx, &other_lease, true, false).unwrap();
    assert!(matches!(conflict, TimerExecutionOutcome::Skipped { release_scope_of: Some(ref pi) } if pi == "pi-1"));
    assert!(ctx.session.find_timer_job_state(&"t1".to_string()).is_some());

    let run = cmd.execute(&mut ctx, &lease, true, false).unwrap();
    assert!(matches!(run, TimerExecutionOutcome::Dispatch { ref job, route: RuntimeJobRoute::IntermediateTimer } if job.timer_job_id == "t1"));

    let dropped = cmd.execute(&mut ctx, &lease, false, false).unwrap();
    assert!(matches!(dropped, TimerExecutionOutcome::DroppedPastEndDate));
    assert!(ctx.session.find_timer_job_state(&"t1".to_string()).is_none());

    let vanished = cmd.execute(&mut ctx, &lease, true, false).unwrap();
    assert!(matches!(vanished, TimerExecutionOutcome::Skipped { release_scope_of: Some(ref pi) } if pi == "pi-1"));
}
