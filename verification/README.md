# flowable_engine

A verified library of the command logic of a BPMN process engine: starting
process instances, correlating messages, firing boundary, catch and
event-subprocess events, suspending and activating definitions and
instances, reading and writing variables, and acquiring, executing and
failing timer work. Every function in `src/` is checked by Verus against its
`requires` / `ensures` contract.

## Model

- `store` holds the runtime tables (instances, executions, tasks,
  definitions, timer jobs, subscriptions, variables) as keyed tables whose
  view is a `Map` from id to row; `RuntimeStore::wf` is the invariant every
  command keeps.
- `command` holds the `CommandContext` a command runs against: the store, the
  engine settings, the clock reading taken for the command, and the events
  queued for after commit.
- Each command module states what the command does to that context, and its
  result, over spec functions of its own.

## Layout

- `text`, `error`, `entities`, `store`, `command`: the data model.
- `outside`: the few trusted calls into `chrono`, `uuid` and std formatting.
- `timer_util`, `timer_selection`, `timer_work`, `timer_acquisition`,
  `timer_execution`, `failed_job`, `job_admin`, `history_cleanup`: timers and
  jobs.
- `start`, `start_subscriptions`, `event_start`, `correlate`, `catch_events`,
  `boundary*`, `event_subprocesses`, `triggers`, `service_triggers`: starting
  instances and firing events.
- `variables`, `variable_reads`, `variable_writes`, `expressions`,
  `form_details`, `comment_cmd`, `external_worker`, `http_task`, `fault`,
  `behaviors`, `repository`, `deployments`, `deploy`, `deployment_deletion`,
  `instance_rows`, `execution_tree`, `suspension`, `events`, `ordering`,
  `jobs`: the remaining commands and rules.

## What the library leaves to its caller

- Parsing and validating BPMN, business calendars and the engine clock: the
  caller hands in parsed definitions and start subscriptions
  (`DeployCmd::execute`), resolved due times, and whether a due time lies
  within its end date.
- Running a timer job's handler: `ExecuteTimerWorkCmd::execute` checks the
  lease and the job's ownership, deletes a timer past its end date and runs a
  scheduled definition suspend or activate; any other job comes back as a
  `Dispatch` naming its route. Releasing a per-instance scope lock is
  reported, not performed, as the store holds no scope locks.
- Which rows are due: `AcquireTimerWorkCmd::execute` takes the due, unlocked
  timer rows and subscriptions it is handed (`due_scheduled_timer`), every
  one of them in a round without a bound.
- Dispatching queued events to listeners, metrics counters, identity links,
  and start or correlation variables.
- HTTP transport and JSON values.
