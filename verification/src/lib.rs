pub mod text;
pub mod error;
pub mod entities;
pub mod store;
pub mod command;
pub mod outside;
pub mod comment_cmd;
pub mod jobs;
pub mod suspension;
pub mod http_task;
pub mod timer_util;
pub mod ordering;
pub mod timer_selection;
pub mod timer_work;
pub mod timer_execution;
pub mod failed_job;
pub mod job_admin;
pub mod events;
pub mod correlate;
pub mod execution_tree;
pub mod boundary;
pub mod triggers;
pub mod deployments;
pub mod deploy;
pub mod start;
pub mod expressions;
pub mod instance_rows;
pub mod fault;
pub mod behaviors;
pub mod external_worker;
pub mod repository;
pub mod variables;
pub mod variable_writes;
pub mod history_cleanup;
pub mod variable_reads;
pub mod start_subscriptions;
pub mod deployment_deletion;
pub mod boundary_catch;
pub mod catch_events;
pub mod service_triggers;
pub mod form_details;
pub mod boundary_firing;
pub mod event_subprocesses;
pub mod event_start;
pub mod timer_acquisition;
