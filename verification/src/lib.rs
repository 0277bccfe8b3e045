pub mod framebuffer;
pub mod text;
pub mod digest;
pub mod strset;
pub mod event;
pub mod policy;
pub mod policy_laws;
pub mod display;
pub mod doctor;
pub mod scan;
pub mod performance;
pub mod paths;
pub mod storage;
pub mod session;
pub mod remote;
pub mod runtime;
pub mod web;
pub mod vlm;
pub mod codex;
pub mod query;
pub mod experience;
pub mod guest_paths;
pub mod vm;
pub mod browser;
pub mod accessibility;
pub mod timeline_search;
pub mod browser_evidence;
pub mod browser_diagnosis;
pub mod remote_connect;
pub mod publication;
pub mod regions;
pub mod temporal;
pub mod temporal_rules;
pub mod temporal_motion;
pub mod temporal_analysis;
pub mod temporal_run;
pub mod payload;
pub mod doctor_run;
pub mod codex_turn;
pub mod command_evidence;
pub mod query_plan;
pub mod promotion;
pub mod reconstruction;
pub mod viewport;
pub mod relations;
pub mod replay;
pub mod publish;
pub mod run_setup;
pub mod guest_command;
pub mod workspace_gate;
pub mod fingerprint;
pub mod performance_report;
