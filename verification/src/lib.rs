//! Usage accounting for Codex session logs.

pub mod capacity;
pub mod codex_home;
pub mod commit_laws;
pub mod copy_laws;
pub mod database;
pub mod estimate_laws;
pub mod estimates;
pub mod file_import;
pub mod file_order;
pub mod import_state;
pub mod incremental;
pub mod incremental_laws;
pub mod json;
pub mod local_time;
pub mod models;
pub mod name_laws;
pub mod number_laws;
pub mod numbers;
pub mod parent_log_laws;
pub mod paths;
pub mod place_laws;
pub mod prepared;
pub mod progress_laws;
pub mod rate_limits;
pub mod recent_days;
pub mod record_laws;
pub mod repair_laws;
pub mod repairs;
pub mod replay;
pub mod replay_cache;
pub mod replay_laws;
pub mod replay_reader;
pub mod scan_commit;
pub mod scan_files;
pub mod scan_laws;
pub mod scan_plan;
pub mod selection_laws;
pub mod session_id;
pub mod session_index;
pub mod session_log;
pub mod session_log_laws;
pub mod stage_laws;
pub mod text;
pub mod text_map;
pub mod timestamps;
pub mod topology;
pub mod topology_laws;
pub mod usage;
pub mod usage_laws;
pub mod view_laws;
pub mod window_laws;
