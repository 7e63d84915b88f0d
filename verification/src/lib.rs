//! Auto File Manager: the verified core.

pub mod arguments;
pub mod arguments_laws;
pub mod clock;
pub mod commands;
pub mod commands_laws;
pub mod conflict;
pub mod control;
pub mod control_laws;
pub mod daemon;
pub mod daemon_laws;
pub mod doctor;
pub mod duration;
pub mod duration_laws;
pub mod file_laws;
pub mod file_promises;
pub mod list_laws;
pub mod list_promises;
pub mod logs;
pub mod mirror_promises;
pub mod number;
pub mod paths;
pub mod policy;
pub mod policy_laws;
pub mod prepare_laws;
pub mod records;
pub mod records_laws;
pub mod remote;
pub mod remote_laws;
pub mod report_laws;
pub mod report_promises;
pub mod requirements;
pub mod round_trip;
pub mod scripts;
pub mod shell;
pub mod sorting;
pub mod starters;
pub mod status;
pub mod text;
pub mod text_laws;
pub mod time_promises;
pub mod transfer_laws;
pub mod value_promises;
pub mod watcher;
pub mod watcher_laws;
