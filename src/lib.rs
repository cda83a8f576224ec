//! Core logic of a small local process manager: output buffering, job
//! identity, the registries of processes and jobs, and the control protocol.
pub mod log_buf;
pub mod text;
pub mod time;
pub mod process;
pub mod jid;
pub mod job_mgr;
pub mod subscriber_list;
pub mod output;
pub mod process_mgr;
pub mod console_table;
pub mod control;
pub mod ps;
pub mod listing;
pub mod client;
pub mod buf_list;
pub mod id;
pub mod vec_ext;
pub mod file_path;
pub mod delay;
