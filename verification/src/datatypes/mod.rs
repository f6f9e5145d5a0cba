//! Plain data types of the shell: logs, the user input line and its history.

pub mod coap_log;
pub mod diagnostic_log;
pub mod job_log;
pub mod lines;
pub mod log;
pub mod packet_log;
pub mod text_log;
pub mod user_input;
pub mod user_input_manager;
