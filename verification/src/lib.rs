pub mod answer_laws;
pub mod auth;
pub mod conf_laws;
pub mod config;
pub mod course_laws;
pub mod encoding;
pub mod event_laws;
pub mod event_log_laws;
pub mod event_time;
pub mod events;
pub mod exchange;
pub mod extractor;
pub mod json;
pub mod log_event;
pub mod log_laws;
pub mod raw;
pub mod raw_laws;
pub mod raw_log_laws;
pub mod request_laws;
pub mod response;
pub mod routes;
pub mod source;
pub mod string_map;
pub mod text;
pub mod text_laws;
pub mod timestamp;
pub mod token_binding;
pub mod value;
pub mod value_laws;
