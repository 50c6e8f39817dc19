//! Log framing, buffering, classification and request logic shared by the
//! log collectors, the log sink and the log browser.

pub mod batch;
pub mod chars;
pub mod classify;
pub mod clock;
pub mod codec;
pub mod insert_plan;
pub mod journal;
pub mod level;
pub mod logs_query;
pub mod pacing;
pub mod pattern;
pub mod query_result;
pub mod sender;
pub mod store;
pub mod text;
pub mod wake;
