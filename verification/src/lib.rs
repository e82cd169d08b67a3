//! Verified coordination core for a fleet of polling worker nodes.
//!
//! * Admission: the fixed window of the rate limiter and the task quota
//!   ([`admission`]).
//! * Task assignment: the pool with its polling rule ([`task_pool`]), the
//!   assignment transaction with the guarantees of that rule
//!   ([`assignment`]) and the endpoint's protocol ([`get_task`]).
//! * Telemetry: running statistics with their merge and bonus statements
//!   ([`aggregate`]), daily roll-ups ([`daily_stat`]) and the report
//!   endpoint's protocol ([`submit_bandwidth`]).
//! * Credentials: the check with its cache ([`check_token`]).
//! * Notification: the broadcaster ([`broadcaster`]) over the socket registry
//!   ([`registry`]) and the fairness rotation ([`rotation`], [`fairness`]).
//! * Background jobs ([`cron`]), the route table ([`routes`]), socket ready
//!   states ([`ready_state`]) and rules on text ([`text`]).
//!
//! The library does no input or output. An endpoint's protocol is a function
//! from the answers received so far to the next question or the reply; the
//! caller asks the questions.

pub mod admission;
pub mod aggregate;
pub mod assignment;
pub mod broadcaster;
pub mod check_token;
pub mod cron;
pub mod daily_stat;
pub mod error;
pub mod fairness;
pub mod get_task;
pub mod ready_state;
pub mod registry;
pub mod rotation;
pub mod routes;
pub mod submit_bandwidth;
pub mod task;
pub mod task_pool;
pub mod text;
