//! Collects daily status reports, one per person, and compiles them into a
//! single digest that is delivered once a day.
//!
//! The library holds the state and makes the decisions; it neither sends nor
//! sleeps nor touches a file. A caller submits reports to the [`store`],
//! configures the [`schedule`], asks the [`controller`] on every wake-up
//! whether a cycle is due, and runs the cycle of [`state`]: the [`digest`] is
//! composed, a [`dispatch`] decides after each attempt to send whether to try
//! again, and a confirmed delivery clears the store. The [`snapshot`] says
//! what to save after every change and what a loaded file stands for.
//! [`laws`] states what holds of a whole cycle.

pub mod clock;
pub mod controller;
pub mod digest;
pub mod dispatch;
pub mod entry;
pub mod error;
pub mod laws;
pub mod schedule;
pub mod snapshot;
pub mod state;
pub mod store;
