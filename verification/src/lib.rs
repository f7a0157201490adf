//! Real-time control core of a home gateway: GPIO reset and heartbeat lines
//! driven from a deadline-scheduled loop, and a guardian against memory
//! exhaustion.

pub mod bridge;
pub mod config;
pub mod deadline;
pub mod gpio_server;
pub mod gpiod;
pub mod oom;
pub mod operator;
pub mod reset_heap;
