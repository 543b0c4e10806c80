//! Host/guest interoperation core for an isolated guest program that drives
//! one binary output line through a narrow capability interface.
//!
//! The host owns the hardware, the time and the memory. The guest is a
//! precompiled artifact that can do nothing but call the capability
//! functions the host links to it.
//!
//! - [`arena`]: the books of the static heap arena.
//! - [`tls`]: the one thread-local cell the engine needs.
//! - [`engine`]: the execution profile of the engine, its constraints, and
//!   the bootstrap of the engine.
//! - [`capability`]: the capability interface in its two shapes.
//! - [`linker`]: binding the imports of an artifact to host functions.
//! - [`driver`]: the order of the start-up and what a failure does to it.
//! - [`pattern`]: the guest's signal as a sequence of capability calls.
//! - [`trace`], [`schedule`]: what a sequence of calls amounts to, and the
//!   timetable of the signal.
//! - [`recorder`]: a capability implementation that writes the calls down.

pub mod arena;
pub mod capability;
pub mod driver;
pub mod engine;
pub mod linker;
pub mod pattern;
pub mod recorder;
pub mod schedule;
pub mod tls;
pub mod trace;
