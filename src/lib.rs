//! Drives mobile apps on emulators and simulators with Nimbus experiment
//! recipes: resolves and prepares experiment records, and builds the
//! device-control invocations that launch, reset, kill and inspect an app.
pub mod json;
pub mod text;
pub mod recipe;
pub mod laws;
pub mod device;
pub mod features;
