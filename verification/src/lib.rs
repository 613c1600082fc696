//! Device events of the Govee platform, on their way to Home Assistant.
pub mod broker;
pub mod ca;
pub mod device;
pub mod entity;
pub mod entry;
pub mod event;
pub mod json;
pub mod message;
pub mod platform;
pub mod poll;
pub mod supervisor;
pub mod text;
pub mod topic;
