//! Verified core of a camera streaming service: labels that identify
//! cameras, the registries that the server keeps per label, the wire
//! framing between client and server, and the HTTP side that serves the
//! streams to browsers.

pub mod error;
pub mod frame;
pub mod http;
pub mod label;
pub mod parse;
pub mod rabbitmq;
pub mod registry;
pub mod table;

pub use label::{copy, Label};
pub use registry::{DeviceEnum, DeviceFlag, DeviceReceiver, LabelFlagMap, LabelReceiverMap};
