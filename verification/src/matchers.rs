//! The matcher set: eight independent, stateless classifiers, one per
//! supported protocol, each a pure function from a byte buffer to an
//! optional structured result.

pub mod modbus;
pub mod telnet;
pub mod custom;
pub mod ftp;
pub mod smtp;
pub mod websocket;
pub mod redis;
pub mod http;
