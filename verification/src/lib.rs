//! Verified core of a home-sensor gateway.
//!
//! Readings arrive from Bluetooth Low Energy peripherals, GPIO buttons and a
//! local environmental sensor.  The bit-level field codec, the record-layout
//! catalog, the connection retry state machine, the notification multiplexer
//! and the aggregation/dispatch layer live here, each with a contract; the
//! process glue (D-Bus transport, GPIO and I2C drivers, HTTP delivery) stays
//! outside and talks to this crate through plain values.

pub mod buttons;
pub mod catalog;
pub mod codec;
pub mod conn;
pub mod dataserver;
pub mod mux;
pub mod pairing;
pub mod reading;
