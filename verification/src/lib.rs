//! Translation layer between a dynamically typed message bus and a
//! statically typed Bluetooth Low Energy domain model.
//!
//! The crate models the bus value space as a closed tagged union
//! ([`variant::PropertyVariant`]), classifies incoming property-changed
//! signals into domain events ([`event::BluetoothEvent`]), parses compound
//! modalias identifier strings ([`modalias`]), and offers the generic
//! remote-property accessor ([`adapter::BluetoothAdapter`]) over a bus
//! handle ([`bus::StubBus`]).

pub mod error;
pub mod text;
pub mod variant;
pub mod event;
pub mod modalias;
pub mod bus;
pub mod adapter;
