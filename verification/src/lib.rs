//! A host-side model of a Bluetooth Low Energy GATT server.
//!
//! An application declares a tree of attributes (profiles, services,
//! characteristics, descriptors). The server drives their registration with
//! the Bluetooth host stack one call at a time, routes the stack's events to
//! the attribute they name and fans value changes out to subscribed peers.
//!
//! The library never talks to the stack itself. Every operation returns the
//! calls that its host has to make, and the host hands the stack's events
//! back in.

pub mod utilities;

pub mod gatt_server;
