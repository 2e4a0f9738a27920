//! OpenNetDeck: the CORA protocol of the Elgato Network Dock, verified.

pub mod bufops;
pub mod constants;
pub mod cora;
pub mod error;
pub mod keepalive;
pub mod le;
pub mod models;
pub mod reports;
pub mod surface;
pub mod replies;
pub mod deck_bridge;
pub mod dock_hub;
pub mod dock;
pub mod primary;
pub mod secondary;
pub mod stream;
pub mod session;
pub mod cli;
pub mod discovery;
pub mod usb;
