//! A Bluetooth Low Energy MIDI backend core: the BLE-MIDI packet codec
//! (decoder with running status and SysEx reassembly, encoder with packet
//! chunking), the message filter, the port model, and the connection
//! lifecycle state machine. The BLE stack itself is driven by unverified
//! glue that calls into this crate for every decision and every byte of
//! packet framing.

pub mod codec;
pub mod conn;
pub mod errors;
pub mod facade;
pub mod filter;
pub mod port;
pub mod worker;

pub use codec::ParserState;
pub use facade::MidiInput;
pub use facade::MidiOutput;
pub use filter::Ignore;
