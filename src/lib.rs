//! Registry of open serial-device connections, with cancellable background
//! readers that frame the incoming byte stream into newline-delimited messages.

pub mod commands;
mod config;
mod error;
mod listing;
mod reader;
mod registry;

pub use config::{
    get_data_bits, get_flow_control, get_parity, get_stop_bits, DataBits, FlowControl, Parity,
    PortConfig, StopBits,
};
pub use error::{Notice, PortError};
pub use reader::{
    lemma_stopped_emits_nothing, lemma_timeouts_change_nothing, ByteRead, CancelPoll, Message, ReaderEngine, ReaderState, DELIMITER};
pub use registry::{init, PortHandle, ReaderTask, Registry, Session};
pub use commands::{
    cancel_read, close, close_all, finish_write, force_close, open, read, register_opened,
    start_reader, write_binary,
};
pub use listing::{available_ports, get_port_info, PortDescriptor, PortKind, PortListing, UsbInfo};
