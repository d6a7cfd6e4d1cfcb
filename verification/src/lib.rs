//! A SCSI target that answers the commands of a virtio-scsi guest.
//!
//! The crate holds the emulation engine: the sense catalogue, the CDB
//! parser, the encoders of the response data, the logical units, the
//! target that routes a request to one of them, and the virtio-scsi
//! framing with its cursors over a descriptor chain.
pub mod sense;
pub mod sink;
pub mod virtio;
pub mod block_device;
pub mod chain;
pub mod command;
pub mod guest;
pub mod mode_page;
pub mod response_data;
pub mod scsi;
