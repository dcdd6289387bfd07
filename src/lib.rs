//! An ATA PIO disk driver core and a small framebuffer painter.
//!
//! The driver logic (register programming, sector arithmetic, the read
//! scatter and the read-modify-write merge of partial writes) is verified;
//! the port accesses themselves are done by the caller, which hands the
//! words it transferred to the driver and sends the writes it returns.
//! `model` relates reads and writes to a model of the drive's media.
pub mod ata;
pub mod graphics;
pub mod model;
