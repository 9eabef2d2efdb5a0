//! Reconstruction of logical log records from the physical lines of an
//! application log: header lines open a record, any other line is appended
//! to the message of the record that is open.

pub mod assemble;
pub mod header;
pub mod timestamp;
pub mod laws;
pub mod row;
