//! Marshaling layer between a managed runtime and a native columnar engine:
//! handles, cell conversion, bulk array transfer, row cursors and error text.

pub mod bridge;
pub mod handle;
pub mod options;
pub mod row;
pub mod storage;
pub mod temporal;
pub mod transfer;
pub mod value;
