//! CMSIS-SVD register map: address → `Peripheral.REGISTER` labels for
//! read-only annotation of memory packets.
pub mod index;
pub mod parsed;

pub use index::{SvdIndex, SvdLoadError};
