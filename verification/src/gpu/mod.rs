//! The GPU service's bookkeeping and the boot text screen.
pub mod service;
pub mod text;
