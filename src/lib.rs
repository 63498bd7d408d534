//! Request dispatcher core: the GIO wire codec, the operations that are sent
//! to the compute peer, and the staged transitions of the application state
//! kept in the content store.

pub mod config;
pub mod hexcodec;
pub mod error;
pub mod gio;
pub mod ident;
pub mod store;
pub mod state;
pub mod dispatch;
