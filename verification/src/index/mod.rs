//! The search backend as the scheduler sees it: what it can be asked, how it
//! can fail, and how a batch is laid out for it.

pub mod error;
pub mod layout;
pub mod service;
