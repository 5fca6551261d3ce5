pub mod booking;
pub mod codec;
pub mod laws;
pub mod service;
pub mod storage;
