pub mod clock;
pub mod columns;
pub mod harness;
pub mod laws;
pub mod memory;
pub mod model;
pub mod pg;
pub mod random;
pub mod service;
pub mod storage;
pub mod testing;
