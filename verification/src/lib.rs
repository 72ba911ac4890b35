pub mod config;
pub mod harness;
pub mod intercept;
pub mod io;
pub mod net;
pub mod poller;
pub mod random;
pub mod runtime;
pub mod task;
pub mod time;
pub mod utils;
