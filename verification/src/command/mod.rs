pub mod context;
pub mod exec;
pub mod fetch;
pub mod git;
pub mod pull;
pub mod register;
pub mod status;
pub mod unregister;
