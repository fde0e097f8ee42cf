pub mod agent;
pub mod app;
pub mod config;
pub mod executor;
pub mod highlight;
pub mod http;
pub mod keyed;
pub mod keys;
pub mod laws;
pub mod pattern;
pub mod remote;
pub mod scanner;
pub mod session;
pub mod text;
pub mod theme;
pub mod utf8len;
