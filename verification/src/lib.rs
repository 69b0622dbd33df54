pub mod strutil;
pub mod types;
pub mod environment;
pub mod functions;
pub mod parser;
pub mod program;
pub mod laws;
