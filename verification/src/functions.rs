pub mod num;
pub mod control;
pub mod strings;
pub mod meta;
