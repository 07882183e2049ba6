pub mod datetime;
pub mod number;
pub mod random;
pub mod string;
pub mod thread;
