pub mod order;
pub mod register;
pub mod vector;
pub mod vector_clock;
