pub mod aggregate;
pub mod all_values;
pub mod batch;
pub mod harness;
pub mod laws;
pub mod sample;
pub mod source;
pub mod text;
