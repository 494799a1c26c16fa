pub mod faux;
pub mod mock;
pub mod openai_compatible;
