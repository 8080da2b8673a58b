//! What the interpreters of statements decide, apart from the work that
//! they hand to storage and to the pipeline.

pub mod interpreter_copy_v2;
pub mod processor_executor_stream;
