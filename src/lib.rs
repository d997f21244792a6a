//! Content-addressed registry, sandbox driver and analysis pipeline of a
//! program-analysis service, with their decisions stated and proved.

pub mod packet;
pub mod process;
pub mod server;
pub mod stage;
pub mod submission;
pub mod text;
pub mod tool_aflpp;
pub mod tool_gcov;
pub mod tool_klee;
pub mod tool_symcc;
pub mod util_docker;
