//! Host-process orchestration: an index of the executables reachable through
//! the search path, invocable units that accumulate arguments, and a pipeline
//! runner that feeds each stage's captured output to the next and halts the
//! chain as soon as a stage reports error text.

pub mod errors;
pub mod index;
pub mod invocable;
pub mod output;
pub mod pipeline;
pub mod strmap;
pub mod text;

pub use errors::ExecError;
pub use errors::StageError;
pub use index::Local;
pub use index::build_index;
pub use invocable::Bin;
pub use output::Output;
pub use pipeline::CannedStage;
pub use pipeline::Executable;
pub use pipeline::plan_stdin;
pub use pipeline::run_pipeline;
pub use pipeline::run_standalone;
pub use strmap::StrMap;
pub use strmap::merge_maps;
