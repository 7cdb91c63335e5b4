pub mod locate;
pub mod model;
pub mod scanner;
pub mod trusted;
pub mod util;

pub use model::{OutputPayload, OutputRecord, VectorFields};
pub use scanner::{analyze_project, AnalyzeConfig};
