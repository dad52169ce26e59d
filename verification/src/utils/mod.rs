pub mod batches;
pub mod errors;
pub mod fs;
pub mod ids;

pub use errors::AppError;
pub use fs::FileUtils;
pub use ids::IdGenerator;
