pub mod error;

pub use error::CompileErr;
