pub mod batch;
pub mod cache;
pub mod document;
pub mod normalize;
pub mod snapshot;
pub mod upstream;
