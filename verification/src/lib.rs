pub mod chooser;
pub mod combine;
pub mod engine;
pub mod error;
pub mod language;
pub mod extract;
pub mod pipeline;
pub mod render;
pub mod sort;
pub mod text;
