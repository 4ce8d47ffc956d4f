//! Engine service bookkeeping for trusted C# products: content references,
//! renderer resource selection, audio clip ownership and realization
//! feedback, sprite playback, animation feedback, camera composition and
//! authored content catalogs.

mod error;
pub mod table;
pub mod text;
pub mod digest;
pub mod paths;
pub mod resource;
pub mod selection;
pub mod content;
pub mod wav;
pub mod audio;
pub mod sprite;
pub mod animation;
pub mod camera;
pub mod animation_graph;
pub mod mesh;
pub mod appearance;
pub mod light;
pub mod presentation;
pub mod authored;

pub use error::CsharpEngineServicesError;
