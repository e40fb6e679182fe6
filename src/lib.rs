//! Daily wallpaper catalog: image identity and addressing, a deduplicated
//! catalog ordered by start time, the synchronisation plan that reconciles a
//! remote listing with it, and weighted selection of the current image.
pub mod catalog;
pub mod commands;
pub mod config;
pub mod image;
pub mod opt;
pub mod state;
pub mod sync;
pub mod text;

pub use config::Config;
pub use config::Raw as RawConfig;
