pub mod files;
pub mod jobs;
pub mod model;
pub mod paths;
pub mod state;
pub mod text;
pub mod theme;
