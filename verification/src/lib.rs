pub mod chapters;
pub mod details;
pub mod listing;
pub mod markdown;
pub mod model;
pub mod source;
pub mod text;
pub mod urls;
