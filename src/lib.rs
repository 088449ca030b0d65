//! Rendering of live-broadcast chat comments into an ASS subtitle document,
//! and resolution of segment URL templates.
pub mod text;
pub mod template;
pub mod style;
pub mod lanes;
pub mod events;
pub mod poll;
pub mod office;
pub mod vote;
pub mod convert;

pub use convert::{xml2ass, Comment};
pub use style::{get_color, sec2hms};
pub use template::{Template, TemplateUrl};
