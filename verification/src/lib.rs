//! Checks t-shirt artwork for printing problems: colour-space arithmetic,
//! artwork metrics, and the small state machines behind the user interface.

pub mod app;
pub mod artwork;
pub mod error;
pub mod gamma_tables;
pub mod hsla;
pub mod icons;
pub mod image_utils;
pub mod loaded_image;
pub mod log;
pub mod notice_panel;
pub mod report_templates;
pub mod rgba;
pub mod text;
pub mod time;
pub mod tool_select;
pub mod tshirt_storage;

pub use hsla::Hsla;
pub use loaded_image::PixelImage;
pub use rgba::Rgba;
pub use tshirt_storage::TShirtStorage;
