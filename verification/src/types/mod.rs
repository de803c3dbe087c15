pub mod image_rotation;
pub mod media_formats;
