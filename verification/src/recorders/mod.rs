pub mod image_recorder;
pub mod recorder;
pub mod video_recorder;
