use vstd::prelude::*;
use vstd::string::StringExecFns;

verus! {

/// The file formats that a snapshot can be saved in.
#[derive(Debug, Clone, Copy, PartialEq, Eq, Structural)]
pub enum ImageFormat {
    Jpeg,
    Png,
}

impl ImageFormat {
    /// The ending of the name of a file in this format.
    pub open spec fn spec_extension(self) -> Seq<char> {
        match self {
            ImageFormat::Jpeg => "jpeg"@,
            ImageFormat::Png => "png"@,
        }
    }

    /// The name of the format as people write it.
    pub open spec fn spec_name(self) -> Seq<char> {
        match self {
            ImageFormat::Jpeg => "JPEG"@,
            ImageFormat::Png => "PNG"@,
        }
    }

    /// The ending of the name of a file in this format.
    pub fn extension(&self) -> (s: &'static str)
        ensures
            s@ == self.spec_extension(),
    {
        match self {
            ImageFormat::Jpeg => "jpeg",
            ImageFormat::Png => "png",
        }
    }

    /// The name of the format as people write it.
    pub fn name(&self) -> (s: &'static str)
        ensures
            s@ == self.spec_name(),
    {
        match self {
            ImageFormat::Jpeg => "JPEG",
            ImageFormat::Png => "PNG",
        }
    }

    /// Every image format, in the order in which they are offered.
    pub fn all() -> (formats: Vec<ImageFormat>)
        ensures
            formats@ == seq![ImageFormat::Jpeg, ImageFormat::Png],
    {
        vec![ImageFormat::Jpeg, ImageFormat::Png]
    }
}

/// The file formats that a video can be recorded in.
#[derive(Debug, Clone, Copy, PartialEq, Eq, Structural)]
#[allow(non_camel_case_types)]
pub enum VideoFormat {
    MP4_H264,
    WEBM_VP9,
    MKV_VP9,
}

impl VideoFormat {
    /// The ending of the name of a file in this format.
    pub open spec fn spec_extension(self) -> Seq<char> {
        match self {
            VideoFormat::MP4_H264 => "mp4"@,
            VideoFormat::WEBM_VP9 => "webm"@,
            VideoFormat::MKV_VP9 => "mkv"@,
        }
    }

    /// The name of the format as people write it.
    pub open spec fn spec_name(self) -> Seq<char> {
        match self {
            VideoFormat::MP4_H264 => "MP4 (H.264)"@,
            VideoFormat::WEBM_VP9 => "WebM (VP9)"@,
            VideoFormat::MKV_VP9 => "MKV (VP9)"@,
        }
    }

    /// The ending of the name of a file in this format.
    pub fn extension(&self) -> (s: &'static str)
        ensures
            s@ == self.spec_extension(),
    {
        match self {
            VideoFormat::MP4_H264 => "mp4",
            VideoFormat::WEBM_VP9 => "webm",
            VideoFormat::MKV_VP9 => "mkv",
        }
    }

    /// The name of the format as people write it.
    pub fn name(&self) -> (s: &'static str)
        ensures
            s@ == self.spec_name(),
    {
        match self {
            VideoFormat::MP4_H264 => "MP4 (H.264)",
            VideoFormat::WEBM_VP9 => "WebM (VP9)",
            VideoFormat::MKV_VP9 => "MKV (VP9)",
        }
    }

    /// Every video format, in the order in which they are offered.
    pub fn all() -> (formats: Vec<VideoFormat>)
        ensures
            formats@ == seq![VideoFormat::MP4_H264, VideoFormat::WEBM_VP9, VideoFormat::MKV_VP9],
    {
        vec![VideoFormat::MP4_H264, VideoFormat::WEBM_VP9, VideoFormat::MKV_VP9]
    }
}

/// The endings of the names of all files that hold a snapshot or a video:
/// those of the image formats, then those of the video formats.
pub fn all_media_file_extensions() -> (extensions: Vec<String>)
    ensures
        extensions@.len() == 5,
        extensions@[0]@ == ImageFormat::Jpeg.spec_extension(),
        extensions@[1]@ == ImageFormat::Png.spec_extension(),
        extensions@[2]@ == VideoFormat::MP4_H264.spec_extension(),
        extensions@[3]@ == VideoFormat::WEBM_VP9.spec_extension(),
        extensions@[4]@ == VideoFormat::MKV_VP9.spec_extension(),
{
    let mut extensions: Vec<String> = Vec::new();
    let images = ImageFormat::all();
    let mut i: usize = 0;
    while i < images.len()
        invariant
            images@ == seq![ImageFormat::Jpeg, ImageFormat::Png],
            0 <= i <= images@.len(),
            extensions@.len() == i,
            forall|k: int| 0 <= k < i ==> (#[trigger] extensions@[k])@ == images@[k].spec_extension(),
        decreases images@.len() - i,
    {
        extensions.push(String::from_str(images[i].extension()));
        i += 1;
    }
    let videos = VideoFormat::all();
    let mut j: usize = 0;
    while j < videos.len()
        invariant
            images@ == seq![ImageFormat::Jpeg, ImageFormat::Png],
            videos@ == seq![VideoFormat::MP4_H264, VideoFormat::WEBM_VP9, VideoFormat::MKV_VP9],
            0 <= j <= videos@.len(),
            extensions@.len() == 2 + j,
            forall|k: int| 0 <= k < 2 ==> (#[trigger] extensions@[k])@ == images@[k].spec_extension(),
            forall|k: int|
                0 <= k < j ==> (#[trigger] extensions@[2 + k])@ == videos@[k].spec_extension(),
        decreases videos@.len() - j,
    {
        extensions.push(String::from_str(videos[j].extension()));
        j += 1;
    }
    proof {
        assert(extensions@[2 + 0int]@ == videos@[0].spec_extension());
        assert(extensions@[2 + 1int]@ == videos@[1].spec_extension());
        assert(extensions@[2 + 2int]@ == videos@[2].spec_extension());
    }
    extensions
}

} // verus!
