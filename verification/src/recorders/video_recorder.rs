use vstd::prelude::*;
use crate::recorders::image_recorder::{local_time_text, media_file_name, name_media_file};
use crate::recorders::recorder::{RecorderError, RecorderState, RecorderStreamParams};
use crate::types::media_formats::VideoFormat;

verus! {

/// What an encoder needs to know to write a video.
#[derive(Debug, Clone, PartialEq, Eq)]
pub struct VideoRecordingSettings {
    pub output_path: String,
    pub format: VideoFormat,
    pub width: usize,
    pub height: usize,
    pub framerate: usize,
}

/// Takes frame after frame and has them written as a video, until it is stopped.
#[derive(Debug, PartialEq, Eq)]
pub struct VideoRecorder {
    destination_folder: String,
    name_prefix: String,
    video_format: VideoFormat,
    accepts_frames: bool,
    output_file: Option<String>,
    curr_state: RecorderState,
}

impl VideoRecorder {
    /// A recorder that has not been started has no file yet, and passes no
    /// frame on.
    #[verifier::type_invariant]
    closed spec fn nothing_before_start(&self) -> bool {
        self.curr_state == RecorderState::Initial ==> self.output_file is None
            && !self.accepts_frames
    }

    /// Where the recorder stands in its life.
    pub closed spec fn spec_state(&self) -> RecorderState {
        self.curr_state
    }

    /// The file that the video goes to, once that is settled.
    pub closed spec fn spec_output_file(&self) -> Option<String> {
        self.output_file
    }

    /// Whether frames are passed on to the encoder.
    pub closed spec fn spec_accepts_frames(&self) -> bool {
        self.accepts_frames
    }

    /// The folder that the video goes to.
    pub closed spec fn spec_destination_folder(&self) -> String {
        self.destination_folder
    }

    /// What the name of the file begins with, before it is made fit for a file name.
    pub closed spec fn spec_name_prefix(&self) -> String {
        self.name_prefix
    }

    /// The format of the video.
    pub closed spec fn spec_video_format(&self) -> VideoFormat {
        self.video_format
    }

    /// Nothing but the state, the output file and the flow of frames may
    /// differ from `other`.
    pub open spec fn same_setup(&self, other: &VideoRecorder) -> bool {
        &&& self.spec_destination_folder() == other.spec_destination_folder()
        &&& self.spec_name_prefix() == other.spec_name_prefix()
        &&& self.spec_video_format() == other.spec_video_format()
    }

    /// A recorder that has not been started and has written nothing.
    pub fn new(destination_folder: String, name_prefix: String, video_format: VideoFormat) -> (r:
        VideoRecorder)
        ensures
            r.spec_state() == RecorderState::Initial,
            r.spec_output_file() is None,
            !r.spec_accepts_frames(),
            r.spec_destination_folder() == destination_folder,
            r.spec_name_prefix() == name_prefix,
            r.spec_video_format() == video_format,
    {
        VideoRecorder {
            destination_folder,
            name_prefix,
            video_format,
            accepts_frames: false,
            output_file: None,
            curr_state: RecorderState::Initial,
        }
    }

    /// The folder that the video goes to.
    pub fn destination_folder(&self) -> (s: &String)
        ensures
            *s == self.spec_destination_folder(),
    {
        &self.destination_folder
    }

    /// The format of the video.
    pub fn video_format(&self) -> (f: VideoFormat)
        ensures
            f == self.spec_video_format(),
    {
        self.video_format
    }

    /// The name of the file for a video begun at the time `timestamp`.
    pub fn file_name(&self, timestamp: &str) -> (name: String)
        ensures
            name@ == media_file_name(
                self.spec_name_prefix()@,
                timestamp@,
                self.spec_video_format().spec_extension(),
            ),
    {
        name_media_file(&self.name_prefix, timestamp, self.video_format.extension())
    }

    /// The name of the file for a video begun now: the time is that of the
    /// clock, written as year, month, day, hour, minute and second.
    pub fn next_file_name(&self) -> (name: String)
        ensures
            exists|timestamp: Seq<char>|
                name@ == #[trigger] media_file_name(
                    self.spec_name_prefix()@,
                    timestamp,
                    self.spec_video_format().spec_extension(),
                ),
    {
        let timestamp: String = local_time_text("%Y-%m-%d_%H-%M-%S");
        self.file_name(timestamp.as_str())
    }

    /// What the encoder is to be set up with for a video of the stream
    /// described that goes to `output_path`.
    pub fn recording_settings(&self, output_path: String, params: RecorderStreamParams) -> (s:
        VideoRecordingSettings)
        ensures
            s.output_path == output_path,
            s.format == self.spec_video_format(),
            s.width == params.width,
            s.height == params.height,
            s.framerate == params.framerate,
    {
        VideoRecordingSettings {
            output_path,
            format: self.video_format,
            width: params.width,
            height: params.height,
            framerate: params.framerate,
        }
    }

    /// Takes in what came of setting up the encoder for the stream
    /// described. Where it was set up, with the video going to the file
    /// given, the recorder takes frames from now on and lists that file; where
    /// it was not, the failure is handed back and the recorder is as it was:
    /// not recording, and with no file more than before.
    pub fn start(&mut self, _params: RecorderStreamParams, set_up: Result<String, RecorderError>) -> (r:
        Result<(), RecorderError>)
        ensures
            final(self).same_setup(old(self)),
            match set_up {
                Ok(path) => {
                    &&& r is Ok
                    &&& final(self).spec_state() == RecorderState::Recording
                    &&& final(self).spec_accepts_frames()
                    &&& final(self).spec_output_file() == Some(path)
                },
                Err(e) => {
                    &&& r == Err::<(), RecorderError>(e)
                    &&& final(self).spec_state() == old(self).spec_state()
                    &&& final(self).spec_accepts_frames() == old(self).spec_accepts_frames()
                    &&& final(self).spec_output_file() == old(self).spec_output_file()
                },
            },
            old(self).spec_state() == RecorderState::Initial && set_up is Err
                ==> final(self).spec_output_file() is None && !final(self).spec_accepts_frames(),
    {
        proof {
            use_type_invariant(&*self);
        }
        match set_up {
            Ok(path) => {
                self.curr_state = RecorderState::Recording;
                self.output_file = Some(path);
                self.accepts_frames = true;
                Ok(())
            },
            Err(e) => Err(e),
        }
    }

    /// Whether a frame handed to the recorder is passed on to the encoder.
    pub fn accepts_frames(&self) -> (b: bool)
        ensures
            b == self.spec_accepts_frames(),
    {
        self.accepts_frames
    }

    /// Where the recorder stands in its life.
    pub fn state(&self) -> (s: RecorderState)
        ensures
            s == self.spec_state(),
    {
        self.curr_state
    }

    /// The file that the video goes to, once the encoder has been set up
    /// for it; none before the recorder has been started.
    pub fn files_created(&self) -> (files: Vec<String>)
        ensures
            match self.spec_output_file() {
                Some(file) => files@.len() == 1 && files@[0]@ == file@,
                None => files@.len() == 0,
            },
            self.spec_state() == RecorderState::Initial ==> files@.len() == 0,
    {
        proof {
            use_type_invariant(self);
        }
        match &self.output_file {
            Some(file) => {
                let mut files: Vec<String> = Vec::new();
                files.push(file.clone());
                files
            },
            None => Vec::new(),
        }
    }

    /// Ends the recording: no frame is passed on any more. Stopping again
    /// changes nothing.
    pub fn stop(&mut self) -> (r: Result<(), RecorderError>)
        ensures
            r is Ok,
            final(self).spec_state() == RecorderState::Done,
            !final(self).spec_accepts_frames(),
            final(self).spec_output_file() == old(self).spec_output_file(),
            final(self).same_setup(old(self)),
    {
        self.curr_state = RecorderState::Done;
        self.accepts_frames = false;
        Ok(())
    }

    /// A video goes on until it is stopped.
    pub fn is_continuous(&self) -> (b: bool)
        ensures
            b,
    {
        true
    }
}

} // verus!
