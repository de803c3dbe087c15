use vstd::prelude::*;
use vstd::string::StringExecFns;
use crate::recorders::recorder::{RecorderError, RecorderState, RecorderStreamParams};
use crate::types::media_formats::ImageFormat;
use crate::util::{lowercased, pathified, pathify_string};

verus! {

/// `chrono::Local::now` and `chrono::DateTime::format`: the local time on
/// the clock, written out after `pattern`. Nothing is claimed of the text.
#[verifier::external_body]
pub(crate) fn local_time_text(pattern: &str) -> (text: String)
    requires
        pattern@ == "%Y-%m-%d_%H-%M-%S"@,
{
    chrono::Local::now().format(pattern).to_string()
}

/// The name of a file recorded at the time `timestamp`: the prefix made
/// fit for a file name, the time, and the ending of the format.
pub open spec fn media_file_name(prefix: Seq<char>, timestamp: Seq<char>, extension: Seq<char>) -> Seq<
    char,
> {
    pathified(lowercased(prefix)) + "_"@ + timestamp + "."@ + extension
}

/// Puts the name of a recorded file together.
pub fn name_media_file(prefix: &String, timestamp: &str, extension: &str) -> (name: String)
    ensures
        name@ == media_file_name(prefix@, timestamp@, extension@),
{
    let mut name: String = pathify_string(prefix.clone());
    name.append("_");
    name.append(timestamp);
    name.append(".");
    name.append(extension);
    name
}

/// Takes one frame and saves it as a picture.
#[derive(Clone, Debug, PartialEq, Eq)]
pub struct ImageRecorder {
    destination_folder: String,
    name_prefix: String,
    image_format: ImageFormat,
    output_file: Option<String>,
    curr_state: RecorderState,
}

impl ImageRecorder {
    /// Where the recorder stands in its life.
    pub closed spec fn spec_state(&self) -> RecorderState {
        self.curr_state
    }

    /// The file that the picture was saved in, once it was.
    pub closed spec fn spec_output_file(&self) -> Option<String> {
        self.output_file
    }

    /// The folder that the picture goes to.
    pub closed spec fn spec_destination_folder(&self) -> String {
        self.destination_folder
    }

    /// What the name of the file begins with, before it is made fit for a file name.
    pub closed spec fn spec_name_prefix(&self) -> String {
        self.name_prefix
    }

    /// The format of the picture.
    pub closed spec fn spec_image_format(&self) -> ImageFormat {
        self.image_format
    }

    /// Nothing but the state and the output file may differ from `other`.
    pub open spec fn same_setup(&self, other: &ImageRecorder) -> bool {
        &&& self.spec_destination_folder() == other.spec_destination_folder()
        &&& self.spec_name_prefix() == other.spec_name_prefix()
        &&& self.spec_image_format() == other.spec_image_format()
    }

    /// A recorder that has not been started and has written nothing.
    pub fn new(destination_folder: String, name_prefix: String, image_format: ImageFormat) -> (r:
        ImageRecorder)
        ensures
            r.spec_state() == RecorderState::Initial,
            r.spec_output_file() is None,
            r.spec_destination_folder() == destination_folder,
            r.spec_name_prefix() == name_prefix,
            r.spec_image_format() == image_format,
    {
        ImageRecorder {
            destination_folder,
            name_prefix,
            image_format,
            output_file: None,
            curr_state: RecorderState::Initial,
        }
    }

    /// Makes the recorder ready for its frame; of the stream nothing needs
    /// to be known for one picture.
    pub fn start(&mut self, _params: RecorderStreamParams) -> (r: Result<(), RecorderError>)
        ensures
            r is Ok,
            final(self).spec_state() == RecorderState::Recording,
            final(self).spec_output_file() == old(self).spec_output_file(),
            final(self).same_setup(old(self)),
    {
        self.curr_state = RecorderState::Recording;
        Ok(())
    }

    /// The folder that the picture goes to.
    pub fn destination_folder(&self) -> (s: &String)
        ensures
            *s == self.spec_destination_folder(),
    {
        &self.destination_folder
    }

    /// The format of the picture.
    pub fn image_format(&self) -> (f: ImageFormat)
        ensures
            f == self.spec_image_format(),
    {
        self.image_format
    }

    /// The name of the file for a picture taken at the time `timestamp`.
    pub fn file_name(&self, timestamp: &str) -> (name: String)
        ensures
            name@ == media_file_name(
                self.spec_name_prefix()@,
                timestamp@,
                self.spec_image_format().spec_extension(),
            ),
    {
        name_media_file(&self.name_prefix, timestamp, self.image_format.extension())
    }

    /// The name of the file for a picture taken now: the time is that of
    /// the clock, written as year, month, day, hour, minute and second.
    pub fn next_file_name(&self) -> (name: String)
        ensures
            exists|timestamp: Seq<char>|
                name@ == #[trigger] media_file_name(
                    self.spec_name_prefix()@,
                    timestamp,
                    self.spec_image_format().spec_extension(),
                ),
    {
        let timestamp: String = local_time_text("%Y-%m-%d_%H-%M-%S");
        self.file_name(timestamp.as_str())
    }

    /// Takes in what came of saving the frame as a picture. Where it was
    /// saved, as the file given, the recorder has finished by itself and lists
    /// that one file; where it was not, the failure is handed back and the
    /// recorder is as it was.
    pub fn process_result(&mut self, saved: Result<String, RecorderError>) -> (r: Result<
        (),
        RecorderError,
    >)
        ensures
            final(self).same_setup(old(self)),
            match saved {
                Ok(path) => {
                    &&& r is Ok
                    &&& final(self).spec_state() == RecorderState::Done
                    &&& final(self).spec_output_file() == Some(path)
                },
                Err(e) => {
                    &&& r == Err::<(), RecorderError>(e)
                    &&& final(self).spec_state() == old(self).spec_state()
                    &&& final(self).spec_output_file() == old(self).spec_output_file()
                },
            },
    {
        match saved {
            Ok(path) => {
                self.frame_saved(path);
                Ok(())
            },
            Err(e) => Err(e),
        }
    }

    /// Takes note that the picture was saved as `path`: the recorder has finished.
    pub fn frame_saved(&mut self, path: String)
        ensures
            final(self).spec_state() == RecorderState::Done,
            final(self).spec_output_file() == Some(path),
            final(self).same_setup(old(self)),
    {
        self.output_file = Some(path);
        self.curr_state = RecorderState::Done;
    }

    /// Where the recorder stands in its life.
    pub fn state(&self) -> (s: RecorderState)
        ensures
            s == self.spec_state(),
    {
        self.curr_state
    }

    /// The file that was written, once it was.
    pub fn files_created(&self) -> (files: Vec<String>)
        ensures
            match self.spec_output_file() {
                Some(file) => files@.len() == 1 && files@[0]@ == file@,
                None => files@.len() == 0,
            },
    {
        match &self.output_file {
            Some(file) => {
                let mut files: Vec<String> = Vec::new();
                files.push(file.clone());
                files
            },
            None => Vec::new(),
        }
    }

    /// Ends the recording, whether the picture was taken or not.
    pub fn stop(&mut self) -> (r: Result<(), RecorderError>)
        ensures
            r is Ok,
            final(self).spec_state() == RecorderState::Done,
            final(self).spec_output_file() == old(self).spec_output_file(),
            final(self).same_setup(old(self)),
    {
        self.curr_state = RecorderState::Done;
        Ok(())
    }

    /// A snapshot is over with its one frame.
    pub fn is_continuous(&self) -> (b: bool)
        ensures
            !b,
    {
        false
    }
}

} // verus!
