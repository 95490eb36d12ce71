//! The upload of a track's audio, one step at a time.
//!
//! An [`Upload`] says what is to be done next; whoever does it reports what
//! came of it, and the upload moves on. It ends with the file noted in the
//! store, or with a refusal.

use vstd::prelude::*;

use crate::error::{
    detailed_error, plain_error, text_of, ApiError, ApiErrorCode, ErrorView, Reply, Status,
};
use crate::files::{self, audio_file_name, audio_file_name_of, temp_name_of};
use crate::ident::{new_id, uuid_v4_text};
use crate::model::{FileMeta, FileMetaView, Track};
use crate::scan::{
    reports_text, require_scanner, scan_refusal, scan_report, scan_result, scanner_missing, ScanExit,
    ScanExitView,
};
use crate::store::Store;
use crate::text::{blank, decimal, decimal_text, is_blank};

verus! {

/// What is to be done next.
#[derive(Debug)]
pub enum UploadStep {
    /// Create the track's directory.
    CreateDir,
    /// Draw an id for the temporary file: [`Upload::name_temp`].
    NameTemp,
    /// Create the temporary file in the track's directory.
    CreateTemp,
    /// Ask for the next field of the form.
    NextField,
    /// Ask for the next chunk of the current field.
    NextChunk,
    /// Append these bytes to the temporary file.
    WriteChunk(Vec<u8>),
    /// Flush the temporary file.
    Flush,
    /// Find out whether the virus scanner can be run.
    ProbeScanner,
    /// Run the virus scanner on the temporary file.
    RunScanner,
    /// Give the temporary file the name of accepted audio.
    Rename,
    /// Note the file in the store.
    Record,
    /// Remove the temporary file, then refuse.
    RemoveTemp(ApiError),
    /// Refuse.
    Reject(ApiError),
}

pub enum UploadStepView {
    CreateDir,
    NameTemp,
    CreateTemp,
    NextField,
    NextChunk,
    WriteChunk(Seq<u8>),
    Flush,
    ProbeScanner,
    RunScanner,
    Rename,
    Record,
    RemoveTemp(ErrorView),
    Reject(ErrorView),
}

impl View for UploadStep {
    type V = UploadStepView;

    open spec fn view(&self) -> UploadStepView {
        match self {
            UploadStep::CreateDir => UploadStepView::CreateDir,
            UploadStep::NameTemp => UploadStepView::NameTemp,
            UploadStep::CreateTemp => UploadStepView::CreateTemp,
            UploadStep::NextField => UploadStepView::NextField,
            UploadStep::NextChunk => UploadStepView::NextChunk,
            UploadStep::WriteChunk(bytes) => UploadStepView::WriteChunk(bytes@),
            UploadStep::Flush => UploadStepView::Flush,
            UploadStep::ProbeScanner => UploadStepView::ProbeScanner,
            UploadStep::RunScanner => UploadStepView::RunScanner,
            UploadStep::Rename => UploadStepView::Rename,
            UploadStep::Record => UploadStepView::Record,
            UploadStep::RemoveTemp(e) => UploadStepView::RemoveTemp(e@),
            UploadStep::Reject(e) => UploadStepView::Reject(e@),
        }
    }
}

/// The head of a field of the form.
#[derive(Debug)]
pub struct FieldHead {
    pub name: Option<String>,
    pub file_name: Option<String>,
    pub content_type: Option<String>,
}

pub struct FieldView {
    pub name: Option<Seq<char>>,
    pub file_name: Option<Seq<char>>,
    pub content_type: Option<Seq<char>>,
}

impl View for FieldHead {
    type V = FieldView;

    open spec fn view(&self) -> FieldView {
        FieldView {
            name: text_of(self.name),
            file_name: text_of(self.file_name),
            content_type: text_of(self.content_type),
        }
    }
}

/// What came of a step.
#[derive(Debug)]
pub enum UploadEvent {
    /// It was done.
    Succeeded,
    /// It could not be done; the text says why.
    Failed(String),
    /// This id was drawn.
    Id(String),
    /// Another field begins.
    Field(FieldHead),
    /// The form has no more fields.
    FieldsDone,
    /// Another chunk came, of these bytes.
    Chunk(Vec<u8>),
    /// The field has no more chunks.
    ChunksDone,
    /// The scanner can or cannot be run.
    ScannerFound(bool),
    /// The scanner ran and ended.
    ScanExited(ScanExit),
}

pub enum UploadEventView {
    Succeeded,
    Failed(Seq<char>),
    Id(Seq<char>),
    Field(FieldView),
    FieldsDone,
    Chunk(Seq<u8>),
    ChunksDone,
    ScannerFound(bool),
    ScanExited(ScanExitView),
}

impl View for UploadEvent {
    type V = UploadEventView;

    open spec fn view(&self) -> UploadEventView {
        match self {
            UploadEvent::Succeeded => UploadEventView::Succeeded,
            UploadEvent::Failed(why) => UploadEventView::Failed(why@),
            UploadEvent::Id(id) => UploadEventView::Id(id@),
            UploadEvent::Field(head) => UploadEventView::Field(head@),
            UploadEvent::FieldsDone => UploadEventView::FieldsDone,
            UploadEvent::Chunk(bytes) => UploadEventView::Chunk(bytes@),
            UploadEvent::ChunksDone => UploadEventView::ChunksDone,
            UploadEvent::ScannerFound(found) => UploadEventView::ScannerFound(*found),
            UploadEvent::ScanExited(exit) => UploadEventView::ScanExited(exit@),
        }
    }
}

pub struct UploadView {
    pub track_id: Seq<char>,
    /// The name of the temporary file, once it has one.
    pub temp_name: Option<Seq<char>>,
    pub max_bytes: nat,
    /// A field named `file` has come.
    pub found: bool,
    pub filename: Seq<char>,
    pub content_type: Seq<char>,
    /// How many bytes of audio have been let through.
    pub written: nat,
    pub step: UploadStepView,
}

/// Why an upload above the limit is refused.
pub open spec fn too_large(max_bytes: nat) -> ErrorView {
    plain_error(
        ApiErrorCode::PayloadTooLarge,
        "audio file too large (max "@ + decimal_text(max_bytes) + " bytes)"@,
    )
}

/// Why a form without audio is refused.
pub open spec fn field_missing() -> ErrorView {
    plain_error(ApiErrorCode::BadRequest, "missing multipart field 'file'"@)
}

/// What a field says, unless it says nothing: then what held before.
pub open spec fn said_or(said: Option<Seq<char>>, before: Seq<char>) -> Seq<char> {
    match said {
        Some(s) if !blank(s) => s,
        _ => before,
    }
}

/// An upload of the track's audio, before anything has been done.
pub open spec fn new_upload(track_id: Seq<char>, max_bytes: nat) -> UploadView {
    UploadView {
        track_id,
        temp_name: None,
        max_bytes,
        found: false,
        filename: "audio"@,
        content_type: "application/octet-stream"@,
        written: 0,
        step: UploadStepView::CreateDir,
    }
}

impl UploadView {
    pub open spec fn at(self, step: UploadStepView) -> UploadView {
        UploadView { step, ..self }
    }

    pub open spec fn rejected(self, e: ErrorView) -> UploadView {
        self.at(UploadStepView::Reject(e))
    }

    pub open spec fn failed(self, message: Seq<char>, why: Seq<char>) -> UploadView {
        self.rejected(detailed_error(ApiErrorCode::Internal, message, why))
    }

    /// `event` answers the step that is due.
    pub open spec fn accepts(self, event: UploadEventView) -> bool {
        match self.step {
            UploadStepView::CreateDir
            | UploadStepView::CreateTemp
            | UploadStepView::WriteChunk(_)
            | UploadStepView::Flush
            | UploadStepView::Rename
            | UploadStepView::RemoveTemp(_) => event is Succeeded || event is Failed,
            UploadStepView::NameTemp => event is Id,
            UploadStepView::NextField => event is Field || event is FieldsDone || event is Failed,
            UploadStepView::NextChunk => match event {
                UploadEventView::Chunk(bytes) => self.written + bytes.len() <= u64::MAX,
                UploadEventView::ChunksDone | UploadEventView::Failed(_) => true,
                _ => false,
            },
            UploadStepView::ProbeScanner => event is ScannerFound,
            UploadStepView::RunScanner => event is ScanExited || event is Failed,
            UploadStepView::Record | UploadStepView::Reject(_) => false,
        }
    }

    /// The upload after `event`.
    pub open spec fn after(self, event: UploadEventView) -> UploadView {
        match (self.step, event) {
            (UploadStepView::CreateDir, UploadEventView::Failed(why)) => self.failed(
                "failed to create upload directory"@,
                why,
            ),
            (UploadStepView::CreateDir, _) => self.at(UploadStepView::NameTemp),
            (UploadStepView::NameTemp, UploadEventView::Id(id)) => UploadView {
                temp_name: Some(temp_name_of(id)),
                step: UploadStepView::CreateTemp,
                ..self
            },
            (UploadStepView::CreateTemp, UploadEventView::Failed(why)) => self.failed(
                "failed to create temp upload file"@,
                why,
            ),
            (UploadStepView::CreateTemp, _) => self.at(UploadStepView::NextField),
            (UploadStepView::NextField, UploadEventView::Failed(why)) => self.rejected(
                plain_error(ApiErrorCode::BadRequest, why),
            ),
            (UploadStepView::NextField, UploadEventView::Field(head)) => if head.name == Some(
                "file"@,
            ) {
                UploadView {
                    found: true,
                    filename: said_or(head.file_name, self.filename),
                    content_type: said_or(head.content_type, self.content_type),
                    step: UploadStepView::NextChunk,
                    ..self
                }
            } else {
                self
            },
            (UploadStepView::NextField, _) => if self.found {
                self.at(UploadStepView::Flush)
            } else {
                self.at(UploadStepView::RemoveTemp(field_missing()))
            },
            (UploadStepView::NextChunk, UploadEventView::Failed(why)) => self.rejected(
                plain_error(ApiErrorCode::BadRequest, why),
            ),
            (UploadStepView::NextChunk, UploadEventView::Chunk(bytes)) => if self.written
                + bytes.len() > self.max_bytes {
                self.at(UploadStepView::RemoveTemp(too_large(self.max_bytes)))
            } else {
                UploadView {
                    written: self.written + bytes.len(),
                    step: UploadStepView::WriteChunk(bytes),
                    ..self
                }
            },
            (UploadStepView::NextChunk, _) => self.at(UploadStepView::NextField),
            (UploadStepView::WriteChunk(_), UploadEventView::Failed(why)) => self.failed(
                "failed writing upload"@,
                why,
            ),
            (UploadStepView::WriteChunk(_), _) => self.at(UploadStepView::NextChunk),
            (UploadStepView::Flush, UploadEventView::Failed(why)) => self.failed(
                "failed flushing upload"@,
                why,
            ),
            (UploadStepView::Flush, _) => self.at(UploadStepView::ProbeScanner),
            (UploadStepView::ProbeScanner, UploadEventView::ScannerFound(true)) => self.at(
                UploadStepView::RunScanner,
            ),
            (UploadStepView::ProbeScanner, _) => self.rejected(scanner_missing()),
            (UploadStepView::RunScanner, UploadEventView::ScanExited(exit)) => match scan_refusal(
                exit.code,
                scan_report(exit),
            ) {
                Some(refusal) => self.rejected(refusal),
                None => self.at(UploadStepView::Rename),
            },
            (UploadStepView::RunScanner, UploadEventView::Failed(why)) => self.failed(
                "failed running clamscan"@,
                why,
            ),
            (UploadStepView::Rename, UploadEventView::Failed(why)) => self.failed(
                "failed finalizing uploaded file"@,
                why,
            ),
            (UploadStepView::Rename, _) => self.at(UploadStepView::Record),
            (UploadStepView::RemoveTemp(e), _) => self.rejected(e),
            _ => self,
        }
    }
}

/// An upload under way.
pub struct Upload {
    track_id: String,
    temp_name: Option<String>,
    max_bytes: u64,
    found: bool,
    filename: String,
    content_type: String,
    written: u64,
    step: UploadStep,
}

impl View for Upload {
    type V = UploadView;

    closed spec fn view(&self) -> UploadView {
        UploadView {
            track_id: self.track_id@,
            temp_name: text_of(self.temp_name),
            max_bytes: self.max_bytes as nat,
            found: self.found,
            filename: self.filename@,
            content_type: self.content_type@,
            written: self.written as nat,
            step: self.step@,
        }
    }
}

/// What a field says, unless it says nothing: then what held before.
fn take_said(said: Option<String>, before: String) -> (r: String)
    ensures
        r@ == said_or(text_of(said), before@),
{
    match said {
        Some(s) => if is_blank(s.as_str()) {
            before
        } else {
            s
        },
        None => before,
    }
}

/// Whether a field is the one that holds the audio.
fn is_file_field(name: &Option<String>) -> (b: bool)
    ensures
        b == (text_of(*name) == Some("file"@)),
{
    match name {
        Some(name) => *name == "file".to_string(),
        None => false,
    }
}

impl Upload {
    /// Begins an upload for the track.
    pub fn begin(store: &Store, track_id: &str, max_bytes: u64) -> (r: Result<Upload, ApiError>)
        requires
            store.wf(),
        ensures
            if store@.tracks.contains_key(track_id@) {
                r matches Ok(u) && u@ == new_upload(track_id@, max_bytes as nat)
            } else {
                r matches Err(e) && e@ == plain_error(ApiErrorCode::NotFound, "track not found"@)
            },
    {
        match store.get_track(track_id) {
            Err(e) => Err(e),
            Ok(_) => Ok(
                Upload {
                    track_id: track_id.to_string(),
                    temp_name: None,
                    max_bytes,
                    found: false,
                    filename: "audio".to_string(),
                    content_type: "application/octet-stream".to_string(),
                    written: 0,
                    step: UploadStep::CreateDir,
                },
            ),
        }
    }

    /// What is to be done next.
    pub fn step(&self) -> (step: &UploadStep)
        ensures
            step@ == self@.step,
    {
        &self.step
    }

    /// The name of the temporary file, once it has one.
    pub fn temp_name(&self) -> (r: Option<&str>)
        ensures
            match self@.temp_name {
                Some(name) => r matches Some(s) && s@ == name,
                None => r is None,
            },
    {
        match &self.temp_name {
            Some(name) => Some(name.as_str()),
            None => None,
        }
    }

    /// The name that the file gets once it is accepted.
    pub fn audio_file_name(&self) -> (s: String)
        ensures
            s@ == audio_file_name_of(self@.filename),
    {
        audio_file_name(self.filename.as_str())
    }

    /// Whether `event` answers the step that is due.
    pub fn can_take(&self, event: &UploadEvent) -> (b: bool)
        ensures
            b == self@.accepts(event@),
    {
        match (&self.step, event) {
            (UploadStep::NameTemp, UploadEvent::Id(_)) => true,
            (UploadStep::NameTemp, _) => false,
            (UploadStep::NextField, UploadEvent::Field(_)) => true,
            (UploadStep::NextField, UploadEvent::FieldsDone) => true,
            (UploadStep::NextField, UploadEvent::Failed(_)) => true,
            (UploadStep::NextField, _) => false,
            (UploadStep::NextChunk, UploadEvent::Chunk(bytes)) => bytes.len() as u64 <= u64::MAX
                - self.written,
            (UploadStep::NextChunk, UploadEvent::ChunksDone) => true,
            (UploadStep::NextChunk, UploadEvent::Failed(_)) => true,
            (UploadStep::NextChunk, _) => false,
            (UploadStep::ProbeScanner, UploadEvent::ScannerFound(_)) => true,
            (UploadStep::ProbeScanner, _) => false,
            (UploadStep::RunScanner, UploadEvent::ScanExited(_)) => true,
            (UploadStep::RunScanner, UploadEvent::Failed(_)) => true,
            (UploadStep::RunScanner, _) => false,
            (UploadStep::Record, _) => false,
            (UploadStep::Reject(_), _) => false,
            (_, UploadEvent::Succeeded) => true,
            (_, UploadEvent::Failed(_)) => true,
            _ => false,
        }
    }

    fn at(self, step: UploadStep) -> (u: Upload)
        ensures
            u@ == self@.at(step@),
    {
        Upload { step, ..self }
    }

    fn rejected(self, e: ApiError) -> (u: Upload)
        ensures
            u@ == self@.rejected(e@),
    {
        self.at(UploadStep::Reject(e))
    }

    fn failed(self, message: &str, why: String) -> (u: Upload)
        ensures
            u@ == self@.failed(message@, why@),
    {
        self.rejected(ApiError::internal(message.to_string(), why))
    }

    /// Moves on after what came of the step that was due.
    pub fn advance(self, event: UploadEvent) -> (u: Upload)
        requires
            self@.accepts(event@),
        ensures
            u@ == self@.after(event@),
            self@.step is RunScanner ==> match event@ {
                UploadEventView::ScanExited(exit) => reports_text(exit),
                _ => true,
            },
    {
        let Upload { track_id, temp_name, max_bytes, found, filename, content_type, written, step } =
            self;
        let u = Upload {
            track_id,
            temp_name,
            max_bytes,
            found,
            filename,
            content_type,
            written,
            step: UploadStep::CreateDir,
        };
        match (step, event) {
            (UploadStep::CreateDir, UploadEvent::Failed(why)) => u.failed(
                "failed to create upload directory",
                why,
            ),
            (UploadStep::CreateDir, _) => u.at(UploadStep::NameTemp),
            (UploadStep::NameTemp, UploadEvent::Id(id)) => Upload {
                temp_name: Some(files::temp_name(id.as_str())),
                step: UploadStep::CreateTemp,
                ..u
            },
            (UploadStep::CreateTemp, UploadEvent::Failed(why)) => u.failed(
                "failed to create temp upload file",
                why,
            ),
            (UploadStep::CreateTemp, _) => u.at(UploadStep::NextField),
            (UploadStep::NextField, UploadEvent::Failed(why)) => u.rejected(
                ApiError::bad_request(why),
            ),
            (UploadStep::NextField, UploadEvent::Field(head)) => if is_file_field(&head.name) {
                Upload {
                    found: true,
                    filename: take_said(head.file_name, u.filename),
                    content_type: take_said(head.content_type, u.content_type),
                    step: UploadStep::NextChunk,
                    track_id: u.track_id,
                    temp_name: u.temp_name,
                    max_bytes,
                    written,
                }
            } else {
                u.at(UploadStep::NextField)
            },
            (UploadStep::NextField, _) => if found {
                u.at(UploadStep::Flush)
            } else {
                u.at(
                    UploadStep::RemoveTemp(
                        ApiError::bad_request("missing multipart field 'file'".to_string()),
                    ),
                )
            },
            (UploadStep::NextChunk, UploadEvent::Failed(why)) => u.rejected(
                ApiError::bad_request(why),
            ),
            (UploadStep::NextChunk, UploadEvent::Chunk(bytes)) => {
                let total: u64 = written + bytes.len() as u64;
                if total > max_bytes {
                    let mut message = "audio file too large (max ".to_string();
                    message.append(decimal(max_bytes).as_str());
                    message.append(" bytes)");
                    u.at(UploadStep::RemoveTemp(ApiError::payload_too_large(message)))
                } else {
                    Upload { written: total, step: UploadStep::WriteChunk(bytes), ..u }
                }
            },
            (UploadStep::NextChunk, _) => u.at(UploadStep::NextField),
            (UploadStep::WriteChunk(_), UploadEvent::Failed(why)) => u.failed(
                "failed writing upload",
                why,
            ),
            (UploadStep::WriteChunk(_), _) => u.at(UploadStep::NextChunk),
            (UploadStep::Flush, UploadEvent::Failed(why)) => u.failed(
                "failed flushing upload",
                why,
            ),
            (UploadStep::Flush, _) => u.at(UploadStep::ProbeScanner),
            (UploadStep::ProbeScanner, UploadEvent::ScannerFound(found)) => match require_scanner(
                found,
            ) {
                Ok(()) => u.at(UploadStep::RunScanner),
                Err(e) => u.rejected(e),
            },
            (UploadStep::RunScanner, UploadEvent::ScanExited(exit)) => match scan_result(&exit) {
                Ok(()) => u.at(UploadStep::Rename),
                Err(e) => u.rejected(e),
            },
            (UploadStep::RunScanner, UploadEvent::Failed(why)) => u.failed(
                "failed running clamscan",
                why,
            ),
            (UploadStep::Rename, UploadEvent::Failed(why)) => u.failed(
                "failed finalizing uploaded file",
                why,
            ),
            (UploadStep::Rename, _) => u.at(UploadStep::Record),
            (UploadStep::RemoveTemp(e), _) => u.rejected(e),
            (step, _) => u.at(step),
        }
    }

    /// Names the temporary file after a new random id.
    pub fn name_temp(self) -> (u: Upload)
        requires
            self@.step is NameTemp,
        ensures
            exists|id: Seq<char>| #[trigger]
                uuid_v4_text(id) && u@ == self@.after(UploadEventView::Id(id)),
    {
        let id = new_id();
        self.advance(UploadEvent::Id(id))
    }

    /// Why the upload is refused, where it is.
    pub fn into_refusal(self) -> (r: Option<ApiError>)
        ensures
            match self@.step {
                UploadStepView::Reject(refusal) => r matches Some(e) && e@ == refusal,
                _ => r is None,
            },
    {
        match self.step {
            UploadStep::Reject(e) => Some(e),
            _ => None,
        }
    }

    /// Notes the accepted file in the store.
    pub fn record(self, store: &mut Store) -> (r: Result<Reply<Track>, ApiError>)
        requires
            old(store).wf(),
            self@.step is Record,
        ensures
            final(store).wf(),
            if old(store)@.tracks.contains_key(self@.track_id) {
                let file = FileMetaView {
                    filename: self@.filename,
                    content_type: self@.content_type,
                };
                let track = old(store)@.tracks[self@.track_id].with_file(file);
                &&& r matches Ok(reply)
                &&& reply.status == Status::Success
                &&& reply.body@ == track
                &&& final(store)@ == old(store)@.with_track(track)
            } else {
                &&& r matches Err(e)
                &&& e@ == plain_error(ApiErrorCode::NotFound, "track not found"@)
                &&& final(store)@ == old(store)@
            },
            r matches Ok(reply) ==> {
                &&& reply.body.file matches Some(f)
                &&& f.filename@ == self@.filename
                &&& f.content_type@ == self@.content_type
            },
    {
        let file = FileMeta { filename: self.filename, content_type: self.content_type };
        store.set_track_file(self.track_id.as_str(), file)
    }
}

} // verus!
