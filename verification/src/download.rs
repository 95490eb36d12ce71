//! The download of a track's audio, one step at a time.

use vstd::prelude::*;

use crate::error::{
    detailed_error, plain_error, ApiError, ApiErrorCode, ErrorView, Reply, Status,
};
use crate::files::{is_audio_name, names_audio};
use crate::model::TrackView;
use crate::store::Store;

verus! {

/// What is to be done next.
#[derive(Debug)]
pub enum DownloadStep {
    /// Open the track's directory.
    OpenDir,
    /// Ask for the next entry of the directory.
    NextEntry,
    /// Open the entry that just came, which has this name.
    OpenFile(String),
    /// Answer with the opened file, which has this name.
    Respond(String),
    /// Refuse.
    Reject(ApiError),
}

pub enum DownloadStepView {
    OpenDir,
    NextEntry,
    OpenFile(Seq<char>),
    Respond(Seq<char>),
    Reject(ErrorView),
}

impl View for DownloadStep {
    type V = DownloadStepView;

    open spec fn view(&self) -> DownloadStepView {
        match self {
            DownloadStep::OpenDir => DownloadStepView::OpenDir,
            DownloadStep::NextEntry => DownloadStepView::NextEntry,
            DownloadStep::OpenFile(name) => DownloadStepView::OpenFile(name@),
            DownloadStep::Respond(name) => DownloadStepView::Respond(name@),
            DownloadStep::Reject(e) => DownloadStepView::Reject(e@),
        }
    }
}

/// What came of a step.
#[derive(Debug)]
pub enum DownloadEvent {
    /// It was done.
    Succeeded,
    /// It could not be done; the text says why.
    Failed(String),
    /// The directory holds another entry, with this name.
    Entry(String),
    /// The directory holds no more entries.
    EntriesDone,
}

pub enum DownloadEventView {
    Succeeded,
    Failed(Seq<char>),
    Entry(Seq<char>),
    EntriesDone,
}

impl View for DownloadEvent {
    type V = DownloadEventView;

    open spec fn view(&self) -> DownloadEventView {
        match self {
            DownloadEvent::Succeeded => DownloadEventView::Succeeded,
            DownloadEvent::Failed(why) => DownloadEventView::Failed(why@),
            DownloadEvent::Entry(name) => DownloadEventView::Entry(name@),
            DownloadEvent::EntriesDone => DownloadEventView::EntriesDone,
        }
    }
}

pub struct DownloadView {
    pub content_type: Seq<char>,
    pub step: DownloadStepView,
}

/// The content type that a track's audio is served with.
pub open spec fn served_type(track: TrackView) -> Seq<char> {
    match track.file {
        Some(file) => file.content_type,
        None => "application/octet-stream"@,
    }
}

/// A download of the track's audio, before anything has been done.
pub open spec fn new_download(track: TrackView) -> DownloadView {
    DownloadView { content_type: served_type(track), step: DownloadStepView::OpenDir }
}

impl DownloadView {
    pub open spec fn at(self, step: DownloadStepView) -> DownloadView {
        DownloadView { step, ..self }
    }

    pub open spec fn rejected(self, e: ErrorView) -> DownloadView {
        self.at(DownloadStepView::Reject(e))
    }

    /// `event` answers the step that is due.
    pub open spec fn accepts(self, event: DownloadEventView) -> bool {
        match self.step {
            DownloadStepView::OpenDir | DownloadStepView::OpenFile(_) => event is Succeeded
                || event is Failed,
            DownloadStepView::NextEntry => event is Entry || event is EntriesDone || event is Failed,
            DownloadStepView::Respond(_) | DownloadStepView::Reject(_) => false,
        }
    }

    /// The download after `event`.
    pub open spec fn after(self, event: DownloadEventView) -> DownloadView {
        match (self.step, event) {
            (DownloadStepView::OpenDir, DownloadEventView::Failed(why)) => self.rejected(
                plain_error(ApiErrorCode::NotFound, "uploads missing: "@ + why),
            ),
            (DownloadStepView::OpenDir, _) => self.at(DownloadStepView::NextEntry),
            (DownloadStepView::NextEntry, DownloadEventView::Failed(why)) => self.rejected(
                detailed_error(ApiErrorCode::Internal, "failed reading upload dir"@, why),
            ),
            (DownloadStepView::NextEntry, DownloadEventView::Entry(name)) => if names_audio(name) {
                self.at(DownloadStepView::OpenFile(name))
            } else {
                self
            },
            (DownloadStepView::NextEntry, _) => self.rejected(
                plain_error(ApiErrorCode::NotFound, "audio not uploaded for this track"@),
            ),
            (DownloadStepView::OpenFile(_), DownloadEventView::Failed(why)) => self.rejected(
                detailed_error(ApiErrorCode::Internal, "failed opening uploaded file"@, why),
            ),
            (DownloadStepView::OpenFile(name), _) => self.at(DownloadStepView::Respond(name)),
            _ => self,
        }
    }
}

/// The headers that go with a track's audio.
#[derive(Debug)]
pub struct AudioHeaders {
    pub content_type: String,
    pub cache_control: String,
}

/// A download under way.
pub struct Download {
    content_type: String,
    step: DownloadStep,
}

impl View for Download {
    type V = DownloadView;

    closed spec fn view(&self) -> DownloadView {
        DownloadView { content_type: self.content_type@, step: self.step@ }
    }
}

impl Download {
    /// Begins a download of the track's audio.
    pub fn begin(store: &Store, track_id: &str) -> (r: Result<Download, ApiError>)
        requires
            store.wf(),
        ensures
            if store@.tracks.contains_key(track_id@) {
                r matches Ok(d) && d@ == new_download(store@.tracks[track_id@])
            } else {
                r matches Err(e) && e@ == plain_error(ApiErrorCode::NotFound, "track not found"@)
            },
    {
        match store.get_track(track_id) {
            Err(e) => Err(e),
            Ok(reply) => {
                let content_type = match reply.body.file {
                    Some(file) => file.content_type,
                    None => "application/octet-stream".to_string(),
                };
                Ok(Download { content_type, step: DownloadStep::OpenDir })
            },
        }
    }

    /// What is to be done next.
    pub fn step(&self) -> (step: &DownloadStep)
        ensures
            step@ == self@.step,
    {
        &self.step
    }

    /// Whether `event` answers the step that is due.
    pub fn can_take(&self, event: &DownloadEvent) -> (b: bool)
        ensures
            b == self@.accepts(event@),
    {
        match (&self.step, event) {
            (DownloadStep::OpenDir, DownloadEvent::Succeeded) => true,
            (DownloadStep::OpenDir, DownloadEvent::Failed(_)) => true,
            (DownloadStep::NextEntry, DownloadEvent::Entry(_)) => true,
            (DownloadStep::NextEntry, DownloadEvent::EntriesDone) => true,
            (DownloadStep::NextEntry, DownloadEvent::Failed(_)) => true,
            (DownloadStep::OpenFile(_), DownloadEvent::Succeeded) => true,
            (DownloadStep::OpenFile(_), DownloadEvent::Failed(_)) => true,
            _ => false,
        }
    }

    fn at(self, step: DownloadStep) -> (d: Download)
        ensures
            d@ == self@.at(step@),
    {
        Download { content_type: self.content_type, step }
    }

    fn rejected(self, e: ApiError) -> (d: Download)
        ensures
            d@ == self@.rejected(e@),
    {
        self.at(DownloadStep::Reject(e))
    }

    /// Moves on after what came of the step that was due.
    pub fn advance(self, event: DownloadEvent) -> (d: Download)
        requires
            self@.accepts(event@),
        ensures
            d@ == self@.after(event@),
    {
        let Download { content_type, step } = self;
        let d = Download { content_type, step: DownloadStep::OpenDir };
        match (step, event) {
            (DownloadStep::OpenDir, DownloadEvent::Failed(why)) => {
                let mut message = "uploads missing: ".to_string();
                message.append(why.as_str());
                d.rejected(ApiError::not_found(message))
            },
            (DownloadStep::OpenDir, _) => d.at(DownloadStep::NextEntry),
            (DownloadStep::NextEntry, DownloadEvent::Failed(why)) => d.rejected(
                ApiError::internal("failed reading upload dir".to_string(), why),
            ),
            (DownloadStep::NextEntry, DownloadEvent::Entry(name)) => if is_audio_name(
                name.as_str(),
            ) {
                d.at(DownloadStep::OpenFile(name))
            } else {
                d.at(DownloadStep::NextEntry)
            },
            (DownloadStep::NextEntry, _) => d.rejected(
                ApiError::not_found("audio not uploaded for this track".to_string()),
            ),
            (DownloadStep::OpenFile(_), DownloadEvent::Failed(why)) => d.rejected(
                ApiError::internal("failed opening uploaded file".to_string(), why),
            ),
            (DownloadStep::OpenFile(name), _) => d.at(DownloadStep::Respond(name)),
            (step, _) => d.at(step),
        }
    }

    /// How the request is answered, once nothing is left to be done: with the
    /// opened file under these headers, or with a refusal.
    pub fn into_answer(self) -> (r: Option<Result<Reply<AudioHeaders>, ApiError>>)
        ensures
            match self@.step {
                DownloadStepView::Respond(_) => {
                    &&& r matches Some(Ok(reply))
                    &&& reply.status == Status::Success
                    &&& reply.body.content_type@ == self@.content_type
                    &&& reply.body.cache_control@ == "no-store"@
                },
                DownloadStepView::Reject(refusal) => r matches Some(Err(e)) && e@ == refusal,
                _ => r is None,
            },
    {
        match self.step {
            DownloadStep::Respond(_) => {
                let headers = AudioHeaders {
                    content_type: self.content_type,
                    cache_control: "no-store".to_string(),
                };
                Some(Ok(Reply { status: Status::Success, body: headers }))
            },
            DownloadStep::Reject(e) => Some(Err(e)),
            _ => None,
        }
    }
}

} // verus!
