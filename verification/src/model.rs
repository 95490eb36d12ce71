//! Albums, tracks, and the requests that create them.

use vstd::prelude::*;

verus! {

#[derive(Debug)]
pub struct Album {
    pub id: String,
    pub title: String,
    pub artist: String,
    pub price_cents: i64,
    pub currency: String,
}

#[derive(Debug)]
pub struct CreateAlbumRequest {
    pub title: String,
    pub artist: String,
    pub price_cents: i64,
    pub currency: String,
}

#[derive(Debug)]
pub struct Track {
    pub id: String,
    pub album_id: String,
    pub title: String,
    /// Order inside the album. Lower comes first.
    pub order: i32,
    pub duration_ms: i64,
    /// Where the uploaded audio is streamed from.
    pub audio_url: String,
    pub file: Option<FileMeta>,
}

/// What is known of an uploaded audio file.
#[derive(Debug)]
pub struct FileMeta {
    pub filename: String,
    pub content_type: String,
}

#[derive(Debug)]
pub struct CreateTrackRequest {
    pub title: String,
    pub order: Option<i32>,
    pub duration_ms: i64,
}

pub struct AlbumView {
    pub id: Seq<char>,
    pub title: Seq<char>,
    pub artist: Seq<char>,
    pub price_cents: i64,
    pub currency: Seq<char>,
}

pub struct AlbumRequestView {
    pub title: Seq<char>,
    pub artist: Seq<char>,
    pub price_cents: i64,
    pub currency: Seq<char>,
}

pub struct TrackView {
    pub id: Seq<char>,
    pub album_id: Seq<char>,
    pub title: Seq<char>,
    pub order: i32,
    pub duration_ms: i64,
    pub audio_url: Seq<char>,
    pub file: Option<FileMetaView>,
}

impl TrackView {
    pub open spec fn with_file(self, file: FileMetaView) -> TrackView {
        TrackView { file: Some(file), ..self }
    }
}

pub struct FileMetaView {
    pub filename: Seq<char>,
    pub content_type: Seq<char>,
}

pub struct TrackRequestView {
    pub title: Seq<char>,
    pub order: Option<i32>,
    pub duration_ms: i64,
}

impl View for Album {
    type V = AlbumView;

    open spec fn view(&self) -> AlbumView {
        AlbumView {
            id: self.id@,
            title: self.title@,
            artist: self.artist@,
            price_cents: self.price_cents,
            currency: self.currency@,
        }
    }
}

impl View for CreateAlbumRequest {
    type V = AlbumRequestView;

    open spec fn view(&self) -> AlbumRequestView {
        AlbumRequestView {
            title: self.title@,
            artist: self.artist@,
            price_cents: self.price_cents,
            currency: self.currency@,
        }
    }
}

impl View for FileMeta {
    type V = FileMetaView;

    open spec fn view(&self) -> FileMetaView {
        FileMetaView { filename: self.filename@, content_type: self.content_type@ }
    }
}

/// What is known of a track's audio file, where there is one.
pub open spec fn file_view(file: Option<FileMeta>) -> Option<FileMetaView> {
    match file {
        Some(f) => Some(f@),
        None => None,
    }
}

impl View for Track {
    type V = TrackView;

    open spec fn view(&self) -> TrackView {
        TrackView {
            id: self.id@,
            album_id: self.album_id@,
            title: self.title@,
            order: self.order,
            duration_ms: self.duration_ms,
            audio_url: self.audio_url@,
            file: file_view(self.file),
        }
    }
}

impl View for CreateTrackRequest {
    type V = TrackRequestView;

    open spec fn view(&self) -> TrackRequestView {
        TrackRequestView {
            title: self.title@,
            order: self.order,
            duration_ms: self.duration_ms,
        }
    }
}

impl Clone for Album {
    fn clone(&self) -> (r: Album)
        ensures
            r == *self,
    {
        Album {
            id: self.id.clone(),
            title: self.title.clone(),
            artist: self.artist.clone(),
            price_cents: self.price_cents,
            currency: self.currency.clone(),
        }
    }
}

impl Clone for FileMeta {
    fn clone(&self) -> (r: FileMeta)
        ensures
            r == *self,
    {
        FileMeta { filename: self.filename.clone(), content_type: self.content_type.clone() }
    }
}

impl Clone for Track {
    fn clone(&self) -> (r: Track)
        ensures
            r == *self,
    {
        let file = match &self.file {
            Some(f) => Some(f.clone()),
            None => None,
        };
        Track {
            id: self.id.clone(),
            album_id: self.album_id.clone(),
            title: self.title.clone(),
            order: self.order,
            duration_ms: self.duration_ms,
            audio_url: self.audio_url.clone(),
            file,
        }
    }
}

} // verus!
