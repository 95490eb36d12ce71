//! The albums and tracks that the service knows.

use vstd::prelude::*;

use crate::error::{plain_error, ApiError, ApiErrorCode, ErrorView, Reply, Status};
use crate::ident::{new_id, uuid_v4_text};
use crate::model::{
    Album, AlbumRequestView, AlbumView, CreateAlbumRequest, CreateTrackRequest, FileMeta, Track,
    TrackRequestView, TrackView,
};
use crate::table::Table;
use crate::text::{
    blank, decimal, decimal_text, in_text_order, is_blank, lemma_text_le_total,
    lemma_text_le_transitive, text_le,
};

verus! {

/// The albums and tracks, each under its id.
pub struct StoreView {
    pub albums: Map<Seq<char>, AlbumView>,
    pub tracks: Map<Seq<char>, TrackView>,
}

/// Why a request for an album is refused, where it is.
pub open spec fn album_fault(req: AlbumRequestView) -> Option<Seq<char>> {
    if blank(req.title) || blank(req.artist) {
        Some("title and artist are required"@)
    } else if req.price_cents < 0 {
        Some("price_cents must be >= 0"@)
    } else {
        None
    }
}

/// The album that a request describes, under the id `id`.
pub open spec fn requested_album(id: Seq<char>, req: AlbumRequestView) -> AlbumView {
    AlbumView {
        id,
        title: req.title,
        artist: req.artist,
        price_cents: req.price_cents,
        currency: req.currency,
    }
}

/// Why a request for a track is refused before any album is looked at, where
/// it is.
pub open spec fn track_fault(req: TrackRequestView) -> Option<Seq<char>> {
    if blank(req.title) {
        Some("title is required"@)
    } else if req.duration_ms < 0 {
        Some("duration_ms must be >= 0"@)
    } else if req.order is Some && req.order->0 < 0 {
        Some("order must be >= 0"@)
    } else {
        None
    }
}

/// Where the audio of the track `id` is streamed from.
pub open spec fn audio_url_of(id: Seq<char>) -> Seq<char> {
    "/tracks/"@ + id + "/file"@
}

/// The track that a request describes, under the id `id` and at `order`.
pub open spec fn requested_track(
    id: Seq<char>,
    album_id: Seq<char>,
    order: i32,
    req: TrackRequestView,
) -> TrackView {
    TrackView {
        id,
        album_id,
        title: req.title,
        order,
        duration_ms: req.duration_ms,
        audio_url: audio_url_of(id),
        file: None,
    }
}

pub open spec fn order_taken_message(order: int) -> Seq<char> {
    "order "@ + decimal_text(order as nat) + " already exists in album"@
}

impl StoreView {
    pub open spec fn empty() -> StoreView {
        StoreView { albums: Map::empty(), tracks: Map::empty() }
    }

    pub open spec fn with_album(self, album: AlbumView) -> StoreView {
        StoreView { albums: self.albums.insert(album.id, album), tracks: self.tracks }
    }

    pub open spec fn with_track(self, track: TrackView) -> StoreView {
        StoreView { albums: self.albums, tracks: self.tracks.insert(track.id, track) }
    }

    /// `id` is a track of the album.
    pub open spec fn in_album(self, id: Seq<char>, album_id: Seq<char>) -> bool {
        self.tracks.contains_key(id) && self.tracks[id].album_id == album_id
    }

    /// Some track of the album stands at `order`.
    pub open spec fn order_taken(self, album_id: Seq<char>, order: int) -> bool {
        exists|id: Seq<char>| #[trigger]
            self.in_album(id, album_id) && self.tracks[id].order == order
    }

    /// `order` is the highest order in the album.
    pub open spec fn is_last_order(self, album_id: Seq<char>, order: i32) -> bool {
        &&& self.order_taken(album_id, order as int)
        &&& forall|id: Seq<char>| #[trigger]
            self.in_album(id, album_id) ==> self.tracks[id].order <= order
    }

    /// The highest order in the album, where it has tracks.
    pub open spec fn last_order(self, album_id: Seq<char>) -> Option<i32> {
        if exists|order: i32| self.is_last_order(album_id, order) {
            Some(choose|order: i32| self.is_last_order(album_id, order))
        } else {
            None
        }
    }

    /// Where a new track of the album goes: at the order that was asked for,
    /// else behind the last track, else at 0.
    pub open spec fn assigned_order(self, album_id: Seq<char>, requested: Option<i32>) -> int {
        match (requested, self.last_order(album_id)) {
            (Some(order), _) => order as int,
            (None, Some(last)) => last + 1,
            (None, None) => 0,
        }
    }

    /// Why a request for a track of the album is refused, where it is.
    pub open spec fn track_refusal(
        self,
        album_id: Seq<char>,
        req: TrackRequestView,
    ) -> Option<ErrorView> {
        let order = self.assigned_order(album_id, req.order);
        if track_fault(req) is Some {
            Some(plain_error(ApiErrorCode::BadRequest, track_fault(req)->0))
        } else if !self.albums.contains_key(album_id) {
            Some(plain_error(ApiErrorCode::NotFound, "album not found"@))
        } else if self.order_taken(album_id, order) {
            Some(plain_error(ApiErrorCode::Conflict, order_taken_message(order)))
        } else {
            None
        }
    }

    /// An order for the requested track can be computed: the request is
    /// refused before one is needed, or names one, or the album's last order
    /// has a successor.
    pub open spec fn has_room(self, album_id: Seq<char>, req: TrackRequestView) -> bool {
        track_fault(req) is None && self.albums.contains_key(album_id)
            ==> self.assigned_order(album_id, req.order) <= i32::MAX
    }

    /// `out` holds every album once, by title.
    pub open spec fn lists_albums(self, out: Seq<AlbumView>) -> bool {
        &&& forall|i: int|
            0 <= i < out.len() ==> self.albums.contains_key((#[trigger] out[i]).id)
                && self.albums[out[i].id] == out[i]
        &&& forall|id: Seq<char>| #[trigger]
            self.albums.contains_key(id) ==> out.contains(self.albums[id])
        &&& forall|i: int, j: int| 0 <= i < j < out.len() ==> out[i].id != out[j].id
        &&& forall|i: int, j: int|
            0 <= i < j < out.len() ==> text_le((#[trigger] out[i]).title, (#[trigger] out[j]).title)
    }

    /// `out` holds every track of the album once, by order.
    pub open spec fn lists_tracks(self, album_id: Seq<char>, out: Seq<TrackView>) -> bool {
        &&& forall|i: int|
            0 <= i < out.len() ==> self.in_album((#[trigger] out[i]).id, album_id)
                && self.tracks[out[i].id] == out[i]
        &&& forall|id: Seq<char>| #[trigger]
            self.in_album(id, album_id) ==> out.contains(self.tracks[id])
        &&& forall|i: int, j: int|
            0 <= i < j < out.len() ==> (#[trigger] out[i]).order < (#[trigger] out[j]).order
    }

    pub open spec fn valid_album(self, id: Seq<char>) -> bool {
        let album = self.albums[id];
        &&& album.id == id
        &&& !blank(album.title)
        &&& !blank(album.artist)
        &&& album.price_cents >= 0
    }

    pub open spec fn valid_track(self, id: Seq<char>) -> bool {
        let track = self.tracks[id];
        &&& track.id == id
        &&& self.albums.contains_key(track.album_id)
        &&& !blank(track.title)
        &&& track.order >= 0
        &&& track.duration_ms >= 0
        &&& track.audio_url == audio_url_of(id)
    }

    /// Albums and tracks are as the rules for creating them ask, every track
    /// belongs to an album that is there, and no two tracks of an album share
    /// an order.
    pub open spec fn valid(self) -> bool {
        &&& self.albums.dom().finite()
        &&& self.tracks.dom().finite()
        &&& forall|id: Seq<char>| #[trigger] self.albums.contains_key(id) ==> self.valid_album(id)
        &&& forall|id: Seq<char>| #[trigger] self.tracks.contains_key(id) ==> self.valid_track(id)
        &&& forall|a: Seq<char>, b: Seq<char>|
            (#[trigger] self.tracks.contains_key(a)) && (#[trigger] self.tracks.contains_key(b)) && a
                != b && self.tracks[a].album_id == self.tracks[b].album_id ==> self.tracks[a].order
                != self.tracks[b].order
    }
}

impl StoreView {
    /// There is at most one highest order.
    proof fn lemma_last_order(self, album_id: Seq<char>, order: i32)
        requires
            self.is_last_order(album_id, order),
        ensures
            self.last_order(album_id) == Some(order),
    {
        let last = self.last_order(album_id)->0;
        assert(self.is_last_order(album_id, last));
    }

    /// A track at an order of its own leaves the store valid.
    pub(crate) proof fn lemma_with_track_valid(self, track: TrackView)
        requires
            self.valid(),
            self.albums.contains_key(track.album_id),
            !blank(track.title),
            track.order >= 0,
            track.duration_ms >= 0,
            track.audio_url == audio_url_of(track.id),
            !self.order_taken(track.album_id, track.order as int),
        ensures
            self.with_track(track).valid(),
    {
        let after = self.with_track(track);
        assert forall|a: Seq<char>, b: Seq<char>|
            (#[trigger] after.tracks.contains_key(a)) && (#[trigger] after.tracks.contains_key(b)) && a
                != b && after.tracks[a].album_id
                == after.tracks[b].album_id implies after.tracks[a].order
            != after.tracks[b].order by {
            if a == track.id {
                assert(self.in_album(b, track.album_id));
            } else if b == track.id {
                assert(self.in_album(a, track.album_id));
            }
        }
    }
}

pub open spec fn album_views(v: Seq<Album>) -> Seq<AlbumView> {
    v.map_values(|a: Album| a@)
}

pub open spec fn track_views(v: Seq<Track>) -> Seq<TrackView> {
    v.map_values(|t: Track| t@)
}

/// Everything that the service remembers between requests.
pub struct Store {
    albums: Table<Album>,
    tracks: Table<Track>,
}

impl View for Store {
    type V = StoreView;

    closed spec fn view(&self) -> StoreView {
        StoreView {
            albums: self.albums@.map_values(|a: Album| a@),
            tracks: self.tracks@.map_values(|t: Track| t@),
        }
    }
}

/// The audio URL of the track `id`.
pub fn audio_url(id: &str) -> (url: String)
    ensures
        url@ == audio_url_of(id@),
{
    let mut url = "/tracks/".to_string();
    url.append(id);
    url.append("/file");
    url
}

impl Store {
    pub closed spec fn wf(&self) -> bool {
        &&& self.albums.wf()
        &&& self.tracks.wf()
        &&& self@.valid()
    }

    /// Whatever has been asked of a store, it holds valid albums and tracks.
    pub proof fn lemma_valid(&self)
        requires
            self.wf(),
        ensures
            self@.valid(),
    {
    }

    pub fn new() -> (s: Store)
        ensures
            s.wf(),
            s@ == StoreView::empty(),
    {
        let s = Store { albums: Table::new(), tracks: Table::new() };
        assert(s@.albums =~= Map::empty());
        assert(s@.tracks =~= Map::empty());
        s
    }

    /// Adds the requested album under the given id.
    pub fn create_album_with_id(&mut self, req: CreateAlbumRequest, id: String) -> (r: Result<
        Reply<Album>,
        ApiError,
    >)
        requires
            old(self).wf(),
        ensures
            final(self).wf(),
            match album_fault(req@) {
                Some(message) => {
                    &&& r matches Err(e)
                    &&& e@ == plain_error(ApiErrorCode::BadRequest, message)
                    &&& final(self)@ == old(self)@
                },
                None => {
                    &&& r matches Ok(reply)
                    &&& reply.status == Status::Created
                    &&& reply.body@ == requested_album(id@, req@)
                    &&& final(self)@ == old(self)@.with_album(requested_album(id@, req@))
                },
            },
            r matches Ok(reply) ==> {
                &&& reply.body.title@ == req.title@
                &&& reply.body.artist@ == req.artist@
                &&& reply.body.price_cents == req.price_cents
                &&& reply.body.currency@ == req.currency@
                &&& final(self)@.albums.contains_key(reply.body.id@)
                &&& final(self)@.albums[reply.body.id@].title == req.title@
                &&& final(self)@.albums[reply.body.id@].artist == req.artist@
                &&& final(self)@.albums[reply.body.id@].price_cents == req.price_cents
                &&& final(self)@.albums[reply.body.id@].currency == req.currency@
            },
            r matches Ok(reply) ==> reply.body.id@ == id@,
    {
        match check_album_request(&req) {
            Err(e) => Err(e),
            Ok(()) => Ok(self.add_album(req, id)),
        }
    }

    /// Adds an album for a request without fault.
    fn add_album(&mut self, req: CreateAlbumRequest, id: String) -> (reply: Reply<Album>)
        requires
            old(self).wf(),
            album_fault(req@) is None,
        ensures
            final(self).wf(),
            reply.status == Status::Created,
            reply.body@ == requested_album(id@, req@),
            final(self)@ == old(self)@.with_album(requested_album(id@, req@)),
    {
        let album = Album {
            id,
            title: req.title,
            artist: req.artist,
            price_cents: req.price_cents,
            currency: req.currency,
        };
        let ghost before = self@;
        self.albums.insert(album.id.clone(), album.clone());
        proof {
            assert(self@.albums =~= before.with_album(album@).albums);
            assert(self@.tracks =~= before.tracks);
        }
        Reply { status: Status::Created, body: album }
    }

    /// Adds the requested album under a new random id, which is drawn once the
    /// request is found to be without fault.
    pub fn create_album(&mut self, req: CreateAlbumRequest) -> (r: Result<Reply<Album>, ApiError>)
        requires
            old(self).wf(),
        ensures
            final(self).wf(),
            match album_fault(req@) {
                Some(message) => {
                    &&& r matches Err(e)
                    &&& e@ == plain_error(ApiErrorCode::BadRequest, message)
                    &&& final(self)@ == old(self)@
                },
                None => {
                    &&& r matches Ok(reply)
                    &&& reply.status == Status::Created
                    &&& uuid_v4_text(reply.body@.id)
                    &&& reply.body@ == requested_album(reply.body@.id, req@)
                    &&& final(self)@ == old(self)@.with_album(reply.body@)
                },
            },
            r matches Ok(reply) ==> {
                &&& reply.body.title@ == req.title@
                &&& reply.body.artist@ == req.artist@
                &&& reply.body.price_cents == req.price_cents
                &&& reply.body.currency@ == req.currency@
                &&& final(self)@.albums.contains_key(reply.body.id@)
                &&& final(self)@.albums[reply.body.id@].title == req.title@
                &&& final(self)@.albums[reply.body.id@].artist == req.artist@
                &&& final(self)@.albums[reply.body.id@].price_cents == req.price_cents
                &&& final(self)@.albums[reply.body.id@].currency == req.currency@
            },
    {
        match check_album_request(&req) {
            Err(e) => Err(e),
            Ok(()) => {
                let id = new_id();
                Ok(self.add_album(req, id))
            },
        }
    }

    /// All albums, by title.
    pub fn list_albums(&self) -> (r: Reply<Vec<Album>>)
        requires
            self.wf(),
        ensures
            r.status == Status::Success,
            self@.lists_albums(album_views(r.body@)),
    {
        let mut out: Vec<Album> = Vec::new();
        let mut i: usize = 0;
        let ghost keys = self.albums.key_order();
        proof {
            self.albums.lemma_key_order();
        }
        while i < self.albums.len()
            invariant
                self.wf(),
                keys == self.albums.key_order(),
                i <= keys.len(),
                forall|k: int| 0 <= k < keys.len() ==> self.albums@.contains_key(#[trigger] keys[k]),
                forall|a: int, b: int| 0 <= a < b < keys.len() ==> keys[a] != keys[b],
                forall|x: int|
                    0 <= x < out@.len() ==> exists|k: int|
                        0 <= k < i && #[trigger] keys[k] == (#[trigger] out@[x]).id@ && out@[x]
                            == self.albums@[keys[k]],
                forall|k: int|
                    0 <= k < i ==> out@.contains(self.albums@[#[trigger] keys[k]]),
                forall|x: int, y: int|
                    0 <= x < y < out@.len() ==> (#[trigger] out@[x]).id@ != (#[trigger] out@[y]).id@,
                albums_sorted(out@),
            decreases keys.len() - i,
        {
            let album = self.albums.row(i).clone();
            let ghost key = keys[i as int];
            assert(self@.albums.contains_key(key));
            assert(album.id@ == key);
            let ghost before = out@;
            let at = album_slot(&out, &album);
            out.insert(at, album);
            proof {
                assert forall|k: int| 0 <= k <= i implies out@.contains(
                    self.albums@[#[trigger] keys[k]],
                ) by {
                    lemma_insert_contains(before, at as int, album, self.albums@[keys[k]]);
                }
            }
            i += 1;
        }
        proof {
            let views = album_views(out@);
            assert forall|id: Seq<char>| #[trigger] self@.albums.contains_key(id) implies views.contains(
                self@.albums[id],
            ) by {
                assert(self.albums@.contains_key(id));
                let k = choose|k: int| 0 <= k < keys.len() && #[trigger] keys[k] == id;
                assert(out@.contains(self.albums@[keys[k]]));
                let x = choose|x: int| 0 <= x < out@.len() && out@[x] == self.albums@[id];
                assert(views[x] == self@.albums[id]);
            }
        }
        Reply { status: Status::Success, body: out }
    }

    /// The album `album_id`.
    pub fn get_album(&self, album_id: &str) -> (r: Result<Reply<Album>, ApiError>)
        requires
            self.wf(),
        ensures
            if self@.albums.contains_key(album_id@) {
                &&& r matches Ok(reply)
                &&& reply.status == Status::Success
                &&& reply.body@ == self@.albums[album_id@]
            } else {
                &&& r matches Err(e)
                &&& e@ == plain_error(ApiErrorCode::NotFound, "album not found"@)
            },
    {
        match self.albums.get(album_id) {
            Some(album) => Ok(Reply { status: Status::Success, body: album.clone() }),
            None => Err(ApiError::not_found("album not found".to_string())),
        }
    }

    /// The highest order in the album, where it has tracks.
    fn last_order(&self, album_id: &str) -> (r: Option<i32>)
        requires
            self.wf(),
        ensures
            r == self@.last_order(album_id@),
    {
        let wanted = album_id.to_string();
        let ghost album = album_id@;
        let ghost keys = self.tracks.key_order();
        let mut last: Option<i32> = None;
        let mut i: usize = 0;
        proof {
            self.tracks.lemma_key_order();
        }
        while i < self.tracks.len()
            invariant
                self.wf(),
                album == album_id@ && wanted@ == album,
                keys == self.tracks.key_order(),
                i <= keys.len(),
                forall|k: int| 0 <= k < keys.len() ==> self.tracks@.contains_key(#[trigger] keys[k]),
                match last {
                    Some(m) => {
                        &&& self@.order_taken(album, m as int)
                        &&& forall|k: int|
                            0 <= k < i && self@.in_album(#[trigger] keys[k], album)
                                ==> self@.tracks[keys[k]].order <= m
                    },
                    None => forall|k: int| 0 <= k < i ==> !self@.in_album(#[trigger] keys[k], album),
                },
            decreases keys.len() - i,
        {
            let track = self.tracks.row(i);
            let ghost key = keys[i as int];
            assert(self@.tracks[key] == track@);
            if track.album_id == wanted {
                assert(self@.in_album(key, album));
                match last {
                    Some(m) if m >= track.order => {},
                    _ => {
                        last = Some(track.order);
                    },
                }
            }
            i += 1;
        }
        proof {
            assert forall|id: Seq<char>| #[trigger] self@.in_album(id, album) implies exists|k: int|
                0 <= k < keys.len() && #[trigger] keys[k] == id by {
                assert(self.tracks@.contains_key(id));
            }
            if let Some(m) = last {
                assert(self@.is_last_order(album, m));
                self@.lemma_last_order(album, m);
            }
        }
        last
    }

    /// Whether a track of the album stands at `order`.
    fn order_is_taken(&self, album_id: &str, order: i32) -> (r: bool)
        requires
            self.wf(),
        ensures
            r == self@.order_taken(album_id@, order as int),
    {
        let wanted = album_id.to_string();
        let ghost album = album_id@;
        let ghost keys = self.tracks.key_order();
        let mut i: usize = 0;
        proof {
            self.tracks.lemma_key_order();
        }
        while i < self.tracks.len()
            invariant
                self.wf(),
                album == album_id@ && wanted@ == album,
                keys == self.tracks.key_order(),
                i <= keys.len(),
                forall|k: int| 0 <= k < keys.len() ==> self.tracks@.contains_key(#[trigger] keys[k]),
                forall|k: int|
                    0 <= k < i && self@.in_album(#[trigger] keys[k], album)
                        ==> self@.tracks[keys[k]].order != order,
            decreases keys.len() - i,
        {
            let track = self.tracks.row(i);
            let ghost key = keys[i as int];
            assert(self@.tracks[key] == track@);
            if track.album_id == wanted && track.order == order {
                assert(self@.in_album(key, album));
                return true;
            }
            i += 1;
        }
        proof {
            assert forall|id: Seq<char>| #[trigger]
                self@.in_album(id, album) implies self@.tracks[id].order != order by {
                assert(self.tracks@.contains_key(id));
                let k = choose|k: int| 0 <= k < keys.len() && #[trigger] keys[k] == id;
                assert(self@.in_album(keys[k], album));
            }
        }
        false
    }

    /// Whether an order for the requested track can be computed.
    pub fn has_room(&self, album_id: &str, req: &CreateTrackRequest) -> (r: bool)
        requires
            self.wf(),
        ensures
            r == self@.has_room(album_id@, req@),
    {
        if check_track_request(req).is_err() || !self.albums.contains_key(album_id) {
            return true;
        }
        match (req.order, self.last_order(album_id)) {
            (None, Some(last)) => last < i32::MAX,
            _ => true,
        }
    }

    /// Adds the requested track to the album under the given id.
    pub fn create_track_metadata_with_id(
        &mut self,
        album_id: &str,
        req: CreateTrackRequest,
        id: String,
    ) -> (r: Result<Reply<Track>, ApiError>)
        requires
            old(self).wf(),
            old(self)@.has_room(album_id@, req@),
        ensures
            final(self).wf(),
            match old(self)@.track_refusal(album_id@, req@) {
                Some(refusal) => {
                    &&& r matches Err(e)
                    &&& e@ == refusal
                    &&& final(self)@ == old(self)@
                },
                None => {
                    let order = old(self)@.assigned_order(album_id@, req@.order) as i32;
                    let track = requested_track(id@, album_id@, order, req@);
                    &&& r matches Ok(reply)
                    &&& reply.status == Status::Created
                    &&& reply.body@ == track
                    &&& final(self)@ == old(self)@.with_track(track)
                },
            },
            r matches Ok(reply) ==> {
                &&& reply.body.album_id@ == album_id@
                &&& reply.body.title@ == req.title@
                &&& reply.body.duration_ms == req.duration_ms
                &&& req.order matches Some(asked) ==> reply.body.order == asked
                &&& reply.body.file is None
                &&& final(self)@.tracks.contains_key(reply.body.id@)
                &&& final(self)@.tracks[reply.body.id@] == reply.body@
            },
            r matches Ok(reply) ==> reply.body.id@ == id@,
    {
        match self.place_track(album_id, &req) {
            Err(e) => Err(e),
            Ok(order) => Ok(self.add_track(album_id, req, order, id)),
        }
    }

    /// Where the requested track goes, unless it is refused.
    fn place_track(&self, album_id: &str, req: &CreateTrackRequest) -> (r: Result<i32, ApiError>)
        requires
            self.wf(),
            self@.has_room(album_id@, req@),
        ensures
            match self@.track_refusal(album_id@, req@) {
                Some(refusal) => r matches Err(e) && e@ == refusal,
                None => r matches Ok(order) && order == self@.assigned_order(album_id@, req@.order),
            },
    {
        match check_track_request(req) {
            Err(e) => {
                return Err(e);
            },
            Ok(()) => {},
        }
        if !self.albums.contains_key(album_id) {
            return Err(ApiError::not_found("album not found".to_string()));
        }
        let order: i32 = match req.order {
            Some(order) => order,
            None => match self.last_order(album_id) {
                Some(last) => last + 1,
                None => 0,
            },
        };
        if self.order_is_taken(album_id, order) {
            let mut message = "order ".to_string();
            message.append(decimal(order as u64).as_str());
            message.append(" already exists in album");
            return Err(ApiError::conflict(message));
        }
        Ok(order)
    }

    /// Adds a track for a request that is not refused.
    fn add_track(&mut self, album_id: &str, req: CreateTrackRequest, order: i32, id: String) -> (reply:
        Reply<Track>)
        requires
            old(self).wf(),
            old(self)@.track_refusal(album_id@, req@) is None,
            order == old(self)@.assigned_order(album_id@, req@.order),
        ensures
            final(self).wf(),
            reply.status == Status::Created,
            reply.body@ == requested_track(id@, album_id@, order, req@),
            final(self)@ == old(self)@.with_track(reply.body@),
    {
        let audio_url = audio_url(id.as_str());
        let track = Track {
            id,
            album_id: album_id.to_string(),
            title: req.title,
            order,
            duration_ms: req.duration_ms,
            audio_url,
            file: None,
        };
        let ghost before = self@;
        self.tracks.insert(track.id.clone(), track.clone());
        proof {
            assert(self@.albums =~= before.albums);
            assert(self@.tracks =~= before.with_track(track@).tracks);
            before.lemma_with_track_valid(track@);
        }
        Reply { status: Status::Created, body: track }
    }

    /// Adds the requested track to the album under a new random id, which is
    /// drawn once the request is found not to be refused.
    pub fn create_track_metadata(&mut self, album_id: &str, req: CreateTrackRequest) -> (r: Result<
        Reply<Track>,
        ApiError,
    >)
        requires
            old(self).wf(),
            old(self)@.has_room(album_id@, req@),
        ensures
            final(self).wf(),
            match old(self)@.track_refusal(album_id@, req@) {
                Some(refusal) => {
                    &&& r matches Err(e)
                    &&& e@ == refusal
                    &&& final(self)@ == old(self)@
                },
                None => {
                    let order = old(self)@.assigned_order(album_id@, req@.order) as i32;
                    &&& r matches Ok(reply)
                    &&& reply.status == Status::Created
                    &&& uuid_v4_text(reply.body@.id)
                    &&& reply.body@ == requested_track(reply.body@.id, album_id@, order, req@)
                    &&& final(self)@ == old(self)@.with_track(reply.body@)
                },
            },
            r matches Ok(reply) ==> {
                &&& reply.body.album_id@ == album_id@
                &&& reply.body.title@ == req.title@
                &&& reply.body.duration_ms == req.duration_ms
                &&& req.order matches Some(asked) ==> reply.body.order == asked
                &&& reply.body.file is None
                &&& final(self)@.tracks.contains_key(reply.body.id@)
                &&& final(self)@.tracks[reply.body.id@] == reply.body@
            },
            final(self)@.albums == old(self)@.albums,
            forall|other: Seq<char>| #[trigger]
                old(self)@.tracks.contains_key(other) && (r matches Ok(reply) ==> reply.body@.id
                    != other) ==> final(self)@.tracks.contains_key(other)
                    && final(self)@.tracks[other] == old(self)@.tracks[other],
    {
        match self.place_track(album_id, &req) {
            Err(e) => Err(e),
            Ok(order) => {
                let id = new_id();
                Ok(self.add_track(album_id, req, order, id))
            },
        }
    }

    /// The tracks of the album, by order.
    pub fn list_tracks_for_album(&self, album_id: &str) -> (r: Result<Reply<Vec<Track>>, ApiError>)
        requires
            self.wf(),
        ensures
            if self@.albums.contains_key(album_id@) {
                &&& r matches Ok(reply)
                &&& reply.status == Status::Success
                &&& self@.lists_tracks(album_id@, track_views(reply.body@))
            } else {
                &&& r matches Err(e)
                &&& e@ == plain_error(ApiErrorCode::NotFound, "album not found"@)
            },
    {
        if !self.albums.contains_key(album_id) {
            return Err(ApiError::not_found("album not found".to_string()));
        }
        let wanted = album_id.to_string();
        let ghost album = album_id@;
        let ghost keys = self.tracks.key_order();
        let mut out: Vec<Track> = Vec::new();
        let mut i: usize = 0;
        proof {
            self.tracks.lemma_key_order();
        }
        while i < self.tracks.len()
            invariant
                self.wf(),
                album == album_id@ && wanted@ == album,
                keys == self.tracks.key_order(),
                i <= keys.len(),
                forall|k: int| 0 <= k < keys.len() ==> self.tracks@.contains_key(#[trigger] keys[k]),
                forall|a: int, b: int| 0 <= a < b < keys.len() ==> keys[a] != keys[b],
                forall|x: int|
                    0 <= x < out@.len() ==> exists|k: int|
                        0 <= k < i && #[trigger] keys[k] == (#[trigger] out@[x]).id@ && self@.in_album(
                            keys[k],
                            album,
                        ) && out@[x] == self.tracks@[keys[k]],
                forall|k: int|
                    0 <= k < i && self@.in_album(#[trigger] keys[k], album) ==> out@.contains(
                        self.tracks@[keys[k]],
                    ),
                tracks_sorted(out@),
            decreases keys.len() - i,
        {
            let row = self.tracks.row(i);
            let ghost key = keys[i as int];
            let ghost before = out@;
            assert(self@.tracks.contains_key(key));
            assert(self@.tracks[key] == row@);
            if row.album_id == wanted {
                let track = row.clone();
                assert(track.id@ == key);
                assert(self@.in_album(key, album));
                proof {
                    assert forall|x: int| 0 <= x < out@.len() implies (#[trigger] out@[x]).order
                        != track.order by {
                        let k = choose|k: int|
                            0 <= k < i && #[trigger] keys[k] == out@[x].id@ && self@.in_album(
                                keys[k],
                                album,
                            ) && out@[x] == self.tracks@[keys[k]];
                        assert(keys[k] != key);
                        assert(self@.tracks.contains_key(keys[k]));
                    }
                }
                let at = track_slot(&out, &track);
                out.insert(at, track);
                proof {
                    assert forall|k: int|
                        0 <= k <= i && self@.in_album(#[trigger] keys[k], album) implies out@.contains(
                        self.tracks@[keys[k]],
                    ) by {
                        lemma_insert_contains(before, at as int, track, self.tracks@[keys[k]]);
                    }
                }
            }
            i += 1;
        }
        proof {
            let views = track_views(out@);
            assert forall|id: Seq<char>| #[trigger] self@.in_album(id, album) implies views.contains(
                self@.tracks[id],
            ) by {
                assert(self.tracks@.contains_key(id));
                let k = choose|k: int| 0 <= k < keys.len() && #[trigger] keys[k] == id;
                assert(self@.in_album(keys[k], album));
                let x = choose|x: int| 0 <= x < out@.len() && out@[x] == self.tracks@[id];
                assert(views[x] == self@.tracks[id]);
            }
        }
        Ok(Reply { status: Status::Success, body: out })
    }

    /// The track `track_id`.
    pub fn get_track(&self, track_id: &str) -> (r: Result<Reply<Track>, ApiError>)
        requires
            self.wf(),
        ensures
            if self@.tracks.contains_key(track_id@) {
                &&& r matches Ok(reply)
                &&& reply.status == Status::Success
                &&& reply.body@ == self@.tracks[track_id@]
            } else {
                &&& r matches Err(e)
                &&& e@ == plain_error(ApiErrorCode::NotFound, "track not found"@)
            },
    {
        match self.tracks.get(track_id) {
            Some(track) => Ok(Reply { status: Status::Success, body: track.clone() }),
            None => Err(ApiError::not_found("track not found".to_string())),
        }
    }

    /// Notes the audio file that was uploaded for the track.
    pub fn set_track_file(&mut self, track_id: &str, file: FileMeta) -> (r: Result<
        Reply<Track>,
        ApiError,
    >)
        requires
            old(self).wf(),
        ensures
            final(self).wf(),
            if old(self)@.tracks.contains_key(track_id@) {
                let track = old(self)@.tracks[track_id@].with_file(file@);
                &&& r matches Ok(reply)
                &&& reply.status == Status::Success
                &&& reply.body@ == track
                &&& final(self)@ == old(self)@.with_track(track)
            } else {
                &&& r matches Err(e)
                &&& e@ == plain_error(ApiErrorCode::NotFound, "track not found"@)
                &&& final(self)@ == old(self)@
            },
            r matches Ok(reply) ==> {
                &&& reply.body.id@ == old(self)@.tracks[track_id@].id
                &&& reply.body.title@ == old(self)@.tracks[track_id@].title
                &&& reply.body.order == old(self)@.tracks[track_id@].order
                &&& reply.body.file matches Some(f)
                &&& f.filename@ == file.filename@
                &&& f.content_type@ == file.content_type@
            },
    {
        let mut track = match self.tracks.get(track_id) {
            Some(track) => track.clone(),
            None => {
                return Err(ApiError::not_found("track not found".to_string()));
            },
        };
        let ghost before = self@;
        let ghost known = track@;
        assert(before.tracks.contains_key(track_id@));
        assert(before.tracks[track_id@] == known);
        track.file = Some(file);
        self.tracks.insert(track_id.to_string(), track.clone());
        proof {
            assert(track@ == known.with_file(file@));
            assert(self@.albums =~= before.albums);
            assert(self@.tracks =~= before.with_track(track@).tracks);
        }
        Ok(Reply { status: Status::Success, body: track })
    }
}

/// Refuses a request for an album with a fault.
fn check_album_request(req: &CreateAlbumRequest) -> (r: Result<(), ApiError>)
    ensures
        match album_fault(req@) {
            Some(message) => {
                &&& r matches Err(e)
                &&& e@ == plain_error(ApiErrorCode::BadRequest, message)
            },
            None => r is Ok,
        },
{
    if is_blank(req.title.as_str()) || is_blank(req.artist.as_str()) {
        return Err(ApiError::bad_request("title and artist are required".to_string()));
    }
    if req.price_cents < 0 {
        return Err(ApiError::bad_request("price_cents must be >= 0".to_string()));
    }
    Ok(())
}

/// Refuses a request for a track that no album would take.
fn check_track_request(req: &CreateTrackRequest) -> (r: Result<(), ApiError>)
    ensures
        match track_fault(req@) {
            Some(message) => {
                &&& r matches Err(e)
                &&& e@ == plain_error(ApiErrorCode::BadRequest, message)
            },
            None => r is Ok,
        },
{
    if is_blank(req.title.as_str()) {
        return Err(ApiError::bad_request("title is required".to_string()));
    }
    if req.duration_ms < 0 {
        return Err(ApiError::bad_request("duration_ms must be >= 0".to_string()));
    }
    if let Some(order) = req.order {
        if order < 0 {
            return Err(ApiError::bad_request("order must be >= 0".to_string()));
        }
    }
    Ok(())
}

spec fn tracks_sorted(v: Seq<Track>) -> bool {
    forall|x: int, y: int|
        0 <= x < y < v.len() ==> (#[trigger] v[x]).order < (#[trigger] v[y]).order
}

/// Where `track` goes among tracks sorted by order.
fn track_slot(v: &Vec<Track>, track: &Track) -> (at: usize)
    requires
        tracks_sorted(v@),
        forall|x: int| 0 <= x < v@.len() ==> (#[trigger] v@[x]).order != track.order,
    ensures
        at <= v@.len(),
        forall|x: int| 0 <= x < at ==> (#[trigger] v@[x]).order < track.order,
        forall|x: int| at <= x < v@.len() ==> track.order < (#[trigger] v@[x]).order,
{
    let mut lo: usize = 0;
    let mut hi: usize = v.len();
    while lo < hi
        invariant
            lo <= hi <= v@.len(),
            tracks_sorted(v@),
            forall|x: int| 0 <= x < v@.len() ==> (#[trigger] v@[x]).order != track.order,
            forall|x: int| 0 <= x < lo ==> (#[trigger] v@[x]).order < track.order,
            forall|x: int| hi <= x < v@.len() ==> track.order < (#[trigger] v@[x]).order,
        decreases hi - lo,
    {
        let mid: usize = lo + (hi - lo) / 2;
        if v[mid].order < track.order {
            lo = mid + 1;
        } else {
            hi = mid;
        }
    }
    lo
}

proof fn lemma_insert_contains<T>(s: Seq<T>, at: int, x: T, y: T)
    requires
        0 <= at <= s.len(),
        y == x || s.contains(y),
    ensures
        s.insert(at, x).contains(y),
{
    let t = s.insert(at, x);
    if y == x {
        assert(t[at] == y);
    } else {
        let i = choose|i: int| 0 <= i < s.len() && s[i] == y;
        assert(t[if i < at { i } else { i + 1 }] == y);
    }
}

spec fn albums_sorted(v: Seq<Album>) -> bool {
    forall|x: int, y: int|
        0 <= x < y < v.len() ==> text_le((#[trigger] v[x]).title@, (#[trigger] v[y]).title@)
}

/// Where `album` goes among albums sorted by title: behind those that it does
/// not precede.
fn album_slot(v: &Vec<Album>, album: &Album) -> (at: usize)
    requires
        albums_sorted(v@),
    ensures
        at <= v@.len(),
        forall|x: int| 0 <= x < at ==> text_le((#[trigger] v@[x]).title@, album.title@),
        forall|x: int| at <= x < v@.len() ==> text_le(album.title@, (#[trigger] v@[x]).title@),
{
    let mut lo: usize = 0;
    let mut hi: usize = v.len();
    while lo < hi
        invariant
            lo <= hi <= v@.len(),
            albums_sorted(v@),
            forall|x: int| 0 <= x < lo ==> text_le((#[trigger] v@[x]).title@, album.title@),
            forall|x: int| hi <= x < v@.len() ==> text_le(album.title@, (#[trigger] v@[x]).title@),
        decreases hi - lo,
    {
        let mid: usize = lo + (hi - lo) / 2;
        if in_text_order(v[mid].title.as_str(), album.title.as_str()) {
            proof {
                assert forall|x: int| 0 <= x <= mid implies text_le(
                    (#[trigger] v@[x]).title@,
                    album.title@,
                ) by {
                    if x < mid {
                        lemma_text_le_transitive(v@[x].title@, v@[mid as int].title@, album.title@);
                    }
                }
            }
            lo = mid + 1;
        } else {
            proof {
                lemma_text_le_total(v@[mid as int].title@, album.title@);
                assert forall|x: int| mid <= x < v@.len() implies text_le(
                    album.title@,
                    (#[trigger] v@[x]).title@,
                ) by {
                    if mid < x {
                        lemma_text_le_transitive(album.title@, v@[mid as int].title@, v@[x].title@);
                    }
                }
            }
            hi = mid;
        }
    }
    lo
}

} // verus!
