//! What requests for albums and tracks are answered with, said of the fields
//! of the requests and of the records themselves.

use vstd::prelude::*;

use crate::config::{
    number_or, set_or, DEFAULT_MAX_AUDIO_BYTES, DEFAULT_PORT, FORM_OVERHEAD_BYTES,
};
use crate::error::{
    detailed_error, plain_error, status_number, status_of, text_of, ApiError, ApiErrorCode, Status,
};
use crate::laws::law_last_order_where_there_are_tracks;
use crate::model::{
    file_view, Album, AlbumRequestView, AlbumView, CreateAlbumRequest, CreateTrackRequest, FileMeta,
    FileMetaView, Track, TrackRequestView, TrackView,
};
use crate::store::{
    album_fault, album_views, audio_url_of, order_taken_message, requested_album, requested_track,
    track_fault, track_views, StoreView,
};
use crate::text::{decimal_text, parsed_unsigned, text_le, white_space};
use crate::text_laws::{law_decimal_text_spells_the_number, law_text_order_is_by_code_point};

verus! {

/// `s` holds a character that is not white space.
pub open spec fn has_text(s: Seq<char>) -> bool {
    exists|i: int| 0 <= i < s.len() && !white_space(#[trigger] s[i])
}

// Errors.

/// Each error is answered with the status that HTTP has for it.
pub proof fn law_each_error_has_its_status(code: ApiErrorCode)
    ensures
        code is BadRequest ==> status_of(code) is BadRequest && status_number(status_of(code)) == 400,
        code is NotFound ==> status_of(code) is NotFound && status_number(status_of(code)) == 404,
        code is Conflict ==> status_of(code) is Conflict && status_number(status_of(code)) == 409,
        code is PayloadTooLarge ==> status_of(code) is PayloadTooLarge && status_number(
            status_of(code),
        ) == 413,
        code is VirusDetected ==> status_of(code) is UnprocessableEntity && status_number(
            status_of(code),
        ) == 422,
        code is Internal ==> status_of(code) is InternalServerError && status_number(
            status_of(code),
        ) == 500,
        code is VirusScanUnavailable ==> status_of(code) is ServiceUnavailable && status_number(
            status_of(code),
        ) == 503,
        status_number(Status::Success) == 200,
        status_number(Status::Created) == 201,
{
}

/// An error says its code, its message and its details, as they are.
pub proof fn law_errors_say_what_they_are(
    code: ApiErrorCode,
    message: Seq<char>,
    details: Seq<char>,
)
    ensures
        plain_error(code, message).code == code,
        plain_error(code, message).message == message,
        plain_error(code, message).details is None,
        plain_error(code, message).status == status_of(code),
        detailed_error(code, message, details).code == code,
        detailed_error(code, message, details).message == message,
        detailed_error(code, message, details).details == Some(details),
        detailed_error(code, message, details).status == status_of(code),
{
}

/// What contracts say of an error they say of its fields.
pub proof fn law_view_of_an_error(e: ApiError, s: String)
    ensures
        e@.code == e.code,
        e@.message == e.message@,
        e.details is None ==> e@.details is None,
        e.details matches Some(d) ==> e@.details == Some(d@),
        e@.status == e.status,
        text_of(Some(s)) == Some(s@),
        text_of(None) is None,
{
}

// Records.

/// What contracts say of an album and of a request for one they say of the
/// fields.
pub proof fn law_views_of_albums(album: Album, req: CreateAlbumRequest)
    ensures
        album@.id == album.id@,
        album@.title == album.title@,
        album@.artist == album.artist@,
        album@.price_cents == album.price_cents,
        album@.currency == album.currency@,
        req@.title == req.title@,
        req@.artist == req.artist@,
        req@.price_cents == req.price_cents,
        req@.currency == req.currency@,
{
}

/// What contracts say of a track, of its file and of a request for a track
/// they say of the fields.
pub proof fn law_views_of_tracks(track: Track, req: CreateTrackRequest, file: FileMeta)
    ensures
        track@.id == track.id@,
        track@.album_id == track.album_id@,
        track@.title == track.title@,
        track@.order == track.order,
        track@.duration_ms == track.duration_ms,
        track@.audio_url == track.audio_url@,
        track.file is None ==> track@.file is None,
        track.file matches Some(f) ==> track@.file == Some(
            FileMetaView { filename: f.filename@, content_type: f.content_type@ },
        ),
        req@.title == req.title@,
        req@.order == req.order,
        req@.duration_ms == req.duration_ms,
        file@.filename == file.filename@,
        file@.content_type == file.content_type@,
        file_view(Some(file)) == Some(file@),
        file_view(None) is None,
{
}

/// A listing shows each record that is answered, in the order of the answer.
pub proof fn law_views_of_listings(albums: Seq<Album>, tracks: Seq<Track>)
    ensures
        album_views(albums).len() == albums.len(),
        forall|i: int| 0 <= i < albums.len() ==> #[trigger] album_views(albums)[i] == albums[i]@,
        track_views(tracks).len() == tracks.len(),
        forall|i: int| 0 <= i < tracks.len() ==> #[trigger] track_views(tracks)[i] == tracks[i]@,
{
}

/// Noting a file on a track changes nothing else of the track.
pub proof fn law_noted_file(track: TrackView, file: FileMetaView)
    ensures
        track.with_file(file).file == Some(file),
        track.with_file(file).id == track.id,
        track.with_file(file).album_id == track.album_id,
        track.with_file(file).title == track.title,
        track.with_file(file).order == track.order,
        track.with_file(file).duration_ms == track.duration_ms,
        track.with_file(file).audio_url == track.audio_url,
{
}

// Albums.

/// A store begins with nothing in it.
pub proof fn law_new_store_is_empty(id: Seq<char>)
    ensures
        !StoreView::empty().albums.contains_key(id),
        !StoreView::empty().tracks.contains_key(id),
{
}

/// A request for an album is without fault exactly where its title and its
/// artist hold text and its price is not negative, and else the fault says
/// which of these it is.
pub proof fn law_faults_of_album_requests(req: AlbumRequestView)
    ensures
        album_fault(req) is None <==> has_text(req.title) && has_text(req.artist) && req.price_cents
            >= 0,
        !has_text(req.title) || !has_text(req.artist) ==> album_fault(req) == Some(
            "title and artist are required"@,
        ),
        has_text(req.title) && has_text(req.artist) && req.price_cents < 0 ==> album_fault(req)
            == Some("price_cents must be >= 0"@),
{
}

/// An album that was created, as it is answered and as it is read back under
/// its id, has the title, the artist, the price and the currency that were
/// asked for.
pub proof fn law_created_album_is_as_requested(
    store: StoreView,
    req: AlbumRequestView,
    id: Seq<char>,
)
    ensures
        ({
            let answered = requested_album(id, req);
            let after = store.with_album(answered);
            let read = after.albums[id];
            &&& answered.id == id
            &&& answered.title == req.title
            &&& answered.artist == req.artist
            &&& answered.price_cents == req.price_cents
            &&& answered.currency == req.currency
            &&& after.albums.contains_key(id)
            &&& read.id == id
            &&& read.title == req.title
            &&& read.artist == req.artist
            &&& read.price_cents == req.price_cents
            &&& read.currency == req.currency
        }),
{
}

/// An album goes under its own id, and a track under its own.
pub proof fn law_records_go_under_their_ids(
    store: StoreView,
    album: AlbumView,
    track: TrackView,
)
    ensures
        store.with_album(album).albums == store.albums.insert(album.id, album),
        store.with_album(album).tracks == store.tracks,
        store.with_track(track).tracks == store.tracks.insert(track.id, track),
        store.with_track(track).albums == store.albums,
{
}

/// A listing of the albums holds each of them once and nothing else, and of
/// two albums the one listed first has the title that comes first by code
/// points: where the titles first differ, its code point is the smaller one or
/// its title has ended.
pub proof fn law_listing_of_albums(store: StoreView, out: Seq<AlbumView>, i: int, j: int, k: int)
    requires
        store.lists_albums(out),
    ensures
        forall|id: Seq<char>| #[trigger]
            store.albums.contains_key(id) ==> out.contains(store.albums[id]),
        forall|x: int|
            0 <= x < out.len() ==> store.albums.contains_key((#[trigger] out[x]).id)
                && store.albums[out[x].id] == out[x],
        0 <= i < j < out.len() ==> out[i].id != out[j].id,
        0 <= i < j < out.len() && 0 <= k <= out[i].title.len() && k <= out[j].title.len() && (forall|
            x: int,
        |
            0 <= x < k ==> out[i].title[x] == out[j].title[x]) ==> {
            ||| k == out[i].title.len()
            ||| k < out[j].title.len() && out[i].title[k] as int <= out[j].title[k] as int
        },
{
    if 0 <= i < j < out.len() && 0 <= k < out[i].title.len() && k <= out[j].title.len() && (forall|
        x: int,
    |
        0 <= x < k ==> out[i].title[x] == out[j].title[x]) {
        law_text_order_is_by_code_point(out[j].title, out[i].title, k);
        assert(text_le(out[i].title, out[j].title));
    }
}

// Tracks.

/// The track `id` is there and belongs to the album.
pub open spec fn belongs(store: StoreView, id: Seq<char>, album_id: Seq<char>) -> bool {
    store.tracks.contains_key(id) && store.tracks[id].album_id == album_id
}

/// A request for a track has a fault exactly where its title holds no text,
/// its duration is negative or it asks for a negative order, and the fault
/// says which of these it is. Order 0 is as good as any.
pub proof fn law_faults_of_track_requests(req: TrackRequestView)
    ensures
        track_fault(req) is None <==> has_text(req.title) && req.duration_ms >= 0 && (req.order is None
            || req.order->0 >= 0),
        !has_text(req.title) ==> track_fault(req) == Some("title is required"@),
        has_text(req.title) && req.duration_ms < 0 ==> track_fault(req) == Some(
            "duration_ms must be >= 0"@,
        ),
        has_text(req.title) && req.duration_ms >= 0 && req.order is Some && req.order->0 < 0
            ==> track_fault(req) == Some("order must be >= 0"@),
{
}

/// A track stands at the order that was asked for. Where none was asked for,
/// it stands directly behind the last track of its album, and at 0 where the
/// album has none.
pub proof fn law_where_a_track_goes(store: StoreView, album_id: Seq<char>, asked: i32)
    requires
        store.tracks.dom().finite(),
    ensures
        store.assigned_order(album_id, Some(asked)) == asked,
        ({
            let order = store.assigned_order(album_id, None);
            &&& forall|id: Seq<char>| #[trigger]
                belongs(store, id, album_id) ==> store.tracks[id].order < order
            &&& (exists|id: Seq<char>| belongs(store, id, album_id)) ==> exists|id: Seq<char>|
                #[trigger] belongs(store, id, album_id) && order == store.tracks[id].order + 1
            &&& !(exists|id: Seq<char>| belongs(store, id, album_id)) ==> order == 0
        }),
{
    law_last_order_where_there_are_tracks(store, album_id);
    assert forall|id: Seq<char>| #[trigger] belongs(store, id, album_id) == store.in_album(
        id,
        album_id,
    ) by {}
    if exists|id: Seq<char>| belongs(store, id, album_id) {
        let id = choose|id: Seq<char>| belongs(store, id, album_id);
        assert(store.in_album(id, album_id));
        let last = store.last_order(album_id)->0;
        assert(store.is_last_order(album_id, last));
        let top = choose|id: Seq<char>| #[trigger]
            store.in_album(id, album_id) && store.tracks[id].order == last;
        assert(belongs(store, top, album_id));
        assert forall|id: Seq<char>| #[trigger] belongs(store, id, album_id) implies store.tracks[id].order
            < store.assigned_order(album_id, None) by {
            assert(store.in_album(id, album_id));
        }
    } else {
        if store.last_order(album_id) is Some {
            let id = choose|id: Seq<char>| store.in_album(id, album_id);
            assert(belongs(store, id, album_id));
        }
    }
}

/// A request for a track is accepted exactly where it is without fault, its
/// album is there and no track of that album stands at the order asked for.
/// Else it is refused with status 400 for its own faults, with 404 for a
/// missing album, and with 409 for a taken order, in this sequence.
pub proof fn law_which_track_requests_are_accepted(
    store: StoreView,
    album_id: Seq<char>,
    req: TrackRequestView,
)
    requires
        store.tracks.dom().finite(),
    ensures
        ({
            let faultless = has_text(req.title) && req.duration_ms >= 0 && (req.order is None
                || req.order->0 >= 0);
            let taken = req.order is Some && exists|id: Seq<char>| #[trigger]
                belongs(store, id, album_id) && store.tracks[id].order == req.order->0;
            let refusal = store.track_refusal(album_id, req);
            &&& refusal is None <==> faultless && store.albums.contains_key(album_id) && !taken
            &&& !faultless ==> status_number(refusal->0.status) == 400 && refusal->0.code
                == ApiErrorCode::BadRequest && Some(refusal->0.message) == track_fault(req)
                && refusal->0.details is None
            &&& faultless && !store.albums.contains_key(album_id) ==> status_number(
                refusal->0.status,
            ) == 404 && refusal->0.code == ApiErrorCode::NotFound && refusal->0.message
                == "album not found"@ && refusal->0.details is None
            &&& faultless && store.albums.contains_key(album_id) && taken ==> status_number(
                refusal->0.status,
            ) == 409 && refusal->0.code == ApiErrorCode::Conflict && refusal->0.message
                == order_taken_message(req.order->0 as int) && refusal->0.details is None
        }),
{
    law_faults_of_track_requests(req);
    law_where_a_track_goes(store, album_id, 0);
    let order = store.assigned_order(album_id, req.order);
    assert forall|id: Seq<char>| #[trigger] belongs(store, id, album_id) == store.in_album(
        id,
        album_id,
    ) by {}
    if store.order_taken(album_id, order) {
        let id = choose|id: Seq<char>| #[trigger]
            store.in_album(id, album_id) && store.tracks[id].order == order;
        assert(belongs(store, id, album_id));
    }
    if req.order is Some && exists|id: Seq<char>| #[trigger]
        belongs(store, id, album_id) && store.tracks[id].order == req.order->0 {
        let id = choose|id: Seq<char>| #[trigger]
            belongs(store, id, album_id) && store.tracks[id].order == req.order->0;
        assert(store.in_album(id, album_id));
    }
}

/// The message on a taken order names the order in decimal.
pub proof fn law_message_on_a_taken_order(order: nat)
    ensures
        ({
            let message = order_taken_message(order as int);
            let end = message.len() - 24;
            &&& message.len() > 30
            &&& message.take(6) == "order "@
            &&& parsed_unsigned(message.subrange(6, end), order) == Some(order)
            &&& message.subrange(6, end)[0] != '+'
            &&& message.skip(end) == " already exists in album"@
        }),
{
    reveal_strlit("order ");
    reveal_strlit(" already exists in album");
    law_decimal_text_spells_the_number(order);
    let message = order_taken_message(order as int);
    let end = message.len() - 24;
    assert(message.take(6) =~= "order "@);
    assert(message.subrange(6, end) =~= decimal_text(order));
    assert(message.skip(end) =~= " already exists in album"@);
}

/// Only an album whose last track stands at the highest order that there is
/// has no room, and only for a track that asks for no order.
pub proof fn law_room(store: StoreView, album_id: Seq<char>, req: TrackRequestView)
    requires
        store.tracks.dom().finite(),
    ensures
        !store.has_room(album_id, req) <==> {
            &&& has_text(req.title)
            &&& req.duration_ms >= 0
            &&& req.order is None
            &&& store.albums.contains_key(album_id)
            &&& exists|id: Seq<char>| #[trigger]
                belongs(store, id, album_id) && store.tracks[id].order == i32::MAX
        },
{
    law_faults_of_track_requests(req);
    law_where_a_track_goes(store, album_id, 0);
}

/// A track that was created, as it is answered and as it is read back under
/// its id, has the album, the title and the duration that were asked for,
/// stands at its order, and has no file yet.
pub proof fn law_created_track_is_as_requested(
    store: StoreView,
    album_id: Seq<char>,
    order: i32,
    req: TrackRequestView,
    id: Seq<char>,
)
    ensures
        ({
            let answered = requested_track(id, album_id, order, req);
            let after = store.with_track(answered);
            let read = after.tracks[id];
            &&& answered.id == id
            &&& answered.album_id == album_id
            &&& answered.title == req.title
            &&& answered.order == order
            &&& answered.duration_ms == req.duration_ms
            &&& answered.file is None
            &&& after.tracks.contains_key(id)
            &&& read.id == id
            &&& read.album_id == album_id
            &&& read.title == req.title
            &&& read.order == order
            &&& read.duration_ms == req.duration_ms
            &&& read.file is None
            &&& read.audio_url == answered.audio_url
            &&& answered.audio_url == audio_url_of(id)
        }),
{
}

/// A request for a free order in an album that is there is accepted, and the
/// new track stands at that order, 0 among them.
pub proof fn law_free_order_is_given(
    store: StoreView,
    album_id: Seq<char>,
    req: TrackRequestView,
    asked: i32,
    id: Seq<char>,
)
    requires
        store.tracks.dom().finite(),
        has_text(req.title),
        req.duration_ms >= 0,
        req.order == Some(asked),
        asked >= 0,
        store.albums.contains_key(album_id),
        forall|other: Seq<char>| #[trigger]
            belongs(store, other, album_id) ==> store.tracks[other].order != asked,
    ensures
        store.has_room(album_id, req),
        store.track_refusal(album_id, req) is None,
        store.with_track(
            requested_track(
                id,
                album_id,
                store.assigned_order(album_id, req.order) as i32,
                req,
            ),
        ).tracks[id].order == asked,
{
    law_which_track_requests_are_accepted(store, album_id, req);
    law_room(store, album_id, req);
}

/// The audio of a track is at `/tracks/`, its id and `/file`, so that two
/// tracks have different URLs.
pub proof fn law_audio_urls(a: Seq<char>, b: Seq<char>)
    ensures
        audio_url_of(a).len() == a.len() + 13,
        audio_url_of(a).take(8) == "/tracks/"@,
        audio_url_of(a).subrange(8, a.len() as int + 8) == a,
        audio_url_of(a).skip(a.len() as int + 8) == "/file"@,
        a != b ==> audio_url_of(a) != audio_url_of(b),
{
    reveal_strlit("/tracks/");
    reveal_strlit("/file");
    assert(audio_url_of(a).take(8) =~= "/tracks/"@);
    assert(audio_url_of(a).subrange(8, a.len() as int + 8) =~= a);
    assert(audio_url_of(b).subrange(8, b.len() as int + 8) =~= b);
    assert(audio_url_of(a).skip(a.len() as int + 8) =~= "/file"@);
    if audio_url_of(a) == audio_url_of(b) {
        assert(a.len() == b.len());
        assert(a =~= b);
    }
}

/// A listing of an album's tracks holds each of them and nothing else, and
/// lower orders come first.
pub proof fn law_listing_of_tracks(
    store: StoreView,
    album_id: Seq<char>,
    out: Seq<TrackView>,
    i: int,
    j: int,
)
    requires
        store.lists_tracks(album_id, out),
    ensures
        forall|id: Seq<char>| #[trigger]
            belongs(store, id, album_id) ==> out.contains(store.tracks[id]),
        forall|x: int|
            0 <= x < out.len() ==> belongs(store, (#[trigger] out[x]).id, album_id)
                && store.tracks[out[x].id] == out[x],
        0 <= i < j < out.len() ==> out[i].order < out[j].order,
{
    assert forall|id: Seq<char>| #[trigger] belongs(store, id, album_id) implies out.contains(
        store.tracks[id],
    ) by {
        assert(store.in_album(id, album_id));
    }
    assert forall|x: int| 0 <= x < out.len() implies belongs(store, (#[trigger] out[x]).id, album_id)
        && store.tracks[out[x].id] == out[x] by {
        assert(store.in_album(out[x].id, album_id));
    }
}

/// What a store keeps to, said of its records: each album and each track is
/// under its own id and as the requests for them must be, each track belongs
/// to an album that is there, and no two tracks of an album stand at one
/// order.
pub proof fn law_valid_stores(store: StoreView)
    ensures
        store.valid() <==> {
            &&& store.albums.dom().finite()
            &&& store.tracks.dom().finite()
            &&& forall|id: Seq<char>| #[trigger]
                store.albums.contains_key(id) ==> store.albums[id].id == id && has_text(
                    store.albums[id].title,
                ) && has_text(store.albums[id].artist) && store.albums[id].price_cents >= 0
            &&& forall|id: Seq<char>| #[trigger]
                store.tracks.contains_key(id) ==> store.tracks[id].id == id
                    && store.albums.contains_key(store.tracks[id].album_id) && has_text(
                    store.tracks[id].title,
                ) && store.tracks[id].order >= 0 && store.tracks[id].duration_ms >= 0
                    && store.tracks[id].audio_url == audio_url_of(id)
            &&& forall|a: Seq<char>, b: Seq<char>|
                (#[trigger] store.tracks.contains_key(a)) && (#[trigger] store.tracks.contains_key(b))
                    && a != b && store.tracks[a].album_id == store.tracks[b].album_id
                    ==> store.tracks[a].order != store.tracks[b].order
        },
{
}

// Settings.

/// A setting that is there holds as it is, however long it is, and else the
/// default does.
pub proof fn law_settings(value: Seq<char>, default: Seq<char>)
    ensures
        set_or(Some(value), default) == value,
        set_or(None, default) == default,
{
}

/// A setting that spells a number within the limit stands for it, and else the
/// default holds.
pub proof fn law_numeric_settings(value: Seq<char>, max: nat, default: nat)
    ensures
        parsed_unsigned(value, max) matches Some(n) ==> number_or(Some(value), max, default) == n,
        parsed_unsigned(value, max) is None ==> number_or(Some(value), max, default) == default,
        number_or(None, max, default) == default,
{
}

/// Uploads may have 25 MiB of audio and requests 1 KiB more, and the service
/// listens on port 8085, unless settings say otherwise.
pub proof fn law_defaults()
    ensures
        DEFAULT_MAX_AUDIO_BYTES == 26_214_400,
        FORM_OVERHEAD_BYTES == 1024,
        DEFAULT_PORT == 8085,
{
}

} // verus!
