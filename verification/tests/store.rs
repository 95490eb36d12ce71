use music_backend::error::{ApiError, ApiErrorCode, Status};
use music_backend::model::{Album, CreateAlbumRequest, CreateTrackRequest, FileMeta, Track};
use music_backend::store::{audio_url, Store};
use music_backend::table::Table;

fn album_request(title: &str, artist: &str, price_cents: i64) -> CreateAlbumRequest {
    CreateAlbumRequest {
        title: title.to_string(),
        artist: artist.to_string(),
        price_cents,
        currency: "USD".to_string(),
    }
}

fn track_request(title: &str, order: Option<i32>, duration_ms: i64) -> CreateTrackRequest {
    CreateTrackRequest { title: title.to_string(), order, duration_ms }
}

fn store_with_album(id: &str) -> Store {
    let mut store = Store::new();
    store.create_album_with_id(album_request("Album Title", "Artist Name", 499), id.to_string()).unwrap();
    store
}

fn refused(error: ApiError, code: ApiErrorCode, status: u16, message: &str) {
    assert_eq!(error.code, code);
    assert_eq!(error.status.number(), status);
    assert_eq!(error.message, message);
    assert_eq!(error.details, None);
}

fn looks_like_uuid_v4(id: &str) -> bool {
    let chars: Vec<char> = id.chars().collect();
    chars.len() == 36
        && chars.iter().enumerate().all(|(i, c)| match i {
            8 | 13 | 18 | 23 => *c == '-',
            14 => *c == '4',
            19 => "89ab".contains(*c),
            _ => c.is_ascii_digit() || ('a'..='f').contains(c),
        })
}

fn listed(store: &Store, album: &str) -> Vec<(String, i32)> {
    let tracks: Vec<Track> = store.list_tracks_for_album(album).unwrap().body;
    tracks.into_iter().map(|t| (t.title, t.order)).collect()
}

#[test]
fn created_album_is_read_back() {
    let mut store = Store::new();
    let reply = store.create_album(album_request("Album Title", "Artist Name", 499)).unwrap();
    assert_eq!(reply.status, Status::Created);
    let album: Album = reply.body;
    assert!(looks_like_uuid_v4(&album.id));
    assert_eq!(album.title, "Album Title");
    assert_eq!(album.artist, "Artist Name");
    assert_eq!(album.price_cents, 499);
    assert_eq!(album.currency, "USD");
    let read = store.get_album(&album.id).unwrap();
    assert_eq!(read.status, Status::Success);
    assert_eq!(read.body.id, album.id);
    assert_eq!(read.body.title, "Album Title");
    let list = store.list_albums();
    assert_eq!(list.status, Status::Success);
    assert_eq!(list.body.len(), 1);
    assert_eq!(list.body[0].id, album.id);
}

#[test]
fn new_ids_differ() {
    let mut store = Store::new();
    let a = store.create_album(album_request("a", "x", 0)).unwrap().body.id;
    let b = store.create_album(album_request("b", "x", 0)).unwrap().body.id;
    assert_ne!(a, b);
}

#[test]
fn faulty_albums_are_refused() {
    let mut store = Store::new();
    for (title, artist) in [("", "x"), ("x", ""), (" \t", "x"), ("x", "\u{2003}")] {
        let e = store.create_album(album_request(title, artist, -1)).unwrap_err();
        refused(e, ApiErrorCode::BadRequest, 400, "title and artist are required");
    }
    let e = store.create_album(album_request("x", "y", -1)).unwrap_err();
    refused(e, ApiErrorCode::BadRequest, 400, "price_cents must be >= 0");
    assert!(store.create_album(album_request("x", "y", 0)).is_ok());
    assert_eq!(store.list_albums().body.len(), 1);
}

#[test]
fn albums_are_listed_by_title() {
    let mut store = Store::new();
    for title in ["b", "a", "", "c", "B", "a", "\u{e9}"] {
        let _ = store.create_album(album_request(title, "x", 0));
    }
    let titles: Vec<String> = store.list_albums().body.into_iter().map(|a| a.title).collect();
    assert_eq!(titles, vec!["B", "a", "a", "b", "c", "\u{e9}"]);
}

#[test]
fn unknown_album_is_not_found() {
    let store = Store::new();
    refused(store.get_album("x").unwrap_err(), ApiErrorCode::NotFound, 404, "album not found");
    let e = store.list_tracks_for_album("x").unwrap_err();
    refused(e, ApiErrorCode::NotFound, 404, "album not found");
}

#[test]
fn same_id_replaces_the_album() {
    let mut store = store_with_album("a");
    store.create_album_with_id(album_request("Other", "y", 1), "a".to_string()).unwrap();
    assert_eq!(store.list_albums().body.len(), 1);
    assert_eq!(store.get_album("a").unwrap().body.title, "Other");
}

#[test]
fn created_track_is_read_back() {
    let mut store = store_with_album("a");
    let reply = store.create_track_metadata("a", track_request("Track Title", None, 210000)).unwrap();
    assert_eq!(reply.status, Status::Created);
    let track = reply.body;
    assert!(looks_like_uuid_v4(&track.id));
    assert_eq!(track.album_id, "a");
    assert_eq!(track.title, "Track Title");
    assert_eq!(track.order, 0);
    assert_eq!(track.duration_ms, 210000);
    assert_eq!(track.audio_url, format!("/tracks/{}/file", track.id));
    assert!(track.file.is_none());
    let read = store.get_track(&track.id).unwrap();
    assert_eq!(read.status, Status::Success);
    assert_eq!(read.body.title, "Track Title");
    assert_eq!(listed(&store, "a"), vec![("Track Title".to_string(), 0)]);
}

#[test]
fn audio_urls() {
    assert_eq!(audio_url("7"), "/tracks/7/file");
}

#[test]
fn faulty_tracks_are_refused() {
    let mut store = Store::new();
    let e = store.create_track_metadata("a", track_request("  ", Some(-1), -1)).unwrap_err();
    refused(e, ApiErrorCode::BadRequest, 400, "title is required");
    let e = store.create_track_metadata("a", track_request("t", Some(-1), -1)).unwrap_err();
    refused(e, ApiErrorCode::BadRequest, 400, "duration_ms must be >= 0");
    let e = store.create_track_metadata("a", track_request("t", Some(-1), 0)).unwrap_err();
    refused(e, ApiErrorCode::BadRequest, 400, "order must be >= 0");
    let e = store.create_track_metadata("a", track_request("t", Some(1), 0)).unwrap_err();
    refused(e, ApiErrorCode::NotFound, 404, "album not found");
}

#[test]
fn tracks_without_order_go_last() {
    let mut store = store_with_album("a");
    store.create_album_with_id(album_request("Other", "y", 1), "b".to_string()).unwrap();
    for (title, order) in [("t0", None), ("t1", None), ("t7", Some(7)), ("t8", None), ("t3", Some(3))] {
        store.create_track_metadata("a", track_request(title, order, 1)).unwrap();
    }
    store.create_track_metadata("b", track_request("u0", None, 1)).unwrap();
    let expected: Vec<(String, i32)> =
        vec![("t0", 0), ("t1", 1), ("t3", 3), ("t7", 7), ("t8", 8)]
            .into_iter()
            .map(|(t, o)| (t.to_string(), o))
            .collect();
    assert_eq!(listed(&store, "a"), expected);
    assert_eq!(listed(&store, "b"), vec![("u0".to_string(), 0)]);
}

#[test]
fn taken_orders_conflict() {
    let mut store = store_with_album("a");
    store.create_track_metadata("a", track_request("t", Some(12), 1)).unwrap();
    let e = store.create_track_metadata("a", track_request("u", Some(12), 1)).unwrap_err();
    refused(e, ApiErrorCode::Conflict, 409, "order 12 already exists in album");
    assert_eq!(listed(&store, "a"), vec![("t".to_string(), 12)]);
}

#[test]
fn room_ends_at_the_highest_order() {
    let mut store = store_with_album("a");
    assert!(store.has_room("a", &track_request("t", None, 1)));
    store.create_track_metadata("a", track_request("t", Some(i32::MAX), 1)).unwrap();
    assert!(!store.has_room("a", &track_request("t", None, 1)));
    assert!(store.has_room("a", &track_request("t", Some(5), 1)));
    assert!(store.has_room("a", &track_request("", None, 1)));
    assert!(store.has_room("b", &track_request("t", None, 1)));
}

#[test]
fn uploaded_file_is_noted_on_its_track_alone() {
    let mut store = store_with_album("a");
    store
        .create_track_metadata_with_id("a", track_request("t", None, 1), "x".to_string())
        .unwrap();
    store
        .create_track_metadata_with_id("a", track_request("u", None, 1), "y".to_string())
        .unwrap();
    let file = FileMeta { filename: "s.mp3".to_string(), content_type: "audio/mpeg".to_string() };
    let reply = store.set_track_file("x", file).unwrap();
    assert_eq!(reply.status, Status::Success);
    assert_eq!(reply.body.title, "t");
    let noted = store.get_track("x").unwrap().body.file.unwrap();
    assert_eq!(noted.filename, "s.mp3");
    assert_eq!(noted.content_type, "audio/mpeg");
    assert!(store.get_track("y").unwrap().body.file.is_none());
    assert_eq!(listed(&store, "a"), vec![("t".to_string(), 0), ("u".to_string(), 1)]);
    let file = FileMeta { filename: "s".to_string(), content_type: "t".to_string() };
    let e = store.set_track_file("z", file).unwrap_err();
    refused(e, ApiErrorCode::NotFound, 404, "track not found");
    refused(store.get_track("z").unwrap_err(), ApiErrorCode::NotFound, 404, "track not found");
}

#[test]
fn tables_keep_the_order_of_their_keys() {
    let mut table: Table<u32> = Table::new();
    assert_eq!(table.len(), 0);
    table.insert("b".to_string(), 1);
    table.insert("a".to_string(), 2);
    table.insert("b".to_string(), 3);
    assert_eq!(table.len(), 2);
    assert_eq!(*table.row(0), 3);
    assert_eq!(*table.row(1), 2);
    assert_eq!(table.get("a"), Some(&2));
    assert_eq!(table.get("c"), None);
    assert!(table.contains_key("b"));
    assert!(!table.contains_key("c"));
}
