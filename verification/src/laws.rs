//! What holds of albums, tracks and refusals as a whole.

use vstd::prelude::*;

use crate::download::served_type;
use crate::error::{status_number, status_of, ApiErrorCode, Status};
use crate::model::{AlbumRequestView, AlbumView, FileMetaView, TrackRequestView, TrackView};
use crate::store::{album_fault, requested_album, requested_track, track_fault, StoreView};
use crate::text::{
    lemma_text_le_antisymmetric, lemma_text_le_total, lemma_text_le_transitive, text_le,
};

verus! {

// Albums and tracks.

/// An album that was created is there under its id, every listing shows it,
/// and no other album and no track has changed.
pub proof fn law_created_album_is_read_back(
    store: StoreView,
    req: AlbumRequestView,
    id: Seq<char>,
)
    ensures
        ({
            let album = requested_album(id, req);
            let after = store.with_album(album);
            &&& after.albums.contains_key(id)
            &&& after.albums[id] == album
            &&& forall|other: Seq<char>|
                other != id ==> (#[trigger] after.albums.contains_key(other)
                    == store.albums.contains_key(other)) && after.albums[other]
                    == store.albums[other]
            &&& after.tracks == store.tracks
            &&& forall|out: Seq<AlbumView>| #[trigger]
                after.lists_albums(out) ==> out.contains(album)
        }),
{
    let album = requested_album(id, req);
    let after = store.with_album(album);
    assert forall|out: Seq<AlbumView>| #[trigger] after.lists_albums(out) implies out.contains(
        album,
    ) by {
        assert(after.albums.contains_key(id));
    }
}

/// A track that was created is there under its id, every listing of its album
/// shows it, and no other track and no album has changed.
pub proof fn law_created_track_is_read_back(
    store: StoreView,
    album_id: Seq<char>,
    order: i32,
    req: TrackRequestView,
    id: Seq<char>,
)
    ensures
        ({
            let track = requested_track(id, album_id, order, req);
            let after = store.with_track(track);
            &&& after.tracks.contains_key(id)
            &&& after.tracks[id] == track
            &&& forall|other: Seq<char>|
                other != id ==> (#[trigger] after.tracks.contains_key(other)
                    == store.tracks.contains_key(other)) && after.tracks[other]
                    == store.tracks[other]
            &&& after.albums == store.albums
            &&& forall|out: Seq<TrackView>| #[trigger]
                after.lists_tracks(album_id, out) ==> out.contains(track)
        }),
{
    let track = requested_track(id, album_id, order, req);
    let after = store.with_track(track);
    assert forall|out: Seq<TrackView>| #[trigger]
        after.lists_tracks(album_id, out) implies out.contains(track) by {
        assert(after.in_album(id, album_id));
    }
}

/// The store after a request for a track, for which the id `id` was drawn.
pub open spec fn after_track_request(
    store: StoreView,
    album_id: Seq<char>,
    req: TrackRequestView,
    id: Seq<char>,
) -> StoreView {
    match store.track_refusal(album_id, req) {
        Some(_) => store,
        None => store.with_track(
            requested_track(id, album_id, store.assigned_order(album_id, req.order) as i32, req),
        ),
    }
}

/// A request for a track changes no album, and no track that was there: none
/// is changed, removed or put at another order. Where the request is refused,
/// no track is added, and else the one that was asked for.
pub proof fn law_track_request_changes_no_other(
    store: StoreView,
    album_id: Seq<char>,
    req: TrackRequestView,
    id: Seq<char>,
)
    requires
        !store.tracks.contains_key(id),
    ensures
        ({
            let after = after_track_request(store, album_id, req, id);
            &&& after.albums == store.albums
            &&& forall|other: Seq<char>| #[trigger]
                store.tracks.contains_key(other) ==> other != id && after.tracks.contains_key(other)
                    && after.tracks[other] == store.tracks[other]
            &&& store.track_refusal(album_id, req) is Some ==> after.tracks == store.tracks
            &&& store.track_refusal(album_id, req) is None ==> after.tracks == store.tracks.insert(
                id,
                after.tracks[id],
            ) && after.tracks.remove(id) == store.tracks && after.tracks[id].id == id
        }),
{
    let after = after_track_request(store, album_id, req, id);
    if store.track_refusal(album_id, req) is None {
        assert(after.tracks =~= store.tracks.insert(id, after.tracks[id]));
        assert(after.tracks.remove(id) =~= store.tracks);
    }
}

/// Two listings of the albums hold the same albums: only the order of albums
/// with one title is open.
pub proof fn law_album_listings_hold_the_same(
    store: StoreView,
    a: Seq<AlbumView>,
    b: Seq<AlbumView>,
)
    requires
        store.lists_albums(a),
        store.lists_albums(b),
    ensures
        a.len() == b.len(),
        a.to_multiset() == b.to_multiset(),
        forall|i: int| 0 <= i < a.len() ==> (#[trigger] a[i]).title == b[i].title,
{
    assert forall|x: AlbumView| a.contains(x) == b.contains(x) by {
        if a.contains(x) {
            assert(store.albums.contains_key(x.id));
        }
        if b.contains(x) {
            assert(store.albums.contains_key(x.id));
        }
    }
    assert(a.to_set() =~= b.to_set());
    a.unique_seq_to_set();
    b.unique_seq_to_set();
    a.lemma_multiset_has_no_duplicates();
    b.lemma_multiset_has_no_duplicates();
    broadcast use vstd::seq_lib::group_to_multiset_ensures;
    assert(a.to_multiset() =~= b.to_multiset());
    let title = |album: AlbumView| album.title;
    let leq = |x: Seq<char>, y: Seq<char>| text_le(x, y);
    lemma_map_multiset(a, b, title);
    assert(vstd::relations::total_ordering(leq)) by {
        assert forall|x: Seq<char>| #[trigger] leq(x, x) by {
            lemma_text_le_total(x, x);
        }
        assert forall|x: Seq<char>, y: Seq<char>| #[trigger] leq(x, y) && #[trigger] leq(y, x) implies x
            == y by {
            lemma_text_le_antisymmetric(x, y);
        }
        assert forall|x: Seq<char>, y: Seq<char>, z: Seq<char>| #[trigger]
            leq(x, y) && #[trigger] leq(y, z) implies leq(x, z) by {
            lemma_text_le_transitive(x, y, z);
        }
        assert forall|x: Seq<char>, y: Seq<char>| #[trigger] leq(x, y) || #[trigger] leq(y, x) by {
            lemma_text_le_total(x, y);
        }
    }
    vstd::seq_lib::lemma_sorted_unique(a.map_values(title), b.map_values(title), leq);
    assert forall|i: int| 0 <= i < a.len() implies (#[trigger] a[i]).title == b[i].title by {
        assert(a.map_values(title)[i] == b.map_values(title)[i]);
    }
}

/// Sequences of the same items have the same images.
proof fn lemma_map_multiset<A, B>(a: Seq<A>, b: Seq<A>, f: spec_fn(A) -> B)
    requires
        a.to_multiset() == b.to_multiset(),
    ensures
        a.map_values(f).to_multiset() == b.map_values(f).to_multiset(),
    decreases a.len(),
{
    broadcast use vstd::seq_lib::group_to_multiset_ensures;

    assert(a.len() == a.to_multiset().len() && b.len() == b.to_multiset().len());
    if a.len() == 0 {
        assert(a.map_values(f) =~= b.map_values(f));
    } else {
        let x = a.last();
        assert(a.contains(x));
        assert(b.to_multiset().count(x) > 0);
        assert(b.contains(x));
        let i = choose|i: int| 0 <= i < b.len() && b[i] == x;
        assert(a.drop_last() =~= a.remove(a.len() - 1));
        lemma_map_multiset(a.drop_last(), b.remove(i), f);
        let ta = a.map_values(f);
        let tb = b.map_values(f);
        assert(a.drop_last().map_values(f) =~= ta.remove(ta.len() - 1));
        assert(b.remove(i).map_values(f) =~= tb.remove(i));
        assert(ta[ta.len() - 1] == f(x) && tb[i] == f(x));
        assert(ta.contains(f(x)) && tb.contains(f(x)));
        assert(ta.to_multiset() =~= ta.to_multiset().remove(f(x)).insert(f(x)));
        assert(tb.to_multiset() =~= tb.to_multiset().remove(f(x)).insert(f(x)));
    }
}

/// The listing of an album's tracks leaves nothing open: there is one only.
pub proof fn law_track_listing_is_unique(
    store: StoreView,
    album_id: Seq<char>,
    a: Seq<TrackView>,
    b: Seq<TrackView>,
)
    requires
        store.lists_tracks(album_id, a),
        store.lists_tracks(album_id, b),
    ensures
        a == b,
{
    assert forall|i: int| 0 <= i < a.len() implies b.contains(#[trigger] a[i]) by {
        assert(store.in_album(a[i].id, album_id));
    }
    assert forall|i: int| 0 <= i < b.len() implies a.contains(#[trigger] b[i]) by {
        assert(store.in_album(b[i].id, album_id));
    }
    lemma_ascending_equal(a, b);
}

spec fn ascending(s: Seq<TrackView>) -> bool {
    forall|i: int, j: int| 0 <= i < j < s.len() ==> (#[trigger] s[i]).order < (#[trigger] s[j]).order
}

/// Two ascending sequences of the same tracks are equal.
proof fn lemma_ascending_equal(a: Seq<TrackView>, b: Seq<TrackView>)
    requires
        ascending(a),
        ascending(b),
        forall|i: int| 0 <= i < a.len() ==> b.contains(#[trigger] a[i]),
        forall|i: int| 0 <= i < b.len() ==> a.contains(#[trigger] b[i]),
    ensures
        a == b,
    decreases a.len(),
{
    if a.len() == 0 || b.len() == 0 {
        if b.len() > 0 {
            assert(a.contains(b[0]));
        }
        if a.len() > 0 {
            assert(b.contains(a[0]));
        }
        assert(a =~= b);
    } else {
        let p = a.drop_last();
        let q = b.drop_last();
        assert(b.contains(a[a.len() - 1]));
        assert(a.contains(b[b.len() - 1]));
        let x = choose|x: int| 0 <= x < b.len() && b[x] == a.last();
        let y = choose|y: int| 0 <= y < a.len() && a[y] == b.last();
        assert(x == b.len() - 1) by {
            if x < b.len() - 1 {
                assert(b[x].order < b[b.len() - 1].order);
                if y < a.len() - 1 {
                    assert(a[y].order < a[a.len() - 1].order);
                }
            }
        }
        assert forall|i: int| 0 <= i < p.len() implies q.contains(#[trigger] p[i]) by {
            assert(b.contains(a[i]));
            let k = choose|k: int| 0 <= k < b.len() && b[k] == a[i];
            assert(a[i].order < a[a.len() - 1].order);
            assert(q[k] == p[i]);
        }
        assert forall|i: int| 0 <= i < q.len() implies p.contains(#[trigger] q[i]) by {
            assert(a.contains(b[i]));
            let k = choose|k: int| 0 <= k < a.len() && a[k] == b[i];
            assert(b[i].order < b[b.len() - 1].order);
            assert(p[k] == q[i]);
        }
        lemma_ascending_equal(p, q);
        assert(a =~= p.push(a.last()));
        assert(b =~= q.push(b.last()));
    }
}

/// An album has a last order exactly where it has tracks.
pub proof fn law_last_order_where_there_are_tracks(store: StoreView, album_id: Seq<char>)
    requires
        store.tracks.dom().finite(),
    ensures
        store.last_order(album_id) is Some <==> exists|id: Seq<char>|
            store.in_album(id, album_id),
        store.last_order(album_id) matches Some(last) ==> store.is_last_order(album_id, last),
{
    if exists|id: Seq<char>| store.in_album(id, album_id) {
        let id = choose|id: Seq<char>| store.in_album(id, album_id);
        let top = lemma_highest_of(store, album_id, store.tracks.dom(), id);
        assert(store.is_last_order(album_id, store.tracks[top].order));
    }
    if let Some(last) = store.last_order(album_id) {
        assert(store.is_last_order(album_id, last));
    }
}

/// Among finitely many tracks of an album one stands highest.
proof fn lemma_highest_of(
    store: StoreView,
    album_id: Seq<char>,
    ids: Set<Seq<char>>,
    first: Seq<char>,
) -> (top: Seq<char>)
    requires
        ids.finite(),
        ids.contains(first),
        store.in_album(first, album_id),
    ensures
        ids.contains(top),
        store.in_album(top, album_id),
        forall|id: Seq<char>| #[trigger]
            store.in_album(id, album_id) && ids.contains(id) ==> store.tracks[id].order
                <= store.tracks[top].order,
    decreases ids.len(),
{
    let rest = ids.remove(first);
    if exists|id: Seq<char>| #[trigger] store.in_album(id, album_id) && rest.contains(id) {
        let next = choose|id: Seq<char>| #[trigger]
            store.in_album(id, album_id) && rest.contains(id);
        let top = lemma_highest_of(store, album_id, rest, next);
        if store.tracks[first].order >= store.tracks[top].order {
            first
        } else {
            top
        }
    } else {
        first
    }
}

/// A track that asks for no order goes behind all the others of its album, at
/// 0 where there are none, and so never meets a taken order.
pub proof fn law_track_without_order_goes_last(store: StoreView, album_id: Seq<char>)
    requires
        store.valid(),
    ensures
        ({
            let order = store.assigned_order(album_id, None);
            &&& order >= 0
            &&& forall|id: Seq<char>| #[trigger]
                store.in_album(id, album_id) ==> store.tracks[id].order < order
            &&& !store.order_taken(album_id, order)
            &&& (forall|id: Seq<char>| !store.in_album(id, album_id)) ==> order == 0
        }),
{
    law_last_order_where_there_are_tracks(store, album_id);
    if let Some(last) = store.last_order(album_id) {
        let id = choose|id: Seq<char>| #[trigger]
            store.in_album(id, album_id) && store.tracks[id].order == last;
        assert(store.tracks.contains_key(id));
        assert(store.valid_track(id));
    }
}

/// A well-formed request for a track of an album that is there is refused
/// only for an order that is taken, and never where it asks for none.
pub proof fn law_only_taken_orders_are_refused(
    store: StoreView,
    album_id: Seq<char>,
    req: TrackRequestView,
)
    requires
        store.valid(),
        track_fault(req) is None,
        store.albums.contains_key(album_id),
    ensures
        store.track_refusal(album_id, req) is Some <==> req.order is Some && store.order_taken(
            album_id,
            req.order->0 as int,
        ),
        store.track_refusal(album_id, req) matches Some(e) ==> e.status == Status::Conflict,
{
    law_track_without_order_goes_last(store, album_id);
}

/// Creating an album keeps a store valid.
pub proof fn law_albums_keep_the_store_valid(
    store: StoreView,
    req: AlbumRequestView,
    id: Seq<char>,
)
    requires
        store.valid(),
        album_fault(req) is None,
    ensures
        store.with_album(requested_album(id, req)).valid(),
{
}

/// Creating a track keeps a store valid: above all, no two tracks of an album
/// come to share an order.
pub proof fn law_tracks_keep_the_store_valid(
    store: StoreView,
    album_id: Seq<char>,
    req: TrackRequestView,
    id: Seq<char>,
)
    requires
        store.valid(),
        store.has_room(album_id, req),
        store.track_refusal(album_id, req) is None,
    ensures
        ({
            let order = store.assigned_order(album_id, req.order) as i32;
            store.with_track(requested_track(id, album_id, order, req)).valid()
        }),
{
    law_track_without_order_goes_last(store, album_id);
    let order = store.assigned_order(album_id, req.order) as i32;
    store.lemma_with_track_valid(requested_track(id, album_id, order, req));
}

/// Noting an uploaded file changes nothing but that track's file, and the
/// track's audio is then served with the type that was uploaded.
pub proof fn law_uploaded_type_is_served(store: StoreView, id: Seq<char>, file: FileMetaView)
    requires
        store.valid(),
        store.tracks.contains_key(id),
    ensures
        ({
            let after = store.with_track(store.tracks[id].with_file(file));
            &&& after.valid()
            &&& after.albums == store.albums
            &&& after.tracks.dom() == store.tracks.dom()
            &&& forall|other: Seq<char>|
                other != id ==> #[trigger] after.tracks[other] == store.tracks[other]
            &&& after.tracks[id] == (TrackView { file: Some(file), ..store.tracks[id] })
            &&& served_type(after.tracks[id]) == file.content_type
        }),
{
    let after = store.with_track(store.tracks[id].with_file(file));
    assert(store.valid_track(id));
    assert(after.tracks.dom() =~= store.tracks.dom());
}

// Errors.

/// The status of a refusal tells its error code.
pub proof fn law_status_tells_the_error(a: ApiErrorCode, b: ApiErrorCode)
    requires
        status_number(status_of(a)) == status_number(status_of(b)),
    ensures
        a == b,
{
}

/// Every refusal is answered with a client or a server error.
pub proof fn law_refusals_are_errors(code: ApiErrorCode)
    ensures
        400 <= status_number(status_of(code)) < 600,
{
}

} // verus!
