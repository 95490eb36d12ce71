//! What holds of uploads and downloads from their first step to their last.
//!
//! An upload or a download is followed through the events that answer its
//! steps. What the steps do to the files of a track's directory is stated for
//! a directory that nothing else touches meanwhile.

use vstd::prelude::*;

use crate::download::{new_download, served_type, DownloadEventView, DownloadStepView, DownloadView};
use crate::error::{plain_error, status_number, ApiErrorCode, ErrorView};
use crate::files::{audio_file_name_of, joined, lemma_audio_file_name, names_audio, temp_name_of};
use crate::laws::law_uploaded_type_is_served;
use crate::model::{FileMetaView, TrackView};
use crate::scan::{scan_refusal, scan_report, scanner_missing, utf8_lossy, ScanExitView};
use crate::store::StoreView;
use crate::text::{blank, white_space};
use crate::upload::{
    field_missing, new_upload, said_or, too_large, FieldView, UploadEventView, UploadStepView,
    UploadView,
};

verus! {

// Uploads.

/// An upload after a sequence of events.
pub open spec fn upload_after(u: UploadView, events: Seq<UploadEventView>) -> UploadView
    decreases events.len(),
{
    if events.len() == 0 {
        u
    } else {
        upload_after(u, events.drop_last()).after(events.last())
    }
}

/// Every event answers the step that is due when it comes.
pub open spec fn upload_takes(u: UploadView, events: Seq<UploadEventView>) -> bool
    decreases events.len(),
{
    events.len() > 0 ==> upload_takes(u, events.drop_last()) && upload_after(
        u,
        events.drop_last(),
    ).accepts(events.last())
}

/// The audio that came in all: the bytes of the chunks, one after the other.
pub open spec fn audio_sent(events: Seq<UploadEventView>) -> Seq<u8>
    decreases events.len(),
{
    if events.len() == 0 {
        Seq::empty()
    } else {
        audio_sent(events.drop_last()) + match events.last() {
            UploadEventView::Chunk(bytes) => bytes,
            _ => Seq::empty(),
        }
    }
}

/// A scanner was found.
pub open spec fn scanner_was_found(events: Seq<UploadEventView>) -> bool {
    exists|i: int| 0 <= i < events.len() && #[trigger] events[i] == UploadEventView::ScannerFound(true)
}

/// The event at `i` is a scan that cleared the upload, it is the only scan,
/// and no more audio came after it.
pub open spec fn clean_scan_at(events: Seq<UploadEventView>, i: int) -> bool {
    &&& 0 <= i < events.len()
    &&& events[i] matches UploadEventView::ScanExited(exit)
    &&& exit.code == Some(0i32)
    &&& forall|j: int| i < j < events.len() ==> !(#[trigger] events[j] is Chunk)
    &&& forall|j: int| 0 <= j < events.len() && #[trigger] events[j] is ScanExited ==> j == i
}

/// One scan cleared the whole upload.
pub open spec fn scan_was_clean(events: Seq<UploadEventView>) -> bool {
    exists|i: int| clean_scan_at(events, i)
}

spec fn no_scan_yet(events: Seq<UploadEventView>) -> bool {
    forall|i: int| 0 <= i < events.len() ==> !(#[trigger] events[i] is ScanExited)
}

/// Each chunk that came was written before anything else was done.
pub open spec fn chunks_were_written(events: Seq<UploadEventView>) -> bool {
    forall|i: int|
        0 <= i < events.len() && #[trigger] events[i] is Chunk ==> i + 1 < events.len() && events[i + 1]
            is Succeeded
}

/// A field named `file` came.
pub open spec fn file_field_came(events: Seq<UploadEventView>) -> bool {
    exists|i: int|
        0 <= i < events.len() && (#[trigger] events[i] matches UploadEventView::Field(head)
            && head.name == Some("file"@))
}

spec fn past_scan(step: UploadStepView) -> bool {
    step is Rename || step is Record
}

/// `u` is about to remove the temporary file and refuse with `e`, or refuses
/// with `e` after the answer to that.
pub open spec fn refused_after_removal(u: UploadView, before: UploadView, e: ErrorView) -> bool {
    ||| u.step == UploadStepView::RemoveTemp(e)
    ||| u.step == UploadStepView::Reject(e) && before.step == UploadStepView::RemoveTemp(e)
}

spec fn before_scan(step: UploadStepView) -> bool {
    !past_scan(step) && !(step is Reject)
}

/// What the events so far say of an upload.
proof fn lemma_upload(track_id: Seq<char>, max_bytes: nat, events: Seq<UploadEventView>)
    requires
        upload_takes(new_upload(track_id, max_bytes), events),
    ensures
        ({
            let start = new_upload(track_id, max_bytes);
            let u = upload_after(start, events);
            &&& u.track_id == track_id
            &&& u.max_bytes == max_bytes
            &&& u.written <= max_bytes
            &&& u.found == file_field_came(events)
            &&& !blank(u.filename)
            &&& !blank(u.content_type)
            &&& u.temp_name matches Some(temp) ==> !names_audio(temp)
            &&& u.temp_name is None ==> u.step is CreateDir || u.step is NameTemp || u.step is Reject
            &&& u.step is CreateDir || u.step is NameTemp ==> u.temp_name is None
            &&& if audio_sent(events).len() <= max_bytes {
                u.written == audio_sent(events).len()
            } else {
                refused_after_removal(
                    u,
                    upload_after(start, events.drop_last()),
                    too_large(max_bytes),
                )
            }
            &&& past_scan(u.step) || u.step is RunScanner ==> scanner_was_found(events)
            &&& before_scan(u.step) ==> no_scan_yet(events)
            &&& past_scan(u.step) ==> scan_was_clean(events)
            &&& past_scan(u.step) || u.step is RunScanner || u.step is ProbeScanner
                || u.step is Flush ==> u.found
            &&& match u.step {
                UploadStepView::WriteChunk(bytes) => events.len() > 0 && events.last()
                    == UploadEventView::Chunk(bytes) && chunks_were_written(events.drop_last()),
                UploadStepView::RemoveTemp(_) | UploadStepView::Reject(_) => true,
                _ => chunks_were_written(events),
            }
        }),
    decreases events.len(),
{
    let start = new_upload(track_id, max_bytes);
    if events.len() == 0 {
        lemma_defaults_not_blank();
    } else {
        let before = events.drop_last();
        let event = events.last();
        let u = upload_after(start, before);
        lemma_upload(track_id, max_bytes, before);
        assert(events[events.len() - 1] == event);
        assert forall|i: int| 0 <= i < before.len() implies before[i] == #[trigger] events[i] by {}
        if let UploadEventView::Id(id) = event {
            lemma_temp_names_no_audio(id);
        }
        if scanner_was_found(before) {
            let i = choose|i: int|
                0 <= i < before.len() && #[trigger] before[i] == UploadEventView::ScannerFound(true);
            assert(events[i] == before[i]);
        }
        if scan_was_clean(before) {
            let i = choose|i: int| clean_scan_at(before, i);
            if !(event is Chunk) && !(event is ScanExited) {
                assert(clean_scan_at(events, i));
            }
        }
        if u.step is RunScanner && upload_after(start, events).step is Rename {
            assert(clean_scan_at(events, events.len() - 1));
        }
        if file_field_came(before) {
            let i = choose|i: int|
                0 <= i < before.len() && (#[trigger] before[i] matches UploadEventView::Field(head)
                    && head.name == Some("file"@));
            assert(events[i] == before[i]);
        }
        if let UploadStepView::WriteChunk(_) = u.step {
            assert(events[before.len() - 1] is Chunk);
            assert forall|i: int| 0 <= i < before.len() - 1 implies before.drop_last()[i]
                == #[trigger] events[i] by {}
        }
    }
}

proof fn lemma_temp_names_no_audio(id: Seq<char>)
    ensures
        !names_audio(temp_name_of(id)),
{
    reveal_strlit("audio.");
    reveal_strlit("tmp-upload-");
    let temp = temp_name_of(id);
    assert(temp[0] == 't');
    if names_audio(temp) {
        assert("audio."@[0] == temp.take("audio."@.len() as int)[0]);
    }
}

proof fn lemma_defaults_not_blank()
    ensures
        !blank("audio"@),
        !blank("application/octet-stream"@),
{
    reveal_strlit("audio");
    reveal_strlit("application/octet-stream");
    assert("audio"@[0] == 'a');
    assert(!white_space("audio"@[0]));
    assert(!white_space("application/octet-stream"@[0]));
}

/// An upload is accepted only after a scanner was found and one scan cleared
/// all of it, only where a field `file` came, only within the size limit, and
/// only where each chunk that came was written before anything else was done.
pub proof fn law_accepted_uploads_are_scanned_and_small(
    track_id: Seq<char>,
    max_bytes: nat,
    events: Seq<UploadEventView>,
)
    requires
        upload_takes(new_upload(track_id, max_bytes), events),
        ({
            let step = upload_after(new_upload(track_id, max_bytes), events).step;
            step is Rename || step is Record
        }),
    ensures
        scanner_was_found(events),
        scan_was_clean(events),
        file_field_came(events),
        audio_sent(events).len() <= max_bytes,
        chunks_were_written(events),
{
    lemma_upload(track_id, max_bytes, events);
}

/// A chunk within the limit is what is written next, as it came.
pub proof fn law_chunks_are_written_as_they_came(u: UploadView, bytes: Seq<u8>)
    requires
        u.accepts(UploadEventView::Chunk(bytes)),
        u.written + bytes.len() <= u.max_bytes,
    ensures
        u.after(UploadEventView::Chunk(bytes)).step == UploadStepView::WriteChunk(bytes),
{
}

/// Once an upload is refused or accepted, nothing answers it any more.
pub proof fn law_upload_ends(u: UploadView, event: UploadEventView)
    requires
        u.step is Reject || u.step is Record,
    ensures
        !u.accepts(event),
{
}

/// A prefix of events that an upload takes is taken too.
proof fn lemma_upload_prefix(u: UploadView, events: Seq<UploadEventView>, n: int)
    requires
        upload_takes(u, events),
        0 <= n <= events.len(),
    ensures
        upload_takes(u, events.take(n)),
        n < events.len() ==> upload_after(u, events.take(n)).accepts(events[n]) && upload_after(
            u,
            events.take(n + 1),
        ) == upload_after(u, events.take(n)).after(events[n]),
    decreases events.len(),
{
    if n < events.len() {
        let before = events.drop_last();
        assert(events.take(n + 1).drop_last() =~= events.take(n));
        if n < before.len() {
            lemma_upload_prefix(u, before, n);
            assert(before.take(n) =~= events.take(n));
            assert(before.take(n + 1) =~= events.take(n + 1));
        } else {
            assert(before =~= events.take(n));
            assert(events.take(n + 1) =~= events);
        }
    } else {
        assert(events.take(n) =~= events);
    }
}

/// An event that ends an upload is its last.
proof fn lemma_upload_ended(u: UploadView, events: Seq<UploadEventView>, n: int)
    requires
        upload_takes(u, events),
        0 <= n < events.len(),
        upload_after(u, events.take(n + 1)).step is Reject,
    ensures
        n == events.len() - 1,
        upload_after(u, events) == upload_after(u, events.take(n)).after(events[n]),
{
    lemma_upload_prefix(u, events, n);
    lemma_upload_prefix(u, events, n + 1);
    if n + 1 == events.len() {
        assert(events.take(n + 1) =~= events);
    }
}

/// Without a scanner an upload is refused with status 503: nothing goes
/// unscanned.
pub proof fn law_no_scanner_no_upload(u: UploadView, events: Seq<UploadEventView>)
    requires
        upload_takes(u, events),
        events.contains(UploadEventView::ScannerFound(false)),
    ensures
        upload_after(u, events).step == UploadStepView::Reject(scanner_missing()),
        status_number(scanner_missing().status) == 503,
{
    let n = choose|n: int|
        0 <= n < events.len() && events[n] == UploadEventView::ScannerFound(false);
    lemma_upload_prefix(u, events, n);
    lemma_upload_ended(u, events, n);
}

/// An upload that the scanner does not clear is refused, with status 422 and
/// what the scanner wrote where it found a virus.
pub proof fn law_uncleared_upload_is_refused(
    u: UploadView,
    events: Seq<UploadEventView>,
    exit: ScanExitView,
)
    requires
        upload_takes(u, events),
        events.contains(UploadEventView::ScanExited(exit)),
        exit.code != Some(0i32),
    ensures
        ({
            let step = upload_after(u, events).step;
            &&& step matches UploadStepView::Reject(e)
            &&& scan_refusal(exit.code, scan_report(exit)) == Some(e)
            &&& exit.code == Some(1i32) ==> status_number(e.status) == 422 && e.details == Some(
                utf8_lossy(exit.stdout),
            )
            &&& exit.code != Some(1i32) ==> status_number(e.status) == 500
        }),
{
    let n = choose|n: int| 0 <= n < events.len() && events[n] == UploadEventView::ScanExited(exit);
    lemma_upload_prefix(u, events, n);
    lemma_upload_ended(u, events, n);
}

/// A refused upload was never given the name of accepted audio: where that was
/// tried, it failed.
pub proof fn law_refused_upload_is_never_renamed(
    u: UploadView,
    events: Seq<UploadEventView>,
    n: int,
)
    requires
        upload_takes(u, events),
        upload_after(u, events).step is Reject,
        0 <= n < events.len(),
        upload_after(u, events.take(n)).step is Rename,
    ensures
        events[n] is Failed,
{
    lemma_upload_prefix(u, events, n);
    lemma_upload_prefix(u, events, n + 1);
    if n + 1 == events.len() {
        assert(events.take(n + 1) =~= events);
    }
}

/// An upload that sends more than the limit is refused with status 413, once
/// its temporary file was to be removed.
pub proof fn law_large_upload_is_refused(
    track_id: Seq<char>,
    max_bytes: nat,
    events: Seq<UploadEventView>,
)
    requires
        upload_takes(new_upload(track_id, max_bytes), events),
        audio_sent(events).len() > max_bytes,
    ensures
        ({
            let start = new_upload(track_id, max_bytes);
            refused_after_removal(
                upload_after(start, events),
                upload_after(start, events.drop_last()),
                too_large(max_bytes),
            )
        }),
        status_number(too_large(max_bytes).status) == 413,
{
    lemma_upload(track_id, max_bytes, events);
}

/// A form that ends without a field `file` is refused with status 400, once
/// its temporary file was to be removed.
pub proof fn law_form_without_file_is_refused(
    track_id: Seq<char>,
    max_bytes: nat,
    events: Seq<UploadEventView>,
)
    requires
        upload_takes(new_upload(track_id, max_bytes), events),
        events.contains(UploadEventView::FieldsDone),
        !file_field_came(events),
    ensures
        ({
            let start = new_upload(track_id, max_bytes);
            refused_after_removal(
                upload_after(start, events),
                upload_after(start, events.drop_last()),
                field_missing(),
            )
        }),
        status_number(field_missing().status) == 400,
{
    let u = new_upload(track_id, max_bytes);
    let n = choose|n: int| 0 <= n < events.len() && events[n] == UploadEventView::FieldsDone;
    lemma_upload_prefix(u, events, n);
    lemma_upload(track_id, max_bytes, events.take(n));
    assert(!file_field_came(events.take(n))) by {
        if file_field_came(events.take(n)) {
            let i = choose|i: int|
                0 <= i < n && (#[trigger] events.take(n)[i] matches UploadEventView::Field(head)
                    && head.name == Some("file"@));
            assert(events[i] == events.take(n)[i]);
        }
    }
    if n + 1 == events.len() {
        assert(events.take(n + 1) =~= events);
    } else {
        lemma_upload_prefix(u, events, n + 1);
        lemma_upload_ended(u, events, n + 1);
        assert(events.drop_last() =~= events.take(n + 1));
    }
}

/// Whatever the form says, an upload has a file name and a content type that
/// are not blank.
pub proof fn law_uploads_have_a_name_and_a_type(
    track_id: Seq<char>,
    max_bytes: nat,
    events: Seq<UploadEventView>,
)
    requires
        upload_takes(new_upload(track_id, max_bytes), events),
    ensures
        ({
            let u = upload_after(new_upload(track_id, max_bytes), events);
            !blank(u.filename) && !blank(u.content_type)
        }),
{
    lemma_upload(track_id, max_bytes, events);
}

/// A field of a form: its head, and the chunks in which its content comes.
pub struct FormField {
    pub head: FieldView,
    pub chunks: Seq<Seq<u8>>,
}

impl FormField {
    /// The field holds audio.
    pub open spec fn is_file(self) -> bool {
        self.head.name == Some("file"@)
    }
}

/// The bytes of chunks, one after the other.
pub open spec fn all_bytes(chunks: Seq<Seq<u8>>) -> Seq<u8>
    decreases chunks.len(),
{
    if chunks.len() == 0 {
        Seq::empty()
    } else {
        all_bytes(chunks.drop_last()) + chunks.last()
    }
}

/// The audio in a form: the content of its fields named `file`, one after the
/// other.
pub open spec fn form_audio(form: Seq<FormField>) -> Seq<u8>
    decreases form.len(),
{
    if form.len() == 0 {
        Seq::empty()
    } else if form.last().is_file() {
        form_audio(form.drop_last()) + all_bytes(form.last().chunks)
    } else {
        form_audio(form.drop_last())
    }
}

pub open spec fn form_has_file(form: Seq<FormField>) -> bool {
    exists|i: int| 0 <= i < form.len() && (#[trigger] form[i]).is_file()
}

/// The last file name that a field named `file` gives, or `default`.
pub open spec fn form_filename(form: Seq<FormField>, default: Seq<char>) -> Seq<char>
    decreases form.len(),
{
    if form.len() == 0 {
        default
    } else if form.last().is_file() {
        said_or(form.last().head.file_name, form_filename(form.drop_last(), default))
    } else {
        form_filename(form.drop_last(), default)
    }
}

/// The last content type that a field named `file` gives, or `default`.
pub open spec fn form_type(form: Seq<FormField>, default: Seq<char>) -> Seq<char>
    decreases form.len(),
{
    if form.len() == 0 {
        default
    } else if form.last().is_file() {
        said_or(form.last().head.content_type, form_type(form.drop_last(), default))
    } else {
        form_type(form.drop_last(), default)
    }
}

/// The events of these chunks, each of which could be written.
pub open spec fn chunk_events(chunks: Seq<Seq<u8>>) -> Seq<UploadEventView>
    decreases chunks.len(),
{
    if chunks.len() == 0 {
        Seq::empty()
    } else {
        chunk_events(chunks.drop_last()).push(UploadEventView::Chunk(chunks.last())).push(
            UploadEventView::Succeeded,
        )
    }
}

/// The events of a field. Only audio is asked for.
pub open spec fn field_events(field: FormField) -> Seq<UploadEventView> {
    if field.is_file() {
        (seq![UploadEventView::Field(field.head)] + chunk_events(field.chunks)).push(
            UploadEventView::ChunksDone,
        )
    } else {
        seq![UploadEventView::Field(field.head)]
    }
}

pub open spec fn form_events(form: Seq<FormField>) -> Seq<UploadEventView>
    decreases form.len(),
{
    if form.len() == 0 {
        Seq::empty()
    } else {
        form_events(form.drop_last()) + field_events(form.last())
    }
}

/// The events of an upload on which everything goes well.
pub open spec fn good_upload(id: Seq<char>, form: Seq<FormField>, exit: ScanExitView) -> Seq<
    UploadEventView,
> {
    (seq![UploadEventView::Succeeded, UploadEventView::Id(id), UploadEventView::Succeeded]
        + form_events(form)).push(UploadEventView::FieldsDone).push(
        UploadEventView::Succeeded,
    ).push(UploadEventView::ScannerFound(true)).push(UploadEventView::ScanExited(exit)).push(
        UploadEventView::Succeeded,
    )
}

/// An upload of a form with a field `file` and with audio within the limit, on
/// which everything goes well, is accepted, under the name and with the type
/// that its fields give. What comes is the audio in the form.
pub proof fn law_good_upload_is_accepted(
    track_id: Seq<char>,
    max_bytes: nat,
    id: Seq<char>,
    form: Seq<FormField>,
    exit: ScanExitView,
)
    requires
        max_bytes <= u64::MAX,
        form_has_file(form),
        form_audio(form).len() <= max_bytes,
        exit.code == Some(0i32),
    ensures
        ({
            let start = new_upload(track_id, max_bytes);
            let events = good_upload(id, form, exit);
            let u = upload_after(start, events);
            &&& upload_takes(start, events)
            &&& u.step == UploadStepView::Record
            &&& u.track_id == track_id
            &&& u.temp_name == Some(temp_name_of(id))
            &&& u.written == form_audio(form).len()
            &&& u.filename == form_filename(form, "audio"@)
            &&& u.content_type == form_type(form, "application/octet-stream"@)
            &&& audio_sent(events) == form_audio(form)
        }),
{
    let start = new_upload(track_id, max_bytes);
    let e0 = Seq::<UploadEventView>::empty();
    lemma_upload_push(start, e0, UploadEventView::Succeeded);
    let e1 = e0.push(UploadEventView::Succeeded);
    lemma_upload_push(start, e1, UploadEventView::Id(id));
    let e2 = e1.push(UploadEventView::Id(id));
    lemma_upload_push(start, e2, UploadEventView::Succeeded);
    let opened = seq![
        UploadEventView::Succeeded,
        UploadEventView::Id(id),
        UploadEventView::Succeeded,
    ];
    assert(e2.push(UploadEventView::Succeeded) =~= opened);
    lemma_form_taken(start, opened, form);
    let e4 = opened + form_events(form);
    lemma_upload_push(start, e4, UploadEventView::FieldsDone);
    let e5 = e4.push(UploadEventView::FieldsDone);
    lemma_upload_push(start, e5, UploadEventView::Succeeded);
    let e6 = e5.push(UploadEventView::Succeeded);
    lemma_upload_push(start, e6, UploadEventView::ScannerFound(true));
    let e7 = e6.push(UploadEventView::ScannerFound(true));
    lemma_upload_push(start, e7, UploadEventView::ScanExited(exit));
    let e8 = e7.push(UploadEventView::ScanExited(exit));
    lemma_upload_push(start, e8, UploadEventView::Succeeded);
}

proof fn lemma_upload_push(u: UploadView, events: Seq<UploadEventView>, event: UploadEventView)
    ensures
        upload_after(u, events.push(event)) == upload_after(u, events).after(event),
        upload_takes(u, events.push(event)) == (upload_takes(u, events) && upload_after(
            u,
            events,
        ).accepts(event)),
        audio_sent(events.push(event)) == audio_sent(events) + match event {
            UploadEventView::Chunk(bytes) => bytes,
            _ => Seq::empty(),
        },
        !(event is Chunk) ==> audio_sent(events.push(event)) == audio_sent(events),
{
    assert(events.push(event).drop_last() =~= events);
    assert(audio_sent(events) + Seq::<u8>::empty() =~= audio_sent(events));
}

proof fn lemma_chunks_taken(start: UploadView, opened: Seq<UploadEventView>, chunks: Seq<Seq<u8>>)
    requires
        upload_takes(start, opened),
        ({
            let u = upload_after(start, opened);
            &&& u.step == UploadStepView::NextChunk
            &&& u.written + all_bytes(chunks).len() <= u.max_bytes <= u64::MAX
        }),
    ensures
        upload_takes(start, opened + chunk_events(chunks)),
        upload_after(start, opened + chunk_events(chunks)) == (UploadView {
            written: upload_after(start, opened).written + all_bytes(chunks).len(),
            ..upload_after(start, opened)
        }),
        audio_sent(opened + chunk_events(chunks)) == audio_sent(opened) + all_bytes(chunks),
    decreases chunks.len(),
{
    if chunks.len() == 0 {
        assert(opened + chunk_events(chunks) =~= opened);
        assert(audio_sent(opened) + all_bytes(chunks) =~= audio_sent(opened));
    } else {
        let rest = chunks.drop_last();
        let events = opened + chunk_events(rest);
        let chunk = UploadEventView::Chunk(chunks.last());
        lemma_chunks_taken(start, opened, rest);
        lemma_upload_push(start, events, chunk);
        lemma_upload_push(start, events.push(chunk), UploadEventView::Succeeded);
        assert(opened + chunk_events(chunks) =~= events.push(chunk).push(UploadEventView::Succeeded));
        assert(audio_sent(opened) + all_bytes(chunks) =~= audio_sent(opened) + all_bytes(rest)
            + chunks.last());
    }
}

proof fn lemma_field_taken(start: UploadView, opened: Seq<UploadEventView>, field: FormField)
    requires
        upload_takes(start, opened),
        field.is_file(),
        ({
            let u = upload_after(start, opened);
            &&& u.step == UploadStepView::NextField
            &&& u.written + all_bytes(field.chunks).len() <= u.max_bytes <= u64::MAX
        }),
    ensures
        upload_takes(start, opened + field_events(field)),
        ({
            let u = upload_after(start, opened);
            upload_after(start, opened + field_events(field)) == (UploadView {
                found: true,
                filename: said_or(field.head.file_name, u.filename),
                content_type: said_or(field.head.content_type, u.content_type),
                written: u.written + all_bytes(field.chunks).len(),
                ..u
            })
        }),
        audio_sent(opened + field_events(field)) == audio_sent(opened) + all_bytes(field.chunks),
{
    let head = UploadEventView::Field(field.head);
    lemma_upload_push(start, opened, head);
    lemma_chunks_taken(start, opened.push(head), field.chunks);
    let events = opened.push(head) + chunk_events(field.chunks);
    lemma_upload_push(start, events, UploadEventView::ChunksDone);
    assert(opened + field_events(field) =~= events.push(UploadEventView::ChunksDone));
}

proof fn lemma_form_taken(start: UploadView, opened: Seq<UploadEventView>, form: Seq<FormField>)
    requires
        upload_takes(start, opened),
        ({
            let u = upload_after(start, opened);
            &&& u.step == UploadStepView::NextField
            &&& u.written + form_audio(form).len() <= u.max_bytes <= u64::MAX
        }),
    ensures
        upload_takes(start, opened + form_events(form)),
        ({
            let u = upload_after(start, opened);
            upload_after(start, opened + form_events(form)) == (UploadView {
                found: u.found || form_has_file(form),
                filename: form_filename(form, u.filename),
                content_type: form_type(form, u.content_type),
                written: u.written + form_audio(form).len(),
                ..u
            })
        }),
        audio_sent(opened + form_events(form)) == audio_sent(opened) + form_audio(form),
    decreases form.len(),
{
    if form.len() == 0 {
        assert(opened + form_events(form) =~= opened);
        assert(audio_sent(opened) + form_audio(form) =~= audio_sent(opened));
    } else {
        let rest = form.drop_last();
        let field = form.last();
        let events = opened + form_events(rest);
        lemma_form_taken(start, opened, rest);
        assert(form_has_file(form) == (form_has_file(rest) || field.is_file())) by {
            if form_has_file(rest) {
                let i = choose|i: int| 0 <= i < rest.len() && (#[trigger] rest[i]).is_file();
                assert(form[i].is_file());
            }
            if form_has_file(form) {
                let i = choose|i: int| 0 <= i < form.len() && (#[trigger] form[i]).is_file();
                if i < rest.len() {
                    assert(rest[i].is_file());
                }
            }
            if field.is_file() {
                assert(form[form.len() - 1].is_file());
            }
        }
        if field.is_file() {
            lemma_field_taken(start, events, field);
            assert(audio_sent(opened) + form_audio(form) =~= audio_sent(opened) + form_audio(rest)
                + all_bytes(field.chunks));
        } else {
            lemma_upload_push(start, events, UploadEventView::Field(field.head));
            assert(events + field_events(field) =~= events.push(UploadEventView::Field(field.head)));
        }
        assert(opened + form_events(form) =~= events + field_events(field));
    }
}

// The files of a track.

/// Nothing but the temporary file differs.
pub open spec fn same_but_temp(
    u: UploadView,
    before: Map<Seq<char>, Seq<u8>>,
    after: Map<Seq<char>, Seq<u8>>,
) -> bool {
    match u.temp_name {
        Some(temp) => after.remove(temp) == before.remove(temp),
        None => after == before,
    }
}

/// The step that is due, answered by `event`, takes the files of the track's
/// directory from `before` to `after`. A step that was done did what it says.
/// A step that failed may have left anything in the temporary file, and
/// nothing elsewhere.
pub open spec fn step_leaves(
    u: UploadView,
    event: UploadEventView,
    before: Map<Seq<char>, Seq<u8>>,
    after: Map<Seq<char>, Seq<u8>>,
) -> bool {
    let temp = u.temp_name->0;
    match (u.step, event) {
        (_, UploadEventView::Failed(_)) => same_but_temp(u, before, after),
        (UploadStepView::CreateTemp, _) => after == before.insert(temp, Seq::empty()),
        (UploadStepView::WriteChunk(bytes), _) => after == before.insert(
            temp,
            before[temp] + bytes,
        ),
        (UploadStepView::RemoveTemp(_), _) => after == before.remove(temp),
        (UploadStepView::Rename, _) => after == before.remove(temp).insert(
            audio_file_name_of(u.filename),
            before[temp],
        ),
        _ => after == before,
    }
}

/// The steps of an upload, answered by `events`, take the files of the track's
/// directory from `before` to `after`.
pub open spec fn upload_leaves(
    u: UploadView,
    events: Seq<UploadEventView>,
    before: Map<Seq<char>, Seq<u8>>,
    after: Map<Seq<char>, Seq<u8>>,
) -> bool
    decreases events.len(),
{
    if events.len() == 0 {
        after == before
    } else {
        exists|mid: Map<Seq<char>, Seq<u8>>|
            upload_leaves(u, events.drop_last(), before, mid) && #[trigger] step_leaves(
                upload_after(u, events.drop_last()),
                events.last(),
                mid,
                after,
            )
    }
}

/// What the events so far say of the files of the track's directory.
proof fn lemma_files(
    track_id: Seq<char>,
    max_bytes: nat,
    events: Seq<UploadEventView>,
    before: Map<Seq<char>, Seq<u8>>,
    after: Map<Seq<char>, Seq<u8>>,
)
    requires
        upload_takes(new_upload(track_id, max_bytes), events),
        upload_leaves(new_upload(track_id, max_bytes), events, before, after),
    ensures
        ({
            let u = upload_after(new_upload(track_id, max_bytes), events);
            let temp = u.temp_name->0;
            match u.step {
                UploadStepView::Record => u.temp_name is Some && after == before.remove(
                    temp,
                ).insert(audio_file_name_of(u.filename), audio_sent(events)),
                UploadStepView::WriteChunk(bytes) => same_but_temp(u, before, after)
                    && after.contains_key(temp) && after[temp] + bytes == audio_sent(events),
                UploadStepView::NextField
                | UploadStepView::NextChunk
                | UploadStepView::Flush
                | UploadStepView::ProbeScanner
                | UploadStepView::RunScanner
                | UploadStepView::Rename => same_but_temp(u, before, after)
                    && after.contains_key(temp) && after[temp] == audio_sent(events),
                UploadStepView::CreateDir
                | UploadStepView::NameTemp
                | UploadStepView::CreateTemp => same_but_temp(u, before, after) && audio_sent(
                    events,
                ) == Seq::<u8>::empty(),
                _ => same_but_temp(u, before, after),
            }
        }),
    decreases events.len(),
{
    let start = new_upload(track_id, max_bytes);
    if events.len() > 0 {
        let past = events.drop_last();
        let event = events.last();
        let u = upload_after(start, past);
        let mid = choose|mid: Map<Seq<char>, Seq<u8>>|
            upload_leaves(start, past, before, mid) && #[trigger] step_leaves(
                u,
                event,
                mid,
                after,
            );
        lemma_files(track_id, max_bytes, past, before, mid);
        lemma_upload(track_id, max_bytes, past);
        if !(event is Chunk) {
            assert(audio_sent(events) =~= audio_sent(past));
        }
        if let Some(temp) = u.temp_name {
            assert(mid.insert(temp, Seq::empty()).remove(temp) =~= mid.remove(temp));
            assert(mid.remove(temp).remove(temp) =~= mid.remove(temp));
            if let UploadStepView::WriteChunk(bytes) = u.step {
                assert(mid.insert(temp, mid[temp] + bytes).remove(temp) =~= mid.remove(temp));
            }
        }
    }
}

/// What is scanned is all of the upload: when the scanner is to be run, the
/// temporary file holds the audio, byte for byte as it came.
pub proof fn law_whole_upload_is_scanned(
    track_id: Seq<char>,
    max_bytes: nat,
    events: Seq<UploadEventView>,
    before: Map<Seq<char>, Seq<u8>>,
    after: Map<Seq<char>, Seq<u8>>,
)
    requires
        upload_takes(new_upload(track_id, max_bytes), events),
        upload_leaves(new_upload(track_id, max_bytes), events, before, after),
        upload_after(new_upload(track_id, max_bytes), events).step is RunScanner,
    ensures
        ({
            let u = upload_after(new_upload(track_id, max_bytes), events);
            &&& u.temp_name matches Some(temp)
            &&& after.contains_key(temp)
            &&& after[temp] == audio_sent(events)
        }),
{
    lemma_files(track_id, max_bytes, events, before, after);
    lemma_upload(track_id, max_bytes, events);
}

/// The audio of an accepted upload is in the track's directory, byte for byte
/// as it came, under the name of accepted audio. The temporary file is gone,
/// and no other file has changed.
pub proof fn law_accepted_upload_is_stored(
    track_id: Seq<char>,
    max_bytes: nat,
    events: Seq<UploadEventView>,
    before: Map<Seq<char>, Seq<u8>>,
    after: Map<Seq<char>, Seq<u8>>,
)
    requires
        upload_takes(new_upload(track_id, max_bytes), events),
        upload_leaves(new_upload(track_id, max_bytes), events, before, after),
        upload_after(new_upload(track_id, max_bytes), events).step is Record,
    ensures
        ({
            let u = upload_after(new_upload(track_id, max_bytes), events);
            let name = audio_file_name_of(u.filename);
            &&& u.temp_name matches Some(temp)
            &&& after == before.remove(temp).insert(name, audio_sent(events))
            &&& !after.contains_key(temp)
            &&& after[name] == audio_sent(events)
        }),
{
    lemma_files(track_id, max_bytes, events, before, after);
    lemma_upload(track_id, max_bytes, events);
    let u = upload_after(new_upload(track_id, max_bytes), events);
    lemma_accepted_named_audio(u.filename);
}

/// What is stored of a form on which everything goes well is the audio in it:
/// the content of its fields named `file`, one after the other.
pub proof fn law_audio_of_the_form_is_stored(
    track_id: Seq<char>,
    max_bytes: nat,
    id: Seq<char>,
    form: Seq<FormField>,
    exit: ScanExitView,
    before: Map<Seq<char>, Seq<u8>>,
    after: Map<Seq<char>, Seq<u8>>,
)
    requires
        max_bytes <= u64::MAX,
        form_has_file(form),
        form_audio(form).len() <= max_bytes,
        exit.code == Some(0i32),
        upload_leaves(new_upload(track_id, max_bytes), good_upload(id, form, exit), before, after),
    ensures
        after == before.remove(temp_name_of(id)).insert(
            audio_file_name_of(form_filename(form, "audio"@)),
            form_audio(form),
        ),
{
    law_good_upload_is_accepted(track_id, max_bytes, id, form, exit);
    law_accepted_upload_is_stored(
        track_id,
        max_bytes,
        good_upload(id, form, exit),
        before,
        after,
    );
}

/// Until an upload is accepted, and where it is refused, no file of the
/// track's directory but the temporary one has changed: what was uploaded
/// before is still there.
pub proof fn law_refused_upload_changes_no_audio(
    track_id: Seq<char>,
    max_bytes: nat,
    events: Seq<UploadEventView>,
    before: Map<Seq<char>, Seq<u8>>,
    after: Map<Seq<char>, Seq<u8>>,
)
    requires
        upload_takes(new_upload(track_id, max_bytes), events),
        upload_leaves(new_upload(track_id, max_bytes), events, before, after),
        !(upload_after(new_upload(track_id, max_bytes), events).step is Record),
    ensures
        same_but_temp(upload_after(new_upload(track_id, max_bytes), events), before, after),
        forall|name: Seq<char>|
            names_audio(name) ==> (#[trigger] after.contains_key(name) == before.contains_key(name))
                && (after.contains_key(name) ==> after[name] == before[name]),
{
    lemma_files(track_id, max_bytes, events, before, after);
    lemma_upload(track_id, max_bytes, events);
    let u = upload_after(new_upload(track_id, max_bytes), events);
    if let Some(temp) = u.temp_name {
        assert forall|name: Seq<char>| names_audio(name) implies (#[trigger] after.contains_key(name)
            == before.contains_key(name)) && (after.contains_key(name) ==> after[name]
            == before[name]) by {
            assert(after.remove(temp).contains_key(name) == after.contains_key(name));
            assert(before.remove(temp).contains_key(name) == before.contains_key(name));
            assert(after.remove(temp)[name] == after[name]);
            assert(before.remove(temp)[name] == before[name]);
        }
    }
}

/// Where an upload is refused once its temporary file was removed, that file
/// is gone.
pub proof fn law_removed_upload_leaves_no_file(
    u: UploadView,
    events: Seq<UploadEventView>,
    before: Map<Seq<char>, Seq<u8>>,
    after: Map<Seq<char>, Seq<u8>>,
    temp: Seq<char>,
)
    requires
        events.len() > 0,
        upload_leaves(u, events, before, after),
        upload_after(u, events.drop_last()).step is RemoveTemp,
        upload_after(u, events.drop_last()).temp_name == Some(temp),
        events.last() is Succeeded,
    ensures
        upload_after(u, events).step is Reject,
        !after.contains_key(temp),
{
}

/// Whatever name an upload came with, the name under which it is kept holds no
/// `/`, so that the file lies in the track's own directory.
pub proof fn law_audio_lies_in_the_tracks_directory(filename: Seq<char>, dir: Seq<char>)
    ensures
        forall|i: int|
            0 <= i < audio_file_name_of(filename).len() ==> #[trigger] audio_file_name_of(filename)[i]
                != '/',
        joined(dir, audio_file_name_of(filename)) == joined(dir, ""@) + audio_file_name_of(filename),
{
    lemma_audio_file_name(filename, dir);
}

proof fn lemma_accepted_named_audio(filename: Seq<char>)
    ensures
        names_audio(audio_file_name_of(filename)),
{
    reveal_strlit("audio.");
    let name = audio_file_name_of(filename);
    assert("audio."@ =~= name.take("audio."@.len() as int));
}

/// The name of an accepted file is one that a download looks for, and the
/// name of a temporary file is not: what was not accepted is not served.
pub proof fn law_only_accepted_files_are_named_audio(filename: Seq<char>, id: Seq<char>)
    ensures
        names_audio(audio_file_name_of(filename)),
        !names_audio(temp_name_of(id)),
{
    lemma_accepted_named_audio(filename);
    lemma_temp_names_no_audio(id);
}

// Downloads.

/// A download after a sequence of events.
pub open spec fn download_after(d: DownloadView, events: Seq<DownloadEventView>) -> DownloadView
    decreases events.len(),
{
    if events.len() == 0 {
        d
    } else {
        download_after(d, events.drop_last()).after(events.last())
    }
}

/// Every event answers the step that is due when it comes.
pub open spec fn download_takes(d: DownloadView, events: Seq<DownloadEventView>) -> bool
    decreases events.len(),
{
    events.len() > 0 ==> download_takes(d, events.drop_last()) && download_after(
        d,
        events.drop_last(),
    ).accepts(events.last())
}

/// No entry that is accepted audio came.
pub open spec fn no_audio_came(events: Seq<DownloadEventView>) -> bool {
    forall|i: int|
        0 <= i < events.len() ==> (#[trigger] events[i] matches DownloadEventView::Entry(name)
            ==> !names_audio(name))
}

/// Some step could not be done.
pub open spec fn step_failed(events: Seq<DownloadEventView>) -> bool {
    exists|i: int| 0 <= i < events.len() && #[trigger] events[i] is Failed
}

proof fn lemma_download(track: TrackView, events: Seq<DownloadEventView>)
    requires
        download_takes(new_download(track), events),
    ensures
        ({
            let d = download_after(new_download(track), events);
            &&& d.content_type == served_type(track)
            &&& match d.step {
                DownloadStepView::OpenDir => no_audio_came(events),
                DownloadStepView::NextEntry => no_audio_came(events),
                DownloadStepView::OpenFile(name) => names_audio(name) && events.len() > 0
                    && events.last() == DownloadEventView::Entry(name) && no_audio_came(
                    events.drop_last(),
                ),
                DownloadStepView::Respond(name) => names_audio(name) && events.contains(
                    DownloadEventView::Entry(name),
                ),
                DownloadStepView::Reject(_) => step_failed(events) || events.last()
                    is EntriesDone && no_audio_came(events),
            }
        }),
    decreases events.len(),
{
    if events.len() > 0 {
        let before = events.drop_last();
        lemma_download(track, before);
        let d = download_after(new_download(track), before);
        if let DownloadStepView::OpenFile(name) = d.step {
            assert(events[before.len() - 1] == DownloadEventView::Entry(name));
        }
        if events.last() is Failed {
            assert(events[events.len() - 1] is Failed);
        }
        if d.step is OpenDir || d.step is NextEntry {
            assert forall|i: int| 0 <= i < before.len() implies before[i] == #[trigger] events[i] by {}
        }
    }
}

/// A download opens the first entry that is accepted audio, and nothing else.
pub proof fn law_download_opens_the_first_audio(
    track: TrackView,
    events: Seq<DownloadEventView>,
    name: Seq<char>,
)
    requires
        download_takes(new_download(track), events),
        download_after(new_download(track), events).step == DownloadStepView::OpenFile(name),
    ensures
        names_audio(name),
        events.last() == DownloadEventView::Entry(name),
        no_audio_came(events.drop_last()),
{
    lemma_download(track, events);
}

/// Where a directory ends without accepted audio, the download is refused
/// with status 404.
pub proof fn law_no_audio_no_download(track: TrackView, events: Seq<DownloadEventView>)
    requires
        download_takes(new_download(track), events),
        events.len() > 0,
        events.last() == DownloadEventView::EntriesDone,
    ensures
        no_audio_came(events),
        download_after(new_download(track), events).step == DownloadStepView::Reject(
            plain_error(ApiErrorCode::NotFound, "audio not uploaded for this track"@),
        ),
{
    lemma_download(track, events.drop_last());
    assert forall|i: int|
        0 <= i < events.len() implies (#[trigger] events[i] matches DownloadEventView::Entry(name)
        ==> !names_audio(name)) by {
        if i < events.len() - 1 {
            assert(events.drop_last()[i] == events[i]);
        }
    }
}

/// A file is served only where it was found in the directory and is accepted
/// audio, and with the content type that is known of the track.
pub proof fn law_served_file_is_audio(
    track: TrackView,
    events: Seq<DownloadEventView>,
    name: Seq<char>,
)
    requires
        download_takes(new_download(track), events),
        download_after(new_download(track), events).step == DownloadStepView::Respond(name),
    ensures
        names_audio(name),
        events.contains(DownloadEventView::Entry(name)),
        download_after(new_download(track), events).content_type == served_type(track),
{
    lemma_download(track, events);
}

/// Once a download is refused or answered, nothing answers it any more.
pub proof fn law_download_ends(d: DownloadView, event: DownloadEventView)
    requires
        d.step is Reject || d.step is Respond,
    ensures
        !d.accepts(event),
{
}

// Uploads and downloads together.

/// Once an accepted upload is noted, a download that comes upon its file opens
/// and serves it, with the content type of the upload.
pub proof fn law_accepted_upload_is_served(store: StoreView, u: UploadView)
    requires
        store.valid(),
        store.tracks.contains_key(u.track_id),
        u.step is Record,
    ensures
        ({
            let file = FileMetaView { filename: u.filename, content_type: u.content_type };
            let after = store.with_track(store.tracks[u.track_id].with_file(file));
            let name = audio_file_name_of(u.filename);
            let looking = new_download(after.tracks[u.track_id]).after(
                DownloadEventView::Succeeded,
            );
            let found = looking.after(DownloadEventView::Entry(name));
            let served = found.after(DownloadEventView::Succeeded);
            &&& looking.accepts(DownloadEventView::Entry(name))
            &&& found.step == DownloadStepView::OpenFile(name)
            &&& served.step == DownloadStepView::Respond(name)
            &&& served.content_type == u.content_type
        }),
{
    let file = FileMetaView { filename: u.filename, content_type: u.content_type };
    law_uploaded_type_is_served(store, u.track_id, file);
    lemma_accepted_named_audio(u.filename);
}

/// The entries that came are those of a directory with these files: each is
/// one of them, and none is left where the entries are done.
pub open spec fn lists_files(
    events: Seq<DownloadEventView>,
    files: Map<Seq<char>, Seq<u8>>,
) -> bool {
    &&& forall|name: Seq<char>| #[trigger]
        events.contains(DownloadEventView::Entry(name)) ==> files.contains_key(name)
    &&& events.contains(DownloadEventView::EntriesDone) ==> forall|name: Seq<char>| #[trigger]
        files.contains_key(name) ==> events.contains(DownloadEventView::Entry(name))
}

/// What was uploaded is what is served. Where a track's directory held no
/// audio before, or only audio under the name that the upload gets, and the
/// upload was accepted and noted, a download of the track answers with the
/// file that holds the uploaded audio, byte for byte as it came, and with the
/// content type of the upload. It is refused only where one of its steps could
/// not be done.
pub proof fn law_upload_is_what_is_served(
    store: StoreView,
    track_id: Seq<char>,
    max_bytes: nat,
    events: Seq<UploadEventView>,
    before: Map<Seq<char>, Seq<u8>>,
    files: Map<Seq<char>, Seq<u8>>,
    answers: Seq<DownloadEventView>,
)
    requires
        store.valid(),
        store.tracks.contains_key(track_id),
        forall|name: Seq<char>| #[trigger]
            before.contains_key(name) && names_audio(name) ==> name == audio_file_name_of(
                upload_after(new_upload(track_id, max_bytes), events).filename,
            ),
        upload_takes(new_upload(track_id, max_bytes), events),
        upload_leaves(new_upload(track_id, max_bytes), events, before, files),
        upload_after(new_upload(track_id, max_bytes), events).step is Record,
        ({
            let u = upload_after(new_upload(track_id, max_bytes), events);
            let file = FileMetaView { filename: u.filename, content_type: u.content_type };
            download_takes(new_download(store.tracks[track_id].with_file(file)), answers)
        }),
        lists_files(answers, files),
    ensures
        ({
            let u = upload_after(new_upload(track_id, max_bytes), events);
            let file = FileMetaView { filename: u.filename, content_type: u.content_type };
            let d = download_after(new_download(store.tracks[track_id].with_file(file)), answers);
            &&& d.content_type == u.content_type
            &&& match d.step {
                DownloadStepView::OpenFile(name) | DownloadStepView::Respond(name) => {
                    &&& name == audio_file_name_of(u.filename)
                    &&& files.contains_key(name)
                    &&& files[name] == audio_sent(events)
                },
                DownloadStepView::Reject(_) => step_failed(answers),
                _ => true,
            }
        }),
{
    let u = upload_after(new_upload(track_id, max_bytes), events);
    let file = FileMetaView { filename: u.filename, content_type: u.content_type };
    let track = store.tracks[track_id].with_file(file);
    let name = audio_file_name_of(u.filename);
    law_accepted_upload_is_stored(track_id, max_bytes, events, before, files);
    lemma_accepted_named_audio(u.filename);
    lemma_download(track, answers);
    let d = download_after(new_download(track), answers);
    assert forall|other: Seq<char>| #[trigger] files.contains_key(other) && names_audio(other) implies other
        == name by {
        if other != name {
            assert(before.contains_key(other));
        }
    }
    match d.step {
        DownloadStepView::OpenFile(found) => {
            assert(answers[answers.len() - 1] == DownloadEventView::Entry(found));
            assert(answers.contains(DownloadEventView::Entry(found)));
        },
        DownloadStepView::Reject(_) => {
            if !step_failed(answers) {
                assert(answers[answers.len() - 1] == DownloadEventView::EntriesDone);
                assert(answers.contains(DownloadEventView::EntriesDone));
                assert(files.contains_key(name));
                assert(answers.contains(DownloadEventView::Entry(name)));
            }
        },
        _ => {},
    }
}

} // verus!
