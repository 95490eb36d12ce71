//! What each step of an upload and of a download comes to, said of what is
//! asked and answered.

use vstd::prelude::*;

use crate::download::{
    new_download, served_type, DownloadEvent, DownloadEventView, DownloadStep, DownloadStepView,
    DownloadView,
};
use crate::error::{status_number, ApiErrorCode, ErrorView};
use crate::file_laws::law_audio_names;
use crate::files::temp_name_of;
use crate::model::TrackView;
use crate::request_laws::has_text;
use crate::scan::{
    reports_text, scan_refusal, scan_report, scanner_missing, utf8_lossy, ScanExit, ScanExitView,
};
use crate::text::{decimal_text, parsed_unsigned, signed_text};
use crate::text_laws::law_decimal_text_spells_the_number;
use crate::transfer::{
    form_audio, form_filename, form_has_file, form_type, good_upload, law_good_upload_is_accepted,
    upload_after, FormField,
};
use crate::upload::{
    field_missing, new_upload, said_or, too_large, FieldHead, FieldView, UploadEvent,
    UploadEventView, UploadStep, UploadStepView, UploadView,
};

verus! {

/// `e` is this error, without details.
pub open spec fn says(e: ErrorView, code: ApiErrorCode, number: int, message: Seq<char>) -> bool {
    e.code == code && status_number(e.status) == number && e.message == message && e.details is None
}

/// `e` is an internal error with this message and these details.
pub open spec fn internal_error(e: ErrorView, message: Seq<char>, details: Seq<char>) -> bool {
    e.code == ApiErrorCode::Internal && status_number(e.status) == 500 && e.message == message
        && e.details == Some(details)
}

// The scanner.

/// A run of the scanner that ended with code 0 clears an upload, and nothing
/// else does. Code 1 means a virus, and the scanner's words go with the
/// refusal. Anything else is an error of the service, and its details give
/// the exit code and the scanner's words.
pub proof fn law_verdict_of_the_scanner(code: Option<i32>, report: Seq<char>)
    ensures
        scan_refusal(code, report) is None <==> code == Some(0i32),
        code == Some(1i32) ==> {
            let e = scan_refusal(code, report)->0;
            &&& e.code == ApiErrorCode::VirusDetected
            &&& status_number(e.status) == 422
            &&& e.message == "virus detected"@
            &&& e.details == Some(report)
        },
        code is None ==> internal_error(
            scan_refusal(code, report)->0,
            "clamscan failed"@,
            "exit_code=None stderr="@ + report,
        ),
        code is Some && code != Some(0i32) && code != Some(1i32) ==> internal_error(
            scan_refusal(code, report)->0,
            "clamscan failed"@,
            "exit_code=Some("@ + signed_text(code->0 as int) + ") stderr="@ + report,
        ),
{
    reveal_strlit("exit_code=");
    reveal_strlit("exit_code=None stderr=");
    reveal_strlit("exit_code=Some(");
    reveal_strlit(") stderr=");
    reveal_strlit("Some(");
    reveal_strlit(")");
    reveal_strlit(" stderr=");
    reveal_strlit("None");
    if code is None {
        assert(scan_refusal(code, report)->0.details->0 =~= "exit_code=None stderr="@ + report);
    } else if code != Some(0i32) && code != Some(1i32) {
        assert(scan_refusal(code, report)->0.details->0 =~= "exit_code=Some("@ + signed_text(
            code->0 as int,
        ) + ") stderr="@ + report);
    }
}

/// What the scanner wrote on its standard output is reported of a virus, and
/// what it wrote on its standard error of anything else. It is reported as it
/// is where it is valid UTF-8.
pub proof fn law_report_of_the_scanner(exit: ScanExitView)
    ensures
        exit.code == Some(1i32) ==> scan_report(exit) == utf8_lossy(exit.stdout),
        exit.code != Some(1i32) ==> scan_report(exit) == utf8_lossy(exit.stderr),
        reports_text(exit) && exit.code == Some(1i32) && vstd::utf8::valid_utf8(exit.stdout)
            ==> scan_report(exit) == vstd::utf8::decode_utf8(exit.stdout),
        reports_text(exit) && exit.code != Some(1i32) && vstd::utf8::valid_utf8(exit.stderr)
            ==> scan_report(exit) == vstd::utf8::decode_utf8(exit.stderr),
{
}

/// What contracts say of a run of the scanner they say of its fields.
pub proof fn law_view_of_a_scan(exit: ScanExit)
    ensures
        exit@.code == exit.code,
        exit@.stdout == exit.stdout@,
        exit@.stderr == exit.stderr@,
{
}

// Uploads.

/// What contracts say of a field they say of its parts.
pub proof fn law_view_of_a_field(head: FieldHead)
    ensures
        head.name matches Some(s) ==> head@.name == Some(s@),
        head.name is None ==> head@.name is None,
        head.file_name matches Some(s) ==> head@.file_name == Some(s@),
        head.file_name is None ==> head@.file_name is None,
        head.content_type matches Some(s) ==> head@.content_type == Some(s@),
        head.content_type is None ==> head@.content_type is None,
{
}

/// What contracts say of events and steps of an upload they say of the bytes
/// and texts in them.
pub proof fn law_views_of_upload_events(event: UploadEvent, step: UploadStep)
    ensures
        event matches UploadEvent::Chunk(bytes) ==> event@ == UploadEventView::Chunk(bytes@),
        event matches UploadEvent::Failed(why) ==> event@ == UploadEventView::Failed(why@),
        event matches UploadEvent::Id(id) ==> event@ == UploadEventView::Id(id@),
        event matches UploadEvent::Field(head) ==> event@ == UploadEventView::Field(head@),
        event matches UploadEvent::ScanExited(exit) ==> event@ == UploadEventView::ScanExited(exit@),
        event matches UploadEvent::ScannerFound(b) ==> event@ == UploadEventView::ScannerFound(b),
        event is Succeeded <==> event@ is Succeeded,
        event is FieldsDone <==> event@ is FieldsDone,
        event is ChunksDone <==> event@ is ChunksDone,
        step matches UploadStep::WriteChunk(bytes) ==> step@ == UploadStepView::WriteChunk(bytes@),
        step matches UploadStep::RemoveTemp(e) ==> step@ == UploadStepView::RemoveTemp(e@),
        step matches UploadStep::Reject(e) ==> step@ == UploadStepView::Reject(e@),
        step is CreateDir <==> step@ is CreateDir,
        step is NameTemp <==> step@ is NameTemp,
        step is CreateTemp <==> step@ is CreateTemp,
        step is NextField <==> step@ is NextField,
        step is NextChunk <==> step@ is NextChunk,
        step is Flush <==> step@ is Flush,
        step is ProbeScanner <==> step@ is ProbeScanner,
        step is RunScanner <==> step@ is RunScanner,
        step is Rename <==> step@ is Rename,
        step is Record <==> step@ is Record,
{
}

/// An upload begins with the track's directory, with nothing written, and as
/// `audio` of type `application/octet-stream`.
pub proof fn law_new_upload(track_id: Seq<char>, max_bytes: nat)
    ensures
        ({
            let u = new_upload(track_id, max_bytes);
            &&& u.track_id == track_id
            &&& u.max_bytes == max_bytes
            &&& u.temp_name is None
            &&& !u.found
            &&& u.written == 0
            &&& u.filename == "audio"@
            &&& u.content_type == "application/octet-stream"@
            &&& u.step is CreateDir
        }),
{
}

/// Which events answer which step.
pub proof fn law_which_events_answer_an_upload(u: UploadView, event: UploadEventView)
    ensures
        event is Failed ==> (u.accepts(event) <==> !(u.step is NameTemp || u.step is ProbeScanner
            || u.step is Record || u.step is Reject)),
        event is Succeeded ==> (u.accepts(event) <==> u.step is CreateDir || u.step is CreateTemp
            || u.step is WriteChunk || u.step is Flush || u.step is Rename || u.step is RemoveTemp),
        event is Id ==> (u.accepts(event) <==> u.step is NameTemp),
        event is Field ==> (u.accepts(event) <==> u.step is NextField),
        event is FieldsDone ==> (u.accepts(event) <==> u.step is NextField),
        event is ChunksDone ==> (u.accepts(event) <==> u.step is NextChunk),
        event is ScannerFound ==> (u.accepts(event) <==> u.step is ProbeScanner),
        event is ScanExited ==> (u.accepts(event) <==> u.step is RunScanner),
        event matches UploadEventView::Chunk(bytes) ==> (u.accepts(event) <==> u.step is NextChunk
            && u.written + bytes.len() <= 18446744073709551615),
{
}

/// A step changes nothing but what it is about: the name and the type come
/// with a field, the count of bytes with a chunk, and the name of the
/// temporary file with its id.
pub proof fn law_steps_change_nothing_else(u: UploadView, event: UploadEventView)
    ensures
        u.after(event).track_id == u.track_id,
        u.after(event).max_bytes == u.max_bytes,
        !(event is Id) ==> u.after(event).temp_name == u.temp_name,
        !(event is Field) ==> u.after(event).filename == u.filename && u.after(event).content_type
            == u.content_type && u.after(event).found == u.found,
        !(event is Chunk) ==> u.after(event).written == u.written,
{
}

/// A step that failed refuses the upload: with status 400 and the reason alone
/// where the form could not be read, and else with status 500, what failed,
/// and the reason as details. Where the temporary file could not be removed,
/// the refusal for which it was to be removed stands.
pub proof fn law_failed_upload_steps(u: UploadView, why: Seq<char>)
    requires
        u.accepts(UploadEventView::Failed(why)),
    ensures
        ({
            let step = u.after(UploadEventView::Failed(why)).step;
            let e = step->Reject_0;
            &&& step is Reject
            &&& u.step is NextField || u.step is NextChunk ==> says(
                e,
                ApiErrorCode::BadRequest,
                400,
                why,
            )
            &&& u.step is CreateDir ==> internal_error(
                e,
                "failed to create upload directory"@,
                why,
            )
            &&& u.step is CreateTemp ==> internal_error(
                e,
                "failed to create temp upload file"@,
                why,
            )
            &&& u.step is WriteChunk ==> internal_error(e, "failed writing upload"@, why)
            &&& u.step is Flush ==> internal_error(e, "failed flushing upload"@, why)
            &&& u.step is RunScanner ==> internal_error(e, "failed running clamscan"@, why)
            &&& u.step is Rename ==> internal_error(e, "failed finalizing uploaded file"@, why)
            &&& u.step matches UploadStepView::RemoveTemp(refusal) ==> e == refusal
        }),
{
}

/// A step that was done leads to the next one.
pub proof fn law_done_upload_steps(u: UploadView)
    ensures
        ({
            let next = u.after(UploadEventView::Succeeded).step;
            &&& u.step is CreateDir ==> next is NameTemp
            &&& u.step is CreateTemp ==> next is NextField
            &&& u.step is WriteChunk ==> next is NextChunk
            &&& u.step is Flush ==> next is ProbeScanner
            &&& u.step is Rename ==> next is Record
            &&& u.step matches UploadStepView::RemoveTemp(e) ==> next == UploadStepView::Reject(e)
        }),
{
}

/// The temporary file is named after the id, and is then created.
pub proof fn law_named_temporary_file(u: UploadView, id: Seq<char>)
    requires
        u.step is NameTemp,
    ensures
        u.after(UploadEventView::Id(id)).temp_name == Some(temp_name_of(id)),
        u.after(UploadEventView::Id(id)).step is CreateTemp,
{
}

/// A field `file` that gives a name, whatever name, gives the upload that
/// name, and likewise its content type. What it does not give, or leaves
/// blank, stays as it was. Its content is then asked for.
pub proof fn law_file_field_names_the_upload(u: UploadView, head: FieldView)
    requires
        u.step is NextField,
        head.name == Some("file"@),
    ensures
        ({
            let after = u.after(UploadEventView::Field(head));
            &&& after.found
            &&& after.step is NextChunk
            &&& head.file_name is Some && has_text(head.file_name->0) ==> after.filename
                == head.file_name->0
            &&& head.file_name is None || !has_text(head.file_name->0) ==> after.filename
                == u.filename
            &&& head.content_type is Some && has_text(head.content_type->0) ==> after.content_type
                == head.content_type->0
            &&& head.content_type is None || !has_text(head.content_type->0) ==> after.content_type
                == u.content_type
        }),
{
}

/// Of two texts the one that was said is taken where it holds text.
pub proof fn law_what_is_said_holds(said: Seq<char>, before: Seq<char>)
    ensures
        has_text(said) ==> said_or(Some(said), before) == said,
        !has_text(said) ==> said_or(Some(said), before) == before,
        said_or(None, before) == before,
{
}

/// A field of any other name, or of none, changes nothing, and its content is
/// not asked for.
pub proof fn law_other_fields_are_skipped(u: UploadView, head: FieldView)
    requires
        u.step is NextField,
        head.name != Some("file"@),
    ensures
        u.after(UploadEventView::Field(head)) == u,
{
}

/// The end of the form leads to the end of the upload where a field `file`
/// came, and else to its refusal with status 400. The end of a field leads to
/// the next one.
pub proof fn law_ends_of_fields_and_forms(u: UploadView)
    ensures
        u.step is NextField && u.found ==> u.after(UploadEventView::FieldsDone).step is Flush,
        u.step is NextField && !u.found ==> {
            let step = u.after(UploadEventView::FieldsDone).step;
            &&& step is RemoveTemp
            &&& says(
                step->RemoveTemp_0,
                ApiErrorCode::BadRequest,
                400,
                "missing multipart field 'file'"@,
            )
        },
        u.step is NextChunk ==> u.after(UploadEventView::ChunksDone).step is NextField,
        says(field_missing(), ApiErrorCode::BadRequest, 400, "missing multipart field 'file'"@),
{
}

/// A chunk with which the audio stays within the limit is written as it came,
/// whatever its length. One with which it does not leads to the refusal with
/// status 413.
pub proof fn law_chunk_of_an_upload(u: UploadView, bytes: Seq<u8>)
    requires
        u.step is NextChunk,
    ensures
        ({
            let after = u.after(UploadEventView::Chunk(bytes));
            &&& u.written + bytes.len() <= u.max_bytes ==> after.step
                == UploadStepView::WriteChunk(bytes) && after.written == u.written + bytes.len()
            &&& u.written + bytes.len() > u.max_bytes ==> after.step is RemoveTemp
                && after.step->RemoveTemp_0.code == ApiErrorCode::PayloadTooLarge && status_number(
                after.step->RemoveTemp_0.status,
            ) == 413 && after.step->RemoveTemp_0.message == too_large(u.max_bytes).message
                && after.step->RemoveTemp_0.details is None
        }),
{
}

/// The message on audio above the limit names the limit in decimal.
pub proof fn law_message_on_large_audio(max_bytes: nat)
    ensures
        ({
            let message = too_large(max_bytes).message;
            let end = message.len() - 7;
            &&& message.len() > 33
            &&& message.take(26) == "audio file too large (max "@
            &&& parsed_unsigned(message.subrange(26, end), max_bytes) == Some(max_bytes)
            &&& message.subrange(26, end)[0] != '+'
            &&& message.skip(end) == " bytes)"@
        }),
{
    reveal_strlit("audio file too large (max ");
    reveal_strlit(" bytes)");
    law_decimal_text_spells_the_number(max_bytes);
    let message = too_large(max_bytes).message;
    let end = message.len() - 7;
    assert(message.take(26) =~= "audio file too large (max "@);
    assert(message.subrange(26, end) =~= decimal_text(max_bytes));
    assert(message.skip(end) =~= " bytes)"@);
}

/// The scanner is run where it was found, and the upload refused with status
/// 503 where it was not. A run that ended with code 0 leads on to the name of
/// accepted audio, and any other to a refusal.
pub proof fn law_scan_of_an_upload(u: UploadView, exit: ScanExitView)
    ensures
        u.step is ProbeScanner ==> {
            let missing = u.after(UploadEventView::ScannerFound(false)).step;
            &&& u.after(UploadEventView::ScannerFound(true)).step is RunScanner
            &&& missing is Reject
            &&& says(
                missing->Reject_0,
                ApiErrorCode::VirusScanUnavailable,
                503,
                "virus scanning not available (install clamscan to enable uploads)"@,
            )
        },
        u.step is RunScanner ==> {
            let step = u.after(UploadEventView::ScanExited(exit)).step;
            &&& step is Rename <==> exit.code == Some(0i32)
            &&& exit.code != Some(0i32) ==> step is Reject && Some(step->Reject_0) == scan_refusal(
                exit.code,
                scan_report(exit),
            )
        },
        says(
            scanner_missing(),
            ApiErrorCode::VirusScanUnavailable,
            503,
            "virus scanning not available (install clamscan to enable uploads)"@,
        ),
{
}

/// The field at `i` is named `file` and gives the name `name`, and no later
/// field named `file` gives another.
pub open spec fn names_the_form(form: Seq<FormField>, i: int, name: Seq<char>) -> bool {
    &&& 0 <= i < form.len()
    &&& form[i].head.name == Some("file"@)
    &&& form[i].head.file_name == Some(name)
    &&& has_text(name)
    &&& forall|j: int|
        i < j < form.len() && (#[trigger] form[j]).head.name == Some("file"@)
            ==> form[j].head.file_name is None || !has_text(form[j].head.file_name->0)
}

/// The field at `i` is named `file` and gives the type `content_type`, and no
/// later field named `file` gives another.
pub open spec fn types_the_form(form: Seq<FormField>, i: int, content_type: Seq<char>) -> bool {
    &&& 0 <= i < form.len()
    &&& form[i].head.name == Some("file"@)
    &&& form[i].head.content_type == Some(content_type)
    &&& has_text(content_type)
    &&& forall|j: int|
        i < j < form.len() && (#[trigger] form[j]).head.name == Some("file"@)
            ==> form[j].head.content_type is None || !has_text(form[j].head.content_type->0)
}

proof fn lemma_form_filename(form: Seq<FormField>, default: Seq<char>, i: int, name: Seq<char>)
    requires
        names_the_form(form, i, name),
    ensures
        form_filename(form, default) == name,
    decreases form.len(),
{
    law_what_is_said_holds(name, form_filename(form.drop_last(), default));
    if i < form.len() - 1 {
        assert(form.last() == form[form.len() - 1]);
        assert(names_the_form(form.drop_last(), i, name));
        lemma_form_filename(form.drop_last(), default, i, name);
    }
}

proof fn lemma_form_type(form: Seq<FormField>, default: Seq<char>, i: int, content_type: Seq<char>)
    requires
        types_the_form(form, i, content_type),
    ensures
        form_type(form, default) == content_type,
    decreases form.len(),
{
    law_what_is_said_holds(content_type, form_type(form.drop_last(), default));
    if i < form.len() - 1 {
        assert(form.last() == form[form.len() - 1]);
        assert(types_the_form(form.drop_last(), i, content_type));
        lemma_form_type(form.drop_last(), default, i, content_type);
    }
}

/// An upload on which everything goes well is noted under the last name that
/// a field `file` gives, and with the last type that one gives, as they are.
pub proof fn law_upload_is_noted_as_the_form_says(
    track_id: Seq<char>,
    max_bytes: nat,
    id: Seq<char>,
    form: Seq<FormField>,
    exit: ScanExitView,
    i: int,
    name: Seq<char>,
    j: int,
    content_type: Seq<char>,
)
    requires
        max_bytes <= u64::MAX,
        form_audio(form).len() <= max_bytes,
        exit.code == Some(0i32),
        names_the_form(form, i, name),
        types_the_form(form, j, content_type),
    ensures
        ({
            let u = upload_after(new_upload(track_id, max_bytes), good_upload(id, form, exit));
            &&& u.step is Record
            &&& u.filename == name
            &&& u.content_type == content_type
        }),
{
    assert(form[i].is_file());
    assert(form_has_file(form));
    law_good_upload_is_accepted(track_id, max_bytes, id, form, exit);
    lemma_form_filename(form, "audio"@, i, name);
    lemma_form_type(form, "application/octet-stream"@, j, content_type);
}

/// A form with one field `file` that gives a name and a type is noted with
/// them, as they are.
pub proof fn law_upload_of_one_field_is_noted_as_it_says(
    track_id: Seq<char>,
    max_bytes: nat,
    id: Seq<char>,
    field: FormField,
    exit: ScanExitView,
    name: Seq<char>,
    content_type: Seq<char>,
)
    requires
        max_bytes <= u64::MAX,
        form_audio(seq![field]).len() <= max_bytes,
        exit.code == Some(0i32),
        field.head.name == Some("file"@),
        field.head.file_name == Some(name),
        field.head.content_type == Some(content_type),
        has_text(name),
        has_text(content_type),
    ensures
        ({
            let u = upload_after(
                new_upload(track_id, max_bytes),
                good_upload(id, seq![field], exit),
            );
            &&& u.step is Record
            &&& u.filename == name
            &&& u.content_type == content_type
        }),
{
    let form = seq![field];
    assert(form[0] == field);
    assert(names_the_form(form, 0, name));
    assert(types_the_form(form, 0, content_type));
    law_upload_is_noted_as_the_form_says(
        track_id,
        max_bytes,
        id,
        form,
        exit,
        0,
        name,
        0,
        content_type,
    );
}

// Downloads.

/// What contracts say of events and steps of a download they say of the texts
/// in them.
pub proof fn law_views_of_download_events(event: DownloadEvent, step: DownloadStep)
    ensures
        event matches DownloadEvent::Entry(name) ==> event@ == DownloadEventView::Entry(name@),
        event matches DownloadEvent::Failed(why) ==> event@ == DownloadEventView::Failed(why@),
        event is Succeeded <==> event@ is Succeeded,
        event is EntriesDone <==> event@ is EntriesDone,
        step matches DownloadStep::OpenFile(name) ==> step@ == DownloadStepView::OpenFile(name@),
        step matches DownloadStep::Respond(name) ==> step@ == DownloadStepView::Respond(name@),
        step matches DownloadStep::Reject(e) ==> step@ == DownloadStepView::Reject(e@),
        step is OpenDir <==> step@ is OpenDir,
        step is NextEntry <==> step@ is NextEntry,
{
}

/// A download begins with the track's directory. The audio has the content
/// type of the track's file, as it was noted, or else
/// `application/octet-stream`.
pub proof fn law_new_download(track: TrackView)
    ensures
        new_download(track).step is OpenDir,
        new_download(track).content_type == served_type(track),
        track.file matches Some(file) ==> served_type(track) == file.content_type,
        track.file is None ==> served_type(track) == "application/octet-stream"@,
{
}

/// Which events answer which step.
pub proof fn law_which_events_answer_a_download(d: DownloadView, event: DownloadEventView)
    ensures
        event is Failed ==> (d.accepts(event) <==> !(d.step is Respond || d.step is Reject)),
        event is Succeeded ==> (d.accepts(event) <==> d.step is OpenDir || d.step is OpenFile),
        event is Entry ==> (d.accepts(event) <==> d.step is NextEntry),
        event is EntriesDone ==> (d.accepts(event) <==> d.step is NextEntry),
{
}

/// The steps of a download: each entry of the directory is looked at until one
/// is accepted audio, which is opened and answered with. The content type
/// stays.
pub proof fn law_done_download_steps(
    d: DownloadView,
    event: DownloadEventView,
    name: Seq<char>,
    rest: Seq<char>,
)
    ensures
        d.after(event).content_type == d.content_type,
        d.step is OpenDir ==> d.after(DownloadEventView::Succeeded).step is NextEntry,
        d.step is NextEntry ==> d.after(
            DownloadEventView::Entry(seq!['a', 'u', 'd', 'i', 'o', '.'] + rest),
        ).step == DownloadStepView::OpenFile(seq!['a', 'u', 'd', 'i', 'o', '.'] + rest),
        d.step is NextEntry && !(name.len() >= 6 && name.take(6) == seq![
            'a',
            'u',
            'd',
            'i',
            'o',
            '.',
        ]) ==> d.after(DownloadEventView::Entry(name)).step is NextEntry,
        d.step == DownloadStepView::OpenFile(name) ==> d.after(DownloadEventView::Succeeded).step
            == DownloadStepView::Respond(name),
{
    law_audio_names(rest, name);
}

/// A download without audio is refused with status 404, one whose directory
/// cannot be opened with 404 and the reason, and one whose directory or file
/// cannot be read with 500 and the reason as details.
pub proof fn law_refused_downloads(d: DownloadView, why: Seq<char>)
    ensures
        d.step is NextEntry ==> {
            let step = d.after(DownloadEventView::EntriesDone).step;
            step is Reject && says(
                step->Reject_0,
                ApiErrorCode::NotFound,
                404,
                "audio not uploaded for this track"@,
            )
        },
        d.accepts(DownloadEventView::Failed(why)) ==> {
            let step = d.after(DownloadEventView::Failed(why)).step;
            let e = step->Reject_0;
            &&& step is Reject
            &&& d.step is OpenDir ==> says(
                e,
                ApiErrorCode::NotFound,
                404,
                "uploads missing: "@ + why,
            )
            &&& d.step is NextEntry ==> internal_error(e, "failed reading upload dir"@, why)
            &&& d.step is OpenFile ==> internal_error(e, "failed opening uploaded file"@, why)
        },
{
}

} // verus!
