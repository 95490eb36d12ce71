use music_backend::download::{Download, DownloadEvent, DownloadStep};
use music_backend::error::{ApiError, ApiErrorCode, Status};
use music_backend::model::{CreateAlbumRequest, CreateTrackRequest};
use music_backend::scan::{
    probe_command, require_scanner, scan_command, scan_result, scan_verdict, ScanExit,
};
use music_backend::store::Store;
use music_backend::upload::{FieldHead, Upload, UploadEvent, UploadStep};

fn text(s: &str) -> String {
    s.to_string()
}

fn some(s: &str) -> Option<String> {
    Some(s.to_string())
}

fn store_with_track(id: &str) -> Store {
    let mut store = Store::new();
    let album = CreateAlbumRequest {
        title: text("A"),
        artist: text("B"),
        price_cents: 0,
        currency: text("EUR"),
    };
    store.create_album_with_id(album, text("album")).unwrap();
    let track = CreateTrackRequest { title: text("T"), order: None, duration_ms: 1 };
    store.create_track_metadata_with_id("album", track, text(id)).unwrap();
    store
}

fn field(name: &str, file_name: Option<&str>, content_type: Option<&str>) -> UploadEvent {
    UploadEvent::Field(FieldHead {
        name: some(name),
        file_name: file_name.map(text),
        content_type: content_type.map(text),
    })
}

fn exit(code: Option<i32>, stdout: &str, stderr: &str) -> UploadEvent {
    UploadEvent::ScanExited(ScanExit {
        code,
        stdout: stdout.as_bytes().to_vec(),
        stderr: stderr.as_bytes().to_vec(),
    })
}

fn feed(mut upload: Upload, events: Vec<UploadEvent>) -> Upload {
    for event in events {
        assert!(upload.can_take(&event), "{:?} at {:?}", event, upload.step());
        upload = upload.advance(event);
    }
    upload
}

/// A chunk of `n` bytes.
fn chunk(n: usize) -> UploadEvent {
    UploadEvent::Chunk(vec![7; n])
}

fn begun(max_bytes: u64) -> Upload {
    Upload::begin(&store_with_track("x"), "x", max_bytes).ok().unwrap()
}

/// An upload that waits for fields.
fn waiting(max_bytes: u64) -> Upload {
    let id = UploadEvent::Id(text("1"));
    feed(begun(max_bytes), vec![UploadEvent::Succeeded, id, UploadEvent::Succeeded])
}

/// An upload of ten bytes that waits for the scanner.
fn unscanned() -> Upload {
    feed(
        waiting(10),
        vec![
            field("file", Some("song.mp3"), Some("audio/mpeg")),
            chunk(10),
            UploadEvent::Succeeded,
            UploadEvent::ChunksDone,
            UploadEvent::FieldsDone,
            UploadEvent::Succeeded,
        ],
    )
}

fn refusal(upload: Upload, code: ApiErrorCode, status: u16, message: &str, details: Option<&str>) {
    let e: ApiError = upload.into_refusal().unwrap();
    assert_eq!(e.code, code);
    assert_eq!(e.status.number(), status);
    assert_eq!(e.message, message);
    assert_eq!(e.details, details.map(text));
}

fn failed() -> UploadEvent {
    UploadEvent::Failed(text("why"))
}

#[test]
fn good_upload_is_accepted_and_served() {
    let mut store = store_with_track("x");
    let upload = Upload::begin(&store, "x", 100).ok().unwrap();
    assert_eq!(upload.temp_name(), None);
    let upload = feed(upload, vec![UploadEvent::Succeeded]);
    assert!(matches!(upload.step(), UploadStep::NameTemp));
    let upload = upload.name_temp();
    let temp = text(upload.temp_name().unwrap());
    assert!(temp.starts_with("tmp-upload-"));
    assert!(temp.ends_with(".bin"));
    assert_eq!(temp.len(), 11 + 36 + 4);
    let upload = feed(
        upload,
        vec![
            UploadEvent::Succeeded,
            field("other", Some("no.txt"), Some("text/plain")),
            field("file", Some("song.mp3"), Some("audio/mpeg")),
            chunk(60),
            UploadEvent::Succeeded,
            chunk(40),
            UploadEvent::Succeeded,
            UploadEvent::ChunksDone,
            UploadEvent::FieldsDone,
            UploadEvent::Succeeded,
            UploadEvent::ScannerFound(true),
            exit(Some(0), "", ""),
        ],
    );
    assert!(matches!(upload.step(), UploadStep::Rename));
    assert_eq!(upload.audio_file_name(), "audio.mp3");
    let upload = feed(upload, vec![UploadEvent::Succeeded]);
    assert!(matches!(upload.step(), UploadStep::Record));
    assert!(!upload.can_take(&UploadEvent::Succeeded));
    let reply = upload.record(&mut store).unwrap();
    assert_eq!(reply.status, Status::Success);
    let file = reply.body.file.unwrap();
    assert_eq!(file.filename, "song.mp3");
    assert_eq!(file.content_type, "audio/mpeg");

    let download = Download::begin(&store, "x").ok().unwrap();
    let download = download.advance(DownloadEvent::Succeeded);
    let download = download.advance(DownloadEvent::Entry(text("tmp-upload-1.bin")));
    assert!(matches!(download.step(), DownloadStep::NextEntry));
    let download = download.advance(DownloadEvent::Entry(text("audio.mp3")));
    assert!(matches!(download.step(), DownloadStep::OpenFile(name) if name == "audio.mp3"));
    let download = download.advance(DownloadEvent::Succeeded);
    assert!(matches!(download.step(), DownloadStep::Respond(name) if name == "audio.mp3"));
    let reply = download.into_answer().unwrap().unwrap();
    assert_eq!(reply.status, Status::Success);
    assert_eq!(reply.body.content_type, "audio/mpeg");
    assert_eq!(reply.body.cache_control, "no-store");
}

#[test]
fn unknown_track_takes_no_upload_and_gives_no_download() {
    let store = store_with_track("x");
    let e = Upload::begin(&store, "y", 1).err().unwrap();
    assert_eq!((e.status.number(), e.message.as_str()), (404, "track not found"));
    let e = Download::begin(&store, "y").err().unwrap();
    assert_eq!((e.status.number(), e.message.as_str()), (404, "track not found"));
}

#[test]
fn unnamed_upload_keeps_the_defaults() {
    let mut store = store_with_track("x");
    let upload = feed(
        waiting(10),
        vec![
            field("file", Some("  "), None),
            UploadEvent::ChunksDone,
            UploadEvent::FieldsDone,
            UploadEvent::Succeeded,
            UploadEvent::ScannerFound(true),
            exit(Some(0), "", ""),
        ],
    );
    assert_eq!(upload.audio_file_name(), "audio.bin");
    let upload = feed(upload, vec![UploadEvent::Succeeded]);
    let file = upload.record(&mut store).unwrap().body.file.unwrap();
    assert_eq!(file.filename, "audio");
    assert_eq!(file.content_type, "application/octet-stream");
}

#[test]
fn later_file_field_overrides_what_it_names() {
    let upload = feed(
        waiting(10),
        vec![
            field("file", Some("a.ogg"), Some("audio/ogg")),
            chunk(4),
            UploadEvent::Succeeded,
            UploadEvent::ChunksDone,
            field("file", Some("b.wav"), Some(" ")),
            chunk(6),
            UploadEvent::Succeeded,
            UploadEvent::ChunksDone,
        ],
    );
    assert_eq!(upload.audio_file_name(), "audio.wav");
    let upload = feed(
        upload,
        vec![
            UploadEvent::FieldsDone,
            UploadEvent::Succeeded,
            UploadEvent::ScannerFound(true),
            exit(Some(0), "", ""),
            UploadEvent::Succeeded,
        ],
    );
    let file = upload.record(&mut store_with_track("x")).unwrap().body.file.unwrap();
    assert_eq!(file.filename, "b.wav");
    assert_eq!(file.content_type, "audio/ogg");
}

#[test]
fn large_upload_is_removed_and_refused() {
    let upload = feed(
        waiting(10),
        vec![
            field("file", None, None),
            chunk(10),
            UploadEvent::Succeeded,
            chunk(1),
        ],
    );
    assert!(matches!(upload.step(), UploadStep::RemoveTemp(_)));
    let upload = feed(upload, vec![failed()]);
    refusal(
        upload,
        ApiErrorCode::PayloadTooLarge,
        413,
        "audio file too large (max 10 bytes)",
        None,
    );
}

#[test]
fn form_without_file_is_removed_and_refused() {
    let upload = feed(waiting(10), vec![field("other", None, None), UploadEvent::FieldsDone]);
    assert!(matches!(upload.step(), UploadStep::RemoveTemp(_)));
    let upload = feed(upload, vec![UploadEvent::Succeeded]);
    assert!(!upload.can_take(&UploadEvent::Succeeded));
    refusal(upload, ApiErrorCode::BadRequest, 400, "missing multipart field 'file'", None);
    let unnamed = UploadEvent::Field(FieldHead { name: None, file_name: None, content_type: None });
    let upload = feed(waiting(10), vec![unnamed]);
    assert!(matches!(upload.step(), UploadStep::NextField));
    assert!(upload.into_refusal().is_none());
}

#[test]
fn failing_steps_are_reported() {
    let internal = ApiErrorCode::Internal;
    let upload = feed(begun(1), vec![failed()]);
    refusal(upload, internal, 500, "failed to create upload directory", Some("why"));
    let id = UploadEvent::Id(text("1"));
    let upload = feed(begun(1), vec![UploadEvent::Succeeded, id, failed()]);
    refusal(upload, internal, 500, "failed to create temp upload file", Some("why"));
    let upload = feed(waiting(1), vec![failed()]);
    refusal(upload, ApiErrorCode::BadRequest, 400, "why", None);
    let upload = feed(waiting(1), vec![field("file", None, None), failed()]);
    refusal(upload, ApiErrorCode::BadRequest, 400, "why", None);
    let upload =
        feed(waiting(1), vec![field("file", None, None), chunk(1), failed()]);
    refusal(upload, internal, 500, "failed writing upload", Some("why"));
    let upload = feed(
        waiting(1),
        vec![
            field("file", None, None),
            UploadEvent::ChunksDone,
            UploadEvent::FieldsDone,
            failed(),
        ],
    );
    refusal(upload, internal, 500, "failed flushing upload", Some("why"));
    let upload = feed(unscanned(), vec![UploadEvent::ScannerFound(true), failed()]);
    refusal(upload, internal, 500, "failed running clamscan", Some("why"));
    let upload = feed(
        unscanned(),
        vec![UploadEvent::ScannerFound(true), exit(Some(0), "", ""), failed()],
    );
    refusal(upload, internal, 500, "failed finalizing uploaded file", Some("why"));
}

#[test]
fn unscanned_upload_is_refused() {
    let upload = feed(unscanned(), vec![UploadEvent::ScannerFound(false)]);
    refusal(
        upload,
        ApiErrorCode::VirusScanUnavailable,
        503,
        "virus scanning not available (install clamscan to enable uploads)",
        None,
    );
    assert!(require_scanner(true).is_ok());
    assert_eq!(require_scanner(false).unwrap_err().status, Status::ServiceUnavailable);
}

#[test]
fn uncleared_upload_is_refused() {
    let found = vec![UploadEvent::ScannerFound(true), exit(Some(1), "x: Eicar FOUND", "noise")];
    refusal(
        feed(unscanned(), found),
        ApiErrorCode::VirusDetected,
        422,
        "virus detected",
        Some("x: Eicar FOUND"),
    );
    let broken = vec![UploadEvent::ScannerFound(true), exit(Some(2), "out", "no database")];
    refusal(
        feed(unscanned(), broken),
        ApiErrorCode::Internal,
        500,
        "clamscan failed",
        Some("exit_code=Some(2) stderr=no database"),
    );
    let killed = vec![UploadEvent::ScannerFound(true), exit(None, "", "")];
    refusal(
        feed(unscanned(), killed),
        ApiErrorCode::Internal,
        500,
        "clamscan failed",
        Some("exit_code=None stderr="),
    );
    let e = scan_verdict(Some(-1), text("r")).unwrap_err();
    assert_eq!(e.details, some("exit_code=Some(-1) stderr=r"));
    assert!(scan_verdict(Some(0), text("r")).is_ok());
}

#[test]
fn scanner_output_that_is_no_text_is_replaced() {
    let exit = ScanExit { code: Some(1), stdout: vec![b'a', 0xff, b'b'], stderr: vec![] };
    assert_eq!(scan_result(&exit).unwrap_err().details, some("a\u{fffd}b"));
    let exit = ScanExit { code: Some(3), stdout: vec![], stderr: "\u{e9}".as_bytes().to_vec() };
    assert_eq!(
        scan_result(&exit).unwrap_err().details,
        some("exit_code=Some(3) stderr=\u{e9}")
    );
}

#[test]
fn steps_take_their_own_answers_only() {
    assert!(!begun(1).can_take(&UploadEvent::FieldsDone));
    assert!(!begun(1).can_take(&UploadEvent::Id(text("1"))));
    let unnamed = feed(begun(1), vec![UploadEvent::Succeeded]);
    assert!(!unnamed.can_take(&UploadEvent::Succeeded));
    assert_eq!(waiting(1).temp_name(), Some("tmp-upload-1.bin"));
    assert!(!waiting(1).can_take(&UploadEvent::Succeeded));
    assert!(!waiting(1).can_take(&chunk(1)));
    assert!(!unscanned().can_take(&UploadEvent::Succeeded));
    let reading = feed(waiting(u64::MAX), vec![field("file", None, None)]);
    assert!(!reading.can_take(&UploadEvent::FieldsDone));
    let writing = feed(reading, vec![chunk(1)]);
    assert!(!writing.can_take(&chunk(1)));
    let reading = feed(writing, vec![UploadEvent::Succeeded]);
    assert!(reading.can_take(&chunk(1)));
}

#[test]
fn download_steps_take_their_own_answers_only() {
    let store = store_with_track("x");
    let opening = Download::begin(&store, "x").ok().unwrap();
    assert!(opening.can_take(&DownloadEvent::Failed(text("why"))));
    assert!(opening.can_take(&DownloadEvent::Succeeded));
    assert!(!opening.can_take(&DownloadEvent::EntriesDone));
    let reading = opening.advance(DownloadEvent::Succeeded);
    assert!(!reading.can_take(&DownloadEvent::Succeeded));
    assert!(reading.can_take(&DownloadEvent::EntriesDone));
    assert!(reading.can_take(&DownloadEvent::Entry(text("audio.mp3"))));
    let found = reading.advance(DownloadEvent::Entry(text("audio.mp3")));
    assert!(!found.can_take(&DownloadEvent::Entry(text("audio.mp3"))));
    assert!(found.can_take(&DownloadEvent::Succeeded));
    let answering = found.advance(DownloadEvent::Succeeded);
    assert!(!answering.can_take(&DownloadEvent::Succeeded));
}

#[test]
fn second_upload_replaces_audio_of_its_name() {
    let mut files = vec![(text("audio.mp3"), b"old".to_vec())];
    let form = vec![form_field("file", "b.mp3", &[b"new"])];
    let upload = carry_out(begun(3), form, 0, &mut files);
    assert!(matches!(upload.step(), UploadStep::Record));
    assert_eq!(files, vec![(text("audio.mp3"), b"new".to_vec())]);
}

#[test]
fn failing_downloads_are_reported() {
    let store = store_with_track("x");
    let begin = || Download::begin(&store, "x").ok().unwrap();
    let answer = |d: Download| {
        let e = d.into_answer().unwrap().unwrap_err();
        (e.status.number(), e.message, e.details)
    };
    assert!(begin().into_answer().is_none());
    let d = begin().advance(DownloadEvent::Failed(text("why")));
    assert_eq!(answer(d), (404, text("uploads missing: why"), None));
    let d = begin().advance(DownloadEvent::Succeeded).advance(DownloadEvent::Failed(text("why")));
    assert_eq!(answer(d), (500, text("failed reading upload dir"), some("why")));
    let d = begin()
        .advance(DownloadEvent::Succeeded)
        .advance(DownloadEvent::Entry(text("tmp-upload-1.bin")))
        .advance(DownloadEvent::EntriesDone);
    assert_eq!(answer(d), (404, text("audio not uploaded for this track"), None));
    let d = begin()
        .advance(DownloadEvent::Succeeded)
        .advance(DownloadEvent::Entry(text("audio.bin")))
        .advance(DownloadEvent::Failed(text("why")));
    assert_eq!(answer(d), (500, text("failed opening uploaded file"), some("why")));
}

#[test]
fn audio_of_unknown_type_is_served_as_bytes() {
    let store = store_with_track("x");
    let d = Download::begin(&store, "x")
        .ok()
        .unwrap()
        .advance(DownloadEvent::Succeeded)
        .advance(DownloadEvent::Entry(text("audio.bin")))
        .advance(DownloadEvent::Succeeded);
    let reply = d.into_answer().unwrap().unwrap();
    assert_eq!(reply.body.content_type, "application/octet-stream");
}

/// Carries out the steps of an upload on files in memory.
fn carry_out(
    upload: Upload,
    form: Vec<(FieldHead, Vec<Vec<u8>>)>,
    code: i32,
    files: &mut Vec<(String, Vec<u8>)>,
) -> Upload {
    let mut upload = upload;
    let mut fields = form.into_iter();
    let mut chunks = Vec::new().into_iter();
    let mut sent: Vec<u8> = Vec::new();
    loop {
        let temp = upload.temp_name().map(text);
        let event = match upload.step() {
            UploadStep::NameTemp => {
                upload = upload.name_temp();
                continue;
            }
            UploadStep::CreateTemp => {
                files.push((temp.unwrap(), Vec::new()));
                UploadEvent::Succeeded
            }
            UploadStep::NextField => match fields.next() {
                Some((head, content)) => {
                    chunks = content.into_iter();
                    UploadEvent::Field(head)
                }
                None => UploadEvent::FieldsDone,
            },
            UploadStep::NextChunk => match chunks.next() {
                Some(bytes) => {
                    sent.extend(&bytes);
                    UploadEvent::Chunk(bytes)
                }
                None => UploadEvent::ChunksDone,
            },
            UploadStep::WriteChunk(bytes) => {
                let temp = temp.unwrap();
                files.iter_mut().find(|f| f.0 == temp).unwrap().1.extend(bytes);
                UploadEvent::Succeeded
            }
            UploadStep::ProbeScanner => UploadEvent::ScannerFound(true),
            UploadStep::RunScanner => {
                let temp = temp.unwrap();
                let scanned = &files.iter().find(|f| f.0 == temp).unwrap().1;
                assert_eq!(*scanned, sent, "all of the upload is scanned");
                exit(Some(code), "", "")
            }
            UploadStep::Rename => {
                let temp = temp.unwrap();
                let name = upload.audio_file_name();
                files.retain(|f| f.0 != name);
                files.iter_mut().find(|f| f.0 == temp).unwrap().0 = name;
                UploadEvent::Succeeded
            }
            UploadStep::RemoveTemp(_) => {
                let temp = temp.unwrap();
                files.retain(|f| f.0 != temp);
                UploadEvent::Succeeded
            }
            UploadStep::Record | UploadStep::Reject(_) => break,
            UploadStep::CreateDir | UploadStep::Flush => UploadEvent::Succeeded,
        };
        assert!(upload.can_take(&event));
        upload = upload.advance(event);
    }
    upload
}

fn form_field(name: &str, file_name: &str, chunks: &[&[u8]]) -> (FieldHead, Vec<Vec<u8>>) {
    let head = FieldHead { name: some(name), file_name: some(file_name), content_type: None };
    (head, chunks.iter().map(|c| c.to_vec()).collect())
}

#[test]
fn stored_audio_is_the_chunks_of_the_file_fields_in_order() {
    let mut files = Vec::new();
    let form = vec![
        form_field("note", "n.txt", &[b"no"]),
        form_field("file", "a.ogg", &[b"ab", b"c"]),
        form_field("note", "n.txt", &[b"no"]),
        form_field("file", "../../etc/b.mp3", &[b"de"]),
    ];
    let upload = carry_out(begun(5), form, 0, &mut files);
    assert!(matches!(upload.step(), UploadStep::Record));
    assert_eq!(files, vec![(text("audio.mp3"), b"abcde".to_vec())]);

    let mut store = store_with_track("x");
    upload.record(&mut store).unwrap();
    let download = Download::begin(&store, "x").ok().unwrap().advance(DownloadEvent::Succeeded);
    let download = download.advance(DownloadEvent::Entry(files[0].0.clone()));
    let download = download.advance(DownloadEvent::Succeeded);
    assert!(matches!(download.step(), DownloadStep::Respond(name) if *name == files[0].0));
}

#[test]
fn refused_upload_leaves_the_audio_that_was_there() {
    let there = vec![(text("audio.mp3"), b"old".to_vec())];
    let mut files = there.clone();
    let form = vec![form_field("file", "a.mp3", &[b"ab", b"cd"])];
    let upload = carry_out(begun(3), form, 0, &mut files);
    assert_eq!(upload.into_refusal().unwrap().status, Status::PayloadTooLarge);
    assert_eq!(files, there);

    let form = vec![form_field("file", "a.mp3", &[b"ab"])];
    let upload = carry_out(begun(3), form, 1, &mut files);
    assert_eq!(upload.into_refusal().unwrap().status.number(), 422);
    assert_eq!(files[0], there[0]);
    assert!(files[1].0.starts_with("tmp-upload-"));
}

#[test]
fn scanner_commands() {
    assert_eq!(probe_command(), vec!["clamscan", "--version"]);
    assert_eq!(
        scan_command("uploads/tracks/x/tmp-upload-1.bin"),
        vec!["clamscan", "--no-summary", "--infected", "uploads/tracks/x/tmp-upload-1.bin"]
    );
}
