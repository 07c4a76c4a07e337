use std::cell::RefCell;
use std::collections::HashMap;

use remote_agent::files::{
    download_chunks, FileEntry, FileHandler, FileReply, FileRequest, FileSystem, UploadStep,
    UploadTable, DOWNLOAD_CHUNK_SIZE,
};
use remote_agent::listing::{comes_before, sort_entries};
use remote_agent::platform::PlatformError;
use remote_agent::protocol::{
    FileDeleteRequest, FileDownloadRequest, FileListRequest, FileUploadStart, Message,
    FILE_DELETE_REQ, FILE_DOWNLOAD_DATA, FILE_DOWNLOAD_REQ, FILE_LIST_REQ, FILE_UPLOAD_DATA,
    FILE_UPLOAD_START, HEARTBEAT,
};

struct MemoryFs {
    files: RefCell<HashMap<String, Vec<u8>>>,
    writes: RefCell<Vec<String>>,
}

impl MemoryFs {
    fn new() -> Self {
        MemoryFs { files: RefCell::new(HashMap::new()), writes: RefCell::new(Vec::new()) }
    }

    fn with(path: &str, data: Vec<u8>) -> Self {
        let fs = MemoryFs::new();
        fs.files.borrow_mut().insert(path.to_string(), data);
        fs
    }
}

fn entry(name: &str, is_dir: bool) -> FileEntry {
    FileEntry {
        name: name.to_string(),
        path: format!("/d/{}", name),
        is_dir,
        size: 0,
        modified: None,
        permissions: None,
    }
}

impl FileSystem for &MemoryFs {
    fn list_dir(&self, path: &str) -> Result<Vec<FileEntry>, PlatformError> {
        if path == "/d" {
            Ok(vec![entry("zeta", false), entry("Beta", true), entry("alpha", false), entry("apple", true)])
        } else {
            Err(PlatformError::new(format!("failed to read directory {}", path)))
        }
    }

    fn read_file(&self, path: &str) -> Result<Vec<u8>, PlatformError> {
        self.files
            .borrow()
            .get(path)
            .cloned()
            .ok_or_else(|| PlatformError::new(format!("failed to read file {}", path)))
    }

    fn write_file(&self, path: &str, data: &[u8]) -> Result<(), PlatformError> {
        if path.starts_with("/readonly") {
            return Err(PlatformError::new("read-only".to_string()));
        }
        self.writes.borrow_mut().push(path.to_string());
        self.files.borrow_mut().insert(path.to_string(), data.to_vec());
        Ok(())
    }

    fn delete(&self, path: &str) -> Result<(), PlatformError> {
        match self.files.borrow_mut().remove(path) {
            Some(_) => Ok(()),
            None => Err(PlatformError::new(format!("failed to delete file {}", path))),
        }
    }

    fn path_exists(&self, path: &str) -> bool {
        self.files.borrow().contains_key(path)
    }

    fn metadata(&self, path: &str) -> Result<FileEntry, PlatformError> {
        Ok(entry(path, false))
    }
}

fn data_payload(seq: u32, body: &[u8]) -> Vec<u8> {
    let mut p = seq.to_le_bytes().to_vec();
    p.extend_from_slice(body);
    p
}

fn assert_failure(reply: &FileReply, id: u32, text: &str) {
    match reply {
        FileReply::Result { request_id, success, error } => {
            assert_eq!(*request_id, id);
            assert!(!*success);
            assert_eq!(error.as_deref(), Some(text));
        }
        other => panic!("unexpected {:?}", other),
    }
}

#[test]
fn download_frame_count_follows_the_size() {
    // the largest payload less the two numbers
    assert_eq!(DOWNLOAD_CHUNK_SIZE, 65535 - 8);
    for (size, frames) in [
        (0usize, 1usize),
        (1, 1),
        (65527, 1),
        (65528, 2),
        (65536, 2),
        (131054, 2),
        (131055, 3),
        (200_000, 4),
    ] {
        let data: Vec<u8> = (0..size).map(|i| (i % 251) as u8).collect();
        let out = download_chunks(9, &data);
        assert_eq!(out.len(), frames, "size {}", size);
        let mut joined = Vec::new();
        for (i, m) in out.iter().enumerate() {
            assert_eq!(m.header.msg_type, FILE_DOWNLOAD_DATA);
            assert_eq!(m.header.channel, 0);
            assert_eq!(m.header.request_id, 9);
            assert_eq!(&m.payload[0..4], &(i as u32).to_le_bytes());
            assert_eq!(&m.payload[4..8], &(frames as u32).to_le_bytes());
            assert!(m.payload.len() - 8 <= 65536);
            // the length field counts the payload
            assert_eq!(m.header.length as usize, m.payload.len());
            joined.extend_from_slice(&m.payload[8..]);
        }
        assert_eq!(joined, data);
    }
}

#[test]
fn download_frames_decode_back_from_their_encoding() {
    let data: Vec<u8> = (0..65536usize).map(|i| (i % 253) as u8).collect();
    let out = download_chunks(4, &data);
    assert_eq!(out.len(), 2);
    assert_eq!(out[0].payload.len(), 65535);
    assert_eq!(out[1].payload.len(), 8 + 9);
    let mut stream = Vec::new();
    for m in &out {
        stream.extend_from_slice(&m.encode());
    }
    let mut at = 0;
    let mut joined = Vec::new();
    for m in &out {
        let (read, used) = Message::decode(&stream[at..]).unwrap().unwrap();
        assert_eq!(used, 9 + m.payload.len());
        assert_eq!(read.header.msg_type, FILE_DOWNLOAD_DATA);
        assert_eq!(read.header.request_id, 4);
        assert_eq!(read.payload, m.payload);
        joined.extend_from_slice(&read.payload[8..]);
        at += used;
    }
    assert_eq!(at, stream.len());
    assert_eq!(joined, data);
}

#[test]
fn empty_file_downloads_as_one_empty_chunk() {
    let out = download_chunks(1, &[]);
    assert_eq!(out.len(), 1);
    assert_eq!(out[0].payload, vec![0, 0, 0, 0, 1, 0, 0, 0]);
}

#[test]
fn upload_reassembly() {
    let fs = MemoryFs::new();
    let mut handler = FileHandler::new(&fs);
    let start = Message::control(FILE_UPLOAD_START, 42, b"{\"path\":\"/tmp/x\",\"size\":5}".to_vec());
    let replies = handler.handle_message(
        &start,
        FileRequest::UploadStart(FileUploadStart { path: "/tmp/x".to_string(), size: 5, checksum: None }),
    );
    assert_eq!(replies.len(), 1);
    assert!(matches!(
        &replies[0],
        FileReply::Result { request_id: 42, success: true, error: None }
    ));
    assert!(handler.has_pending(42));

    let first = Message::control(FILE_UPLOAD_DATA, 42, vec![0, 0, 0, 0, b'A', b'B']);
    assert!(handler.handle_message(&first, FileRequest::Absent).is_empty());
    assert!(fs.writes.borrow().is_empty());

    let second = Message::control(FILE_UPLOAD_DATA, 42, vec![1, 0, 0, 0, b'C', b'D', b'E']);
    let done = handler.handle_message(&second, FileRequest::Absent);
    assert_eq!(done.len(), 1);
    assert!(matches!(done[0], FileReply::UploadDone { request_id: 42 }));
    assert_eq!(fs.files.borrow().get("/tmp/x"), Some(&b"ABCDE".to_vec()));
    assert_eq!(fs.writes.borrow().len(), 1);
    assert!(!handler.has_pending(42));

    // a later frame finds no upload: no second completion
    let late = Message::control(FILE_UPLOAD_DATA, 42, vec![2, 0, 0, 0, b'F']);
    assert!(handler.handle_message(&late, FileRequest::Absent).is_empty());
    assert_eq!(fs.writes.borrow().len(), 1);
}

#[test]
fn upload_is_complete_whatever_the_chunking() {
    let body: Vec<u8> = (0..1000u32).map(|i| (i % 256) as u8).collect();
    for chunk in [1usize, 7, 333, 999, 1000, 5000] {
        let mut table = UploadTable::new();
        table.start(5, "/f".to_string(), body.len() as u64);
        let pieces: Vec<&[u8]> = body.chunks(chunk).collect();
        for (i, piece) in pieces.iter().enumerate() {
            let step = table.append(5, &data_payload(i as u32, piece));
            if i + 1 < pieces.len() {
                assert!(matches!(step, UploadStep::Pending));
                assert_eq!(table.received(5), Some(((i + 1) * chunk).min(body.len())));
            } else {
                match step {
                    UploadStep::Complete { path, data } => {
                        assert_eq!(path, "/f");
                        assert_eq!(data, body);
                    }
                    other => panic!("unexpected {:?}", other),
                }
            }
        }
        assert!(!table.contains(5));
        assert!(matches!(table.append(5, &data_payload(0, b"x")), UploadStep::Unknown));
    }
}

#[test]
fn upload_data_for_an_unknown_id_is_dropped() {
    let fs = MemoryFs::new();
    let mut handler = FileHandler::new(&fs);
    let stray = Message::control(FILE_UPLOAD_DATA, 77, vec![0, 0, 0, 0, 1, 2, 3]);
    assert!(handler.handle_message(&stray, FileRequest::Absent).is_empty());
    assert!(!handler.has_pending(77));
    // whatever the payload holds, even less than a sequence number
    for payload in [vec![], vec![0], vec![0, 0, 0], vec![0, 0, 0, 0]] {
        let stray = Message::control(FILE_UPLOAD_DATA, 77, payload);
        assert!(handler.handle_message(&stray, FileRequest::Absent).is_empty());
        assert!(!handler.has_pending(77));
    }
    assert!(fs.writes.borrow().is_empty());
    assert!(fs.files.borrow().is_empty());
    let mut table = UploadTable::new();
    assert!(matches!(table.append(1, &[]), UploadStep::Unknown));
    assert!(!table.contains(1));
}

#[test]
fn upload_data_without_sequence_number_is_refused() {
    let fs = MemoryFs::new();
    let mut handler = FileHandler::new(&fs);
    let start = Message::control(FILE_UPLOAD_START, 3, vec![]);
    let request = FileRequest::UploadStart(FileUploadStart { path: "/up".to_string(), size: 2, checksum: None });
    assert_eq!(handler.handle_message(&start, request).len(), 1);
    let short = Message::control(FILE_UPLOAD_DATA, 3, vec![0, 0, 0]);
    let replies = handler.handle_message(&short, FileRequest::Absent);
    assert_eq!(replies.len(), 1);
    assert_failure(&replies[0], 3, "FILE_UPLOAD_DATA payload too short");
    // the upload stays, and goes on
    assert!(handler.has_pending(3));
    let rest = Message::control(FILE_UPLOAD_DATA, 3, data_payload(0, b"ab"));
    assert!(matches!(
        &handler.handle_message(&rest, FileRequest::Absent)[..],
        [FileReply::UploadDone { request_id: 3 }]
    ));
    assert_eq!(fs.files.borrow().get("/up"), Some(&b"ab".to_vec()));
}

#[test]
fn upload_of_nothing_completes_with_the_first_data_frame() {
    let mut table = UploadTable::new();
    table.start(1, "/empty".to_string(), 0);
    assert_eq!(table.received(1), Some(0));
    match table.append(1, &[0, 0, 0, 0]) {
        UploadStep::Complete { path, data } => {
            assert_eq!(path, "/empty");
            assert!(data.is_empty());
        }
        other => panic!("unexpected {:?}", other),
    }
    table.start(2, "/a".to_string(), 10);
    assert!(matches!(table.append(2, &[0, 0]), UploadStep::TooShort));
    assert_eq!(table.received(2), Some(0));
    table.cancel(2);
    assert!(!table.contains(2));
    assert!(matches!(table.append(2, &[0, 0]), UploadStep::Unknown));
}

#[test]
fn failed_write_is_reported_under_the_request_id() {
    let fs = MemoryFs::new();
    let mut handler = FileHandler::new(&fs);
    handler.handle_upload_start(
        8,
        FileRequest::UploadStart(FileUploadStart {
            path: "/readonly/x".to_string(),
            size: 1,
            checksum: None,
        }),
    );
    let replies = handler.handle_upload_data_msg(8, &[0, 0, 0, 0, 9]);
    assert_eq!(replies.len(), 1);
    assert_failure(&replies[0], 8, "read-only");
    assert!(!handler.has_pending(8));
}

#[test]
fn download_through_the_handler() {
    let fs = MemoryFs::with("/big", vec![7u8; 70_000]);
    let mut handler = FileHandler::new(&fs);
    let request = Message::control(FILE_DOWNLOAD_REQ, 11, vec![]);
    let replies = handler.handle_message(
        &request,
        FileRequest::Download(FileDownloadRequest { path: "/big".to_string() }),
    );
    assert_eq!(replies.len(), 2);
    match (&replies[0], &replies[1]) {
        (FileReply::Frame(a), FileReply::Frame(b)) => {
            assert_eq!(a.payload.len(), 8 + 65527);
            assert_eq!(b.payload.len(), 8 + 70_000 - 65527);
            assert_eq!(a.header.length, 65535);
            assert_eq!(&b.payload[..8], &[1, 0, 0, 0, 2, 0, 0, 0]);
            assert_eq!(a.header.request_id, 11);
        }
        other => panic!("unexpected {:?}", other),
    }
    let missing = handler.handle_message(
        &request,
        FileRequest::Download(FileDownloadRequest { path: "/none".to_string() }),
    );
    assert_eq!(missing.len(), 1);
    assert_failure(&missing[0], 11, "failed to read file /none");
}

#[test]
fn listing_comes_back_sorted() {
    let fs = MemoryFs::new();
    let mut handler = FileHandler::new(&fs);
    let request = Message::control(FILE_LIST_REQ, 2, vec![]);
    let replies =
        handler.handle_message(&request, FileRequest::List(FileListRequest { path: "/d".to_string() }));
    match &replies[..] {
        [FileReply::List { request_id, entries }] => {
            assert_eq!(*request_id, 2);
            let names: Vec<&str> = entries.iter().map(|e| e.name.as_str()).collect();
            assert_eq!(names, vec!["apple", "Beta", "alpha", "zeta"]);
        }
        other => panic!("unexpected {:?}", other),
    }
    let failed =
        handler.handle_message(&request, FileRequest::List(FileListRequest { path: "/x".to_string() }));
    assert_failure(&failed[0], 2, "failed to read directory /x");
}

#[test]
fn delete_reports_success_or_the_failure() {
    let fs = MemoryFs::with("/gone", vec![1]);
    let mut handler = FileHandler::new(&fs);
    let request = Message::control(FILE_DELETE_REQ, 4, vec![]);
    let ok = handler
        .handle_message(&request, FileRequest::Delete(FileDeleteRequest { path: "/gone".to_string() }));
    assert!(matches!(&ok[..], [FileReply::Result { request_id: 4, success: true, error: None }]));
    assert!(!(&fs).path_exists("/gone"));
    let again = handler
        .handle_message(&request, FileRequest::Delete(FileDeleteRequest { path: "/gone".to_string() }));
    assert_failure(&again[0], 4, "failed to delete file /gone");
}

#[test]
fn unreadable_requests_are_answered_with_the_reason() {
    let fs = MemoryFs::new();
    let mut handler = FileHandler::new(&fs);
    for (kind, text) in [
        (FILE_LIST_REQ, "invalid FILE_LIST_REQ: missing field `path`"),
        (FILE_DOWNLOAD_REQ, "invalid FILE_DOWNLOAD_REQ: missing field `path`"),
        (FILE_UPLOAD_START, "invalid FILE_UPLOAD_START: missing field `path`"),
        (FILE_DELETE_REQ, "invalid FILE_DELETE_REQ: missing field `path`"),
    ] {
        let replies = handler.handle_message(
            &Message::control(kind, 6, b"{}".to_vec()),
            FileRequest::Invalid("missing field `path`".to_string()),
        );
        assert_eq!(replies.len(), 1);
        assert_failure(&replies[0], 6, text);
    }
    let absent = handler.handle_message(&Message::control(FILE_LIST_REQ, 6, vec![]), FileRequest::Absent);
    assert_failure(&absent[0], 6, "invalid FILE_LIST_REQ: ");
    assert!(handler
        .handle_message(&Message::control(HEARTBEAT, 6, vec![]), FileRequest::Absent)
        .is_empty());
}

#[test]
fn listings_put_directories_first_then_names_without_case() {
    let sorted = sort_entries(vec![
        entry("b.txt", false),
        entry("Zoo", true),
        entry("A.txt", false),
        entry("a", false),
        entry("docs", true),
        entry("Ä", false),
        entry("B", false),
    ]);
    let names: Vec<(&str, bool)> = sorted.iter().map(|e| (e.name.as_str(), e.is_dir)).collect();
    assert_eq!(
        names,
        vec![
            ("docs", true),
            ("Zoo", true),
            ("a", false),
            ("A.txt", false),
            ("B", false),
            ("b.txt", false),
            ("Ä", false),
        ]
    );
    assert!(comes_before(&entry("x", true), &entry("a", false)));
    assert!(!comes_before(&entry("a", false), &entry("x", true)));
    assert!(!comes_before(&entry("ABC", false), &entry("abc", false)));
    assert!(comes_before(&entry("ab", false), &entry("ABC", false)));
    assert!(sort_entries(vec![]).is_empty());
}
