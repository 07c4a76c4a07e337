//! The file transfer engine: chunked downloads, uploads that arrive in
//! several frames, listings and deletions, all correlated by request id.

use std::collections::HashMap;
use vstd::prelude::*;
use vstd::string::*;
use crate::listing::{listing_sorted, sort_entries};
use crate::platform::PlatformError;
use crate::protocol::{
    frame_of, FileDeleteRequest, FileDownloadRequest, FileListRequest, FileUploadStart, Frame,
    Message, FILE_DELETE_REQ, FILE_DOWNLOAD_DATA, FILE_DOWNLOAD_REQ, FILE_LIST_REQ,
    FILE_UPLOAD_DATA, FILE_UPLOAD_START,
};
use crate::reassembly::{
    all_well_formed, encode_all, frames_in, frames_of, lemma_frames_in_encode_all,
};
use crate::text::concat2;
use crate::wire::{put_u32_le, u32_le};

verus! {

broadcast use vstd::std_specs::hash::group_hash_axioms;

/// The most bytes of a file that one download frame carries: what the
/// largest payload, 65535 bytes, leaves behind the frame's two numbers.
pub const DOWNLOAD_CHUNK_SIZE: usize = 65527;

#[derive(Debug, Clone)]
pub struct FileEntry {
    pub name: String,
    pub path: String,
    pub is_dir: bool,
    pub size: u64,
    pub modified: Option<u64>,
    pub permissions: Option<String>,
}

/// The file system that the engine works on.
pub trait FileSystem {
    fn list_dir(&self, path: &str) -> Result<Vec<FileEntry>, PlatformError>;

    fn read_file(&self, path: &str) -> Result<Vec<u8>, PlatformError>;

    fn write_file(&self, path: &str, data: &[u8]) -> Result<(), PlatformError>;

    fn delete(&self, path: &str) -> Result<(), PlatformError>;

    fn path_exists(&self, path: &str) -> bool;

    fn metadata(&self, path: &str) -> Result<FileEntry, PlatformError>;
}

/// The number of download frames for a file of `len` bytes: one for each
/// started chunk, and one for an empty file.
pub open spec fn chunk_count(len: nat) -> nat {
    if len == 0 {
        1
    } else {
        (len + 65526) / 65527
    }
}

/// The bytes of chunk `i` of `data`.
pub open spec fn chunk_body(data: Seq<u8>, i: int) -> Seq<u8> {
    let end = if (i + 1) * 65527 < data.len() {
        (i + 1) * 65527
    } else {
        data.len() as int
    };
    data.subrange(i * 65527, end)
}

/// A count as it stands in a 32-bit field.
pub open spec fn field_u32(n: int) -> u32 {
    (n % 0x1_0000_0000) as u32
}

/// The payload of download frame `i`: its number, the number of frames, and
/// the chunk.
pub open spec fn chunk_payload(data: Seq<u8>, i: int) -> Seq<u8> {
    u32_le(field_u32(i)) + u32_le(field_u32(chunk_count(data.len()) as int)) + chunk_body(data, i)
}

/// The file bytes that download frames carry: what stands behind the two
/// numbers of each, one frame after the other.
pub open spec fn carried(frames: Seq<Frame>) -> Seq<u8>
    decreases frames.len(),
{
    if frames.len() == 0 {
        Seq::empty()
    } else {
        carried(frames.drop_last()) + frames.last().payload.skip(8)
    }
}

/// The download frames for `data`, in order.
pub open spec fn download_frames(request_id: u32, data: Seq<u8>) -> Seq<Frame> {
    Seq::new(
        chunk_count(data.len()),
        |i: int| frame_of(FILE_DOWNLOAD_DATA, 0, request_id, chunk_payload(data, i)),
    )
}

/// The download message number `i` for `data`.
fn chunk_message(request_id: u32, data: &[u8], i: usize) -> (m: Message)
    requires
        i < chunk_count(data@.len()),
    ensures
        m@ == download_frames(request_id, data@)[i as int],
        m@.well_formed(),
{
    let len = data.len();
    let total = chunks_of(data);
    let start: usize = i * DOWNLOAD_CHUNK_SIZE;
    let end: usize = if len - start > DOWNLOAD_CHUNK_SIZE {
        start + DOWNLOAD_CHUNK_SIZE
    } else {
        len
    };
    let mut payload: Vec<u8> = Vec::new();
    put_u32_le(&mut payload, (i as u64 % 0x1_0000_0000) as u32);
    put_u32_le(&mut payload, (total as u64 % 0x1_0000_0000) as u32);
    payload.extend_from_slice(vstd::slice::slice_subrange(data, start, end));
    proof {
        assert(payload@ =~= chunk_payload(data@, i as int));
        assert(payload@.len() <= 65535);
    }
    Message::new(FILE_DOWNLOAD_DATA, 0, request_id, payload)
}

fn chunks_of(data: &[u8]) -> (total: usize)
    ensures
        total == chunk_count(data@.len()),
{
    let len = data.len();
    if len == 0 {
        1
    } else if len % DOWNLOAD_CHUNK_SIZE == 0 {
        len / DOWNLOAD_CHUNK_SIZE
    } else {
        len / DOWNLOAD_CHUNK_SIZE + 1
    }
}

/// The `FILE_DOWNLOAD_DATA` messages that carry `data`: chunks in order,
/// each as long as a payload allows, each behind its number and the number
/// of chunks; one message without bytes for an empty file. Every message
/// fits the length field, and together they carry the file.
pub fn download_chunks(request_id: u32, data: &[u8]) -> (out: Vec<Message>)
    ensures
        frames_of(out@) == download_frames(request_id, data@),
        out@.len() == chunk_count(data@.len()),
        all_well_formed(frames_of(out@)),
        carried(frames_of(out@)) == data@,
{
    let total = chunks_of(data);
    let mut out: Vec<Message> = Vec::new();
    let mut i: usize = 0;
    while i < total
        invariant
            i <= total,
            total == chunk_count(data@.len()),
            frames_of(out@) == download_frames(request_id, data@).take(i as int),
        decreases total - i,
    {
        let msg = chunk_message(request_id, data, i);
        let ghost before = frames_of(out@);
        out.push(msg);
        proof {
            let all = download_frames(request_id, data@);
            assert(frames_of(out@) =~= before.push(msg@));
            assert(all.take(i + 1) =~= all.take(i as int).push(all[i as int]));
        }
        i += 1;
    }
    proof {
        let all = download_frames(request_id, data@);
        assert(all.take(total as int) =~= all);
        assert(frames_of(out@).len() == out@.len());
        lemma_download_well_formed(request_id, data@);
        lemma_download_carries_file(request_id, data@);
    }
    out
}

/// Every download frame is well formed: its length field counts its
/// payload, so that decoding its encoding gives the frame back.
pub proof fn lemma_download_well_formed(request_id: u32, data: Seq<u8>)
    ensures
        all_well_formed(download_frames(request_id, data)),
        frames_in(encode_all(download_frames(request_id, data))) == download_frames(
            request_id,
            data,
        ),
{
    let frames = download_frames(request_id, data);
    assert forall|i: int| 0 <= i < frames.len() implies (#[trigger] frames[i]).well_formed() by {
        assert(frames[i].payload == chunk_payload(data, i));
        assert(chunk_body(data, i).len() <= 65527);
        assert(frames[i].payload.len() <= 65535);
    }
    lemma_frames_in_encode_all(frames);
}

/// The first `k` download frames carry the first `k` chunks of the file.
proof fn lemma_download_carries_prefix(request_id: u32, data: Seq<u8>, k: int)
    requires
        0 <= k <= chunk_count(data.len()),
    ensures
        carried(download_frames(request_id, data).take(k)) == data.subrange(
            0,
            if k * 65527 < data.len() {
                k * 65527
            } else {
                data.len() as int
            },
        ),
    decreases k,
{
    let frames = download_frames(request_id, data);
    let head = frames.take(k);
    if k == 0 {
        assert(carried(head) =~= data.subrange(0, 0));
    } else {
        lemma_download_carries_prefix(request_id, data, k - 1);
        assert(head.drop_last() =~= frames.take(k - 1));
        assert(head.last() == frames[k - 1]);
        assert(frames[k - 1].payload.skip(8) =~= chunk_body(data, k - 1));
        let end = if k * 65527 < data.len() {
            k * 65527
        } else {
            data.len() as int
        };
        assert((k - 1) * 65527 <= data.len());
        assert(data.subrange(0, (k - 1) * 65527) + data.subrange((k - 1) * 65527, end)
            =~= data.subrange(0, end));
    }
}

/// The download frames carry the file: the bytes behind their numbers,
/// one frame after the other, are the file's bytes, complete and in order.
pub proof fn lemma_download_carries_file(request_id: u32, data: Seq<u8>)
    ensures
        carried(download_frames(request_id, data)) == data,
{
    let frames = download_frames(request_id, data);
    let k = chunk_count(data.len()) as int;
    lemma_download_carries_prefix(request_id, data, k);
    assert(frames.take(k) =~= frames);
    assert(data.subrange(0, data.len() as int) =~= data);
}

/// Every download frame carries the same count, and the frames are numbered
/// from zero in order.
pub proof fn lemma_download_numbering(request_id: u32, data: Seq<u8>, i: int)
    requires
        0 <= i < chunk_count(data.len()),
    ensures
        download_frames(request_id, data).len() == chunk_count(data.len()),
        download_frames(request_id, data)[i].header.msg_type == FILE_DOWNLOAD_DATA,
        download_frames(request_id, data)[i].header.request_id == request_id,
        download_frames(request_id, data)[i].payload.subrange(0, 4) == u32_le(field_u32(i)),
        download_frames(request_id, data)[i].payload.subrange(4, 8) == u32_le(
            field_u32(chunk_count(data.len()) as int),
        ),
        download_frames(request_id, data)[i].payload.skip(8) == chunk_body(data, i),
        data.len() == 0 ==> chunk_body(data, i).len() == 0,
{
    let p = download_frames(request_id, data)[i].payload;
    assert(p == chunk_payload(data, i));
    assert(p.subrange(0, 4) =~= u32_le(field_u32(i)));
    assert(p.subrange(4, 8) =~= u32_le(field_u32(chunk_count(data.len()) as int)));
    assert(p.skip(8) =~= chunk_body(data, i));
}

/// An upload that has been announced and not yet arrived completely.
#[derive(Debug)]
pub struct PendingUpload {
    pub path: String,
    pub data: Vec<u8>,
    pub expected_size: u64,
}

pub struct PendingView {
    pub path: Seq<char>,
    pub data: Seq<u8>,
    pub expected_size: u64,
}

impl View for PendingUpload {
    type V = PendingView;

    open spec fn view(&self) -> PendingView {
        PendingView { path: self.path@, data: self.data@, expected_size: self.expected_size }
    }
}

/// What a `FILE_UPLOAD_DATA` frame led to.
#[derive(Debug)]
pub enum UploadStep {
    /// The payload is shorter than its sequence number.
    TooShort,
    /// No upload is registered under the request id: the frame is dropped.
    Unknown,
    /// The bytes were appended; more are expected.
    Pending,
    /// The upload is complete: write `data` to `path`.
    Complete { path: String, data: Vec<u8> },
}

pub enum UploadStepView {
    TooShort,
    Unknown,
    Pending,
    Complete { path: Seq<char>, data: Seq<u8> },
}

impl View for UploadStep {
    type V = UploadStepView;

    open spec fn view(&self) -> UploadStepView {
        match self {
            UploadStep::TooShort => UploadStepView::TooShort,
            UploadStep::Unknown => UploadStepView::Unknown,
            UploadStep::Pending => UploadStepView::Pending,
            UploadStep::Complete { path, data } => UploadStepView::Complete {
                path: path@,
                data: data@,
            },
        }
    }
}

/// The pending uploads as a mathematical value, by request id.
pub type UploadsView = Map<u32, PendingView>;

/// The step that a data frame with `payload` takes for request `id`. The
/// id is looked up first: a frame for an id without an upload is dropped,
/// whatever it holds.
pub open spec fn upload_step(t: UploadsView, id: u32, payload: Seq<u8>) -> UploadStepView {
    if !t.contains_key(id) {
        UploadStepView::Unknown
    } else if payload.len() < 4 {
        UploadStepView::TooShort
    } else {
        let data = t[id].data + payload.skip(4);
        if data.len() >= t[id].expected_size {
            UploadStepView::Complete { path: t[id].path, data }
        } else {
            UploadStepView::Pending
        }
    }
}

/// The pending uploads after that step.
pub open spec fn uploads_after(t: UploadsView, id: u32, payload: Seq<u8>) -> UploadsView {
    match upload_step(t, id, payload) {
        UploadStepView::TooShort => t,
        UploadStepView::Unknown => t,
        UploadStepView::Pending => t.insert(
            id,
            PendingView { data: t[id].data + payload.skip(4), ..t[id] },
        ),
        UploadStepView::Complete { .. } => t.remove(id),
    }
}

/// The pending uploads by request id.
pub struct UploadTable {
    pending: HashMap<u32, PendingUpload>,
}

impl View for UploadTable {
    type V = UploadsView;

    closed spec fn view(&self) -> UploadsView {
        self.pending@.map_values(|p: PendingUpload| p@)
    }
}

impl UploadTable {
    pub fn new() -> (t: Self)
        ensures
            t@ == Map::<u32, PendingView>::empty(),
    {
        let t = UploadTable { pending: HashMap::new() };
        proof {
            assert(t@ =~= Map::<u32, PendingView>::empty());
        }
        t
    }

    /// Whether an upload is registered under `id`.
    pub fn contains(&self, id: u32) -> (r: bool)
        ensures
            r == self@.contains_key(id),
    {
        self.pending.contains_key(&id)
    }

    /// The number of bytes that have arrived for `id`.
    pub fn received(&self, id: u32) -> (r: Option<usize>)
        ensures
            r is Some <==> self@.contains_key(id),
            r matches Some(n) ==> n == self@[id].data.len(),
    {
        match self.pending.get(&id) {
            Some(p) => Some(p.data.len()),
            None => None,
        }
    }

    /// Registers an upload of `expected_size` bytes to `path` under `id`. An
    /// upload that was registered there before is forgotten.
    pub fn start(&mut self, id: u32, path: String, expected_size: u64)
        ensures
            final(self)@ == old(self)@.insert(
                id,
                PendingView { path: path@, data: Seq::empty(), expected_size },
            ),
    {
        self.pending.insert(id, PendingUpload { path, data: Vec::new(), expected_size });
        proof {
            assert(self@ =~= old(self)@.insert(
                id,
                PendingView { path: path@, data: Seq::empty(), expected_size },
            ));
        }
    }

    /// Takes in the payload of a data frame for `id`: a sequence number of
    /// four bytes, then bytes of the file. The bytes join those that arrived
    /// earlier; the upload is complete, and forgotten here, once as many are
    /// there as were announced.
    pub fn append(&mut self, id: u32, payload: &[u8]) -> (step: UploadStep)
        ensures
            step@ == upload_step(old(self)@, id, payload@),
            final(self)@ == uploads_after(old(self)@, id, payload@),
    {
        let ghost old_map = self.pending@;
        assert(old(self)@.dom() =~= old_map.dom());
        if !self.pending.contains_key(&id) {
            return UploadStep::Unknown;
        }
        if payload.len() < 4 {
            return UploadStep::TooShort;
        }
        match self.pending.remove(&id) {
            None => {
                proof {
                    assert(self.pending@ =~= old_map);
                    assert(!old(self)@.contains_key(id));
                }
                UploadStep::Unknown
            },
            Some(mut upload) => {
                let ghost before = upload@;
                proof {
                    assert(old_map.contains_key(id) && old_map[id] == upload);
                    assert(old(self)@.contains_key(id));
                    assert(before == old(self)@[id]);
                    assert(self.pending@ == old_map.remove(id));
                }
                upload.data.extend_from_slice(
                    vstd::slice::slice_subrange(payload, 4, payload.len()),
                );
                proof {
                    assert(payload@.subrange(4, payload@.len() as int) =~= payload@.skip(4));
                    assert(upload.data@ == before.data + payload@.skip(4));
                }
                if upload.data.len() as u64 >= upload.expected_size {
                    proof {
                        assert(self@ =~= old(self)@.remove(id));
                    }
                    UploadStep::Complete { path: upload.path, data: upload.data }
                } else {
                    let ghost updated = upload@;
                    self.pending.insert(id, upload);
                    proof {
                        assert(self.pending@ =~= old_map.insert(id, upload));
                        assert(self@ =~= old(self)@.insert(id, updated));
                    }
                    UploadStep::Pending
                }
            },
        }
    }

    /// Forgets the upload under `id`, as on a cancel or a timeout.
    pub fn cancel(&mut self, id: u32)
        ensures
            final(self)@ == old(self)@.remove(id),
    {
        self.pending.remove(&id);
        proof {
            assert(self@ =~= old(self)@.remove(id));
        }
    }
}

/// The chunk bodies of data payloads, one after the other.
pub open spec fn bodies(payloads: Seq<Seq<u8>>) -> Seq<u8>
    decreases payloads.len(),
{
    if payloads.len() == 0 {
        Seq::empty()
    } else {
        bodies(payloads.drop_last()) + payloads.last().skip(4)
    }
}

/// The pending uploads after the data frames `payloads` for `id`, in order.
pub open spec fn uploads_after_all(t: UploadsView, id: u32, payloads: Seq<Seq<u8>>) -> UploadsView
    decreases payloads.len(),
{
    if payloads.len() == 0 {
        t
    } else {
        uploads_after(uploads_after_all(t, id, payloads.drop_last()), id, payloads.last())
    }
}

/// While fewer bytes have arrived than were announced, whatever the chunking,
/// the upload stays pending and holds the chunk bodies in order.
pub proof fn lemma_upload_accumulates(t: UploadsView, id: u32, payloads: Seq<Seq<u8>>)
    requires
        t.contains_key(id),
        t[id].data.len() == 0,
        forall|i: int| 0 <= i < payloads.len() ==> (#[trigger] payloads[i]).len() >= 4,
        bodies(payloads).len() < t[id].expected_size,
    ensures
        uploads_after_all(t, id, payloads).contains_key(id),
        uploads_after_all(t, id, payloads)[id] == (PendingView { data: bodies(payloads), ..t[id] }),
        forall|k: int|
            0 <= k < payloads.len() ==> #[trigger] upload_step(
                uploads_after_all(t, id, payloads.take(k)),
                id,
                payloads[k],
            ) is Pending,
    decreases payloads.len(),
{
    if payloads.len() == 0 {
        assert(t[id].data =~= bodies(payloads));
    } else {
        let head = payloads.drop_last();
        assert(bodies(head).len() <= bodies(payloads).len());
        lemma_upload_accumulates(t, id, head);
        let mid = uploads_after_all(t, id, head);
        assert(mid[id].data + payloads.last().skip(4) =~= bodies(payloads));
        assert forall|k: int| 0 <= k < payloads.len() implies #[trigger] upload_step(
            uploads_after_all(t, id, payloads.take(k)),
            id,
            payloads[k],
        ) is Pending by {
            if k < head.len() {
                assert(payloads.take(k) =~= head.take(k));
                assert(payloads[k] == head[k]);
            } else {
                assert(payloads.take(k) =~= head);
            }
        }
    }
}

/// The frame that brings the bytes up to the announced size completes the
/// upload with exactly the chunk bodies in order, and forgets it: a later
/// data frame for the same id finds no upload.
pub proof fn lemma_upload_completes(t: UploadsView, id: u32, payloads: Seq<Seq<u8>>, last: Seq<u8>)
    requires
        t.contains_key(id),
        t[id].data.len() == 0,
        forall|i: int| 0 <= i < payloads.len() ==> (#[trigger] payloads[i]).len() >= 4,
        last.len() >= 4,
        bodies(payloads).len() < t[id].expected_size,
        bodies(payloads.push(last)).len() >= t[id].expected_size,
    ensures
        upload_step(uploads_after_all(t, id, payloads), id, last) == (UploadStepView::Complete {
            path: t[id].path,
            data: bodies(payloads.push(last)),
        }),
        !uploads_after_all(t, id, payloads.push(last)).contains_key(id),
        forall|more: Seq<u8>| #[trigger]
            upload_step(uploads_after_all(t, id, payloads.push(last)), id, more) is Unknown,
{
    lemma_upload_accumulates(t, id, payloads);
    assert(payloads.push(last).drop_last() =~= payloads);
}

/// A data frame for an id without a registered upload is dropped, whatever
/// its payload: it registers nothing, and it gets no reply.
pub proof fn lemma_unknown_upload_dropped(t: UploadsView, frame: Frame, request: FileRequest)
    requires
        frame.header.msg_type == FILE_UPLOAD_DATA,
        !t.contains_key(frame.header.request_id),
    ensures
        upload_step(t, frame.header.request_id, frame.payload) is Unknown,
        uploads_after(t, frame.header.request_id, frame.payload) == t,
        file_uploads_after(t, frame, request) == t,
        plain_replies(t, frame, request) == Some(Seq::<FileReplyView>::empty()),
{
}

/// The JSON request of a file frame, as the host has read it.
#[derive(Debug)]
pub enum FileRequest {
    /// The frame carries no JSON request.
    Absent,
    List(FileListRequest),
    Download(FileDownloadRequest),
    UploadStart(FileUploadStart),
    Delete(FileDeleteRequest),
    /// The payload could not be read; holds the reason.
    Invalid(String),
}

/// One reply of the engine. The host puts the JSON replies into frames of
/// the type that the variant names, under the request id.
#[derive(Debug)]
pub enum FileReply {
    /// `FILE_LIST_RESP` with the entries as its JSON payload.
    List { request_id: u32, entries: Vec<FileEntry> },
    /// A frame that is ready to send.
    Frame(Message),
    /// `FILE_RESULT` with `success` and `error` as its JSON payload.
    Result { request_id: u32, success: bool, error: Option<String> },
    /// `FILE_UPLOAD_DONE` with success as its JSON payload.
    UploadDone { request_id: u32 },
}

pub enum FileReplyView {
    List { request_id: u32, entries: Seq<FileEntry> },
    Frame(Frame),
    Result { request_id: u32, success: bool, error: Option<Seq<char>> },
    UploadDone { request_id: u32 },
}

impl View for FileReply {
    type V = FileReplyView;

    open spec fn view(&self) -> FileReplyView {
        match self {
            FileReply::List { request_id, entries } => FileReplyView::List {
                request_id: *request_id,
                entries: entries@,
            },
            FileReply::Frame(m) => FileReplyView::Frame(m@),
            FileReply::Result { request_id, success, error } => FileReplyView::Result {
                request_id: *request_id,
                success: *success,
                error: match error {
                    Some(e) => Some(e@),
                    None => None,
                },
            },
            FileReply::UploadDone { request_id } => FileReplyView::UploadDone {
                request_id: *request_id,
            },
        }
    }
}

pub open spec fn reply_views(replies: Seq<FileReply>) -> Seq<FileReplyView> {
    replies.map_values(|r: FileReply| r@)
}

/// The failure reply under `request_id` with `error` as its reason.
pub open spec fn failure(request_id: u32, error: Seq<char>) -> FileReplyView {
    FileReplyView::Result { request_id, success: false, error: Some(error) }
}

/// The success reply under `request_id`.
pub open spec fn success(request_id: u32) -> FileReplyView {
    FileReplyView::Result { request_id, success: true, error: None }
}

/// The reason why a request could not be read, empty where the host gave none.
pub open spec fn invalid_reason(request: FileRequest) -> Seq<char> {
    match request {
        FileRequest::Invalid(reason) => reason@,
        _ => Seq::empty(),
    }
}

/// The pending uploads after a file frame.
pub open spec fn file_uploads_after(t: UploadsView, frame: Frame, request: FileRequest) -> UploadsView {
    let id = frame.header.request_id;
    if frame.header.msg_type == FILE_UPLOAD_START {
        match request {
            FileRequest::UploadStart(req) => t.insert(
                id,
                PendingView { path: req.path@, data: Seq::empty(), expected_size: req.size },
            ),
            _ => t,
        }
    } else if frame.header.msg_type == FILE_UPLOAD_DATA {
        uploads_after(t, id, frame.payload)
    } else {
        t
    }
}

/// The replies to a file frame where the file system has no say, or `None`
/// where the file system decides.
pub open spec fn plain_replies(t: UploadsView, frame: Frame, request: FileRequest) -> Option<
    Seq<FileReplyView>,
> {
    let id = frame.header.request_id;
    let kind = frame.header.msg_type;
    if kind == FILE_LIST_REQ {
        if request is List {
            None
        } else {
            Some(seq![failure(id, "invalid FILE_LIST_REQ: "@ + invalid_reason(request))])
        }
    } else if kind == FILE_DOWNLOAD_REQ {
        if request is Download {
            None
        } else {
            Some(seq![failure(id, "invalid FILE_DOWNLOAD_REQ: "@ + invalid_reason(request))])
        }
    } else if kind == FILE_UPLOAD_START {
        if request is UploadStart {
            Some(seq![success(id)])
        } else {
            Some(seq![failure(id, "invalid FILE_UPLOAD_START: "@ + invalid_reason(request))])
        }
    } else if kind == FILE_UPLOAD_DATA {
        match upload_step(t, id, frame.payload) {
            UploadStepView::TooShort => Some(
                seq![failure(id, "FILE_UPLOAD_DATA payload too short"@)],
            ),
            UploadStepView::Unknown => Some(Seq::empty()),
            UploadStepView::Pending => Some(Seq::empty()),
            UploadStepView::Complete { .. } => None,
        }
    } else if kind == FILE_DELETE_REQ {
        if request is Delete {
            None
        } else {
            Some(seq![failure(id, "invalid FILE_DELETE_REQ: "@ + invalid_reason(request))])
        }
    } else {
        Some(Seq::empty())
    }
}

/// The download frames for `data` as replies.
pub open spec fn download_replies(request_id: u32, data: Seq<u8>) -> Seq<FileReplyView> {
    download_frames(request_id, data).map_values(|f: Frame| FileReplyView::Frame(f))
}

/// The replies to a listing for which the file system answered `served`:
/// its entries in the order of listings, or its failure.
pub open spec fn list_replies(
    request_id: u32,
    served: Result<Vec<FileEntry>, PlatformError>,
    replies: Seq<FileReplyView>,
) -> bool {
    match served {
        Ok(found) => replies.len() == 1 && (replies[0] matches FileReplyView::List {
            request_id: id,
            entries,
        } && id == request_id && listing_sorted(entries) && entries.to_multiset()
            == found@.to_multiset()),
        Err(e) => replies == seq![failure(request_id, e.message@)],
    }
}

/// The replies to a download for which the file system answered `served`:
/// the download frames of the bytes it read, or its failure.
pub open spec fn read_replies(
    request_id: u32,
    served: Result<Vec<u8>, PlatformError>,
    replies: Seq<FileReplyView>,
) -> bool {
    match served {
        Ok(data) => replies == download_replies(request_id, data@),
        Err(e) => replies == seq![failure(request_id, e.message@)],
    }
}

/// The replies to a complete upload for which the file system answered
/// `served`: the completion, or its failure.
pub open spec fn write_replies(
    request_id: u32,
    served: Result<(), PlatformError>,
    replies: Seq<FileReplyView>,
) -> bool {
    match served {
        Ok(_) => replies == seq![FileReplyView::UploadDone { request_id }],
        Err(e) => replies == seq![failure(request_id, e.message@)],
    }
}

/// The replies to a deletion for which the file system answered `served`:
/// success, or its failure.
pub open spec fn delete_replies(
    request_id: u32,
    served: Result<(), PlatformError>,
    replies: Seq<FileReplyView>,
) -> bool {
    match served {
        Ok(_) => replies == seq![success(request_id)],
        Err(e) => replies == seq![failure(request_id, e.message@)],
    }
}

/// `fs` was asked to list `path`, and `replies` report what it answered.
pub open spec fn list_decided<F: FileSystem>(
    fs: F,
    path: Seq<char>,
    request_id: u32,
    replies: Seq<FileReplyView>,
) -> bool {
    exists|p: &str, served: Result<Vec<FileEntry>, PlatformError>|
        p@ == path && #[trigger] call_ensures(F::list_dir, (&fs, p), served) && list_replies(
            request_id,
            served,
            replies,
        )
}

/// `fs` was asked to read `path`, and `replies` report what it answered.
pub open spec fn download_decided<F: FileSystem>(
    fs: F,
    path: Seq<char>,
    request_id: u32,
    replies: Seq<FileReplyView>,
) -> bool {
    exists|p: &str, served: Result<Vec<u8>, PlatformError>|
        p@ == path && #[trigger] call_ensures(F::read_file, (&fs, p), served) && read_replies(
            request_id,
            served,
            replies,
        )
}

/// `fs` was asked to write `data` to `path`, and `replies` report what it
/// answered.
pub open spec fn upload_decided<F: FileSystem>(
    fs: F,
    path: Seq<char>,
    data: Seq<u8>,
    request_id: u32,
    replies: Seq<FileReplyView>,
) -> bool {
    exists|p: &str, d: &[u8], served: Result<(), PlatformError>|
        p@ == path && d@ == data && #[trigger] call_ensures(F::write_file, (&fs, p, d), served)
            && write_replies(request_id, served, replies)
}

/// `fs` was asked to delete `path`, and `replies` report what it answered.
pub open spec fn delete_decided<F: FileSystem>(
    fs: F,
    path: Seq<char>,
    request_id: u32,
    replies: Seq<FileReplyView>,
) -> bool {
    exists|p: &str, served: Result<(), PlatformError>|
        p@ == path && #[trigger] call_ensures(F::delete, (&fs, p), served) && delete_replies(
            request_id,
            served,
            replies,
        )
}

/// What the replies to a file frame are where the file system decides: it
/// was asked for what the frame names, once, and the replies report its
/// answer.
pub open spec fn decided_replies<F: FileSystem>(
    fs: F,
    t: UploadsView,
    frame: Frame,
    request: FileRequest,
    replies: Seq<FileReplyView>,
) -> bool {
    let id = frame.header.request_id;
    let kind = frame.header.msg_type;
    if kind == FILE_LIST_REQ {
        request matches FileRequest::List(req) && list_decided(fs, req.path@, id, replies)
    } else if kind == FILE_DOWNLOAD_REQ {
        request matches FileRequest::Download(req) && download_decided(fs, req.path@, id, replies)
    } else if kind == FILE_UPLOAD_DATA {
        upload_step(t, id, frame.payload) matches UploadStepView::Complete { path, data }
            && upload_decided(fs, path, data, id, replies)
    } else if kind == FILE_DELETE_REQ {
        request matches FileRequest::Delete(req) && delete_decided(fs, req.path@, id, replies)
    } else {
        false
    }
}

/// The replies to a download are as many frames as the file has started
/// chunks, one for an empty file; each is a well-formed `FILE_DOWNLOAD_DATA`
/// frame on channel 0 under the request id.
pub proof fn lemma_download_replies_shape(request_id: u32, data: Seq<u8>, i: int)
    requires
        0 <= i < chunk_count(data.len()),
    ensures
        download_replies(request_id, data).len() == chunk_count(data.len()),
        chunk_count(data.len()) >= 1,
        chunk_count(data.len()) * 65527 >= data.len(),
        data.len() > 0 ==> (chunk_count(data.len()) - 1) * 65527 < data.len(),
        download_replies(request_id, data)[i] == FileReplyView::Frame(
            download_frames(request_id, data)[i],
        ),
        download_replies(request_id, data)[i] matches FileReplyView::Frame(f)
            && f.header.msg_type == FILE_DOWNLOAD_DATA && f.header.channel == 0
            && f.header.request_id == request_id && f.payload == chunk_payload(data, i)
            && f.well_formed() && f.payload.len() <= 65535,
{
    lemma_download_well_formed(request_id, data);
}

fn single_reply(reply: FileReply) -> (out: Vec<FileReply>)
    ensures
        reply_views(out@) == seq![reply@],
{
    let mut out: Vec<FileReply> = Vec::new();
    out.push(reply);
    proof {
        assert(reply_views(out@) =~= seq![reply@]);
    }
    out
}

fn no_reply() -> (out: Vec<FileReply>)
    ensures
        reply_views(out@) == Seq::<FileReplyView>::empty(),
        out@.len() == 0,
{
    let out: Vec<FileReply> = Vec::new();
    proof {
        assert(reply_views(out@) =~= Seq::<FileReplyView>::empty());
    }
    out
}

fn invalid_reply(request_id: u32, what: &str, request: FileRequest) -> (out: Vec<FileReply>)
    ensures
        reply_views(out@) == seq![failure(request_id, what@ + invalid_reason(request))],
{
    let text = match request {
        FileRequest::Invalid(reason) => concat2(what, reason.as_str()),
        _ => {
            proof {
                assert(what@ + Seq::<char>::empty() =~= what@);
            }
            String::from_str(what)
        },
    };
    failure_reply(request_id, text)
}

fn failure_reply(request_id: u32, text: String) -> (out: Vec<FileReply>)
    ensures
        reply_views(out@) == seq![failure(request_id, text@)],
{
    single_reply(FileReply::Result { request_id, success: false, error: Some(text) })
}

fn success_reply(request_id: u32) -> (out: Vec<FileReply>)
    ensures
        reply_views(out@) == seq![success(request_id)],
{
    single_reply(FileReply::Result { request_id, success: true, error: None })
}

fn download_reply_list(request_id: u32, data: &[u8]) -> (out: Vec<FileReply>)
    ensures
        reply_views(out@) == download_replies(request_id, data@),
{
    let messages = download_chunks(request_id, data);
    let mut out: Vec<FileReply> = Vec::new();
    for m in it: messages
        invariant
            it.seq() == messages@,
            frames_of(messages@) == download_frames(request_id, data@),
            reply_views(out@) == download_replies(request_id, data@).take(it.index() as int),
    {
        let ghost before = reply_views(out@);
        let ghost at = it.index() as int;
        proof {
            let all = download_replies(request_id, data@);
            assert(frames_of(messages@)[at] == m@);
            assert(all.take(at + 1) =~= all.take(at).push(all[at]));
        }
        out.push(FileReply::Frame(m));
        proof {
            assert(reply_views(out@) =~= before.push(FileReplyView::Frame(m@)));
        }
    }
    proof {
        let all = download_replies(request_id, data@);
        assert(frames_of(messages@).len() == messages@.len());
        assert(all.take(messages@.len() as int) =~= all);
    }
    out
}

/// Handles the file frames. The file system is the caller's.
pub struct FileHandler<F: FileSystem> {
    fs: F,
    uploads: UploadTable,
}

impl<F: FileSystem> FileHandler<F> {
    /// The pending uploads.
    pub closed spec fn uploads(&self) -> UploadsView {
        self.uploads@
    }

    /// The file system that the handler asks.
    pub closed spec fn file_system(&self) -> F {
        self.fs
    }

    pub fn new(fs: F) -> (h: Self)
        ensures
            h.uploads() == Map::<u32, PendingView>::empty(),
            h.file_system() == fs,
    {
        FileHandler { fs, uploads: UploadTable::new() }
    }

    /// Whether an upload is pending under `request_id`.
    pub fn has_pending(&self, request_id: u32) -> (r: bool)
        ensures
            r == self.uploads().contains_key(request_id),
    {
        self.uploads.contains(request_id)
    }

    /// Serves one file frame and returns the replies, in order. `request` is
    /// the frame's JSON request as the host has read it. A frame of another
    /// type is passed over.
    pub fn handle_message(&mut self, msg: &Message, request: FileRequest) -> (out: Vec<FileReply>)
        ensures
            final(self).file_system() == old(self).file_system(),
            final(self).uploads() == file_uploads_after(old(self).uploads(), msg@, request),
            plain_replies(old(self).uploads(), msg@, request) matches Some(replies)
                ==> reply_views(out@) == replies,
            plain_replies(old(self).uploads(), msg@, request) is None ==> decided_replies(
                old(self).file_system(),
                old(self).uploads(),
                msg@,
                request,
                reply_views(out@),
            ),
    {
        let request_id = msg.header.request_id;
        let kind = msg.header.msg_type;
        if kind == FILE_LIST_REQ {
            self.handle_list(request_id, request)
        } else if kind == FILE_DOWNLOAD_REQ {
            self.handle_download(request_id, request)
        } else if kind == FILE_UPLOAD_START {
            self.handle_upload_start(request_id, request)
        } else if kind == FILE_UPLOAD_DATA {
            self.handle_upload_data_msg(request_id, msg.payload.as_slice())
        } else if kind == FILE_DELETE_REQ {
            self.handle_delete(request_id, request)
        } else {
            no_reply()
        }
    }

    /// Lists a directory: the entries that the file system gives, directories
    /// first and then by name without regard to case, or its failure.
    pub fn handle_list(&self, request_id: u32, request: FileRequest) -> (out: Vec<FileReply>)
        ensures
            !(request is List) ==> reply_views(out@) == seq![
                failure(request_id, "invalid FILE_LIST_REQ: "@ + invalid_reason(request)),
            ],
            request matches FileRequest::List(req) ==> list_decided(
                self.file_system(),
                req.path@,
                request_id,
                reply_views(out@),
            ),
    {
        match request {
            FileRequest::List(req) => {
                let path = req.path.as_str();
                let served = self.fs.list_dir(path);
                let ghost answer = served;
                let out = match served {
                    Ok(entries) => single_reply(
                        FileReply::List { request_id, entries: sort_entries(entries) },
                    ),
                    Err(e) => failure_reply(request_id, e.message),
                };
                proof {
                    assert(call_ensures(F::list_dir, (&self.fs, path), answer));
                    assert(list_replies(request_id, answer, reply_views(out@)));
                }
                out
            },
            other => invalid_reply(request_id, "invalid FILE_LIST_REQ: ", other),
        }
    }

    /// Downloads a file: the frames that carry the bytes which the file
    /// system read, or its failure.
    pub fn handle_download(&self, request_id: u32, request: FileRequest) -> (out: Vec<FileReply>)
        ensures
            !(request is Download) ==> reply_views(out@) == seq![
                failure(request_id, "invalid FILE_DOWNLOAD_REQ: "@ + invalid_reason(request)),
            ],
            request matches FileRequest::Download(req) ==> download_decided(
                self.file_system(),
                req.path@,
                request_id,
                reply_views(out@),
            ),
    {
        match request {
            FileRequest::Download(req) => {
                let path = req.path.as_str();
                let served = self.fs.read_file(path);
                let ghost answer = served;
                let out = match served {
                    Ok(data) => download_reply_list(request_id, data.as_slice()),
                    Err(e) => failure_reply(request_id, e.message),
                };
                proof {
                    assert(call_ensures(F::read_file, (&self.fs, path), answer));
                    assert(read_replies(request_id, answer, reply_views(out@)));
                }
                out
            },
            other => invalid_reply(request_id, "invalid FILE_DOWNLOAD_REQ: ", other),
        }
    }

    /// Registers an upload and acknowledges it.
    pub fn handle_upload_start(&mut self, request_id: u32, request: FileRequest) -> (out: Vec<
        FileReply,
    >)
        ensures
            final(self).file_system() == old(self).file_system(),
            request matches FileRequest::UploadStart(req) ==> reply_views(out@) == seq![
                success(request_id),
            ] && final(self).uploads() == old(self).uploads().insert(
                request_id,
                PendingView { path: req.path@, data: Seq::empty(), expected_size: req.size },
            ),
            !(request is UploadStart) ==> reply_views(out@) == seq![
                failure(request_id, "invalid FILE_UPLOAD_START: "@ + invalid_reason(request)),
            ] && final(self).uploads() == old(self).uploads(),
    {
        match request {
            FileRequest::UploadStart(req) => {
                self.uploads.start(request_id, req.path, req.size);
                success_reply(request_id)
            },
            other => invalid_reply(request_id, "invalid FILE_UPLOAD_START: ", other),
        }
    }

    /// Takes in a data frame of an upload. Once the announced bytes are
    /// there, the file system is asked to write them to the announced path,
    /// and its answer is reported. A frame for an id without an upload is
    /// dropped without a reply, whatever it holds. A frame for a pending
    /// upload that is too short for its sequence number is refused, and the
    /// upload stays pending.
    pub fn handle_upload_data_msg(&mut self, request_id: u32, payload: &[u8]) -> (out: Vec<
        FileReply,
    >)
        ensures
            final(self).file_system() == old(self).file_system(),
            final(self).uploads() == uploads_after(old(self).uploads(), request_id, payload@),
            upload_step(old(self).uploads(), request_id, payload@) is TooShort ==> reply_views(
                out@,
            ) == seq![failure(request_id, "FILE_UPLOAD_DATA payload too short"@)],
            upload_step(old(self).uploads(), request_id, payload@) is Unknown ==> reply_views(
                out@,
            ) == Seq::<FileReplyView>::empty(),
            upload_step(old(self).uploads(), request_id, payload@) is Pending ==> reply_views(
                out@,
            ) == Seq::<FileReplyView>::empty(),
            upload_step(old(self).uploads(), request_id, payload@) matches UploadStepView::Complete {
                path,
                data,
            } ==> upload_decided(
                old(self).file_system(),
                path,
                data,
                request_id,
                reply_views(out@),
            ),
    {
        match self.uploads.append(request_id, payload) {
            UploadStep::TooShort => failure_reply(
                request_id,
                String::from_str("FILE_UPLOAD_DATA payload too short"),
            ),
            UploadStep::Unknown => no_reply(),
            UploadStep::Pending => no_reply(),
            UploadStep::Complete { path, data } => {
                let to = path.as_str();
                let bytes = data.as_slice();
                let served = self.fs.write_file(to, bytes);
                let ghost answer = served;
                let out = match served {
                    Ok(()) => single_reply(FileReply::UploadDone { request_id }),
                    Err(e) => failure_reply(request_id, e.message),
                };
                proof {
                    assert(call_ensures(F::write_file, (&self.fs, to, bytes), answer));
                    assert(write_replies(request_id, answer, reply_views(out@)));
                }
                out
            },
        }
    }

    /// Deletes a file or a directory and reports how the file system fared.
    pub fn handle_delete(&self, request_id: u32, request: FileRequest) -> (out: Vec<FileReply>)
        ensures
            !(request is Delete) ==> reply_views(out@) == seq![
                failure(request_id, "invalid FILE_DELETE_REQ: "@ + invalid_reason(request)),
            ],
            request matches FileRequest::Delete(req) ==> delete_decided(
                self.file_system(),
                req.path@,
                request_id,
                reply_views(out@),
            ),
    {
        match request {
            FileRequest::Delete(req) => {
                let path = req.path.as_str();
                let served = self.fs.delete(path);
                let ghost answer = served;
                let out = match served {
                    Ok(()) => success_reply(request_id),
                    Err(e) => failure_reply(request_id, e.message),
                };
                proof {
                    assert(call_ensures(F::delete, (&self.fs, path), answer));
                    assert(delete_replies(request_id, answer, reply_views(out@)));
                }
                out
            },
            other => invalid_reply(request_id, "invalid FILE_DELETE_REQ: ", other),
        }
    }
}

} // verus!
