//! The decisions of a transfer: what a receiver accepts, and the bookkeeping
//! of the chunk stream on both sides. Reading and writing files and sockets is
//! left to the caller, which hands in what it read and does what it is told.
use vstd::prelude::*;
use crate::directory::{file_views, FileInfo, FileInfoModel};
use crate::packet::{decode_file_chunk, DecodeError, FileChunkModel, FilePacket};
use crate::upload::{denied_upload, BeginUploadModel, BeginUploadPacket};
use crate::wire::read_be64;

verus! {

/// Why a transfer stopped.
#[derive(Debug, Clone, Copy, PartialEq, Eq, Structural)]
pub enum TransferError {
    /// A payload could not be decoded.
    Decode(DecodeError),
    /// A message of this identity came where another one was required.
    ProtocolSequence(u32),
    /// A chunk came out of turn: a chunk was lost or reordered.
    ChunkOrder { expected: u64, received: u64 },
    /// A chunk would carry the received size past what a `u64` counts.
    Overrun,
}

// ---------------------------------------------------------------- acceptance

/// Where a receiver resumes a file offered with `offered` bytes, given the size
/// of a same-named local file if there is one; `None` denies the offer.
pub open spec fn accept_decision(local: Option<u64>, offered: u64) -> Option<u64> {
    match local {
        None => Some(0),
        Some(size) => if size < offered {
            Some(size)
        } else {
            None
        },
    }
}

/// The resume point for a single-file offer: 0 for a new file, the local size
/// for a shorter one; a local file as long as the offer or longer denies it.
pub fn resume_cursor(local_size: Option<u64>, offered_size: u64) -> (r: Option<u64>)
    ensures
        r == accept_decision(local_size, offered_size),
{
    match local_size {
        None => Some(0),
        Some(size) => if size < offered_size {
            Some(size)
        } else {
            None
        },
    }
}

/// The size that a local listing records for `name`; a later entry of the same
/// name replaces an earlier one.
pub open spec fn local_size_of(local: Seq<FileInfoModel>, name: Seq<char>) -> Option<u64>
    decreases local.len(),
{
    if local.len() == 0 {
        None
    } else if local.last().name == name {
        Some(local.last().size)
    } else {
        local_size_of(local.drop_last(), name)
    }
}

/// The accepted `(index, cursor)` pairs for a manifest, in manifest order.
pub open spec fn reconcile(files: Seq<FileInfoModel>, local: Seq<FileInfoModel>) -> Seq<(u32, u64)>
    decreases files.len(),
{
    if files.len() == 0 {
        Seq::empty()
    } else {
        let prev = reconcile(files.drop_last(), local);
        match accept_decision(local_size_of(local, files.last().name), files.last().size) {
            Some(c) => prev.push(((files.len() - 1) as u32, c)),
            None => prev,
        }
    }
}

/// The answer to a directory offer, given the files of the local directory.
pub open spec fn reconcile_upload(
    transaction_id: u64,
    files: Seq<FileInfoModel>,
    local: Seq<FileInfoModel>,
) -> BeginUploadModel {
    let plan = reconcile(files, local);
    if plan.len() == 0 {
        denied_upload()
    } else {
        BeginUploadModel {
            transaction_id,
            files_accepted: plan.len() as u32,
            file_indexes: plan.map_values(|p: (u32, u64)| p.0),
            cursors: plan.map_values(|p: (u32, u64)| p.1),
        }
    }
}

proof fn lemma_reconcile_len(files: Seq<FileInfoModel>, local: Seq<FileInfoModel>)
    ensures
        reconcile(files, local).len() <= files.len(),
    decreases files.len(),
{
    if files.len() > 0 {
        lemma_reconcile_len(files.drop_last(), local);
    }
}

/// The size of `name` in the local listing.
fn local_size(local: &Vec<FileInfo>, name: &String) -> (r: Option<u64>)
    ensures
        r == local_size_of(file_views(local@), name@),
{
    let ghost views = file_views(local@);
    let mut j: usize = local.len();
    assert(views.take(j as int) =~= views);
    while j > 0
        invariant
            j <= local@.len(),
            views == file_views(local@),
            local_size_of(views, name@) == local_size_of(views.take(j as int), name@),
        decreases j,
    {
        let ghost prefix = views.take(j as int);
        assert(prefix.drop_last() =~= views.take(j - 1));
        if local[j - 1].name == *name {
            return Some(local[j - 1].size);
        }
        j = j - 1;
    }
    None
}

/// The receiver's answer to a directory offer of `files` when the directory
/// already holds `local`: each offered file is accepted as a single file would
/// be, and a file missing locally is accepted from its start.
pub fn reconcile_directory(
    transaction_id: u64,
    files: &Vec<FileInfo>,
    local: &Vec<FileInfo>,
) -> (r: BeginUploadPacket)
    requires
        files@.len() <= u32::MAX,
    ensures
        r@ == reconcile_upload(transaction_id, file_views(files@), file_views(local@)),
{
    let ghost fs = file_views(files@);
    let ghost ls = file_views(local@);
    let mut file_indexes: Vec<u32> = Vec::new();
    let mut cursors: Vec<u64> = Vec::new();
    let mut i: usize = 0;
    while i < files.len()
        invariant
            fs == file_views(files@),
            ls == file_views(local@),
            files@.len() <= u32::MAX,
            i <= files@.len(),
            file_indexes@ =~= reconcile(fs.take(i as int), ls).map_values(|p: (u32, u64)| p.0),
            cursors@ =~= reconcile(fs.take(i as int), ls).map_values(|p: (u32, u64)| p.1),
        decreases files@.len() - i,
    {
        let ghost prev = fs.take(i as int);
        assert(fs.take(i + 1).drop_last() =~= prev);
        let found = local_size(local, &files[i].name);
        match resume_cursor(found, files[i].size) {
            Some(c) => {
                file_indexes.push(i as u32);
                cursors.push(c);
            },
            None => {},
        }
        i = i + 1;
    }
    assert(fs.take(i as int) =~= fs);
    proof {
        lemma_reconcile_len(fs, ls);
    }
    BeginUploadPacket::new(transaction_id, file_indexes, cursors)
}

/// The receiver's answer to a directory offer of `files`: where the directory
/// does not exist yet (`local` is `None`) every file is accepted from its
/// start; otherwise each is reconciled against the local files.
pub fn answer_directory_offer(
    transaction_id: u64,
    files: &Vec<FileInfo>,
    local: Option<&Vec<FileInfo>>,
) -> (r: BeginUploadPacket)
    requires
        files@.len() <= u32::MAX,
    ensures
        local is None ==> r@ == (BeginUploadModel {
            transaction_id,
            files_accepted: files@.len() as u32,
            file_indexes: Seq::new(files@.len(), |i: int| i as u32),
            cursors: Seq::new(files@.len(), |i: int| 0u64),
        }),
        local matches Some(l) ==> r@ == reconcile_upload(
            transaction_id,
            file_views(files@),
            file_views(l@),
        ),
{
    match local {
        None => BeginUploadPacket::accept_all(transaction_id, files.len() as u64),
        Some(l) => reconcile_directory(transaction_id, files, l),
    }
}

/// Every index of an answer names one of `files_offered` files, and each has
/// a cursor.
pub open spec fn accepted_pairs_ok(files_offered: nat, upload: BeginUploadModel) -> bool {
    &&& upload.file_indexes.len() <= upload.cursors.len()
    &&& forall|k: int|
        0 <= k < upload.file_indexes.len() ==> (#[trigger] upload.file_indexes[k]) < files_offered
}

/// Pairs each index of an answer with its cursor, in the answer's order, for
/// a sender that offered `files_offered` files; `None` where an index names no
/// offered file or a cursor is missing.
pub fn accepted_transfers(files_offered: usize, upload: &BeginUploadPacket) -> (r: Option<
    Vec<(usize, u64)>,
>)
    ensures
        r is Some <==> accepted_pairs_ok(files_offered as nat, upload@),
        r matches Some(pairs) ==> pairs@ == Seq::new(
            upload@.file_indexes.len(),
            |k: int| (upload@.file_indexes[k] as usize, upload@.cursors[k]),
        ),
{
    if upload.file_indexes.len() > upload.cursors.len() {
        return None;
    }
    let mut pairs: Vec<(usize, u64)> = Vec::new();
    let mut k: usize = 0;
    while k < upload.file_indexes.len()
        invariant
            upload.file_indexes@.len() <= upload.cursors@.len(),
            k <= upload.file_indexes@.len(),
            forall|j: int| 0 <= j < k ==> (#[trigger] upload.file_indexes@[j]) < files_offered,
            pairs@ =~= Seq::new(
                k as nat,
                |j: int| (upload.file_indexes@[j] as usize, upload.cursors@[j]),
            ),
        decreases upload.file_indexes@.len() - k,
    {
        let index = upload.file_indexes[k] as usize;
        if index >= files_offered {
            return None;
        }
        pairs.push((index, upload.cursors[k]));
        k = k + 1;
    }
    Some(pairs)
}

// ---------------------------------------------------------------- receiving

/// The receiving side of one file's chunk stream.
pub struct ChunkReceiver {
    /// the chunk that must come next
    pub expected_chunk_id: u64,
    /// bytes of the file on disk, the resume point included
    pub current_size: u64,
    /// the offered size, where the stream ends
    pub total_size: u64,
}

/// Whether a chunk of `len` content bytes can be taken without a counter
/// leaving `u64`.
pub open spec fn counters_fit(r: ChunkReceiver, len: int) -> bool {
    r.current_size + len <= u64::MAX && r.expected_chunk_id < u64::MAX
}

impl ChunkReceiver {
    /// A receiver that resumes at `cursor` a file of `total_size` bytes.
    pub fn new(cursor: u64, total_size: u64) -> (r: Self)
        ensures
            r == (ChunkReceiver { expected_chunk_id: 0, current_size: cursor, total_size }),
    {
        Self { expected_chunk_id: 0, current_size: cursor, total_size }
    }

    /// The stream has brought the whole file.
    pub fn is_complete(&self) -> (r: bool)
        ensures
            r == (self.current_size >= self.total_size),
    {
        self.current_size >= self.total_size
    }

    /// Takes the frame `(id, payload)` as the next chunk. On success the chunk's
    /// content is what goes to disk; on any error nothing does and the
    /// receiver is unchanged.
    pub fn accept_chunk<'a>(&mut self, id: u32, payload: &'a [u8]) -> (r: Result<
        FilePacket<'a>,
        TransferError,
    >)
        ensures
            id != FilePacket::ID ==> r == Err::<FilePacket<'a>, TransferError>(
                TransferError::ProtocolSequence(id),
            ),
            id == FilePacket::ID && payload@.len() < 16 ==> r == Err::<FilePacket<'a>, TransferError>(
                TransferError::Decode(DecodeError::Truncated),
            ),
            id == FilePacket::ID && payload@.len() >= 16 && read_be64(payload@, 8)
                != old(self).expected_chunk_id ==> r == Err::<FilePacket<'a>, TransferError>(
                TransferError::ChunkOrder {
                    expected: old(self).expected_chunk_id,
                    received: read_be64(payload@, 8),
                },
            ),
            id == FilePacket::ID && payload@.len() >= 16 && read_be64(payload@, 8)
                == old(self).expected_chunk_id && !counters_fit(*old(self), payload@.len() - 16)
                ==> r == Err::<FilePacket<'a>, TransferError>(TransferError::Overrun),
            id == FilePacket::ID && payload@.len() >= 16 && read_be64(payload@, 8)
                == old(self).expected_chunk_id && counters_fit(*old(self), payload@.len() - 16)
                ==> r is Ok,
            r is Err ==> *final(self) == *old(self),
            r matches Ok(p) ==> {
                &&& id == FilePacket::ID
                &&& payload@.len() >= 16
                &&& decode_file_chunk(payload@) == Ok::<FileChunkModel, DecodeError>(p@)
                &&& p.chunk_id == old(self).expected_chunk_id
                &&& counters_fit(*old(self), p.file_bytes@.len() as int)
                &&& final(self).expected_chunk_id == old(self).expected_chunk_id + 1
                &&& final(self).current_size == old(self).current_size + p.file_bytes@.len()
                &&& final(self).total_size == old(self).total_size
            },
    {
        if id != FilePacket::ID {
            return Err(TransferError::ProtocolSequence(id));
        }
        let packet = match FilePacket::wrap(payload) {
            Ok(p) => p,
            Err(e) => {
                return Err(TransferError::Decode(e));
            },
        };
        if packet.chunk_id != self.expected_chunk_id {
            return Err(
                TransferError::ChunkOrder {
                    expected: self.expected_chunk_id,
                    received: packet.chunk_id,
                },
            );
        }
        let len = packet.file_bytes.len() as u64;
        if self.expected_chunk_id == u64::MAX || u64::MAX - self.current_size < len {
            return Err(TransferError::Overrun);
        }
        self.expected_chunk_id = self.expected_chunk_id + 1;
        self.current_size = self.current_size + len;
        Ok(packet)
    }
}

// ---------------------------------------------------------------- sending

/// The length of the chunk read at `cursor` from a file of `size` bytes.
pub open spec fn chunk_len(cursor: int, size: int, chunk_size: int) -> int {
    if size - cursor < chunk_size {
        size - cursor
    } else {
        chunk_size
    }
}

/// The contents of the chunks sent for `f` from `cursor` on, in order.
pub open spec fn sent_chunks(f: Seq<u8>, cursor: int, chunk_size: int) -> Seq<Seq<u8>>
    decreases f.len() - cursor,
{
    if chunk_size <= 0 || cursor < 0 || cursor >= f.len() {
        Seq::empty()
    } else {
        let n = chunk_len(cursor, f.len() as int, chunk_size);
        seq![f.subrange(cursor, cursor + n)] + sent_chunks(f, cursor + n, chunk_size)
    }
}

/// The chunks one after another.
pub open spec fn concat(chunks: Seq<Seq<u8>>) -> Seq<u8>
    decreases chunks.len(),
{
    if chunks.len() == 0 {
        Seq::empty()
    } else {
        chunks[0] + concat(chunks.drop_first())
    }
}

/// A file resumed at `cursor`: what the receiver already holds, followed by
/// every chunk the sender sends from there, is the whole file.
pub proof fn lemma_resume(f: Seq<u8>, cursor: int, chunk_size: int)
    requires
        0 <= cursor <= f.len(),
        chunk_size > 0,
    ensures
        f.take(cursor) + concat(sent_chunks(f, cursor, chunk_size)) == f,
    decreases f.len() - cursor,
{
    if cursor == f.len() {
        assert(f.take(cursor) =~= f);
        assert(f.take(cursor) + Seq::<u8>::empty() =~= f);
    } else {
        let n = chunk_len(cursor, f.len() as int, chunk_size);
        lemma_resume(f, cursor + n, chunk_size);
        let rest = sent_chunks(f, cursor + n, chunk_size);
        let chunks = sent_chunks(f, cursor, chunk_size);
        assert(chunks.drop_first() =~= rest);
        assert(f.take(cursor) + f.subrange(cursor, cursor + n) =~= f.take(cursor + n));
        assert(f.take(cursor) + (f.subrange(cursor, cursor + n) + concat(rest)) =~= f.take(cursor)
            + f.subrange(cursor, cursor + n) + concat(rest));
    }
}

/// What a sender sends for `f` from its cursor on is the chunk that
/// [`ChunkSender::packet`] carries next, followed by what the advanced sender
/// sends: so the chunk contents, numbered from 0, are `sent_chunks(f, cursor,
/// chunk_size)` in order.
pub proof fn lemma_sender_step(f: Seq<u8>, s: ChunkSender)
    requires
        wf_sender(s),
        s.file_size == f.len(),
        s.cursor < s.file_size,
    ensures
        ({
            let n = chunk_len(s.cursor as int, s.file_size as int, s.chunk_size as int);
            &&& 0 < n <= s.chunk_size
            &&& sent_chunks(f, s.cursor as int, s.chunk_size as int) == seq![
                f.subrange(s.cursor as int, s.cursor + n),
            ] + sent_chunks(f, s.cursor + n, s.chunk_size as int)
        }),
{
}

/// The sending side of one file's chunk stream.
pub struct ChunkSender {
    pub transaction_id: u64,
    /// the id of the next chunk; it counts from 0 also when resuming
    pub next_chunk_id: u64,
    /// the file position of the next chunk
    pub cursor: u64,
    pub file_size: u64,
    pub chunk_size: u64,
}

/// The chunk id never passes the cursor, since every chunk holds a byte.
pub open spec fn wf_sender(s: ChunkSender) -> bool {
    &&& s.next_chunk_id <= s.cursor <= s.file_size
    &&& s.chunk_size > 0
}

impl ChunkSender {
    /// A sender that starts at `cursor`, or at the end where `cursor` is past it.
    pub fn new(transaction_id: u64, cursor: u64, file_size: u64, chunk_size: u64) -> (r: Self)
        requires
            chunk_size > 0,
        ensures
            r == (ChunkSender {
                transaction_id,
                next_chunk_id: 0,
                cursor: if cursor <= file_size {
                    cursor
                } else {
                    file_size
                },
                file_size,
                chunk_size,
            }),
            wf_sender(r),
    {
        let cursor = if cursor <= file_size {
            cursor
        } else {
            file_size
        };
        Self { transaction_id, next_chunk_id: 0, cursor, file_size, chunk_size }
    }

    pub fn has_next_chunk(&self) -> (r: bool)
        ensures
            r == (self.cursor < self.file_size),
    {
        self.cursor < self.file_size
    }

    /// How many bytes the next chunk holds.
    pub fn next_chunk_len(&self) -> (r: u64)
        requires
            wf_sender(*self),
            self.cursor < self.file_size,
        ensures
            r == chunk_len(self.cursor as int, self.file_size as int, self.chunk_size as int),
            0 < r <= self.chunk_size,
    {
        if self.file_size - self.cursor < self.chunk_size {
            self.file_size - self.cursor
        } else {
            self.chunk_size
        }
    }

    /// The packet that carries `chunk`, the bytes at the cursor.
    pub fn packet<'a>(&mut self, chunk: &'a [u8]) -> (p: FilePacket<'a>)
        requires
            wf_sender(*old(self)),
            old(self).cursor < old(self).file_size,
            chunk@.len() == chunk_len(
                old(self).cursor as int,
                old(self).file_size as int,
                old(self).chunk_size as int,
            ),
        ensures
            p@ == (FileChunkModel {
                transaction_id: old(self).transaction_id,
                chunk_id: old(self).next_chunk_id,
                file_bytes: chunk@,
            }),
            wf_sender(*final(self)),
            final(self).next_chunk_id == old(self).next_chunk_id + 1,
            final(self).cursor == old(self).cursor + chunk@.len(),
            final(self).transaction_id == old(self).transaction_id,
            final(self).file_size == old(self).file_size,
            final(self).chunk_size == old(self).chunk_size,
    {
        let p = FilePacket::new(self.transaction_id, self.next_chunk_id, chunk);
        self.next_chunk_id = self.next_chunk_id + 1;
        self.cursor = self.cursor + chunk.len() as u64;
        p
    }
}

} // verus!
