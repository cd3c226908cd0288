//! The offer of a whole directory: its name, total size and manifest.
use vstd::prelude::*;
use vstd::utf8::{decode_utf8, encode_utf8, encode_utf8_decode_utf8, encode_utf8_valid_utf8, valid_utf8};
use crate::packet::{push_str, utf8_len, DecodeError, Packet};
use crate::wire::{be64, get_u64, lemma_be64_round_trip, push_u64, read_be64};

verus! {

/// What a [`FileInfo`] holds.
pub struct FileInfoModel {
    pub size: u64,
    pub name_size: u64,
    pub name: Seq<char>,
}

/// One entry of a directory's manifest.
pub struct FileInfo {
    pub size: u64,
    /// the UTF-8 length of `name`
    pub name_size: u64,
    pub name: String,
}

impl View for FileInfo {
    type V = FileInfoModel;

    open spec fn view(&self) -> FileInfoModel {
        FileInfoModel { size: self.size, name_size: self.name_size, name: self.name@ }
    }
}

/// The stored name length is the UTF-8 length of the name.
pub open spec fn wf_file_info(f: FileInfoModel) -> bool {
    f.name_size == encode_utf8(f.name).len()
}

impl FileInfo {
    pub fn new(name: String, size: u64) -> (r: Self)
        ensures
            r@ == (FileInfoModel { size, name_size: encode_utf8(name@).len() as u64, name: name@ }),
            wf_file_info(r@),
    {
        let name_size = utf8_len(&name) as u64;
        Self { size, name_size, name }
    }
}

/// What a [`DirectoryOfferPacket`] holds.
pub struct DirectoryOfferModel {
    pub total_size: u64,
    pub file_count: u64,
    pub name_size: u64,
    pub directory_name: Seq<char>,
    pub files: Seq<FileInfoModel>,
}

/// The counts and lengths agree with what they count.
pub open spec fn wf_directory_offer(m: DirectoryOfferModel) -> bool {
    &&& m.file_count == m.files.len()
    &&& m.name_size == encode_utf8(m.directory_name).len()
    &&& forall|i: int| 0 <= i < m.files.len() ==> wf_file_info(#[trigger] m.files[i])
}

/// Announces the files directly inside a directory. Later messages name them by
/// their position in `files`.
pub struct DirectoryOfferPacket {
    pub total_size: u64,
    pub file_count: u64,
    pub name_size: u64,
    pub directory_name: String,
    pub files: Vec<FileInfo>,
}

pub open spec fn file_views(files: Seq<FileInfo>) -> Seq<FileInfoModel> {
    files.map_values(|f: FileInfo| f@)
}

impl View for DirectoryOfferPacket {
    type V = DirectoryOfferModel;

    open spec fn view(&self) -> DirectoryOfferModel {
        DirectoryOfferModel {
            total_size: self.total_size,
            file_count: self.file_count,
            name_size: self.name_size,
            directory_name: self.directory_name@,
            files: file_views(self.files@),
        }
    }
}

/// `size`, name length, then the name.
pub open spec fn encode_entry(f: FileInfoModel) -> Seq<u8> {
    be64(f.size) + be64(f.name_size) + encode_utf8(f.name)
}

pub open spec fn encode_entries(fs: Seq<FileInfoModel>) -> Seq<u8>
    decreases fs.len(),
{
    if fs.len() == 0 {
        Seq::empty()
    } else {
        encode_entry(fs[0]) + encode_entries(fs.drop_first())
    }
}

/// Total size, file count, name length, the name, then one entry per file.
pub open spec fn encode_directory_offer(m: DirectoryOfferModel) -> Seq<u8> {
    be64(m.total_size) + be64(m.file_count) + be64(m.name_size) + encode_utf8(m.directory_name)
        + encode_entries(m.files)
}

/// The length that the stored counts announce for the entries.
pub open spec fn entries_len(fs: Seq<FileInfoModel>) -> int
    decreases fs.len(),
{
    if fs.len() == 0 {
        0
    } else {
        16 + fs[0].name_size + entries_len(fs.drop_first())
    }
}

/// The sum of the sizes of `fs`.
pub open spec fn total_of(fs: Seq<FileInfoModel>) -> int
    decreases fs.len(),
{
    if fs.len() == 0 {
        0
    } else {
        fs[0].size + total_of(fs.drop_first())
    }
}

/// Reads `n` entries from the front of `b`; bytes after them are ignored.
pub open spec fn decode_entries(b: Seq<u8>, n: nat) -> Result<Seq<FileInfoModel>, DecodeError>
    decreases n,
{
    if n == 0 {
        Ok(Seq::empty())
    } else if b.len() < 16 {
        Err(DecodeError::Truncated)
    } else if b.len() - 16 < read_be64(b, 8) {
        Err(DecodeError::Truncated)
    } else {
        let end = 16 + read_be64(b, 8);
        if !valid_utf8(b.subrange(16, end)) {
            Err(DecodeError::Utf8)
        } else {
            match decode_entries(b.skip(end), (n - 1) as nat) {
                Ok(rest) => Ok(
                    seq![
                        FileInfoModel {
                            size: read_be64(b, 0),
                            name_size: read_be64(b, 8),
                            name: decode_utf8(b.subrange(16, end)),
                        },
                    ] + rest,
                ),
                Err(e) => Err(e),
            }
        }
    }
}

pub open spec fn decode_directory_offer(b: Seq<u8>) -> Result<DirectoryOfferModel, DecodeError> {
    if b.len() < 24 {
        Err(DecodeError::Truncated)
    } else if b.len() - 24 < read_be64(b, 16) {
        Err(DecodeError::Truncated)
    } else {
        let end = 24 + read_be64(b, 16);
        if !valid_utf8(b.subrange(24, end)) {
            Err(DecodeError::Utf8)
        } else {
            match decode_entries(b.skip(end), read_be64(b, 8) as nat) {
                Ok(files) => Ok(
                    DirectoryOfferModel {
                        total_size: read_be64(b, 0),
                        file_count: read_be64(b, 8),
                        name_size: read_be64(b, 16),
                        directory_name: decode_utf8(b.subrange(24, end)),
                        files,
                    },
                ),
                Err(e) => Err(e),
            }
        }
    }
}

/// `acc` in front of a decoded tail, or the tail's error.
pub open spec fn prepend(acc: Seq<FileInfoModel>, r: Result<Seq<FileInfoModel>, DecodeError>) -> Result<
    Seq<FileInfoModel>,
    DecodeError,
> {
    match r {
        Ok(rest) => Ok(acc + rest),
        Err(e) => Err(e),
    }
}

proof fn lemma_entries_len(fs: Seq<FileInfoModel>)
    requires
        forall|i: int| 0 <= i < fs.len() ==> wf_file_info(#[trigger] fs[i]),
    ensures
        entries_len(fs) == encode_entries(fs).len(),
        entries_len(fs) >= 0,
    decreases fs.len(),
{
    if fs.len() > 0 {
        let rest = fs.drop_first();
        assert forall|i: int| 0 <= i < rest.len() implies wf_file_info(#[trigger] rest[i]) by {
            assert(rest[i] == fs[i + 1]);
        }
        lemma_entries_len(rest);
    }
}

/// Two big-endian words, a string's bytes and a tail, read back.
proof fn lemma_two_words(a: u64, c: u64, n: Seq<u8>, t: Seq<u8>)
    ensures
        ({
            let b = be64(a) + (be64(c) + (n + t));
            &&& b.len() == 16 + n.len() + t.len()
            &&& read_be64(b, 0) == a
            &&& read_be64(b, 8) == c
            &&& b.subrange(16, 16 + n.len() as int) == n
            &&& b.skip(16 + n.len() as int) == t
        }),
{
    let b = be64(a) + (be64(c) + (n + t));
    lemma_be64_round_trip(a, Seq::empty(), be64(c) + (n + t));
    assert(Seq::<u8>::empty() + be64(a) + (be64(c) + (n + t)) =~= b);
    lemma_be64_round_trip(c, be64(a), n + t);
    assert(be64(a) + be64(c) + (n + t) =~= b);
    assert(b.subrange(16, 16 + n.len() as int) =~= n);
    assert(b.skip(16 + n.len() as int) =~= t);
}

/// Three big-endian words, a string's bytes and a tail, read back.
proof fn lemma_three_words(a: u64, c: u64, d: u64, n: Seq<u8>, t: Seq<u8>)
    ensures
        ({
            let b = be64(a) + (be64(c) + (be64(d) + (n + t)));
            &&& b.len() == 24 + n.len() + t.len()
            &&& read_be64(b, 0) == a
            &&& read_be64(b, 8) == c
            &&& read_be64(b, 16) == d
            &&& b.subrange(24, 24 + n.len() as int) == n
            &&& b.skip(24 + n.len() as int) == t
        }),
{
    let x = be64(c) + (be64(d) + (n + t));
    let b = be64(a) + x;
    lemma_two_words(c, d, n, t);
    lemma_be64_round_trip(a, Seq::empty(), x);
    assert(Seq::<u8>::empty() + be64(a) + x =~= b);
    assert(b[8] == x[0] && b[9] == x[1] && b[10] == x[2] && b[11] == x[3] && b[12] == x[4]
        && b[13] == x[5] && b[14] == x[6] && b[15] == x[7]);
    assert(b[16] == x[8] && b[17] == x[9] && b[18] == x[10] && b[19] == x[11] && b[20] == x[12]
        && b[21] == x[13] && b[22] == x[14] && b[23] == x[15]);
    assert(b.subrange(24, 24 + n.len() as int) =~= x.subrange(16, 16 + n.len() as int));
    assert(b.skip(24 + n.len() as int) =~= x.skip(16 + n.len() as int));
}

proof fn lemma_assoc5(a: Seq<u8>, b: Seq<u8>, c: Seq<u8>, d: Seq<u8>, e: Seq<u8>)
    ensures
        a + b + c + d + e == a + (b + (c + (d + e))),
        a + b + c + (d + e) == a + (b + (c + (d + e))),
{
    assert(a + b + c + d + e =~= a + (b + (c + (d + e))));
    assert(a + b + c + (d + e) =~= a + (b + (c + (d + e))));
}

/// One entry in front of a tail that decodes to `rest`.
proof fn lemma_entry_step(
    f: FileInfoModel,
    name: Seq<u8>,
    tail: Seq<u8>,
    n: nat,
    rest: Seq<FileInfoModel>,
)
    requires
        n > 0,
        name.len() == f.name_size,
        valid_utf8(name),
        decode_utf8(name) == f.name,
        decode_entries(tail, (n - 1) as nat) == Ok::<Seq<FileInfoModel>, DecodeError>(rest),
    ensures
        decode_entries(be64(f.size) + (be64(f.name_size) + (name + tail)), n) == Ok::<
            Seq<FileInfoModel>,
            DecodeError,
        >(seq![f] + rest),
{
    let b = be64(f.size) + (be64(f.name_size) + (name + tail));
    lemma_two_words(f.size, f.name_size, name, tail);
    let end = 16 + f.name_size;
    assert(b.subrange(16, end as int) == name);
    assert(b.skip(end as int) == tail);
}

proof fn lemma_entries_round_trip(fs: Seq<FileInfoModel>, post: Seq<u8>)
    requires
        forall|i: int| 0 <= i < fs.len() ==> wf_file_info(#[trigger] fs[i]),
    ensures
        decode_entries(encode_entries(fs) + post, fs.len()) == Ok::<
            Seq<FileInfoModel>,
            DecodeError,
        >(fs),
    decreases fs.len(),
{
    if fs.len() > 0 {
        let f = fs[0];
        let rest = fs.drop_first();
        assert forall|i: int| 0 <= i < rest.len() implies wf_file_info(#[trigger] rest[i]) by {
            assert(rest[i] == fs[i + 1]);
        }
        lemma_entries_round_trip(rest, post);
        let name = encode_utf8(f.name);
        let tail = encode_entries(rest) + post;
        assert(encode_entries(fs) == encode_entry(f) + encode_entries(rest));
        lemma_assoc5(be64(f.size), be64(f.name_size), name, encode_entries(rest), post);
        encode_utf8_valid_utf8(f.name);
        encode_utf8_decode_utf8(f.name);
        lemma_entry_step(f, name, tail, fs.len(), rest);
        assert(seq![f] + rest =~= fs);
    } else {
        assert(fs =~= Seq::<FileInfoModel>::empty());
    }
}

/// The header of a directory offer in front of entries that decode to `files`.
proof fn lemma_directory_step(m: DirectoryOfferModel, name: Seq<u8>, entries: Seq<u8>)
    requires
        name.len() == m.name_size,
        valid_utf8(name),
        decode_utf8(name) == m.directory_name,
        decode_entries(entries, m.file_count as nat) == Ok::<Seq<FileInfoModel>, DecodeError>(
            m.files,
        ),
    ensures
        decode_directory_offer(
            be64(m.total_size) + (be64(m.file_count) + (be64(m.name_size) + (name + entries))),
        ) == Ok::<DirectoryOfferModel, DecodeError>(m),
{
    let b = be64(m.total_size) + (be64(m.file_count) + (be64(m.name_size) + (name + entries)));
    lemma_three_words(m.total_size, m.file_count, m.name_size, name, entries);
    let end = 24 + m.name_size;
    assert(b.subrange(24, end as int) == name);
    assert(b.skip(end as int) == entries);
}

/// Decoding an encoded directory offer whose counts and lengths agree gives it back.
pub proof fn lemma_directory_offer_round_trip(m: DirectoryOfferModel)
    requires
        wf_directory_offer(m),
    ensures
        decode_directory_offer(encode_directory_offer(m)) == Ok::<
            DirectoryOfferModel,
            DecodeError,
        >(m),
{
    let name = encode_utf8(m.directory_name);
    let entries = encode_entries(m.files);
    lemma_entries_round_trip(m.files, Seq::empty());
    assert(entries + Seq::<u8>::empty() =~= entries);
    lemma_assoc5(be64(m.total_size), be64(m.file_count), be64(m.name_size), name, entries);
    encode_utf8_valid_utf8(m.directory_name);
    encode_utf8_decode_utf8(m.directory_name);
    lemma_directory_step(m, name, entries);
}

impl DirectoryOfferPacket {
    pub const ID: u32 = 900_000;

    /// The offer of the directory `directory_name` with the entries `files`;
    /// its total size is the sum of theirs.
    pub fn new(directory_name: String, files: Vec<FileInfo>) -> (r: Self)
        requires
            total_of(file_views(files@)) <= u64::MAX,
        ensures
            r@ == (DirectoryOfferModel {
                total_size: total_of(file_views(files@)) as u64,
                file_count: files@.len() as u64,
                name_size: encode_utf8(directory_name@).len() as u64,
                directory_name: directory_name@,
                files: file_views(files@),
            }),
    {
        let ghost fs = file_views(files@);
        let mut total_size: u64 = 0;
        let mut i: usize = 0;
        assert(fs.skip(0) =~= fs);
        while i < files.len()
            invariant
                fs == file_views(files@),
                i <= files@.len(),
                total_size + total_of(fs.skip(i as int)) == total_of(fs),
                total_of(fs) <= u64::MAX,
            decreases files@.len() - i,
        {
            proof {
                lemma_total_nonneg(fs.skip(i + 1));
                assert(fs.skip(i as int).drop_first() =~= fs.skip(i + 1));
            }
            total_size = total_size + files[i].size;
            i = i + 1;
        }
        let file_count = files.len() as u64;
        let name_size = utf8_len(&directory_name) as u64;
        Self { total_size, file_count, name_size, directory_name, files }
    }

    /// The offer of nothing.
    pub fn empty() -> (r: Self)
        ensures
            r@ == (DirectoryOfferModel {
                total_size: 0,
                file_count: 0,
                name_size: 0,
                directory_name: Seq::empty(),
                files: Seq::empty(),
            }),
    {
        let r = Self {
            total_size: 0,
            file_count: 0,
            name_size: 0,
            directory_name: String::new(),
            files: Vec::new(),
        };
        assert(file_views(r.files@) =~= Seq::<FileInfoModel>::empty());
        r
    }

    /// Rebuilds an offer from its payload.
    pub fn from_bytes(field_bytes: &[u8]) -> (r: Result<Self, DecodeError>)
        ensures
            match r {
                Ok(p) => decode_directory_offer(field_bytes@) == Ok::<
                    DirectoryOfferModel,
                    DecodeError,
                >(p@),
                Err(e) => decode_directory_offer(field_bytes@) == Err::<
                    DirectoryOfferModel,
                    DecodeError,
                >(e),
            },
    {
        let b = field_bytes;
        let blen = b.len();
        if blen < 24 {
            return Err(DecodeError::Truncated);
        }
        let total_size = get_u64(b, 0);
        let file_count = get_u64(b, 8);
        let name_size = get_u64(b, 16);
        if ((blen - 24) as u64) < name_size {
            return Err(DecodeError::Truncated);
        }
        let after_name = 24 + name_size as usize;
        let directory_name = match crate::packet::utf8_string(b, 24, after_name) {
            Some(s) => s,
            None => {
                return Err(DecodeError::Utf8);
            },
        };
        match Self::read_entries(b, after_name, file_count) {
            Ok(files) => Ok(Self { total_size, file_count, name_size, directory_name, files }),
            Err(e) => Err(e),
        }
    }

    /// Reads `n` manifest entries from `b[start ..]`.
    fn read_entries(b: &[u8], start: usize, n: u64) -> (r: Result<Vec<FileInfo>, DecodeError>)
        requires
            start <= b@.len(),
        ensures
            match r {
                Ok(files) => decode_entries(b@.skip(start as int), n as nat) == Ok::<
                    Seq<FileInfoModel>,
                    DecodeError,
                >(file_views(files@)),
                Err(e) => decode_entries(b@.skip(start as int), n as nat) == Err::<
                    Seq<FileInfoModel>,
                    DecodeError,
                >(e),
            },
    {
        let blen = b.len();
        let mut files: Vec<FileInfo> = Vec::new();
        let mut offset: usize = start;
        let mut i: u64 = 0;
        while i < n
            invariant
                blen == b@.len(),
                start <= offset <= blen,
                i <= n,
                decode_entries(b@.skip(start as int), n as nat) == prepend(
                    file_views(files@),
                    decode_entries(b@.skip(offset as int), (n - i) as nat),
                ),
            decreases n - i,
        {
            let ghost rest = b@.skip(offset as int);
            if blen - offset < 16 {
                return Err(DecodeError::Truncated);
            }
            let size = get_u64(b, offset);
            let name_size = get_u64(b, offset + 8);
            assert(read_be64(rest, 0) == size);
            assert(read_be64(rest, 8) == name_size);
            if ((blen - offset - 16) as u64) < name_size {
                return Err(DecodeError::Truncated);
            }
            let end = offset + 16 + name_size as usize;
            assert(rest.subrange(16, 16 + name_size) =~= b@.subrange(offset + 16, end as int));
            assert(rest.skip(16 + name_size) =~= b@.skip(end as int));
            let name = match crate::packet::utf8_string(b, offset + 16, end) {
                Some(s) => s,
                None => {
                    return Err(DecodeError::Utf8);
                },
            };
            let ghost before = file_views(files@);
            let info = FileInfo { size, name_size, name };
            files.push(info);
            assert(file_views(files@) =~= before + seq![info@]);
            assert(before + seq![info@] + Seq::<FileInfoModel>::empty() =~= before + seq![info@]);
            proof {
                let tail = decode_entries(b@.skip(end as int), (n - i - 1) as nat);
                match tail {
                    Ok(t) => {
                        assert(before + (seq![info@] + t) =~= before + seq![info@] + t);
                    },
                    Err(_) => {},
                }
            }
            offset = end;
            i = i + 1;
        }
        assert(file_views(files@) + Seq::<FileInfoModel>::empty() =~= file_views(files@));
        Ok(files)
    }
}

impl Packet for DirectoryOfferPacket {
    open spec fn identity(&self) -> u32 {
        DirectoryOfferPacket::ID
    }

    open spec fn payload(&self) -> Seq<u8> {
        encode_directory_offer(self@)
    }

    open spec fn writable(&self) -> bool {
        wf_directory_offer(self@)
    }

    fn id(&self) -> u32 {
        Self::ID
    }

    /// The length of the payload that [`Self::write`] appends.
    fn size(&self) -> u32 {
        let ghost fs = file_views(self.files@);
        proof {
            lemma_entries_len(fs);
        }
        let mut size: u64 = 24 + self.name_size;
        let mut i: usize = 0;
        assert(fs.skip(0) =~= fs);
        assert(encode_directory_offer(self@).len() == 24 + self.name_size + encode_entries(fs).len());
        while i < self.files.len()
            invariant
                fs == file_views(self.files@),
                wf_directory_offer(self@),
                i <= fs.len(),
                size + entries_len(fs.skip(i as int)) == encode_directory_offer(self@).len(),
                encode_directory_offer(self@).len() <= u32::MAX,
            decreases fs.len() - i,
        {
            proof {
                assert(fs.skip(i as int).drop_first() =~= fs.skip(i + 1));
                assert forall|k: int| 0 <= k < fs.skip(i + 1).len() implies wf_file_info(
                    #[trigger] fs.skip(i + 1)[k],
                ) by {
                    assert(fs.skip(i + 1)[k] == fs[i + 1 + k]);
                }
                lemma_entries_len(fs.skip(i + 1));
            }
            size = size + 16 + self.files[i].name_size;
            i = i + 1;
        }
        assert(fs.skip(i as int) =~= Seq::<FileInfoModel>::empty());
        size as u32
    }

    /// Appends the payload to `out`.
    fn write(&self, out: &mut Vec<u8>) {
        let ghost fs = file_views(self.files@);
        let ghost whole = old(out)@ + encode_directory_offer(self@);
        push_u64(out, self.total_size);
        push_u64(out, self.file_count);
        push_u64(out, self.name_size);
        push_str(out, &self.directory_name);
        assert(out@ + encode_entries(fs.skip(0)) =~= whole) by {
            assert(fs.skip(0) =~= fs);
        }
        let mut i: usize = 0;
        while i < self.files.len()
            invariant
                fs == file_views(self.files@),
                i <= fs.len(),
                out@ + encode_entries(fs.skip(i as int)) == whole,
            decreases fs.len() - i,
        {
            let ghost before = out@;
            let f = &self.files[i];
            push_u64(out, f.size);
            push_u64(out, f.name_size);
            push_str(out, &f.name);
            assert(fs.skip(i as int).drop_first() =~= fs.skip(i + 1));
            assert(fs.skip(i as int)[0] == f@);
            assert(out@ + encode_entries(fs.skip(i + 1)) =~= before + encode_entries(
                fs.skip(i as int),
            ));
            i = i + 1;
        }
        assert(fs.skip(i as int) =~= Seq::<FileInfoModel>::empty());
        assert(out@ + encode_entries(fs.skip(i as int)) =~= out@);
    }
}
proof fn lemma_total_nonneg(fs: Seq<FileInfoModel>)
    ensures
        total_of(fs) >= 0,
    decreases fs.len(),
{
    if fs.len() > 0 {
        lemma_total_nonneg(fs.drop_first());
    }
}

} // verus!
