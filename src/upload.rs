//! The receiver's answer to an offer: which files it takes, and from where.
use vstd::prelude::*;
use crate::packet::{DecodeError, Packet};
use crate::wire::{
    be32, be64, get_u32, get_u64, lemma_be32_round_trip, lemma_be64_round_trip, push_u32,
    push_u64, read_be32, read_be64,
};

verus! {

/// What a [`BeginUploadPacket`] holds.
pub struct BeginUploadModel {
    pub transaction_id: u64,
    pub files_accepted: u32,
    pub file_indexes: Seq<u32>,
    pub cursors: Seq<u64>,
}

/// The count agrees with both lists.
pub open spec fn wf_upload(m: BeginUploadModel) -> bool {
    m.file_indexes.len() == m.files_accepted && m.cursors.len() == m.files_accepted
}

/// The answer that takes nothing.
pub open spec fn denied_upload() -> BeginUploadModel {
    BeginUploadModel {
        transaction_id: 0,
        files_accepted: 0,
        file_indexes: Seq::empty(),
        cursors: Seq::empty(),
    }
}

/// Accepts some files of an offer. An empty one denies the offer.
pub struct BeginUploadPacket {
    pub transaction_id: u64,
    /// files_accepted == file_indexes.len() == cursors.len()
    pub files_accepted: u32,
    /// positions in the offer, from 0
    pub file_indexes: Vec<u32>,
    pub cursors: Vec<u64>,
}

impl View for BeginUploadPacket {
    type V = BeginUploadModel;

    open spec fn view(&self) -> BeginUploadModel {
        BeginUploadModel {
            transaction_id: self.transaction_id,
            files_accepted: self.files_accepted,
            file_indexes: self.file_indexes@,
            cursors: self.cursors@,
        }
    }
}

pub open spec fn be32_all(s: Seq<u32>) -> Seq<u8>
    decreases s.len(),
{
    if s.len() == 0 {
        Seq::empty()
    } else {
        be32(s[0]) + be32_all(s.drop_first())
    }
}

pub open spec fn be64_all(s: Seq<u64>) -> Seq<u8>
    decreases s.len(),
{
    if s.len() == 0 {
        Seq::empty()
    } else {
        be64(s[0]) + be64_all(s.drop_first())
    }
}

/// `transaction_id`, the count, the indexes, then the cursors.
pub open spec fn encode_begin_upload(m: BeginUploadModel) -> Seq<u8> {
    be64(m.transaction_id) + be32(m.files_accepted) + be32_all(m.file_indexes) + be64_all(
        m.cursors,
    )
}

pub open spec fn decode_begin_upload(b: Seq<u8>) -> Result<BeginUploadModel, DecodeError> {
    if b.len() < 12 {
        Err(DecodeError::Truncated)
    } else if b.len() < 12 + 12 * read_be32(b, 8) {
        Err(DecodeError::Truncated)
    } else {
        let n = read_be32(b, 8);
        Ok(
            BeginUploadModel {
                transaction_id: read_be64(b, 0),
                files_accepted: n,
                file_indexes: Seq::new(n as nat, |i: int| read_be32(b, 12 + 4 * i)),
                cursors: Seq::new(n as nat, |i: int| read_be64(b, 12 + 4 * n + 8 * i)),
            },
        )
    }
}

proof fn lemma_be32_all(s: Seq<u32>, pre: Seq<u8>, post: Seq<u8>)
    ensures
        be32_all(s).len() == 4 * s.len(),
        forall|i: int|
            0 <= i < s.len() ==> read_be32(pre + be32_all(s) + post, pre.len() + 4 * i) == s[i],
    decreases s.len(),
{
    if s.len() > 0 {
        let rest = s.drop_first();
        lemma_be32_all(rest, pre + be32(s[0]), post);
        assert(pre + be32_all(s) + post =~= pre + be32(s[0]) + be32_all(rest) + post);
        assert(pre + be32_all(s) + post =~= pre + be32(s[0]) + (be32_all(rest) + post));
        lemma_be32_round_trip(s[0], pre, be32_all(rest) + post);
        assert forall|i: int| 0 < i < s.len() implies read_be32(
            pre + be32_all(s) + post,
            pre.len() + 4 * i,
        ) == s[i] by {
            assert(rest[i - 1] == s[i]);
            assert((pre + be32(s[0])).len() + 4 * (i - 1) == pre.len() + 4 * i);
        }
    }
}

proof fn lemma_be64_all(s: Seq<u64>, pre: Seq<u8>, post: Seq<u8>)
    ensures
        be64_all(s).len() == 8 * s.len(),
        forall|i: int|
            0 <= i < s.len() ==> read_be64(pre + be64_all(s) + post, pre.len() + 8 * i) == s[i],
    decreases s.len(),
{
    if s.len() > 0 {
        let rest = s.drop_first();
        lemma_be64_all(rest, pre + be64(s[0]), post);
        assert(pre + be64_all(s) + post =~= pre + be64(s[0]) + be64_all(rest) + post);
        assert(pre + be64_all(s) + post =~= pre + be64(s[0]) + (be64_all(rest) + post));
        lemma_be64_round_trip(s[0], pre, be64_all(rest) + post);
        assert forall|i: int| 0 < i < s.len() implies read_be64(
            pre + be64_all(s) + post,
            pre.len() + 8 * i,
        ) == s[i] by {
            assert(rest[i - 1] == s[i]);
            assert((pre + be64(s[0])).len() + 8 * (i - 1) == pre.len() + 8 * i);
        }
    }
}

/// Decoding an encoded answer whose count agrees with its lists gives it back.
pub proof fn lemma_begin_upload_round_trip(m: BeginUploadModel)
    requires
        wf_upload(m),
    ensures
        decode_begin_upload(encode_begin_upload(m)) == Ok::<BeginUploadModel, DecodeError>(m),
{
    let t = be64(m.transaction_id);
    let c = be32(m.files_accepted);
    let ix = be32_all(m.file_indexes);
    let cs = be64_all(m.cursors);
    let b = encode_begin_upload(m);
    let n = m.files_accepted;
    lemma_be32_all(m.file_indexes, t + c, cs);
    lemma_be64_all(m.cursors, t + c + ix, Seq::empty());
    assert(b =~= t + c + ix + cs);
    assert(b =~= t + c + ix + cs + Seq::<u8>::empty());
    lemma_be64_round_trip(m.transaction_id, Seq::empty(), c + ix + cs);
    assert(b =~= Seq::<u8>::empty() + t + (c + ix + cs));
    lemma_be32_round_trip(m.files_accepted, t, ix + cs);
    assert(b =~= t + c + (ix + cs));
    assert(b.len() == 12 + 12 * n);
    let d = decode_begin_upload(b);
    assert(d matches Ok(dm) && dm.file_indexes =~= m.file_indexes && dm.cursors =~= m.cursors);
}

impl BeginUploadPacket {
    pub const ID: u32 = 800_000;

    /// Accepts the one file of a single-file offer from `cursor` on.
    pub fn single_file(transaction_id: u64, cursor: u64) -> (r: Self)
        ensures
            r@ == (BeginUploadModel {
                transaction_id,
                files_accepted: 1,
                file_indexes: seq![0u32],
                cursors: seq![cursor],
            }),
    {
        let file_indexes = vec![0u32];
        let cursors = vec![cursor];
        let r = Self { transaction_id, files_accepted: 1, file_indexes, cursors };
        assert(r.file_indexes@ =~= seq![0u32]);
        assert(r.cursors@ =~= seq![cursor]);
        r
    }

    pub fn has_any_files(&self) -> (r: bool)
        ensures
            r == (self.files_accepted > 0 && self.file_indexes@.len() > 0 && self.cursors@.len()
                > 0),
    {
        self.files_accepted > 0 && self.file_indexes.len() > 0 && self.cursors.len() > 0
    }

    /// Accepts all `count` files of an offer, each from its start.
    pub fn accept_all(transaction_id: u64, count: u64) -> (r: Self)
        requires
            count <= u32::MAX,
        ensures
            r@ == (BeginUploadModel {
                transaction_id,
                files_accepted: count as u32,
                file_indexes: Seq::new(count as nat, |i: int| i as u32),
                cursors: Seq::new(count as nat, |i: int| 0u64),
            }),
    {
        let mut file_indexes: Vec<u32> = Vec::new();
        let mut cursors: Vec<u64> = Vec::new();
        let mut i: u64 = 0;
        while i < count
            invariant
                i <= count <= u32::MAX,
                file_indexes@ =~= Seq::new(i as nat, |k: int| k as u32),
                cursors@ =~= Seq::new(i as nat, |k: int| 0u64),
            decreases count - i,
        {
            file_indexes.push(i as u32);
            cursors.push(0);
            i = i + 1;
        }
        Self { transaction_id, files_accepted: count as u32, file_indexes, cursors }
    }

    /// An answer for the listed files; with no file at all it is the denial.
    pub fn new(transaction_id: u64, file_indexes: Vec<u32>, cursors: Vec<u64>) -> (r: Self)
        requires
            file_indexes@.len() == cursors@.len(),
            file_indexes@.len() <= u32::MAX,
        ensures
            file_indexes@.len() == 0 ==> r@ == denied_upload(),
            file_indexes@.len() > 0 ==> r@ == (BeginUploadModel {
                transaction_id,
                files_accepted: file_indexes@.len() as u32,
                file_indexes: file_indexes@,
                cursors: cursors@,
            }),
    {
        let files_accepted = file_indexes.len() as u32;
        if files_accepted == 0 {
            return Self::new_empty();
        }
        Self { transaction_id, files_accepted, file_indexes, cursors }
    }

    /// The denial.
    pub fn new_empty() -> (r: Self)
        ensures
            r@ == denied_upload(),
    {
        let r = Self { transaction_id: 0, files_accepted: 0, file_indexes: vec![], cursors: vec![] };
        assert(r.file_indexes@ =~= Seq::<u32>::empty());
        assert(r.cursors@ =~= Seq::<u64>::empty());
        r
    }

    /// Rebuilds an answer from its payload.
    pub fn from_bytes(field_bytes: &[u8]) -> (r: Result<Self, DecodeError>)
        ensures
            match r {
                Ok(p) => decode_begin_upload(field_bytes@) == Ok::<BeginUploadModel, DecodeError>(
                    p@,
                ),
                Err(e) => decode_begin_upload(field_bytes@) == Err::<BeginUploadModel, DecodeError>(
                    e,
                ),
            },
    {
        let b = field_bytes;
        if b.len() < 12 {
            return Err(DecodeError::Truncated);
        }
        let transaction_id = get_u64(b, 0);
        let files_accepted = get_u32(b, 8);
        if (b.len() as u64) < 12 + 12 * (files_accepted as u64) {
            return Err(DecodeError::Truncated);
        }
        let n = files_accepted as usize;
        let blen = b.len();
        let mut file_indexes: Vec<u32> = Vec::new();
        let mut i: usize = 0;
        while i < n
            invariant
                n == files_accepted,
                blen == b@.len(),
                12 + 12 * n <= b@.len(),
                i <= n,
                file_indexes@ =~= Seq::new(i as nat, |k: int| read_be32(b@, 12 + 4 * k)),
            decreases n - i,
        {
            assert(12 + 4 * i + 4 <= 12 + 12 * n) by (nonlinear_arith)
                requires
                    i < n,
            ;
            file_indexes.push(get_u32(b, 12 + 4 * i));
            i = i + 1;
        }
        let mut cursors: Vec<u64> = Vec::new();
        let mut j: usize = 0;
        while j < n
            invariant
                n == files_accepted,
                blen == b@.len(),
                12 + 12 * n <= b@.len(),
                j <= n,
                cursors@ =~= Seq::new(j as nat, |k: int| read_be64(b@, 12 + 4 * n + 8 * k)),
            decreases n - j,
        {
            assert(12 + 4 * n + 8 * j + 8 <= 12 + 12 * n) by (nonlinear_arith)
                requires
                    j < n,
            ;
            cursors.push(get_u64(b, 12 + 4 * n + 8 * j));
            j = j + 1;
        }
        Ok(Self { transaction_id, files_accepted, file_indexes, cursors })
    }
}

impl Packet for BeginUploadPacket {
    open spec fn identity(&self) -> u32 {
        BeginUploadPacket::ID
    }

    open spec fn payload(&self) -> Seq<u8> {
        encode_begin_upload(self@)
    }

    open spec fn writable(&self) -> bool {
        wf_upload(self@)
    }

    fn id(&self) -> u32 {
        Self::ID
    }

    /// The length of the payload that [`Self::write`] appends.
    fn size(&self) -> u32 {
        proof {
            lemma_be32_all(self.file_indexes@, Seq::empty(), Seq::empty());
            lemma_be64_all(self.cursors@, Seq::empty(), Seq::empty());
        }
        (12 + self.file_indexes.len() * 4 + self.cursors.len() * 8) as u32
    }

    /// Appends the payload to `out`.
    fn write(&self, out: &mut Vec<u8>) {
        let ghost whole = old(out)@ + encode_begin_upload(self@);
        let ghost idx = self.file_indexes@;
        let ghost cur = self.cursors@;
        push_u64(out, self.transaction_id);
        push_u32(out, self.files_accepted);
        assert(out@ + be32_all(idx.skip(0)) + be64_all(cur) =~= whole) by {
            assert(idx.skip(0) =~= idx);
        }
        let n = self.files_accepted as usize;
        let mut i: usize = 0;
        while i < n
            invariant
                n == idx.len() == cur.len(),
                idx == self.file_indexes@,
                cur == self.cursors@,
                i <= n,
                out@ + be32_all(idx.skip(i as int)) + be64_all(cur) == whole,
            decreases n - i,
        {
            let ghost before = out@;
            push_u32(out, self.file_indexes[i]);
            assert(idx.skip(i as int).drop_first() =~= idx.skip(i + 1));
            assert(be32_all(idx.skip(i as int)) == be32(idx[i as int]) + be32_all(idx.skip(i + 1)));
            assert(out@ + be32_all(idx.skip(i + 1)) + be64_all(cur) =~= before + be32_all(
                idx.skip(i as int),
            ) + be64_all(cur));
            i = i + 1;
        }
        assert(out@ + be64_all(cur.skip(0)) == whole) by {
            assert(cur.skip(0) =~= cur);
            assert(idx.skip(n as int) =~= Seq::<u32>::empty());
            assert(out@ + be32_all(idx.skip(n as int)) =~= out@);
        }
        let mut j: usize = 0;
        while j < n
            invariant
                n == idx.len() == cur.len(),
                cur == self.cursors@,
                j <= n,
                out@ + be64_all(cur.skip(j as int)) == whole,
            decreases n - j,
        {
            let ghost before = out@;
            push_u64(out, self.cursors[j]);
            assert(cur.skip(j as int).drop_first() =~= cur.skip(j + 1));
            assert(be64_all(cur.skip(j as int)) == be64(cur[j as int]) + be64_all(cur.skip(j + 1)));
            assert(out@ + be64_all(cur.skip(j + 1)) =~= before + be64_all(cur.skip(j as int)));
            j = j + 1;
        }
        assert(cur.skip(n as int) =~= Seq::<u64>::empty());
        assert(out@ + be64_all(cur.skip(n as int)) =~= out@);
    }
}

} // verus!
