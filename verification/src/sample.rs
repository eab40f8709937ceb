use vstd::prelude::*;
use crate::error::SampleDecodeError;

verus! {

/// Byte size of one sample-header record in the SF2 format: a 20-byte name,
/// four 4-byte offsets, a 4-byte rate, two pitch bytes and two 16-bit links.
pub const SAMPLE_HEADER_SIZE: usize = 46;

/// Value of a little-endian 16-bit field stored as two bytes.
pub open spec fn le16(b0: u8, b1: u8) -> int {
    b0 + 256 * b1
}

/// Value of a little-endian 32-bit field stored as four bytes.
pub open spec fn le32(b0: u8, b1: u8, b2: u8, b3: u8) -> int {
    b0 + 256 * b1 + 65536 * b2 + 16777216 * b3
}

/// Two's-complement reading of one byte as a signed value.
pub open spec fn as_signed8(b: u8) -> int {
    if b < 128 {
        b as int
    } else {
        b - 256
    }
}

/// Mathematical content of one decoded sample-header record.
pub struct SampleHeaderView {
    pub name: Seq<char>,
    pub start: int,
    pub end: int,
    pub loop_start: int,
    pub loop_end: int,
    pub sample_rate: int,
    pub origpitch: int,
    pub pitchadj: int,
    pub sample_link: int,
    pub sample_type: int,
}

/// The record encoded at byte offset `off` of `data`: a fixed sequential
/// cursor walk over the 46 bytes, with no reordering of fields.
pub open spec fn header_at(data: Seq<u8>, off: int) -> SampleHeaderView {
    SampleHeaderView {
        name: data.subrange(off, off + 20).map(|i: int, b: u8| b as char),
        start: le32(data[off + 20], data[off + 21], data[off + 22], data[off + 23]),
        end: le32(data[off + 24], data[off + 25], data[off + 26], data[off + 27]),
        loop_start: le32(data[off + 28], data[off + 29], data[off + 30], data[off + 31]),
        loop_end: le32(data[off + 32], data[off + 33], data[off + 34], data[off + 35]),
        sample_rate: le32(data[off + 36], data[off + 37], data[off + 38], data[off + 39]),
        origpitch: data[off + 40] as int,
        pitchadj: as_signed8(data[off + 41]),
        sample_link: le16(data[off + 42], data[off + 43]),
        sample_type: le16(data[off + 44], data[off + 45]),
    }
}

/// One sample-header record of an SF2 file: name, offsets into the raw
/// sample pool, rate, pitch fields and the link/type pair.
#[derive(Clone, Debug, PartialEq)]
pub struct SFSampleHeader {
    pub name: String,
    pub start: u32,
    pub end: u32,
    pub loop_start: u32,
    pub loop_end: u32,
    pub sample_rate: u32,
    pub origpitch: u8,
    pub pitchadj: i8,
    pub sample_link: u16,
    pub sample_type: u16,
}

impl View for SFSampleHeader {
    type V = SampleHeaderView;

    open spec fn view(&self) -> SampleHeaderView {
        SampleHeaderView {
            name: self.name@,
            start: self.start as int,
            end: self.end as int,
            loop_start: self.loop_start as int,
            loop_end: self.loop_end as int,
            sample_rate: self.sample_rate as int,
            origpitch: self.origpitch as int,
            pitchadj: self.pitchadj as int,
            sample_link: self.sample_link as int,
            sample_type: self.sample_type as int,
        }
    }
}

/// Sequential cursor over a byte buffer.
pub struct Reader {
    pub data: Vec<u8>,
    pub pos: usize,
}

/// Relies on `String::push`: appends exactly the one character.
#[verifier::external_body]
fn push_char(s: &mut String, c: char)
    ensures
        final(s)@ == old(s)@.push(c),
{
    s.push(c)
}

impl Reader {
    pub fn new(data: Vec<u8>) -> (r: Reader)
        ensures
            r.data == data,
            r.pos == 0,
    {
        Reader { data, pos: 0 }
    }

    /// Read `len` bytes as text, one character per byte.
    pub fn read_string(&mut self, len: usize) -> (r: String)
        requires
            old(self).pos + len <= old(self).data@.len(),
        ensures
            final(self).data == old(self).data,
            final(self).pos == old(self).pos + len,
            r@ == old(self).data@.subrange(
                old(self).pos as int,
                old(self).pos + len,
            ).map(|i: int, b: u8| b as char),
    {
        proof {
            assert(self.data.len() == self.data@.len());
        }
        let ghost base = self.pos as int;
        let mut s = String::new();
        let mut i: usize = 0;
        while i < len
            invariant
                i <= len,
                self.pos == base + i,
                base + len <= self.data@.len(),
                self.data@.len() <= usize::MAX,
                self.data == old(self).data,
                base == old(self).pos,
                s@ =~= self.data@.subrange(base, base + i).map(|k: int, b: u8| b as char),
            decreases len - i,
        {
            let b = self.data[self.pos];
            push_char(&mut s, b as char);
            self.pos = self.pos + 1;
            i = i + 1;
            proof {
                let part = self.data@.subrange(base, base + i);
                assert forall|k: int| 0 <= k < i implies part.map(|k: int, b: u8| b as char)[k]
                    == s@[k] by {
                    assert(part[k] == self.data@[base + k]);
                }
                assert(s@ =~= part.map(|k: int, b: u8| b as char));
            }
        }
        s
    }

    pub fn read_u8(&mut self) -> (r: u8)
        requires
            old(self).pos + 1 <= old(self).data@.len(),
        ensures
            final(self).data == old(self).data,
            final(self).pos == old(self).pos + 1,
            r == old(self).data@[old(self).pos as int],
    {
        proof {
            assert(self.data.len() == self.data@.len());
        }
        let b = self.data[self.pos];
        self.pos = self.pos + 1;
        b
    }

    pub fn read_i8(&mut self) -> (r: i8)
        requires
            old(self).pos + 1 <= old(self).data@.len(),
        ensures
            final(self).data == old(self).data,
            final(self).pos == old(self).pos + 1,
            r as int == as_signed8(old(self).data@[old(self).pos as int]),
    {
        proof {
            assert(self.data.len() == self.data@.len());
        }
        let b = self.data[self.pos];
        self.pos = self.pos + 1;
        if b < 128 {
            b as i8
        } else {
            ((b as i16) - 256) as i8
        }
    }

    pub fn read_u16(&mut self) -> (r: u16)
        requires
            old(self).pos + 2 <= old(self).data@.len(),
        ensures
            final(self).data == old(self).data,
            final(self).pos == old(self).pos + 2,
            r as int == le16(
                old(self).data@[old(self).pos as int],
                old(self).data@[old(self).pos + 1],
            ),
    {
        proof {
            assert(self.data.len() == self.data@.len());
        }
        let b0 = self.data[self.pos];
        let b1 = self.data[self.pos + 1];
        self.pos = self.pos + 2;
        (b0 as u16) + 256 * (b1 as u16)
    }

    pub fn read_u32(&mut self) -> (r: u32)
        requires
            old(self).pos + 4 <= old(self).data@.len(),
        ensures
            final(self).data == old(self).data,
            final(self).pos == old(self).pos + 4,
            r as int == le32(
                old(self).data@[old(self).pos as int],
                old(self).data@[old(self).pos + 1],
                old(self).data@[old(self).pos + 2],
                old(self).data@[old(self).pos + 3],
            ),
    {
        proof {
            assert(self.data.len() == self.data@.len());
        }
        let b0 = self.data[self.pos];
        let b1 = self.data[self.pos + 1];
        let b2 = self.data[self.pos + 2];
        let b3 = self.data[self.pos + 3];
        self.pos = self.pos + 4;
        (b0 as u32) + 256 * (b1 as u32) + 65536 * (b2 as u32) + 16777216 * (b3 as u32)
    }
}

impl SFSampleHeader {
    /// Decode one record by a fixed cursor walk: name text, four unsigned
    /// offsets, the sample rate, the pitch fields, then the two link fields.
    pub fn read(reader: &mut Reader) -> (r: SFSampleHeader)
        requires
            old(reader).pos + SAMPLE_HEADER_SIZE <= old(reader).data@.len(),
        ensures
            final(reader).data == old(reader).data,
            final(reader).pos == old(reader).pos + SAMPLE_HEADER_SIZE,
            r@ == header_at(old(reader).data@, old(reader).pos as int),
    {
        let name: String = reader.read_string(20);
        let start: u32 = reader.read_u32();
        let end: u32 = reader.read_u32();
        let loop_start: u32 = reader.read_u32();
        let loop_end: u32 = reader.read_u32();
        let sample_rate: u32 = reader.read_u32();
        let origpitch: u8 = reader.read_u8();
        let pitchadj: i8 = reader.read_i8();
        let sample_link: u16 = reader.read_u16();
        let sample_type: u16 = reader.read_u16();

        Self {
            name,
            start,
            end,
            loop_start,
            loop_end,
            sample_rate,
            origpitch,
            pitchadj,
            sample_link,
            sample_type,
        }
    }

    /// Decode a whole sample-header chunk. The chunk length must be a
    /// positive exact multiple of the record size; anything else is a
    /// structural error and no records are produced. Records come out
    /// strictly in file order.
    pub fn read_all(data: Vec<u8>) -> (r: Result<Vec<SFSampleHeader>, SampleDecodeError>)
        ensures
            match r {
                Ok(v) => {
                    &&& data@.len() > 0
                    &&& data@.len() % 46 == 0
                    &&& v@.len() == data@.len() / 46
                    &&& forall|k: int|
                        0 <= k < v@.len() ==> #[trigger] v@[k]@ == header_at(data@, 46 * k)
                },
                Err(e) => {
                    &&& e == SampleDecodeError::InvalidChunkSize
                    &&& (data@.len() == 0 || data@.len() % 46 != 0)
                },
            },
    {
        let ghost orig = data@;
        let size = data.len();
        if size % 46 != 0 || size == 0 {
            return Err(SampleDecodeError::InvalidChunkSize);
        }
        let amount = size / 46;
        let mut reader = Reader::new(data);
        let mut out: Vec<SFSampleHeader> = Vec::new();
        let mut k: usize = 0;
        while k < amount
            invariant
                k <= amount,
                reader.data@ == orig,
                reader.pos == 46 * k,
                out@.len() == k,
                46 * amount == orig.len(),
                forall|j: int| 0 <= j < k ==> #[trigger] out@[j]@ == header_at(orig, 46 * j),
            decreases amount - k,
        {
            let rec = Self::read(&mut reader);
            out.push(rec);
            k = k + 1;
        }
        Ok(out)
    }
}

/// Decoding is a pure function of the chunk bytes: any two record sequences
/// that satisfy the decoder's success contract on the same bytes are equal,
/// record by record — re-decoding the same chunk yields equal records.
pub proof fn lemma_decode_deterministic(
    data: Seq<u8>,
    v1: Seq<SampleHeaderView>,
    v2: Seq<SampleHeaderView>,
)
    requires
        v1.len() == data.len() / 46,
        forall|k: int| 0 <= k < v1.len() ==> #[trigger] v1[k] == header_at(data, 46 * k),
        v2.len() == data.len() / 46,
        forall|k: int| 0 <= k < v2.len() ==> #[trigger] v2[k] == header_at(data, 46 * k),
    ensures
        v1 == v2,
{
    assert(v1 =~= v2);
}

} // verus!
