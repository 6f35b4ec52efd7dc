//! The binary layout of a sparse vector: a 16-byte header, the ids, zero
//! padding up to an 8-byte boundary, the frequencies, and zero padding again.
//! All integers are little-endian `u32`.

use vstd::prelude::*;
use vstd::slice::slice_to_vec;

use crate::datatype::bm25vector::{
    count_ids, counts_ids, lemma_distinct_count, valid_vector, Bm25VectorBorrowed,
};

verus! {

/// The largest number of pairs whose encoding stays under the host's 1 GiB
/// limit on a single value.
pub const MAX_VECTOR_LEN: u32 = 134_217_724;

/// `n` rounded up to a multiple of 8.
pub open spec fn round_up8(n: int) -> int {
    n + (8 - n % 8) % 8
}

/// Byte offset of the frequencies in the encoding of `len` pairs.
pub open spec fn values_offset(len: int) -> int {
    round_up8(16 + 4 * len)
}

/// Total size in bytes of the encoding of `len` pairs.
pub open spec fn encoded_size(len: int) -> int {
    round_up8(values_offset(len) + 4 * len)
}

/// The size tag stored in the first header word.
pub open spec fn varlena_tag(size: int) -> int {
    size * 4
}

/// The four little-endian bytes of `x`.
pub open spec fn le_bytes(x: u32) -> Seq<u8> {
    seq![
        (x % 256) as u8,
        ((x / 256) % 256) as u8,
        ((x / 65536) % 256) as u8,
        (x / 16777216) as u8,
    ]
}

/// The little-endian bytes of each word in turn.
pub open spec fn le_words(s: Seq<u32>) -> Seq<u8>
    decreases s.len(),
{
    if s.len() == 0 {
        Seq::empty()
    } else {
        le_words(s.drop_last()) + le_bytes(s.last())
    }
}

pub open spec fn zeros(n: int) -> Seq<u8> {
    Seq::new(n as nat, |_i: int| 0u8)
}

/// The byte encoding of a sparse vector.
pub open spec fn encode_vector(doc_len: u32, indexes: Seq<u32>, values: Seq<u32>) -> Seq<u8> {
    let n = indexes.len() as int;
    le_bytes(varlena_tag(encoded_size(n)) as u32) + le_bytes(n as u32) + le_bytes(doc_len)
        + le_bytes(0) + le_words(indexes) + zeros(values_offset(n) - (16 + 4 * n)) + le_words(
        values,
    ) + zeros(encoded_size(n) - (values_offset(n) + 4 * n))
}

/// The little-endian word at byte offset `off`.
pub open spec fn read_word(b: Seq<u8>, off: int) -> u32 {
    (b[off] + 256 * b[off + 1] + 65536 * b[off + 2] + 16777216 * b[off + 3]) as u32
}

/// `b` is exactly the encoding of a valid vector with these parts.
pub open spec fn is_encoding_of(b: Seq<u8>, doc_len: u32, indexes: Seq<u32>, values: Seq<u32>) -> bool {
    valid_vector(doc_len, indexes, values) && indexes.len() <= MAX_VECTOR_LEN && b
        == encode_vector(doc_len, indexes, values)
}

proof fn lemma_read_le_bytes(x: u32)
    ensures
        read_word(le_bytes(x), 0) == x,
{
    let b = le_bytes(x);
    assert(b[0] + 256 * b[1] + 65536 * b[2] + 16777216 * b[3] == x) by (nonlinear_arith)
        requires
            b[0] == x % 256,
            b[1] == (x / 256) % 256,
            b[2] == (x / 65536) % 256,
            b[3] == x / 16777216,
    {
        assert(x == 256 * (x / 256) + x % 256);
        assert(x / 256 == 256 * (x / 65536) + (x / 256) % 256);
        assert(x / 65536 == 256 * (x / 16777216) + (x / 65536) % 256);
    }
}

proof fn lemma_le_words(s: Seq<u32>)
    ensures
        le_words(s).len() == 4 * s.len(),
        forall|i: int, k: int|
            0 <= i < s.len() && 0 <= k < 4 ==> #[trigger] le_words(s)[4 * i + k] == le_bytes(
                s[i],
            )[k],
    decreases s.len(),
{
    if s.len() > 0 {
        lemma_le_words(s.drop_last());
        assert forall|i: int, k: int|
            0 <= i < s.len() && 0 <= k < 4 implies #[trigger] le_words(s)[4 * i + k] == le_bytes(
            s[i],
        )[k] by {
            if i < s.len() - 1 {
                assert(le_words(s)[4 * i + k] == le_words(s.drop_last())[4 * i + k]);
            }
        }
    }
}

proof fn lemma_le_words_prefix(s: Seq<u32>, i: int)
    requires
        0 <= i < s.len(),
    ensures
        le_words(s.subrange(0, i + 1)) == le_words(s.subrange(0, i)) + le_bytes(s[i]),
{
    assert(s.subrange(0, i + 1).drop_last() =~= s.subrange(0, i));
}

/// Reading the words of an encoding gives back its header and both arrays.
pub proof fn lemma_decode_encode(doc_len: u32, indexes: Seq<u32>, values: Seq<u32>)
    requires
        valid_vector(doc_len, indexes, values),
        indexes.len() <= MAX_VECTOR_LEN,
    ensures
        ({
            let b = encode_vector(doc_len, indexes, values);
            let n = indexes.len() as int;
            &&& b.len() == encoded_size(n)
            &&& read_word(b, 0) as int == varlena_tag(encoded_size(n))
            &&& read_word(b, 4) as int == n
            &&& read_word(b, 8) == doc_len
            &&& read_word(b, 12) == 0
            &&& forall|i: int| 0 <= i < n ==> #[trigger] read_word(b, 16 + 4 * i) == indexes[i]
            &&& forall|i: int|
                0 <= i < n ==> #[trigger] read_word(b, values_offset(n) + 4 * i) == values[i]
        }),
{
    let b = encode_vector(doc_len, indexes, values);
    let n = indexes.len() as int;
    lemma_le_words(indexes);
    lemma_le_words(values);
    let h = le_bytes(varlena_tag(encoded_size(n)) as u32) + le_bytes(n as u32) + le_bytes(doc_len)
        + le_bytes(0);
    let p1 = values_offset(n) - (16 + 4 * n);
    assert(h.len() == 16);
    lemma_read_le_bytes(varlena_tag(encoded_size(n)) as u32);
    lemma_read_le_bytes(n as u32);
    lemma_read_le_bytes(doc_len);
    lemma_read_le_bytes(0);
    assert(read_word(b, 0) == read_word(le_bytes(varlena_tag(encoded_size(n)) as u32), 0));
    assert(read_word(b, 4) == read_word(le_bytes(n as u32), 0));
    assert(read_word(b, 8) == read_word(le_bytes(doc_len), 0));
    assert(read_word(b, 12) == read_word(le_bytes(0), 0));
    assert forall|i: int| 0 <= i < n implies #[trigger] read_word(b, 16 + 4 * i) == indexes[i] by {
        lemma_read_le_bytes(indexes[i]);
        assert(b[16 + 4 * i] == le_words(indexes)[4 * i + 0]);
        assert(b[16 + 4 * i + 1] == le_words(indexes)[4 * i + 1]);
        assert(b[16 + 4 * i + 2] == le_words(indexes)[4 * i + 2]);
        assert(b[16 + 4 * i + 3] == le_words(indexes)[4 * i + 3]);
    }
    assert forall|i: int| 0 <= i < n implies #[trigger] read_word(b, values_offset(n) + 4 * i)
        == values[i] by {
        lemma_read_le_bytes(values[i]);
        let o = values_offset(n);
        assert(b[o + 4 * i] == le_words(values)[4 * i + 0]);
        assert(b[o + 4 * i + 1] == le_words(values)[4 * i + 1]);
        assert(b[o + 4 * i + 2] == le_words(values)[4 * i + 2]);
        assert(b[o + 4 * i + 3] == le_words(values)[4 * i + 3]);
    }
}

/// The pairs count read from a buffer's header.
pub open spec fn header_len(b: Seq<u8>) -> int {
    read_word(b, 4) as int
}

/// The ids read from a buffer, at their places in the layout.
pub open spec fn read_indexes(b: Seq<u8>) -> Seq<u32> {
    Seq::new(header_len(b) as nat, |i: int| read_word(b, 16 + 4 * i))
}

/// The frequencies read from a buffer, at their places in the layout.
pub open spec fn read_values(b: Seq<u8>) -> Seq<u32> {
    let n = header_len(b);
    Seq::new(n as nat, |i: int| read_word(b, values_offset(n) + 4 * i))
}

/// `b` is the encoding of some valid vector.
pub open spec fn well_encoded(b: Seq<u8>) -> bool {
    exists|doc_len: u32, indexes: Seq<u32>, values: Seq<u32>|
        is_encoding_of(b, doc_len, indexes, values)
}

/// An encoding determines its parts: they are the ones read back from it.
pub proof fn lemma_encoding_unique(b: Seq<u8>, doc_len: u32, indexes: Seq<u32>, values: Seq<u32>)
    requires
        is_encoding_of(b, doc_len, indexes, values),
    ensures
        b.len() >= 16,
        read_word(b, 8) == doc_len,
        read_indexes(b) == indexes,
        read_values(b) == values,
{
    lemma_decode_encode(doc_len, indexes, values);
    assert(read_indexes(b) =~= indexes);
    assert(read_values(b) =~= values);
}

/// The fixed header that starts every encoded vector.
pub struct Bm25VectorHeader {
    pub varlena: u32,
    pub len: u32,
    pub doc_len: u32,
    pub reserved: u32,
}

impl Bm25VectorHeader {
    /// The size tag for an encoding of `size` bytes.
    pub fn varlena(size: usize) -> (r: u32)
        requires
            size * 4 <= u32::MAX,
        ensures
            r as int == varlena_tag(size as int),
    {
        (size * 4) as u32
    }

    /// The size in bytes of the encoding of `len` pairs.
    pub fn layout(len: u32) -> (r: usize)
        requires
            len <= MAX_VECTOR_LEN,
        ensures
            r as int == encoded_size(len as int),
            values_offset(len as int) - (16 + 4 * len) <= 4,
            encoded_size(len as int) - (values_offset(len as int) + 4 * len) <= 4,
            values_offset(len as int) >= 16 + 4 * len,
            encoded_size(len as int) >= values_offset(len as int) + 4 * len,
            r <= 1_073_741_816,
    {
        let a: usize = 16 + 4 * (len as usize);
        let offset: usize = a + (8 - a % 8) % 8;
        let b: usize = offset + 4 * (len as usize);
        b + (8 - b % 8) % 8
    }

    /// Reads the header words of a buffer of at least 16 bytes.
    pub fn read(bytes: &[u8]) -> (r: Self)
        requires
            bytes@.len() >= 16,
        ensures
            r.varlena == read_word(bytes@, 0),
            r.len == read_word(bytes@, 4),
            r.doc_len == read_word(bytes@, 8),
            r.reserved == read_word(bytes@, 12),
    {
        Bm25VectorHeader {
            varlena: read_u32(bytes, 0),
            len: read_u32(bytes, 4),
            doc_len: read_u32(bytes, 8),
            reserved: read_u32(bytes, 12),
        }
    }
}

/// Reads the little-endian word at byte offset `off`.
pub fn read_u32(bytes: &[u8], off: usize) -> (r: u32)
    requires
        off + 4 <= bytes@.len(),
    ensures
        r == read_word(bytes@, off as int),
{
    let b0 = bytes[off] as u32;
    let b1 = bytes[off + 1] as u32;
    let b2 = bytes[off + 2] as u32;
    let b3 = bytes[off + 3] as u32;
    b0 + 256 * b1 + 65536 * b2 + 16777216 * b3
}

fn push_word(out: &mut Vec<u8>, x: u32)
    ensures
        final(out)@ == old(out)@ + le_bytes(x),
{
    out.push((x % 256) as u8);
    out.push(((x / 256) % 256) as u8);
    out.push(((x / 65536) % 256) as u8);
    out.push((x / 16777216) as u8);
    assert(final(out)@ =~= old(out)@ + le_bytes(x));
}

fn push_words(out: &mut Vec<u8>, words: &[u32])
    ensures
        final(out)@ == old(out)@ + le_words(words@),
{
    let ghost start = out@;
    let mut i: usize = 0;
    while i < words.len()
        invariant
            i <= words@.len(),
            out@ == start + le_words(words@.subrange(0, i as int)),
        decreases words@.len() - i,
    {
        proof {
            lemma_le_words_prefix(words@, i as int);
        }
        push_word(out, words[i]);
        assert(out@ =~= start + le_words(words@.subrange(0, i as int + 1)));
        i = i + 1;
    }
    assert(words@.subrange(0, i as int) =~= words@);
}

fn push_zeros(out: &mut Vec<u8>, n: usize)
    ensures
        final(out)@ == old(out)@ + zeros(n as int),
{
    let ghost start = out@;
    let mut i: usize = 0;
    while i < n
        invariant
            i <= n,
            out@ == start + zeros(i as int),
        decreases n - i,
    {
        out.push(0u8);
        assert(out@ =~= start + zeros(i as int + 1));
        i = i + 1;
    }
}

/// Writes the encoding of a valid vector.
pub fn encode(doc_len: u32, indexes: &[u32], values: &[u32]) -> (r: Vec<u8>)
    requires
        valid_vector(doc_len, indexes@, values@),
        indexes@.len() <= MAX_VECTOR_LEN,
    ensures
        r@ == encode_vector(doc_len, indexes@, values@),
{
    let len = indexes.len() as u32;
    let size = Bm25VectorHeader::layout(len);
    let start = 16 + 4 * (len as usize);
    let offset = start + (8 - start % 8) % 8;
    let mut out: Vec<u8> = Vec::new();
    push_word(&mut out, Bm25VectorHeader::varlena(size));
    push_word(&mut out, len);
    push_word(&mut out, doc_len);
    push_word(&mut out, 0);
    push_words(&mut out, indexes);
    push_zeros(&mut out, offset - start);
    push_words(&mut out, values);
    push_zeros(&mut out, size - (offset + 4 * (len as usize)));
    assert(out@ =~= encode_vector(doc_len, indexes@, values@));
    out
}

/// Reads `n` consecutive words starting at byte offset `first`.
fn read_words(bytes: &[u8], first: usize, n: usize) -> (r: Vec<u32>)
    requires
        first + 4 * n <= bytes@.len(),
        first + 4 * n <= 1_073_741_816,
    ensures
        r@ == Seq::new(n as nat, |i: int| read_word(bytes@, first + 4 * i)),
{
    let mut out: Vec<u32> = Vec::new();
    let mut i: usize = 0;
    while i < n
        invariant
            i <= n,
            first + 4 * n <= bytes@.len(),
            first + 4 * n <= 1_073_741_816,
            out@ == Seq::new(i as nat, |j: int| read_word(bytes@, first + 4 * j)),
        decreases n - i,
    {
        let x = read_u32(bytes, first + 4 * i);
        out.push(x);
        assert(out@ =~= Seq::new((i + 1) as nat, |j: int| read_word(bytes@, first + 4 * j)));
        i = i + 1;
    }
    out
}

/// Compares two byte sequences.
fn same_bytes(a: &[u8], b: &[u8]) -> (r: bool)
    ensures
        r == (a@ == b@),
{
    if a.len() != b.len() {
        return false;
    }
    let mut i: usize = 0;
    while i < a.len()
        invariant
            a@.len() == b@.len(),
            i <= a@.len(),
            forall|j: int| 0 <= j < i ==> a@[j] == b@[j],
        decreases a@.len() - i,
    {
        if a[i] != b[i] {
            return false;
        }
        i = i + 1;
    }
    assert(a@ =~= b@);
    true
}

/// What an encoded buffer must show: its header, its size, and the parts read
/// from it.
proof fn lemma_encoded_reads(b: Seq<u8>)
    requires
        well_encoded(b),
    ensures
        b.len() >= 16,
        header_len(b) <= MAX_VECTOR_LEN,
        b.len() == encoded_size(header_len(b)),
        is_encoding_of(b, read_word(b, 8), read_indexes(b), read_values(b)),
{
    let (d, ix, vs) = choose|d: u32, ix: Seq<u32>, vs: Seq<u32>| is_encoding_of(b, d, ix, vs);
    lemma_encoding_unique(b, d, ix, vs);
    lemma_decode_encode(d, ix, vs);
}

/// Reads and checks an encoded vector: its parts, or `None` when the bytes are
/// not exactly the encoding of a valid vector.
pub fn decode(bytes: &[u8]) -> (r: Option<(u32, Vec<u32>, Vec<u32>)>)
    ensures
        r is Some <==> well_encoded(bytes@),
        r matches Some(parts) ==> is_encoding_of(bytes@, parts.0, parts.1@, parts.2@),
{
    if bytes.len() < 16 {
        proof {
            if well_encoded(bytes@) {
                lemma_encoded_reads(bytes@);
            }
        }
        return None;
    }
    let header = Bm25VectorHeader::read(bytes);
    if header.len > MAX_VECTOR_LEN {
        proof {
            if well_encoded(bytes@) {
                lemma_encoded_reads(bytes@);
            }
        }
        return None;
    }
    let size = Bm25VectorHeader::layout(header.len);
    if bytes.len() != size {
        proof {
            if well_encoded(bytes@) {
                lemma_encoded_reads(bytes@);
            }
        }
        return None;
    }
    let n = header.len as usize;
    let start = 16 + 4 * n;
    let offset = start + (8 - start % 8) % 8;
    let indexes = read_words(bytes, 16, n);
    let values = read_words(bytes, offset, n);
    assert(indexes@ =~= read_indexes(bytes@));
    assert(values@ =~= read_values(bytes@));
    let checked = Bm25VectorBorrowed::new_checked(
        header.doc_len,
        indexes.as_slice(),
        values.as_slice(),
    );
    if checked.is_none() {
        proof {
            if well_encoded(bytes@) {
                lemma_encoded_reads(bytes@);
            }
        }
        return None;
    }
    let again = encode(header.doc_len, indexes.as_slice(), values.as_slice());
    if !same_bytes(again.as_slice(), bytes) {
        proof {
            if well_encoded(bytes@) {
                lemma_encoded_reads(bytes@);
            }
        }
        return None;
    }
    assert(is_encoding_of(bytes@, header.doc_len, indexes@, values@));
    Some((header.doc_len, indexes, values))
}

/// Encoding the counts of some ids and reading the bytes back gives each
/// distinct id with its number of occurrences, and the number of ids as the
/// document length.
pub proof fn lemma_round_trip(
    ids: Seq<u32>,
    doc_len: u32,
    indexes: Seq<u32>,
    values: Seq<u32>,
    bytes: Seq<u8>,
)
    requires
        counts_ids(ids, indexes, values),
        valid_vector(doc_len, indexes, values),
        doc_len as int == ids.len(),
        indexes.len() <= MAX_VECTOR_LEN,
        bytes == encode_vector(doc_len, indexes, values),
    ensures
        well_encoded(bytes),
        counts_ids(ids, read_indexes(bytes), read_values(bytes)),
        read_word(bytes, 8) as int == ids.len(),
{
    assert(is_encoding_of(bytes, doc_len, indexes, values));
    lemma_encoding_unique(bytes, doc_len, indexes, values);
    let ri = read_indexes(bytes);
    let rv = read_values(bytes);
    assert(ri == indexes && rv == values);
}

/// An owned, encoded sparse vector: its parts and its bytes.
pub struct Bm25VectorOutput {
    doc_len: u32,
    indexes: Vec<u32>,
    values: Vec<u32>,
    bytes: Vec<u8>,
}

impl Bm25VectorOutput {
    #[verifier::type_invariant]
    spec fn well_formed(self) -> bool {
        is_encoding_of(self.bytes@, self.doc_len, self.indexes@, self.values@)
    }

    pub closed spec fn spec_doc_len(self) -> u32 {
        self.doc_len
    }

    pub closed spec fn spec_indexes(self) -> Seq<u32> {
        self.indexes@
    }

    pub closed spec fn spec_values(self) -> Seq<u32> {
        self.values@
    }

    pub closed spec fn spec_bytes(self) -> Seq<u8> {
        self.bytes@
    }

    /// Encodes a copy of a vector.
    pub fn new(vector: Bm25VectorBorrowed) -> (r: Self)
        requires
            vector.spec_indexes().len() <= MAX_VECTOR_LEN,
        ensures
            r.spec_doc_len() == vector.spec_doc_len(),
            r.spec_indexes() == vector.spec_indexes(),
            r.spec_values() == vector.spec_values(),
            r.spec_bytes() == encode_vector(r.spec_doc_len(), r.spec_indexes(), r.spec_values()),
    {
        let doc_len = vector.doc_len();
        let indexes = vector.indexes();
        let values = vector.values();
        let bytes = encode(doc_len, indexes, values);
        Bm25VectorOutput { doc_len, indexes: slice_to_vec(indexes), values: slice_to_vec(values), bytes }
    }

    /// Counts the ids and encodes the result; `None` when there are more
    /// distinct ids than an encoding can hold.
    pub fn from_ids(ids: &[u32]) -> (r: Option<Self>)
        requires
            ids@.len() <= u32::MAX,
        ensures
            r is None <==> ids@.to_set().len() > MAX_VECTOR_LEN,
            r matches Some(v) ==> {
                &&& counts_ids(ids@, v.spec_indexes(), v.spec_values())
                &&& valid_vector(v.spec_doc_len(), v.spec_indexes(), v.spec_values())
                &&& v.spec_doc_len() as int == ids@.len()
                &&& v.spec_bytes() == encode_vector(
                    v.spec_doc_len(),
                    v.spec_indexes(),
                    v.spec_values(),
                )
            },
    {
        let (doc_len, indexes, values) = count_ids(ids);
        proof {
            lemma_distinct_count(ids@, indexes@, values@);
        }
        if indexes.len() > MAX_VECTOR_LEN as usize {
            return None;
        }
        let bytes = encode(doc_len, indexes.as_slice(), values.as_slice());
        Some(Bm25VectorOutput { doc_len, indexes, values, bytes })
    }

    /// Checks and takes an encoded buffer; `None` when it is not exactly the
    /// encoding of a valid vector.
    pub fn from_bytes(bytes: Vec<u8>) -> (r: Option<Self>)
        ensures
            r is Some <==> well_encoded(bytes@),
            r matches Some(v) ==> v.spec_bytes() == bytes@ && v.spec_doc_len() == read_word(
                bytes@,
                8,
            ) && v.spec_indexes() == read_indexes(bytes@) && v.spec_values() == read_values(
                bytes@,
            ),
    {
        match decode(bytes.as_slice()) {
            Some((doc_len, indexes, values)) => {
                proof {
                    lemma_encoding_unique(bytes@, doc_len, indexes@, values@);
                }
                Some(Bm25VectorOutput { doc_len, indexes, values, bytes })
            },
            None => None,
        }
    }

    /// A read-only view of the parts.
    pub fn borrow(&self) -> (r: Bm25VectorBorrowed<'_>)
        ensures
            r.spec_doc_len() == self.spec_doc_len(),
            r.spec_indexes() == self.spec_indexes(),
            r.spec_values() == self.spec_values(),
    {
        proof {
            use_type_invariant(self);
        }
        Bm25VectorBorrowed::new_unchecked(self.doc_len, self.indexes.as_slice(), self.values.as_slice())
    }

    /// The encoded bytes.
    pub fn to_bytes(&self) -> (r: &[u8])
        ensures
            r@ == self.spec_bytes(),
            is_encoding_of(r@, self.spec_doc_len(), self.spec_indexes(), self.spec_values()),
    {
        proof {
            use_type_invariant(self);
        }
        self.bytes.as_slice()
    }

    /// Gives up the encoded bytes.
    pub fn into_raw(self) -> (r: Vec<u8>)
        ensures
            r@ == self.spec_bytes(),
            is_encoding_of(r@, self.spec_doc_len(), self.spec_indexes(), self.spec_values()),
    {
        proof {
            use_type_invariant(&self);
        }
        self.bytes
    }
}

/// An encoded vector handed in by a storage layer: used in place when the
/// stored buffer is already in its final form, or owned when the storage layer
/// had to produce a separate copy.
pub struct Bm25VectorInput<'a> {
    buffer: InputBuffer<'a>,
}

enum InputBuffer<'a> {
    Owned(Bm25VectorOutput),
    Borrowed(&'a [u8]),
}

impl<'a> Bm25VectorInput<'a> {
    #[verifier::type_invariant]
    spec fn well_formed(self) -> bool {
        match self.buffer {
            InputBuffer::Owned(_) => true,
            InputBuffer::Borrowed(b) => well_encoded(b@),
        }
    }

    /// The encoded bytes this input reads from.
    pub closed spec fn spec_bytes(self) -> Seq<u8> {
        match self.buffer {
            InputBuffer::Owned(v) => v.spec_bytes(),
            InputBuffer::Borrowed(b) => b@,
        }
    }

    /// Whether the bytes are used in place rather than owned.
    pub closed spec fn spec_is_borrowed(self) -> bool {
        self.buffer is Borrowed
    }

    /// Takes the stored buffer, or the copy that the storage layer made of it;
    /// `None` when the bytes are not exactly the encoding of a valid vector.
    pub fn new(stored: &'a [u8], copy: Option<Vec<u8>>) -> (r: Option<Self>)
        ensures
            r is Some <==> well_encoded(
                match copy {
                    Some(c) => c@,
                    None => stored@,
                },
            ),
            r matches Some(v) ==> v.spec_bytes() == match copy {
                Some(c) => c@,
                None => stored@,
            },
            r matches Some(v) ==> (v.spec_is_borrowed() <==> copy is None),
    {
        match copy {
            Some(c) => match Bm25VectorOutput::from_bytes(c) {
                Some(v) => Some(Bm25VectorInput { buffer: InputBuffer::Owned(v) }),
                None => None,
            },
            None => {
                if decode(stored).is_some() {
                    Some(Bm25VectorInput { buffer: InputBuffer::Borrowed(stored) })
                } else {
                    None
                }
            },
        }
    }

    /// The encoded bytes, wherever they live.
    pub fn to_bytes(&self) -> (r: &[u8])
        ensures
            r@ == self.spec_bytes(),
            well_encoded(r@),
    {
        proof {
            use_type_invariant(self);
        }
        match &self.buffer {
            InputBuffer::Owned(v) => v.to_bytes(),
            InputBuffer::Borrowed(b) => b,
        }
    }

    /// The number of pairs.
    pub fn len(&self) -> (r: u32)
        ensures
            r as int == read_indexes(self.spec_bytes()).len(),
    {
        let b = self.to_bytes();
        proof {
            lemma_encoded_reads(b@);
        }
        read_u32(b, 4)
    }

    /// The sum of all frequencies.
    pub fn doc_len(&self) -> (r: u32)
        ensures
            r == read_word(self.spec_bytes(), 8),
    {
        let b = self.to_bytes();
        proof {
            lemma_encoded_reads(b@);
        }
        read_u32(b, 8)
    }

    /// The `i`-th id.
    pub fn index(&self, i: u32) -> (r: u32)
        requires
            i < read_indexes(self.spec_bytes()).len(),
        ensures
            r == read_indexes(self.spec_bytes())[i as int],
    {
        let b = self.to_bytes();
        proof {
            lemma_encoded_reads(b@);
        }
        read_u32(b, 16 + 4 * (i as usize))
    }

    /// The `i`-th frequency.
    pub fn value(&self, i: u32) -> (r: u32)
        requires
            i < read_values(self.spec_bytes()).len(),
        ensures
            r == read_values(self.spec_bytes())[i as int],
    {
        let b = self.to_bytes();
        proof {
            lemma_encoded_reads(b@);
        }
        let n = read_u32(b, 4);
        let start = 16 + 4 * (n as usize);
        let offset = start + (8 - start % 8) % 8;
        read_u32(b, offset + 4 * (i as usize))
    }
}

} // verus!
