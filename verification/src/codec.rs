//! Binary metadata codec: a fixed little-endian layout of a 32-byte header
//! followed, at a header-given offset past the header, by a content table
//! (59-byte records) and a meta table (14-byte records), back to back.

use vstd::bytes::*;
use vstd::prelude::*;
use vstd::slice::*;

verus! {

/// The five known meta record types.
#[derive(Clone, Copy, Debug, PartialEq, Eq, Structural)]
pub enum MetaType {
    SystemProgram,
    SystemData,
    SystemUpdate,
    BootImagePackage,
    BootImagePackageSafe,
}

/// Why a buffer failed to decode.
#[derive(Clone, Copy, Debug, PartialEq, Eq, Structural)]
pub enum DecodeError {
    /// The buffer is shorter than the layout the header announces.
    Truncated,
    /// The header's table offset points past the end of the buffer.
    OffsetOutOfRange,
    /// A meta record carries a type byte outside the known five.
    UnknownType(u8),
}

/// The fixed-size header in front of the record tables.
#[derive(Clone, Copy, Debug, PartialEq, Eq, Structural)]
pub struct Header {
    pub title_id: u64,
    pub title_version: u32,
    pub title_type: u8,
    /// Byte offset from the end of the header to the start of the tables.
    pub table_offset: u16,
    pub content_entry_count: u16,
    pub meta_entry_count: u16,
}

/// One fetchable payload file: its digest, identifier, length and type.
#[derive(Debug, PartialEq, Eq)]
pub struct ContentRecord {
    pub hash: Vec<u8>,
    pub content_id: Vec<u8>,
    pub size: u64,
    pub ty: u8,
}

/// A nested title whose own metadata must be separately fetched and decoded.
#[derive(Clone, Copy, Debug, PartialEq, Eq, Structural)]
pub struct MetaRecord {
    pub title_id: u64,
    pub title_version: u32,
    pub ty: u8,
    pub flag: u8,
}

/// The mathematical value of a content record: its byte fields as sequences.
#[verifier::ext_equal]
pub ghost struct ContentRecordV {
    pub hash: Seq<u8>,
    pub content_id: Seq<u8>,
    pub size: u64,
    pub ty: u8,
}

impl View for ContentRecord {
    type V = ContentRecordV;

    open spec fn view(&self) -> ContentRecordV {
        ContentRecordV {
            hash: self.hash@,
            content_id: self.content_id@,
            size: self.size,
            ty: self.ty,
        }
    }
}

/// A content record's byte fields have their fixed lengths.
pub open spec fn wfv(c: ContentRecordV) -> bool {
    c.hash.len() == 32 && c.content_id.len() == 16
}

impl ContentRecord {
    /// The byte fields hold a 32-byte digest and a 16-byte identifier.
    pub open spec fn wf(&self) -> bool {
        wfv(self@)
    }
}

/// The value of each content record in order.
pub open spec fn content_views(cs: Seq<ContentRecord>) -> Seq<ContentRecordV> {
    cs.map_values(|c: ContentRecord| c@)
}

// ---------------------------------------------------------------------------
// Meta type classification
// ---------------------------------------------------------------------------

/// The numeric value a meta type is stored as.
pub open spec fn spec_type_byte(t: MetaType) -> u8 {
    match t {
        MetaType::SystemProgram => 1u8,
        MetaType::SystemData => 2u8,
        MetaType::SystemUpdate => 3u8,
        MetaType::BootImagePackage => 4u8,
        MetaType::BootImagePackageSafe => 5u8,
    }
}

/// Maps a stored type byte to its label, if it is one of the known five.
pub open spec fn spec_classify(b: u8) -> Option<MetaType> {
    if b == 1 {
        Some(MetaType::SystemProgram)
    } else if b == 2 {
        Some(MetaType::SystemData)
    } else if b == 3 {
        Some(MetaType::SystemUpdate)
    } else if b == 4 {
        Some(MetaType::BootImagePackage)
    } else if b == 5 {
        Some(MetaType::BootImagePackageSafe)
    } else {
        None
    }
}

/// Maps the 8-bit type of a meta record to one of the five known labels; any
/// other value is a reportable error carrying the offending byte, never a
/// process-terminating condition.
pub fn classify_meta_type(b: u8) -> (r: Result<MetaType, DecodeError>)
    ensures
        match r {
            Ok(t) => spec_classify(b) == Some(t) && spec_type_byte(t) == b,
            Err(e) => spec_classify(b) is None && e == DecodeError::UnknownType(b),
        },
{
    match b {
        1 => Ok(MetaType::SystemProgram),
        2 => Ok(MetaType::SystemData),
        3 => Ok(MetaType::SystemUpdate),
        4 => Ok(MetaType::BootImagePackage),
        5 => Ok(MetaType::BootImagePackageSafe),
        _ => Err(DecodeError::UnknownType(b)),
    }
}

// ---------------------------------------------------------------------------
// What a buffer decodes to
// ---------------------------------------------------------------------------

/// The header stored in the first 32 bytes of `s` (bytes 12..13 and 20..32
/// are padding and ignored). Meaningful when `s.len() >= 32`.
pub open spec fn spec_header_at(s: Seq<u8>) -> Header {
    Header {
        title_id: spec_u64_from_le_bytes(s.subrange(0, 8)),
        title_version: spec_u32_from_le_bytes(s.subrange(8, 12)),
        title_type: s[12],
        table_offset: spec_u16_from_le_bytes(s.subrange(14, 16)),
        content_entry_count: spec_u16_from_le_bytes(s.subrange(16, 18)),
        meta_entry_count: spec_u16_from_le_bytes(s.subrange(18, 20)),
    }
}

/// The content record stored at byte offset `pos` of `s`.
pub open spec fn spec_content_at(s: Seq<u8>, pos: int) -> ContentRecordV {
    ContentRecordV {
        hash: s.subrange(pos, pos + 32),
        content_id: s.subrange(pos + 32, pos + 48),
        size: spec_u64_from_le_bytes(s.subrange(pos + 48, pos + 56)),
        ty: s[pos + 56],
    }
}

/// The meta record stored at byte offset `pos` of `s`.
pub open spec fn spec_meta_at(s: Seq<u8>, pos: int) -> MetaRecord {
    MetaRecord {
        title_id: spec_u64_from_le_bytes(s.subrange(pos, pos + 8)),
        title_version: spec_u32_from_le_bytes(s.subrange(pos + 8, pos + 12)),
        ty: s[pos + 12],
        flag: s[pos + 13],
    }
}

/// Where the tables begin: the table offset counts from the end of the header.
pub open spec fn spec_tables_start(h: Header) -> int {
    32 + h.table_offset as int
}

/// One past the last byte the tables occupy.
pub open spec fn spec_tables_end(h: Header) -> int {
    spec_tables_start(h) + h.content_entry_count as int * 59 + h.meta_entry_count as int * 14
}

/// The content table `h` announces in `s`.
pub open spec fn spec_contents(s: Seq<u8>, h: Header) -> Seq<ContentRecordV> {
    Seq::new(
        h.content_entry_count as nat,
        |i: int| spec_content_at(s, spec_tables_start(h) + i * 59),
    )
}

/// The meta table `h` announces in `s`, directly after the content table.
pub open spec fn spec_metas(s: Seq<u8>, h: Header) -> Seq<MetaRecord> {
    Seq::new(
        h.meta_entry_count as nat,
        |i: int| spec_meta_at(s, spec_tables_start(h) + h.content_entry_count as int * 59 + i * 14),
    )
}

/// Why the header cannot be read from `s`, if it cannot.
pub open spec fn spec_header_error(s: Seq<u8>) -> Option<DecodeError> {
    if s.len() < 32 {
        Some(DecodeError::Truncated)
    } else if spec_tables_start(spec_header_at(s)) > s.len() {
        Some(DecodeError::OffsetOutOfRange)
    } else {
        None
    }
}

/// Why the tables `h` announces cannot be read from `s`, if they cannot.
pub open spec fn spec_tables_error(s: Seq<u8>, h: Header) -> Option<DecodeError> {
    if spec_tables_end(h) > s.len() {
        Some(DecodeError::Truncated)
    } else {
        None
    }
}

/// Why `s` as a whole fails to decode, if it does: a too-short buffer, then a
/// table offset past the end, then tables past the end.
pub open spec fn spec_decode_error(s: Seq<u8>) -> Option<DecodeError> {
    if spec_header_error(s) is Some {
        spec_header_error(s)
    } else {
        spec_tables_error(s, spec_header_at(s))
    }
}

// ---------------------------------------------------------------------------
// Decoding
// ---------------------------------------------------------------------------

/// Reads the fixed-size header and validates its table offset against the
/// buffer length.
pub fn decode_header(buf: &[u8]) -> (r: Result<Header, DecodeError>)
    ensures
        match r {
            Ok(h) => spec_header_error(buf@) is None && h == spec_header_at(buf@),
            Err(e) => spec_header_error(buf@) == Some(e),
        },
{
    if buf.len() < 32 {
        return Err(DecodeError::Truncated);
    }
    let title_id = u64_from_le_bytes(slice_subrange(buf, 0, 8));
    let title_version = u32_from_le_bytes(slice_subrange(buf, 8, 12));
    let title_type = *slice_index_get(buf, 12);
    let table_offset = u16_from_le_bytes(slice_subrange(buf, 14, 16));
    let content_entry_count = u16_from_le_bytes(slice_subrange(buf, 16, 18));
    let meta_entry_count = u16_from_le_bytes(slice_subrange(buf, 18, 20));
    let h = Header { title_id, title_version, title_type, table_offset, content_entry_count, meta_entry_count };
    proof {
        assert(h == spec_header_at(buf@));
    }
    if table_offset as usize > buf.len() - 32 {
        return Err(DecodeError::OffsetOutOfRange);
    }
    Ok(h)
}

/// Reads exactly `content_entry_count` 59-byte records and then exactly
/// `meta_entry_count` 14-byte records, starting at the table offset; an
/// under-length buffer fails, it is never under-read silently.
pub fn decode_tables(buf: &[u8], h: &Header) -> (r: Result<
    (Vec<ContentRecord>, Vec<MetaRecord>),
    DecodeError,
>)
    ensures
        match r {
            Ok((cs, ms)) => {
                &&& spec_tables_error(buf@, *h) is None
                &&& cs@.len() == h.content_entry_count
                &&& ms@.len() == h.meta_entry_count
                &&& content_views(cs@) == spec_contents(buf@, *h)
                &&& ms@ == spec_metas(buf@, *h)
                &&& forall|i: int| 0 <= i < cs@.len() ==> (#[trigger] cs@[i]).wf()
            },
            Err(e) => spec_tables_error(buf@, *h) == Some(e),
        },
{
    let off = h.table_offset as usize;
    let n = h.content_entry_count as usize;
    let m = h.meta_entry_count as usize;
    let needed: usize = 32 + off + n * 59 + m * 14;
    if buf.len() < needed {
        return Err(DecodeError::Truncated);
    }

    let mut cs: Vec<ContentRecord> = Vec::new();
    let mut i: usize = 0;
    while i < n
        invariant
            i <= n,
            off == h.table_offset,
            n == h.content_entry_count,
            m == h.meta_entry_count,
            32 + off + n * 59 + m * 14 <= buf@.len(),
            cs@.len() == i,
            forall|k: int| 0 <= k < i ==> (#[trigger] cs@[k])@ == spec_content_at(
                buf@,
                32 + off + k * 59,
            ) && cs@[k].wf(),
        decreases n - i,
    {
        let pos: usize = 32 + off + i * 59;
        let hash = slice_to_vec(slice_subrange(buf, pos, pos + 32));
        let content_id = slice_to_vec(slice_subrange(buf, pos + 32, pos + 48));
        let size = u64_from_le_bytes(slice_subrange(buf, pos + 48, pos + 56));
        let ty = *slice_index_get(buf, pos + 56);
        let rec = ContentRecord { hash, content_id, size, ty };
        proof {
            assert(rec@ =~= spec_content_at(buf@, pos as int));
        }
        cs.push(rec);
        i = i + 1;
    }

    let base: usize = 32 + off + n * 59;
    let mut ms: Vec<MetaRecord> = Vec::new();
    let mut j: usize = 0;
    while j < m
        invariant
            j <= m,
            off == h.table_offset,
            n == h.content_entry_count,
            m == h.meta_entry_count,
            base == 32 + off + n * 59,
            32 + off + n * 59 + m * 14 <= buf@.len(),
            ms@.len() == j,
            forall|k: int| 0 <= k < j ==> #[trigger] ms@[k] == spec_meta_at(
                buf@,
                32 + off + n * 59 + k * 14,
            ),
        decreases m - j,
    {
        let pos: usize = base + j * 14;
        let title_id = u64_from_le_bytes(slice_subrange(buf, pos, pos + 8));
        let title_version = u32_from_le_bytes(slice_subrange(buf, pos + 8, pos + 12));
        let ty = *slice_index_get(buf, pos + 12);
        let flag = *slice_index_get(buf, pos + 13);
        let rec = MetaRecord { title_id, title_version, ty, flag };
        proof {
            assert(rec == spec_meta_at(buf@, pos as int));
        }
        ms.push(rec);
        j = j + 1;
    }

    proof {
        assert(content_views(cs@) =~= spec_contents(buf@, *h));
        assert(ms@ =~= spec_metas(buf@, *h));
    }
    Ok((cs, ms))
}

/// Decodes a whole buffer: the header, then both tables. Callers select the
/// half of the tables they need.
pub fn decode(buf: &[u8]) -> (r: Result<(Header, Vec<ContentRecord>, Vec<MetaRecord>), DecodeError>)
    ensures
        match r {
            Ok((h, cs, ms)) => {
                &&& spec_decode_error(buf@) is None
                &&& h == spec_header_at(buf@)
                &&& cs@.len() == h.content_entry_count
                &&& ms@.len() == h.meta_entry_count
                &&& content_views(cs@) == spec_contents(buf@, h)
                &&& ms@ == spec_metas(buf@, h)
                &&& forall|i: int| 0 <= i < cs@.len() ==> (#[trigger] cs@[i]).wf()
            },
            Err(e) => spec_decode_error(buf@) == Some(e),
        },
{
    let h = match decode_header(buf) {
        Ok(h) => h,
        Err(e) => {
            return Err(e);
        },
    };
    match decode_tables(buf, &h) {
        Ok((cs, ms)) => Ok((h, cs, ms)),
        Err(e) => Err(e),
    }
}

// ---------------------------------------------------------------------------
// Encoding
// ---------------------------------------------------------------------------

/// `n` zero bytes of padding.
pub open spec fn spec_zeros(n: int) -> Seq<u8> {
    Seq::new(n as nat, |i: int| 0u8)
}

/// The 32 bytes a header is stored as.
pub open spec fn spec_encode_header(h: Header) -> Seq<u8> {
    spec_u64_to_le_bytes(h.title_id) + spec_u32_to_le_bytes(h.title_version) + seq![
        h.title_type,
        0u8,
    ] + spec_u16_to_le_bytes(h.table_offset) + spec_u16_to_le_bytes(h.content_entry_count)
        + spec_u16_to_le_bytes(h.meta_entry_count) + spec_zeros(12)
}

/// The 59 bytes a content record is stored as.
pub open spec fn spec_encode_content(c: ContentRecordV) -> Seq<u8> {
    c.hash + c.content_id + spec_u64_to_le_bytes(c.size) + seq![c.ty] + spec_zeros(2)
}

/// The 14 bytes a meta record is stored as.
pub open spec fn spec_encode_meta(m: MetaRecord) -> Seq<u8> {
    spec_u64_to_le_bytes(m.title_id) + spec_u32_to_le_bytes(m.title_version) + seq![m.ty, m.flag]
}

/// The content records stored back to back, in order.
pub open spec fn spec_encode_contents(cs: Seq<ContentRecordV>) -> Seq<u8>
    decreases cs.len(),
{
    if cs.len() == 0 {
        Seq::empty()
    } else {
        spec_encode_contents(cs.drop_last()) + spec_encode_content(cs.last())
    }
}

/// The meta records stored back to back, in order.
pub open spec fn spec_encode_metas(ms: Seq<MetaRecord>) -> Seq<u8>
    decreases ms.len(),
{
    if ms.len() == 0 {
        Seq::empty()
    } else {
        spec_encode_metas(ms.drop_last()) + spec_encode_meta(ms.last())
    }
}

/// A whole buffer: the header, the announced padding, then both tables.
pub open spec fn spec_encode(h: Header, cs: Seq<ContentRecordV>, ms: Seq<MetaRecord>) -> Seq<u8> {
    spec_encode_header(h) + spec_zeros(h.table_offset as int) + spec_encode_contents(cs)
        + spec_encode_metas(ms)
}

fn push_bytes(out: &mut Vec<u8>, s: &[u8])
    ensures
        final(out)@ == old(out)@ + s@,
{
    let mut i: usize = 0;
    while i < s.len()
        invariant
            i <= s@.len(),
            out@ == old(out)@ + s@.take(i as int),
        decreases s@.len() - i,
    {
        out.push(*slice_index_get(s, i));
        i = i + 1;
        proof {
            assert(old(out)@ + s@.take(i as int) =~= (old(out)@ + s@.take(i - 1)).push(
                s@[i - 1],
            ));
        }
    }
    proof {
        assert(s@.take(s@.len() as int) =~= s@);
    }
}

fn push_zeros(out: &mut Vec<u8>, n: usize)
    ensures
        final(out)@ == old(out)@ + spec_zeros(n as int),
{
    let mut i: usize = 0;
    while i < n
        invariant
            i <= n,
            out@ == old(out)@ + spec_zeros(i as int),
        decreases n - i,
    {
        out.push(0);
        i = i + 1;
        proof {
            assert(old(out)@ + spec_zeros(i as int) =~= (old(out)@ + spec_zeros(i - 1)).push(0u8));
        }
    }
}

/// Encodes a header into its 32-byte stored form.
pub fn encode_header(h: &Header) -> (r: Vec<u8>)
    ensures
        r@ == spec_encode_header(*h),
        r@.len() == 32,
{
    let mut out: Vec<u8> = Vec::new();
    let b64 = u64_to_le_bytes(h.title_id);
    push_bytes(&mut out, b64.as_slice());
    let b32 = u32_to_le_bytes(h.title_version);
    push_bytes(&mut out, b32.as_slice());
    out.push(h.title_type);
    out.push(0);
    let boff = u16_to_le_bytes(h.table_offset);
    push_bytes(&mut out, boff.as_slice());
    let bcc = u16_to_le_bytes(h.content_entry_count);
    push_bytes(&mut out, bcc.as_slice());
    let bmc = u16_to_le_bytes(h.meta_entry_count);
    push_bytes(&mut out, bmc.as_slice());
    push_zeros(&mut out, 12);
    proof {
        lemma_auto_spec_u64_to_from_le_bytes();
        lemma_auto_spec_u32_to_from_le_bytes();
        lemma_auto_spec_u16_to_from_le_bytes();
        assert(out@ =~= spec_encode_header(*h));
    }
    out
}

/// Encodes a content record into its 59-byte stored form.
pub fn encode_content(c: &ContentRecord) -> (r: Vec<u8>)
    requires
        c.wf(),
    ensures
        r@ == spec_encode_content(c@),
        r@.len() == 59,
{
    let mut out: Vec<u8> = Vec::new();
    push_bytes(&mut out, c.hash.as_slice());
    push_bytes(&mut out, c.content_id.as_slice());
    let b64 = u64_to_le_bytes(c.size);
    push_bytes(&mut out, b64.as_slice());
    out.push(c.ty);
    push_zeros(&mut out, 2);
    proof {
        lemma_auto_spec_u64_to_from_le_bytes();
        assert(out@ =~= spec_encode_content(c@));
    }
    out
}

/// Encodes a meta record into its 14-byte stored form.
pub fn encode_meta(m: &MetaRecord) -> (r: Vec<u8>)
    ensures
        r@ == spec_encode_meta(*m),
        r@.len() == 14,
{
    let mut out: Vec<u8> = Vec::new();
    let b64 = u64_to_le_bytes(m.title_id);
    push_bytes(&mut out, b64.as_slice());
    let b32 = u32_to_le_bytes(m.title_version);
    push_bytes(&mut out, b32.as_slice());
    out.push(m.ty);
    out.push(m.flag);
    proof {
        lemma_auto_spec_u64_to_from_le_bytes();
        lemma_auto_spec_u32_to_from_le_bytes();
        assert(out@ =~= spec_encode_meta(*m));
    }
    out
}

/// Encodes a header and both tables into one buffer whose decoding is the
/// round trip the codec's law speaks of.
pub fn encode(h: &Header, cs: &Vec<ContentRecord>, ms: &Vec<MetaRecord>) -> (r: Vec<u8>)
    requires
        cs@.len() == h.content_entry_count,
        ms@.len() == h.meta_entry_count,
        forall|i: int| 0 <= i < cs@.len() ==> (#[trigger] cs@[i]).wf(),
    ensures
        r@ == spec_encode(*h, content_views(cs@), ms@),
{
    let mut out = encode_header(h);
    push_zeros(&mut out, h.table_offset as usize);

    let ghost views = content_views(cs@);
    let mut i: usize = 0;
    while i < cs.len()
        invariant
            i <= cs@.len(),
            views == content_views(cs@),
            forall|k: int| 0 <= k < cs@.len() ==> (#[trigger] cs@[k]).wf(),
            out@ == spec_encode_header(*h) + spec_zeros(h.table_offset as int)
                + spec_encode_contents(views.take(i as int)),
        decreases cs@.len() - i,
    {
        let rec = encode_content(&cs[i]);
        push_bytes(&mut out, rec.as_slice());
        i = i + 1;
        proof {
            assert(views.take(i as int).drop_last() =~= views.take(i - 1));
            assert(views.take(i as int).last() == cs@[i - 1]@);
            assert(out@ =~= spec_encode_header(*h) + spec_zeros(h.table_offset as int)
                + spec_encode_contents(views.take(i as int)));
        }
    }
    proof {
        assert(views.take(cs@.len() as int) =~= views);
    }

    let mut j: usize = 0;
    while j < ms.len()
        invariant
            j <= ms@.len(),
            views == content_views(cs@),
            out@ == spec_encode_header(*h) + spec_zeros(h.table_offset as int)
                + spec_encode_contents(views) + spec_encode_metas(ms@.take(j as int)),
        decreases ms@.len() - j,
    {
        let rec = encode_meta(&ms[j]);
        push_bytes(&mut out, rec.as_slice());
        j = j + 1;
        proof {
            assert(ms@.take(j as int).drop_last() =~= ms@.take(j - 1));
            assert(ms@.take(j as int).last() == ms@[j - 1]);
            assert(out@ =~= spec_encode_header(*h) + spec_zeros(h.table_offset as int)
                + spec_encode_contents(views) + spec_encode_metas(ms@.take(j as int)));
        }
    }
    proof {
        assert(ms@.take(ms@.len() as int) =~= ms@);
        assert(out@ =~= spec_encode(*h, content_views(cs@), ms@));
    }
    out
}

// ---------------------------------------------------------------------------
// The round-trip law
// ---------------------------------------------------------------------------

proof fn lemma_encode_contents_len(cs: Seq<ContentRecordV>)
    requires
        forall|i: int| 0 <= i < cs.len() ==> wfv(#[trigger] cs[i]),
    ensures
        spec_encode_contents(cs).len() == 59 * cs.len(),
    decreases cs.len(),
{
    lemma_auto_spec_u64_to_from_le_bytes();
    if cs.len() > 0 {
        lemma_encode_contents_len(cs.drop_last());
    }
}

proof fn lemma_encode_metas_len(ms: Seq<MetaRecord>)
    ensures
        spec_encode_metas(ms).len() == 14 * ms.len(),
    decreases ms.len(),
{
    lemma_auto_spec_u64_to_from_le_bytes();
    lemma_auto_spec_u32_to_from_le_bytes();
    if ms.len() > 0 {
        lemma_encode_metas_len(ms.drop_last());
    }
}

proof fn lemma_encode_contents_index(cs: Seq<ContentRecordV>, k: int)
    requires
        forall|i: int| 0 <= i < cs.len() ==> wfv(#[trigger] cs[i]),
        0 <= k < cs.len(),
    ensures
        spec_encode_contents(cs).subrange(59 * k, 59 * k + 59) == spec_encode_content(cs[k]),
    decreases cs.len(),
{
    lemma_auto_spec_u64_to_from_le_bytes();
    lemma_encode_contents_len(cs);
    lemma_encode_contents_len(cs.drop_last());
    if k == cs.len() - 1 {
        assert(spec_encode_contents(cs).subrange(59 * k, 59 * k + 59) =~= spec_encode_content(
            cs[k],
        ));
    } else {
        lemma_encode_contents_index(cs.drop_last(), k);
        assert(spec_encode_contents(cs).subrange(59 * k, 59 * k + 59) =~= spec_encode_contents(
            cs.drop_last(),
        ).subrange(59 * k, 59 * k + 59));
    }
}

proof fn lemma_encode_metas_index(ms: Seq<MetaRecord>, k: int)
    requires
        0 <= k < ms.len(),
    ensures
        spec_encode_metas(ms).subrange(14 * k, 14 * k + 14) == spec_encode_meta(ms[k]),
    decreases ms.len(),
{
    lemma_auto_spec_u64_to_from_le_bytes();
    lemma_auto_spec_u32_to_from_le_bytes();
    lemma_encode_metas_len(ms);
    lemma_encode_metas_len(ms.drop_last());
    if k == ms.len() - 1 {
        assert(spec_encode_metas(ms).subrange(14 * k, 14 * k + 14) =~= spec_encode_meta(ms[k]));
    } else {
        lemma_encode_metas_index(ms.drop_last(), k);
        assert(spec_encode_metas(ms).subrange(14 * k, 14 * k + 14) =~= spec_encode_metas(
            ms.drop_last(),
        ).subrange(14 * k, 14 * k + 14));
    }
}

proof fn lemma_header_at_of_encode(h: Header, rest: Seq<u8>)
    ensures
        spec_header_at(spec_encode_header(h) + rest) == h,
{
    lemma_auto_spec_u64_to_from_le_bytes();
    lemma_auto_spec_u32_to_from_le_bytes();
    lemma_auto_spec_u16_to_from_le_bytes();
    let s = spec_encode_header(h) + rest;
    assert(s.subrange(0, 8) =~= spec_u64_to_le_bytes(h.title_id));
    assert(s.subrange(8, 12) =~= spec_u32_to_le_bytes(h.title_version));
    assert(s[12] == h.title_type);
    assert(s.subrange(14, 16) =~= spec_u16_to_le_bytes(h.table_offset));
    assert(s.subrange(16, 18) =~= spec_u16_to_le_bytes(h.content_entry_count));
    assert(s.subrange(18, 20) =~= spec_u16_to_le_bytes(h.meta_entry_count));
}

proof fn lemma_content_at_of_block(s: Seq<u8>, pos: int, c: ContentRecordV)
    requires
        wfv(c),
        0 <= pos,
        pos + 59 <= s.len(),
        s.subrange(pos, pos + 59) == spec_encode_content(c),
    ensures
        spec_content_at(s, pos) == c,
{
    lemma_auto_spec_u64_to_from_le_bytes();
    let block = s.subrange(pos, pos + 59);
    assert(s.subrange(pos, pos + 32) =~= block.subrange(0, 32));
    assert(block.subrange(0, 32) =~= c.hash);
    assert(s.subrange(pos + 32, pos + 48) =~= block.subrange(32, 48));
    assert(block.subrange(32, 48) =~= c.content_id);
    assert(s.subrange(pos + 48, pos + 56) =~= block.subrange(48, 56));
    assert(block.subrange(48, 56) =~= spec_u64_to_le_bytes(c.size));
    assert(s[pos + 56] == block[56]);
    assert(spec_content_at(s, pos) =~= c);
}

proof fn lemma_meta_at_of_block(s: Seq<u8>, pos: int, m: MetaRecord)
    requires
        0 <= pos,
        pos + 14 <= s.len(),
        s.subrange(pos, pos + 14) == spec_encode_meta(m),
    ensures
        spec_meta_at(s, pos) == m,
{
    lemma_auto_spec_u64_to_from_le_bytes();
    lemma_auto_spec_u32_to_from_le_bytes();
    let block = s.subrange(pos, pos + 14);
    assert(s.subrange(pos, pos + 8) =~= block.subrange(0, 8));
    assert(block.subrange(0, 8) =~= spec_u64_to_le_bytes(m.title_id));
    assert(s.subrange(pos + 8, pos + 12) =~= block.subrange(8, 12));
    assert(block.subrange(8, 12) =~= spec_u32_to_le_bytes(m.title_version));
    assert(s[pos + 12] == block[12]);
    assert(s[pos + 13] == block[13]);
}

/// Law: encoding a header with any tables whose counts it announces and
/// decoding the resulting buffer reproduces the header and every record of
/// both tables, field for field, with no decode error.
pub proof fn lemma_round_trip(h: Header, cs: Seq<ContentRecordV>, ms: Seq<MetaRecord>)
    requires
        cs.len() == h.content_entry_count,
        ms.len() == h.meta_entry_count,
        forall|i: int| 0 <= i < cs.len() ==> wfv(#[trigger] cs[i]),
    ensures
        spec_decode_error(spec_encode(h, cs, ms)) is None,
        spec_header_at(spec_encode(h, cs, ms)) == h,
        spec_contents(spec_encode(h, cs, ms), h) == cs,
        spec_metas(spec_encode(h, cs, ms), h) == ms,
{
    lemma_auto_spec_u64_to_from_le_bytes();
    lemma_auto_spec_u32_to_from_le_bytes();
    lemma_auto_spec_u16_to_from_le_bytes();
    lemma_encode_contents_len(cs);
    lemma_encode_metas_len(ms);
    let s = spec_encode(h, cs, ms);
    let off = h.table_offset as int;
    assert(s.len() == 32 + off + 59 * cs.len() + 14 * ms.len());

    lemma_header_at_of_encode(
        h,
        spec_zeros(off) + spec_encode_contents(cs) + spec_encode_metas(ms),
    );
    assert(s =~= spec_encode_header(h) + (spec_zeros(off) + spec_encode_contents(cs)
        + spec_encode_metas(ms)));
    assert(spec_header_at(s) == h);

    let cstart = 32 + off;
    assert(s.subrange(cstart, cstart + 59 * cs.len()) =~= spec_encode_contents(cs));
    assert forall|k: int| 0 <= k < cs.len() implies spec_content_at(s, cstart + k * 59) == cs[k] by {
        lemma_encode_contents_index(cs, k);
        assert(s.subrange(cstart + 59 * k, cstart + 59 * k + 59) =~= s.subrange(
            cstart,
            cstart + 59 * cs.len(),
        ).subrange(59 * k, 59 * k + 59));
        lemma_content_at_of_block(s, cstart + 59 * k, cs[k]);
    }
    assert(spec_contents(s, h) =~= cs);

    let mstart = cstart + 59 * cs.len();
    assert(s.subrange(mstart, mstart + 14 * ms.len()) =~= spec_encode_metas(ms));
    assert forall|k: int| 0 <= k < ms.len() implies spec_meta_at(s, mstart + k * 14) == ms[k] by {
        lemma_encode_metas_index(ms, k);
        assert(s.subrange(mstart + 14 * k, mstart + 14 * k + 14) =~= s.subrange(
            mstart,
            mstart + 14 * ms.len(),
        ).subrange(14 * k, 14 * k + 14));
        lemma_meta_at_of_block(s, mstart + 14 * k, ms[k]);
    }
    assert(spec_metas(s, h) =~= ms);
}

} // verus!
