use vstd::prelude::*;
use vstd::utf8::{decode_utf8, encode_utf8, valid_utf8};

use crate::error::ReviewErrors;

verus! {

broadcast use {vstd::utf8::encode_utf8_valid_utf8, vstd::utf8::encode_utf8_decode_utf8};

/// The largest number of bytes an encoded review may take.
pub const MAX_RECORD_LEN: usize = 1000;

/// A review as it is kept in its storage cell.
pub struct MovieAccountState {
    pub is_initialized: bool,
    pub rating: u8,
    pub title: String,
    pub description: String,
}

/// The mathematical content of a review.
pub struct RecordModel {
    pub is_initialized: bool,
    pub rating: u8,
    pub title: Seq<char>,
    pub description: Seq<char>,
}

impl View for MovieAccountState {
    type V = RecordModel;

    open spec fn view(&self) -> RecordModel {
        RecordModel {
            is_initialized: self.is_initialized,
            rating: self.rating,
            title: self.title@,
            description: self.description@,
        }
    }
}

/// Four little-endian bytes of `n`.
pub open spec fn le_bytes_u32(n: nat) -> Seq<u8> {
    seq![(n % 256) as u8, ((n / 256) % 256) as u8, ((n / 65536) % 256) as u8, ((n / 16777216) % 256) as u8]
}

/// The little-endian `u32` stored at `b[at..at + 4]`.
pub open spec fn read_u32_le(b: Seq<u8>, at: int) -> nat {
    (b[at] as nat) + (b[at + 1] as nat) * 256 + (b[at + 2] as nat) * 65536 + (b[at + 3] as nat)
        * 16777216
}

/// A string as a 4-byte length followed by its UTF-8 bytes.
pub open spec fn string_field(s: Seq<char>) -> Seq<u8> {
    le_bytes_u32(encode_utf8(s).len()) + encode_utf8(s)
}

pub open spec fn flag_byte(b: bool) -> u8 {
    if b {
        1
    } else {
        0
    }
}

/// The layout of a review: flag, rating, title field, description field.
pub open spec fn encode_record(r: RecordModel) -> Seq<u8> {
    seq![flag_byte(r.is_initialized), r.rating] + string_field(r.title) + string_field(r.description)
}

/// The size of the encoding of a review with these strings.
pub open spec fn record_len(title: Seq<char>, description: Seq<char>) -> nat {
    10 + encode_utf8(title).len() + encode_utf8(description).len()
}

/// Both strings are short enough for their 4-byte length prefixes.
pub open spec fn fits_layout(r: RecordModel) -> bool {
    encode_utf8(r.title).len() <= u32::MAX && encode_utf8(r.description).len() <= u32::MAX
}

/// A string field read at `at`: its characters and the offset just past it.
pub open spec fn parse_string(b: Seq<u8>, at: int) -> Option<(Seq<char>, int)> {
    if at < 0 || at + 4 > b.len() {
        None
    } else {
        let end = at + 4 + read_u32_le(b, at);
        if end > b.len() {
            None
        } else if !valid_utf8(b.subrange(at + 4, end)) {
            None
        } else {
            Some((decode_utf8(b.subrange(at + 4, end)), end))
        }
    }
}

/// The review held at the start of `b`; bytes after it are ignored.
pub open spec fn parse_record(b: Seq<u8>) -> Option<RecordModel> {
    if b.len() < 2 || b[0] > 1 {
        None
    } else {
        match parse_string(b, 2) {
            None => None,
            Some((title, next)) => match parse_string(b, next) {
                None => None,
                Some((description, _)) => Some(
                    RecordModel { is_initialized: b[0] == 1, rating: b[1], title, description },
                ),
            },
        }
    }
}

/// `bytes` written over the start of `cell`, the rest of the cell kept.
pub open spec fn overwrite(cell: Seq<u8>, bytes: Seq<u8>) -> Seq<u8> {
    bytes + cell.skip(bytes.len() as int)
}

/// Relies on std's String::from_utf8: the bytes become a string exactly when
/// they are valid UTF-8, and the string is what they encode.
#[verifier::external_body]
fn string_from_utf8(bytes: &[u8]) -> (r: Option<String>)
    ensures
        r is Some <==> valid_utf8(bytes@),
        r is Some ==> r->Some_0@ == decode_utf8(bytes@),
{
    String::from_utf8(bytes.to_vec()).ok()
}

/// The number of UTF-8 bytes of `s`.
pub fn utf8_len(s: &String) -> (r: usize)
    ensures
        r == encode_utf8(s@).len(),
{
    s.as_str().as_bytes().len()
}

fn read_u32_le_at(data: &[u8], at: usize) -> (r: u64)
    requires
        at + 4 <= data@.len(),
    ensures
        r == read_u32_le(data@, at as int),
        r <= u32::MAX,
{
    (data[at] as u64) + (data[at + 1] as u64) * 256 + (data[at + 2] as u64) * 65536
        + (data[at + 3] as u64) * 16777216
}

pub(crate) fn read_string(data: &[u8], at: usize) -> (r: Option<(String, usize)>)
    ensures
        match parse_string(data@, at as int) {
            None => r is None,
            Some((s, end)) => r is Some && r->Some_0.0@ == s && r->Some_0.1 == end,
        },
{
    if at > data.len() || data.len() - at < 4 {
        return None;
    }
    let n = read_u32_le_at(data, at);
    if n > (data.len() - at - 4) as u64 {
        return None;
    }
    let end = at + 4 + n as usize;
    let body = vstd::slice::slice_subrange(data, at + 4, end);
    match string_from_utf8(body) {
        None => None,
        Some(s) => Some((s, end)),
    }
}

fn push_u32_le(out: &mut Vec<u8>, n: u32)
    ensures
        final(out)@ == old(out)@ + le_bytes_u32(n as nat),
{
    out.push((n % 256) as u8);
    out.push(((n / 256) % 256) as u8);
    out.push(((n / 65536) % 256) as u8);
    out.push(((n / 16777216) % 256) as u8);
    assert(final(out)@ =~= old(out)@ + le_bytes_u32(n as nat));
}

fn push_string(out: &mut Vec<u8>, s: &String)
    requires
        encode_utf8(s@).len() <= u32::MAX,
    ensures
        final(out)@ == old(out)@ + string_field(s@),
{
    let bytes = s.as_str().as_bytes();
    push_u32_le(out, bytes.len() as u32);
    let ghost start = out@;
    let mut i: usize = 0;
    while i < bytes.len()
        invariant
            i <= bytes@.len(),
            bytes@ == encode_utf8(s@),
            out@ == start + bytes@.subrange(0, i as int),
        decreases bytes@.len() - i,
    {
        out.push(bytes[i]);
        i = i + 1;
        assert(out@ =~= start + bytes@.subrange(0, i as int));
    }
    assert(bytes@.subrange(0, i as int) =~= bytes@);
    assert(final(out)@ =~= old(out)@ + string_field(s@));
}

impl MovieAccountState {
    /// The empty review that a zero-filled cell decodes to.
    pub fn new() -> (r: MovieAccountState)
        ensures
            r@ == (RecordModel {
                is_initialized: false,
                rating: 0,
                title: Seq::empty(),
                description: Seq::empty(),
            }),
    {
        MovieAccountState {
            is_initialized: false,
            rating: 0,
            title: String::new(),
            description: String::new(),
        }
    }

    /// The size of this review once encoded.
    pub fn encoded_len(&self) -> (r: usize)
        requires
            record_len(self.title@, self.description@) <= usize::MAX,
        ensures
            r == record_len(self.title@, self.description@),
    {
        10 + utf8_len(&self.title) + utf8_len(&self.description)
    }

    /// Encodes the review in its layout.
    pub fn to_bytes(&self) -> (r: Vec<u8>)
        requires
            fits_layout(self@),
        ensures
            r@ == encode_record(self@),
    {
        let mut out: Vec<u8> = Vec::new();
        out.push(if self.is_initialized {
            1u8
        } else {
            0u8
        });
        out.push(self.rating);
        push_string(&mut out, &self.title);
        push_string(&mut out, &self.description);
        assert(out@ =~= encode_record(self@));
        out
    }

    /// Decodes the review at the start of `data`, ignoring what follows it.
    pub fn try_from_slice(data: &[u8]) -> (r: Result<MovieAccountState, ReviewErrors>)
        ensures
            match parse_record(data@) {
                Some(m) => r is Ok && r->Ok_0@ == m,
                None => r == Err::<MovieAccountState, ReviewErrors>(ReviewErrors::DecodeFailure),
            },
    {
        if data.len() < 2 || data[0] > 1 {
            return Err(ReviewErrors::DecodeFailure);
        }
        let (title, next) = match read_string(data, 2) {
            None => return Err(ReviewErrors::DecodeFailure),
            Some(p) => p,
        };
        let (description, _end) = match read_string(data, next) {
            None => return Err(ReviewErrors::DecodeFailure),
            Some(p) => p,
        };
        Ok(MovieAccountState { is_initialized: data[0] == 1, rating: data[1], title, description })
    }

    /// Writes the encoding over the start of `cell`, keeping the rest of it;
    /// fails, leaving `cell` as it was, where the encoding does not fit.
    pub fn write_into(&self, cell: &mut Vec<u8>) -> (r: Result<(), ReviewErrors>)
        requires
            fits_layout(self@),
        ensures
            encode_record(self@).len() <= old(cell)@.len() ==> r is Ok && final(cell)@ == overwrite(
                old(cell)@,
                encode_record(self@),
            ),
            encode_record(self@).len() > old(cell)@.len() ==> r == Err::<(), ReviewErrors>(
                ReviewErrors::RecordTooLarge,
            ) && final(cell)@ == old(cell)@,
    {
        let bytes = self.to_bytes();
        if bytes.len() > cell.len() {
            return Err(ReviewErrors::RecordTooLarge);
        }
        let mut i: usize = 0;
        while i < bytes.len()
            invariant
                i <= bytes@.len(),
                bytes@.len() <= old(cell)@.len(),
                cell@.len() == old(cell)@.len(),
                forall|k: int| 0 <= k < i ==> cell@[k] == bytes@[k],
                forall|k: int| i <= k < cell@.len() ==> cell@[k] == old(cell)@[k],
            decreases bytes@.len() - i,
        {
            cell.set(i, bytes[i]);
            i = i + 1;
        }
        assert(cell@ =~= overwrite(old(cell)@, bytes@));
        Ok(())
    }
}

proof fn lemma_le_bytes_u32(n: nat)
    requires
        n <= u32::MAX,
    ensures
        read_u32_le(le_bytes_u32(n), 0) == n,
{
    let b = le_bytes_u32(n);
    assert(b[0] as nat == n % 256);
    assert(b[1] as nat == (n / 256) % 256);
    assert(b[2] as nat == (n / 65536) % 256);
    assert(b[3] as nat == (n / 16777216) % 256);
    assert(n / 256 == (n / 256) % 256 + 256 * (n / 65536));
    assert(n / 65536 == (n / 65536) % 256 + 256 * (n / 16777216));
    assert(n / 16777216 < 256);
}

proof fn lemma_parse_string_field(b: Seq<u8>, at: int, s: Seq<char>)
    requires
        0 <= at,
        encode_utf8(s).len() <= u32::MAX,
        at + string_field(s).len() <= b.len(),
        b.subrange(at, at + string_field(s).len()) == string_field(s),
    ensures
        parse_string(b, at) == Some((s, at + string_field(s).len())),
{
    let f = string_field(s);
    let n = encode_utf8(s).len();
    lemma_le_bytes_u32(n);
    assert(f.subrange(0, 4) =~= le_bytes_u32(n));
    assert(read_u32_le(b, at) == read_u32_le(f, 0)) by {
        assert(b[at] == f[0]);
        assert(b[at + 1] == f[1]);
        assert(b[at + 2] == f[2]);
        assert(b[at + 3] == f[3]);
    }
    assert(read_u32_le(f, 0) == read_u32_le(le_bytes_u32(n), 0)) by {
        assert(f[0] == le_bytes_u32(n)[0]);
        assert(f[1] == le_bytes_u32(n)[1]);
        assert(f[2] == le_bytes_u32(n)[2]);
        assert(f[3] == le_bytes_u32(n)[3]);
    }
    assert(b.subrange(at + 4, at + 4 + n) =~= encode_utf8(s)) by {
        assert(forall|k: int| 0 <= k < n ==> #[trigger] b.subrange(at + 4, at + 4 + n)[k] == b.subrange(at, at + f.len())[k + 4]);
    }
}

/// Decoding what `encode_record` wrote, whatever bytes follow it, gives
/// back the review.
pub proof fn lemma_decode_encode(r: RecordModel, tail: Seq<u8>)
    requires
        fits_layout(r),
    ensures
        parse_record(encode_record(r) + tail) == Some(r),
{
    let b = encode_record(r) + tail;
    let t = string_field(r.title);
    let d = string_field(r.description);
    let tl = t.len() as int;
    let dl = d.len() as int;
    assert(b.subrange(2, 2 + tl) =~= t);
    lemma_parse_string_field(b, 2, r.title);
    assert(b.subrange(2 + tl, 2 + tl + dl) =~= d);
    lemma_parse_string_field(b, 2 + tl, r.description);
}

/// Round trip: a review that fits the layout decodes from its own encoding.
pub proof fn lemma_round_trip(r: RecordModel)
    requires
        fits_layout(r),
    ensures
        parse_record(encode_record(r)) == Some(r),
{
    lemma_decode_encode(r, Seq::empty());
    assert(encode_record(r) + Seq::<u8>::empty() =~= encode_record(r));
}

/// The encoding of a review is as long as `record_len` says.
pub proof fn lemma_encoded_len(r: RecordModel)
    ensures
        encode_record(r).len() == record_len(r.title, r.description),
{
}

/// A zero-filled cell of at least ten bytes decodes to the empty,
/// uninitialized review: the sign that no review lives there yet.
pub proof fn lemma_zero_cell_decodes_empty(n: nat)
    requires
        n >= 10,
    ensures
        parse_record(Seq::new(n, |i: int| 0u8)) == Some(
            RecordModel {
                is_initialized: false,
                rating: 0,
                title: Seq::empty(),
                description: Seq::empty(),
            },
        ),
{
    let b = Seq::new(n, |i: int| 0u8);
    assert(read_u32_le(b, 2) == 0);
    assert(read_u32_le(b, 6) == 0);
    assert(b.subrange(6, 6) =~= Seq::<u8>::empty());
    assert(b.subrange(10, 10) =~= Seq::<u8>::empty());
    assert(valid_utf8(Seq::<u8>::empty()));
    assert(decode_utf8(Seq::<u8>::empty()) =~= Seq::<char>::empty());
}

} // verus!
