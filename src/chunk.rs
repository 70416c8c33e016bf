//! Chunked storage of large payloads: a payload is cut into chunks of at most
//! one mebibyte, stored under `<key>:<index>`, and a metadata entry
//! `<key>:chunk_metadata` lists the timestamps of the chunks, joined by `;`.
use vstd::prelude::*;
use vstd::string::*;
use vstd::utf8::encode_utf8;
use crate::key_path::{find_last_char, last_index_of, lemma_last_index_bounds};
use crate::numfmt::{decimal_spec, decimal_u64};

verus! {

/// The largest chunk, and the largest metadata entry, in bytes.
pub const CHUNK_SIZE: usize = 1048576;

/// The byte range of chunk `k` of a payload of `len` bytes, the chunks
/// starting at byte `start`.
pub open spec fn chunk_range(start: nat, len: nat, k: nat) -> (nat, nat) {
    let lo = start + k * (CHUNK_SIZE as nat);
    let hi = lo + CHUNK_SIZE as nat;
    (lo, if hi > len { len } else { hi })
}

/// Whether `ranges` cuts bytes `[start, len)` into consecutive chunks of
/// `CHUNK_SIZE` bytes, the last one possibly shorter.
pub open spec fn chunks_cover(start: nat, len: nat, ranges: Seq<(usize, usize)>) -> bool {
    &&& forall|k: int| 0 <= k < ranges.len() ==> (#[trigger] ranges[k]).0 as nat == chunk_range(start, len, k as nat).0
        && ranges[k].1 as nat == chunk_range(start, len, k as nat).1
    &&& start + ranges.len() * (CHUNK_SIZE as nat) >= len
    &&& (ranges.len() == 0 || start + (ranges.len() - 1) * (CHUNK_SIZE as nat) < len)
}

/// Cuts bytes `[start, len)` of a payload into chunks.
pub fn chunk_ranges_from(start: usize, len: usize) -> (r: Vec<(usize, usize)>)
    requires
        start <= len,
    ensures
        chunks_cover(start as nat, len as nat, r@),
{
    let mut r: Vec<(usize, usize)> = Vec::new();
    let mut offset: usize = start;
    while offset < len
        invariant
            start <= offset,
            offset <= len || r@.len() > 0,
            offset as nat == start + r@.len() * (CHUNK_SIZE as nat),
            r@.len() == 0 || start + (r@.len() - 1) * (CHUNK_SIZE as nat) < len,
            forall|k: int| 0 <= k < r@.len() ==> (#[trigger] r@[k]).0 as nat == chunk_range(start as nat, len as nat, k as nat).0
                && r@[k].1 as nat == chunk_range(start as nat, len as nat, k as nat).1,
        decreases len - offset,
    {
        let size: usize = if len - offset < CHUNK_SIZE { len - offset } else { CHUNK_SIZE };
        proof {
            assert((r@.len() + 1) * (CHUNK_SIZE as nat) == r@.len() * (CHUNK_SIZE as nat) + CHUNK_SIZE as nat) by (nonlinear_arith);
        }
        r.push((offset, offset + size));
        if len - offset <= CHUNK_SIZE {
            proof {
                assert(start + r@.len() * (CHUNK_SIZE as nat) >= len);
            }
            return r;
        }
        offset = offset + size;
    }
    r
}

/// The bytes of `payload` that `ranges` select, one range after another.
pub open spec fn concat_chunks(payload: Seq<u8>, ranges: Seq<(usize, usize)>) -> Seq<u8>
    decreases ranges.len(),
{
    if ranges.len() == 0 {
        Seq::empty()
    } else {
        concat_chunks(payload, ranges.drop_last()) + payload.subrange(ranges.last().0 as int, ranges.last().1 as int)
    }
}

proof fn lemma_concat_prefix(payload: Seq<u8>, ranges: Seq<(usize, usize)>, k: int)
    requires
        chunks_cover(0, payload.len(), ranges),
        0 <= k <= ranges.len(),
    ensures
        k * (CHUNK_SIZE as int) <= payload.len() || k == ranges.len(),
        concat_chunks(payload, ranges.subrange(0, k)) == payload.subrange(0,
            if k * (CHUNK_SIZE as int) > payload.len() { payload.len() as int } else { k * (CHUNK_SIZE as int) }),
    decreases k,
{
    let c = CHUNK_SIZE as int;
    if k == 0 {
        assert(ranges.subrange(0, 0).len() == 0);
        assert(payload.subrange(0, 0) =~= Seq::<u8>::empty());
    } else {
        lemma_concat_prefix(payload, ranges, k - 1);
        let pre = ranges.subrange(0, k);
        assert(pre.drop_last() =~= ranges.subrange(0, k - 1));
        assert(pre.last() == ranges[k - 1]);
        assert((k - 1) * c + c == k * c) by (nonlinear_arith);
        if k < ranges.len() {
            assert((ranges.len() - 1) * c >= k * c) by (nonlinear_arith)
                requires k <= ranges.len() - 1, c > 0;
        }
        assert((k - 1) * c < payload.len()) by (nonlinear_arith)
            requires (ranges.len() - 1) * c < payload.len(), k - 1 <= ranges.len() - 1, c > 0;
        assert(payload.subrange(0, (k - 1) * c) + payload.subrange((k - 1) * c,
            if k * c > payload.len() { payload.len() as int } else { k * c })
            =~= payload.subrange(0, if k * c > payload.len() { payload.len() as int } else { k * c }));
    }
}

/// Reading the chunks back in order gives the stored payload, byte for byte.
pub proof fn lemma_chunks_reassemble(payload: Seq<u8>, ranges: Seq<(usize, usize)>)
    requires
        chunks_cover(0, payload.len(), ranges),
    ensures
        concat_chunks(payload, ranges) == payload,
{
    lemma_concat_prefix(payload, ranges, ranges.len() as int);
    assert(ranges.subrange(0, ranges.len() as int) =~= ranges);
    assert(payload.subrange(0, payload.len() as int) =~= payload);
}

/// Cuts a whole payload of `len` bytes into chunks.
pub fn chunk_ranges(len: usize) -> (r: Vec<(usize, usize)>)
    ensures
        chunks_cover(0, len as nat, r@),
{
    chunk_ranges_from(0, len)
}

/// How an append spreads over the chunks: `fill` bytes top up the last
/// chunk, and the rest of the payload forms new chunks.
pub struct AppendPlan {
    pub tops_up_last: bool,
    pub fill: usize,
    pub new_chunks: Vec<(usize, usize)>,
}

/// Plans appending `payload_len` bytes to a chunked entry whose last chunk
/// holds `last_len` bytes. A last chunk shorter than `CHUNK_SIZE` is topped up
/// first, with as much of the payload as fits.
pub fn append_plan(last_len: usize, payload_len: usize) -> (r: AppendPlan)
    ensures
        r.tops_up_last == (last_len < CHUNK_SIZE),
        r.fill == if last_len < CHUNK_SIZE {
            if payload_len < CHUNK_SIZE - last_len { payload_len } else { (CHUNK_SIZE - last_len) as usize }
        } else {
            0
        },
        chunks_cover(r.fill as nat, payload_len as nat, r.new_chunks@),
{
    let fill: usize = if last_len < CHUNK_SIZE {
        if payload_len < CHUNK_SIZE - last_len { payload_len } else { CHUNK_SIZE - last_len }
    } else {
        0
    };
    AppendPlan { tops_up_last: last_len < CHUNK_SIZE, fill, new_chunks: chunk_ranges_from(fill, payload_len) }
}

pub open spec fn chunk_key_spec(key_name: Seq<char>, id: nat) -> Seq<char> {
    key_name + ":"@ + decimal_spec(id)
}

/// The entry of chunk `id` of `key_name`.
pub fn chunk_key(key_name: &str, id: u64) -> (r: String)
    ensures
        r@ == chunk_key_spec(key_name@, id as nat),
{
    let digits = decimal_u64(id);
    String::from_str(key_name).concat(":").concat(digits.as_str())
}

pub open spec fn chunk_metadata_key_spec(key_name: Seq<char>) -> Seq<char> {
    key_name + ":chunk_metadata"@
}

/// The metadata entry of a chunked `key_name`.
pub fn chunk_metadata_key(key_name: &str) -> (r: String)
    ensures
        r@ == chunk_metadata_key_spec(key_name@),
{
    String::from_str(key_name).concat(":chunk_metadata")
}

pub open spec fn chunk_read_key_spec(user_id: Seq<char>, key_name: Seq<char>, id: nat, timestamp: Seq<char>) -> Seq<char> {
    user_id + "::"@ + key_name + ":"@ + decimal_spec(id) + "@"@ + timestamp
}

/// The versioned path of chunk `id` of `key_name`, owned by `user_id`, as
/// written at `timestamp`.
pub fn chunk_read_key(user_id: &str, key_name: &str, id: u64, timestamp: &str) -> (r: String)
    ensures
        r@ == chunk_read_key_spec(user_id@, key_name@, id as nat, timestamp@),
{
    let digits = decimal_u64(id);
    String::from_str(user_id).concat("::").concat(key_name).concat(":").concat(digits.as_str()).concat("@").concat(timestamp)
}

/// The text after the last `@` of a storage response (all of it when there
/// is no `@`): the timestamp of the write.
pub open spec fn response_timestamp_spec(response: Seq<char>) -> Seq<char> {
    response.subrange(last_index_of(response, '@') + 1, response.len() as int)
}

/// Keeps only the timestamp of the path that a write returned.
pub fn response_timestamp(response: &str) -> (r: String)
    ensures
        r@ == response_timestamp_spec(response@),
{
    proof { lemma_last_index_bounds(response@, '@'); }
    let n = response.unicode_len();
    match find_last_char(response, '@') {
        Some(i) => String::from_str(response.substring_char(i + 1, n)),
        None => String::from_str(response.substring_char(0, n)),
    }
}

/// Pieces joined by `;`.
pub open spec fn join_paths(pieces: Seq<Seq<char>>) -> Seq<char>
    decreases pieces.len(),
{
    if pieces.len() == 0 {
        Seq::empty()
    } else if pieces.len() == 1 {
        pieces[0]
    } else {
        join_paths(pieces.drop_last()) + ";"@ + pieces.last()
    }
}

pub open spec fn string_views(v: Seq<String>) -> Seq<Seq<char>> {
    v.map_values(|s: String| s@)
}

/// The length in bytes that `str::len` reports for these characters.
pub open spec fn byte_len(s: Seq<char>) -> usize {
    encode_utf8(s).len() as usize
}

/// Why chunked storage refused a payload.
#[derive(Clone, Copy, Debug, PartialEq, Eq, Structural)]
pub enum ChunkError {
    /// The list of chunk timestamps would not fit in one entry.
    TooManyChunks,
}

/// Joins the chunk timestamps into the metadata entry, refusing a list whose
/// UTF-8 encoding exceeds `CHUNK_SIZE` bytes.
pub fn join_chunk_paths(paths: &Vec<String>) -> (r: Result<String, ChunkError>)
    ensures
        match r {
            Ok(s) => s@ == join_paths(string_views(paths@))
                && byte_len(s@) <= CHUNK_SIZE,
            Err(_) => byte_len(join_paths(string_views(paths@))) > CHUNK_SIZE,
        },
{
    let mut s = String::new();
    let mut i: usize = 0;
    let ghost views = string_views(paths@);
    while i < paths.len()
        invariant
            i <= paths@.len(),
            views == string_views(paths@),
            s@ == join_paths(views.subrange(0, i as int)),
        decreases paths@.len() - i,
    {
        assert(views.subrange(0, i + 1).drop_last() =~= views.subrange(0, i as int));
        if i == 0 {
            s = paths[i].clone();
            assert(views.subrange(0, 1)[0] == paths@[0]@);
        } else {
            s = s.concat(";").concat(paths[i].as_str());
        }
        i = i + 1;
    }
    assert(views.subrange(0, paths@.len() as int) =~= views);
    if s.as_str().len() > CHUNK_SIZE {
        Err(ChunkError::TooManyChunks)
    } else {
        Ok(s)
    }
}

/// Splits the metadata entry back into the chunk timestamps.
pub fn split_chunk_paths(metadata: &str) -> (r: Vec<String>)
    ensures
        r@.len() >= 1,
        join_paths(string_views(r@)) == metadata@,
        forall|k: int| 0 <= k < r@.len() ==> !(#[trigger] r@[k])@.contains(';'),
{
    proof { reveal_strlit(";"); }
    let n = metadata.unicode_len();
    let mut r: Vec<String> = Vec::new();
    let mut start: usize = 0;
    let mut i: usize = 0;
    while i < n
        invariant
            start <= i <= n == metadata@.len(),
            r@.len() == 0 ==> start == 0,
            r@.len() > 0 ==> start >= 1 && metadata@[start - 1] == ';'
                && join_paths(string_views(r@)) == metadata@.subrange(0, start - 1),
            forall|k: int| 0 <= k < r@.len() ==> !(#[trigger] r@[k])@.contains(';'),
            forall|j: int| start <= j < i ==> metadata@[j] != ';',
        decreases n - i,
    {
        if metadata.get_char(i) == ';' {
            let piece = String::from_str(metadata.substring_char(start, i));
            let ghost before = r@;
            proof {
                if piece@.contains(';') {
                    let w = choose|w: int| 0 <= w < piece@.len() && piece@[w] == ';';
                    assert(metadata@[start + w] == ';');
                }
            }
            r.push(piece);
            proof {
                let v = string_views(r@);
                assert(v.drop_last() =~= string_views(before));
                if before.len() == 0 {
                    assert(metadata@.subrange(0, i as int) =~= piece@);
                } else {
                    reveal_strlit(";");
                    assert(metadata@.subrange(0, i as int) =~= metadata@.subrange(0, start - 1) + ";"@ + piece@);
                }
            }
            start = i + 1;
        }
        i = i + 1;
    }
    let last = String::from_str(metadata.substring_char(start, n));
    let ghost before = r@;
    proof {
        if last@.contains(';') {
            let w = choose|w: int| 0 <= w < last@.len() && last@[w] == ';';
            assert(metadata@[start + w] == ';');
        }
    }
    r.push(last);
    proof {
        let v = string_views(r@);
        assert(v.drop_last() =~= string_views(before));
        if before.len() == 0 {
            assert(metadata@.subrange(0, n as int) =~= metadata@);
            assert(metadata@ =~= last@);
        } else {
            assert(metadata@ =~= metadata@.subrange(0, start - 1) + ";"@ + last@);
        }
    }
    r
}

} // verus!
