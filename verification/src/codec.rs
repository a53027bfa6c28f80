use vstd::prelude::*;
use vstd::slice::slice_index_get;
use vstd::utf8::{decode_utf8, encode_utf8, valid_utf8};

verus! {

/// 256 to the power `n`: the number of values that `n` bytes can hold.
pub open spec fn pow256(n: nat) -> nat
    decreases n,
{
    if n == 0 {
        1
    } else {
        256 * pow256((n - 1) as nat)
    }
}

/// The little-endian encoding of `v` in exactly `n` bytes.
pub open spec fn le_bytes(v: nat, n: nat) -> Seq<u8>
    decreases n,
{
    if n == 0 {
        Seq::empty()
    } else {
        seq![(v % 256) as u8] + le_bytes(v / 256, (n - 1) as nat)
    }
}

/// The value that a little-endian byte run denotes.
pub open spec fn le_value(b: Seq<u8>) -> nat
    decreases b.len(),
{
    if b.len() == 0 {
        0
    } else {
        (b[0] as nat) + 256 * le_value(b.drop_first())
    }
}

pub proof fn lemma_le_bytes_len(v: nat, n: nat)
    ensures
        le_bytes(v, n).len() == n,
    decreases n,
{
    if n > 0 {
        lemma_le_bytes_len(v / 256, (n - 1) as nat);
    }
}

/// A value below `pow256(n)` survives the round trip through its
/// little-endian encoding in `n` bytes.
pub proof fn lemma_le_round_trip(v: nat, n: nat)
    requires
        v < pow256(n),
    ensures
        le_value(le_bytes(v, n)) == v,
    decreases n,
{
    if n > 0 {
        let rest = le_bytes(v / 256, (n - 1) as nat);
        assert((seq![(v % 256) as u8] + rest).drop_first() =~= rest);
        lemma_le_round_trip(v / 256, (n - 1) as nat);
    }
}

pub proof fn lemma_pow256_8()
    ensures
        pow256(8) == 0x1_0000_0000_0000_0000,
{
    reveal_with_fuel(pow256, 9);
}

/// The four header bytes of a cache file payload: two magic bytes, the
/// schema version, and a tag for the kind of value stored.
pub open spec fn spec_header(tag: u8) -> Seq<u8> {
    seq![117u8, 98u8, 1u8, tag]
}

/// Payload tag for a list of version strings.
pub const TAG_LIST: u8 = 1;

/// Payload tag for an optional latest-version string.
pub const TAG_OPT: u8 = 2;

/// One string record: the UTF-8 byte length in eight little-endian bytes,
/// then the UTF-8 bytes themselves.
pub open spec fn enc_str(s: Seq<char>) -> Seq<u8> {
    le_bytes(encode_utf8(s).len(), 8) + encode_utf8(s)
}

/// String records back to back.
pub open spec fn enc_str_list(l: Seq<Seq<char>>) -> Seq<u8>
    decreases l.len(),
{
    if l.len() == 0 {
        Seq::empty()
    } else {
        enc_str(l[0]) + enc_str_list(l.drop_first())
    }
}

/// The uncompressed payload of a version-list cache file: header, count,
/// then the string records.
pub open spec fn payload_of_list(l: Seq<Seq<char>>) -> Seq<u8> {
    spec_header(TAG_LIST) + le_bytes(l.len(), 8) + enc_str_list(l)
}

/// The uncompressed payload of a latest-version cache file: header, then a
/// presence byte, then the string record if one is stored.
pub open spec fn payload_of_opt(o: Option<Seq<char>>) -> Seq<u8> {
    match o {
        None => spec_header(TAG_OPT) + seq![0u8],
        Some(s) => spec_header(TAG_OPT) + seq![1u8] + enc_str(s),
    }
}

/// Reads one string record from the front of `b`; `None` when the bytes do
/// not form one (truncated, or not valid UTF-8).
pub open spec fn dec_str(b: Seq<u8>) -> Option<(Seq<char>, Seq<u8>)> {
    if b.len() < 8 {
        None
    } else {
        let n = le_value(b.subrange(0, 8));
        if b.len() - 8 < n {
            None
        } else {
            let bytes = b.subrange(8, 8 + n as int);
            if valid_utf8(bytes) {
                Some((decode_utf8(bytes), b.skip(8 + n as int)))
            } else {
                None
            }
        }
    }
}

/// Reads `n` string records from the front of `b`.
pub open spec fn dec_str_list(b: Seq<u8>, n: nat) -> Option<(Seq<Seq<char>>, Seq<u8>)>
    decreases n,
{
    if n == 0 {
        Some((Seq::empty(), b))
    } else {
        match dec_str(b) {
            None => None,
            Some((s, rest)) => match dec_str_list(rest, (n - 1) as nat) {
                None => None,
                Some((l, rest2)) => Some((seq![s] + l, rest2)),
            },
        }
    }
}

/// The version list that an uncompressed payload denotes; `None` when the
/// payload is malformed in any way.
pub open spec fn dec_payload_list(b: Seq<u8>) -> Option<Seq<Seq<char>>> {
    if b.len() < 12 || b.subrange(0, 4) != spec_header(TAG_LIST) {
        None
    } else {
        let n = le_value(b.subrange(4, 12));
        match dec_str_list(b.skip(12), n) {
            None => None,
            Some((l, rest)) => if rest.len() == 0 {
                Some(l)
            } else {
                None
            },
        }
    }
}

/// The optional latest version that an uncompressed payload denotes.
pub open spec fn dec_payload_opt(b: Seq<u8>) -> Option<Option<Seq<char>>> {
    if b.len() < 5 || b.subrange(0, 4) != spec_header(TAG_OPT) {
        None
    } else if b[4] == 0 {
        if b.len() == 5 {
            Some(None)
        } else {
            None
        }
    } else if b[4] == 1 {
        match dec_str(b.skip(5)) {
            Some((s, rest)) => if rest.len() == 0 {
                Some(Some(s))
            } else {
                None
            },
            None => None,
        }
    } else {
        None
    }
}

/// A string record read back from the front of its own encoding yields the
/// original string and leaves exactly the trailing bytes.
pub proof fn lemma_dec_str_enc_str(s: Seq<char>, rest: Seq<u8>)
    requires
        encode_utf8(s).len() < pow256(8),
    ensures
        dec_str(enc_str(s) + rest) == Some::<(Seq<char>, Seq<u8>)>((s, rest)),
{
    broadcast use vstd::utf8::encode_utf8_valid_utf8, vstd::utf8::encode_utf8_decode_utf8;

    let bytes = encode_utf8(s);
    let b = enc_str(s) + rest;
    lemma_le_bytes_len(bytes.len(), 8);
    assert(b.subrange(0, 8) =~= le_bytes(bytes.len(), 8));
    lemma_le_round_trip(bytes.len(), 8);
    assert(b.subrange(8, 8 + bytes.len() as int) =~= bytes);
    assert(b.skip(8 + bytes.len() as int) =~= rest);
}

/// String records read back from the front of their own encodings yield the
/// original strings and leave exactly the trailing bytes.
pub proof fn lemma_dec_str_list_enc(l: Seq<Seq<char>>, rest: Seq<u8>)
    requires
        forall|i: int| 0 <= i < l.len() ==> #[trigger] encode_utf8(l[i]).len() < pow256(8),
    ensures
        dec_str_list(enc_str_list(l) + rest, l.len()) == Some::<(Seq<Seq<char>>, Seq<u8>)>((l, rest)),
    decreases l.len(),
{
    if l.len() == 0 {
        assert(enc_str_list(l) + rest =~= rest);
    } else {
        let tail = l.drop_first();
        assert(enc_str_list(l) + rest =~= enc_str(l[0]) + (enc_str_list(tail) + rest));
        lemma_dec_str_enc_str(l[0], enc_str_list(tail) + rest);
        assert(forall|i: int| 0 <= i < tail.len() ==> #[trigger] encode_utf8(tail[i]).len() < pow256(8)) by {
            assert(forall|i: int| 0 <= i < tail.len() ==> tail[i] == l[i + 1]);
        }
        lemma_dec_str_list_enc(tail, rest);
        assert(seq![l[0]] + tail =~= l);
    }
}

/// The payload codec for version lists is lossless: decoding the encoding
/// of any list gives back that list.
pub proof fn lemma_payload_list_round_trip(l: Seq<Seq<char>>)
    requires
        l.len() < pow256(8),
        forall|i: int| 0 <= i < l.len() ==> #[trigger] encode_utf8(l[i]).len() < pow256(8),
    ensures
        dec_payload_list(payload_of_list(l)) == Some(l),
{
    let b = payload_of_list(l);
    lemma_le_bytes_len(l.len(), 8);
    assert(b.len() >= 12);
    assert(b.subrange(0, 4) =~= spec_header(TAG_LIST));
    assert(b.subrange(4, 12) =~= le_bytes(l.len(), 8));
    lemma_le_round_trip(l.len(), 8);
    assert(b.skip(12) =~= enc_str_list(l) + Seq::<u8>::empty());
    lemma_dec_str_list_enc(l, Seq::<u8>::empty());
}

/// The payload codec for the latest-version entry is lossless.
pub proof fn lemma_payload_opt_round_trip(o: Option<Seq<char>>)
    requires
        o matches Some(s) ==> encode_utf8(s).len() < pow256(8),
    ensures
        dec_payload_opt(payload_of_opt(o)) == Some(o),
{
    let b = payload_of_opt(o);
    match o {
        None => {
            assert(b.subrange(0, 4) =~= spec_header(TAG_OPT));
        },
        Some(s) => {
            assert(b.subrange(0, 4) =~= spec_header(TAG_OPT));
            assert(b.skip(5) =~= enc_str(s) + Seq::<u8>::empty());
            lemma_dec_str_enc_str(s, Seq::<u8>::empty());
        },
    }
}

/// What `miniz_oxide::deflate::compress_to_vec` produces, at the fixed
/// compression level used for cache files.
pub uninterp spec fn deflate_of(b: Seq<u8>) -> Seq<u8>;

/// What `miniz_oxide::inflate::decompress_to_vec` recovers: `Some` of the
/// decompressed bytes on well-formed DEFLATE data, `None` otherwise.
pub uninterp spec fn inflate_of(b: Seq<u8>) -> Option<Seq<u8>>;

/// Relies on `miniz_oxide::deflate::compress_to_vec` at compression level 6:
/// the output is a function of the input bytes alone, and
/// `miniz_oxide::inflate::decompress_to_vec` recovers exactly the input
/// from it (DEFLATE is lossless).
#[verifier::external_body]
pub(crate) fn compress_bytes(data: &[u8]) -> (r: Vec<u8>)
    ensures
        r@ == deflate_of(data@),
        inflate_of(r@) == Some(data@),
{
    miniz_oxide::deflate::compress_to_vec(data, 6)
}

/// Relies on `miniz_oxide::inflate::decompress_to_vec`: the result is a
/// function of the input bytes alone; `Err` means the input is not
/// well-formed DEFLATE data.
#[verifier::external_body]
pub(crate) fn decompress_bytes(data: &[u8]) -> (r: Option<Vec<u8>>)
    ensures
        match r {
            Some(o) => inflate_of(data@) == Some(o@),
            None => inflate_of(data@) is None,
        },
{
    miniz_oxide::inflate::decompress_to_vec(data).ok()
}

/// Relies on `String::from_utf8`: it succeeds exactly on valid UTF-8, and
/// the returned string holds the characters that the bytes encode.
#[verifier::external_body]
fn string_from_utf8(bytes: Vec<u8>) -> (r: Option<String>)
    ensures
        valid_utf8(bytes@) <==> r is Some,
        r matches Some(s) ==> s@ == decode_utf8(bytes@),
{
    String::from_utf8(bytes).ok()
}

/// The complete cache-file encoding of a version list.
pub open spec fn spec_encode_list(l: Seq<Seq<char>>) -> Seq<u8> {
    deflate_of(payload_of_list(l))
}

/// The version list a cache file holds; `None` when the file is corrupt.
pub open spec fn spec_decode_list(b: Seq<u8>) -> Option<Seq<Seq<char>>> {
    match inflate_of(b) {
        None => None,
        Some(p) => dec_payload_list(p),
    }
}

/// The complete cache-file encoding of the latest-version entry.
pub open spec fn spec_encode_opt(o: Option<Seq<char>>) -> Seq<u8> {
    deflate_of(payload_of_opt(o))
}

/// The latest-version entry a cache file holds; `None` when the file is
/// corrupt.
pub open spec fn spec_decode_opt(b: Seq<u8>) -> Option<Option<Seq<char>>> {
    match inflate_of(b) {
        None => None,
        Some(p) => dec_payload_opt(p),
    }
}

/// Appends a byte slice to a byte vector.
fn push_bytes(out: &mut Vec<u8>, b: &[u8])
    ensures
        final(out)@ == old(out)@ + b@,
{
    let mut i: usize = 0;
    while i < b.len()
        invariant
            i <= b@.len(),
            out@ == old(out)@ + b@.subrange(0, i as int),
        decreases b@.len() - i,
    {
        out.push(*slice_index_get(b, i));
        assert(out@ =~= old(out)@ + b@.subrange(0, i + 1));
        i += 1;
    }
    assert(out@ =~= old(out)@ + b@);
}

/// Appends the eight little-endian bytes of `v`.
fn push_u64le(out: &mut Vec<u8>, v: u64)
    ensures
        final(out)@ == old(out)@ + le_bytes(v as nat, 8),
{
    let mut x: u64 = v;
    let mut i: usize = 0;
    while i < 8
        invariant
            i <= 8,
            out@ + le_bytes(x as nat, (8 - i) as nat) == old(out)@ + le_bytes(v as nat, 8),
        decreases 8 - i,
    {
        let ghost pre = out@;
        let ghost xs = x as nat;
        out.push((x % 256) as u8);
        x = x / 256;
        proof {
            assert(le_bytes(xs, (8 - i) as nat) == seq![(xs % 256) as u8] + le_bytes(
                xs / 256,
                (8 - (i + 1)) as nat,
            ));
            assert(out@ + le_bytes(x as nat, (8 - (i + 1)) as nat) =~= pre + le_bytes(
                xs,
                (8 - i) as nat,
            ));
        }
        i += 1;
    }
    assert(out@ =~= out@ + le_bytes(x as nat, 0));
}

/// A list encoding grows record by record at the back.
proof fn lemma_enc_str_list_snoc(l: Seq<Seq<char>>, i: int)
    requires
        0 <= i < l.len(),
    ensures
        enc_str_list(l.take(i + 1)) == enc_str_list(l.take(i)) + enc_str(l[i]),
    decreases i,
{
    if i == 0 {
        assert(l.take(1).drop_first() =~= l.take(0));
        assert(enc_str_list(l.take(1)) =~= enc_str_list(l.take(0)) + enc_str(l[0]));
    } else {
        let t = l.drop_first();
        lemma_enc_str_list_snoc(t, i - 1);
        assert(l.take(i + 1).drop_first() =~= t.take(i));
        assert(l.take(i).drop_first() =~= t.take(i - 1));
        assert(t[i - 1] == l[i]);
        assert(enc_str(l[0]) + (enc_str_list(t.take(i - 1)) + enc_str(l[i])) =~= (enc_str(l[0])
            + enc_str_list(t.take(i - 1))) + enc_str(l[i]));
    }
}

/// Appends one string record: its UTF-8 byte length, then its UTF-8 bytes.
fn push_string(out: &mut Vec<u8>, s: &String)
    ensures
        final(out)@ == old(out)@ + enc_str(s@),
        encode_utf8(s@).len() < pow256(8),
{
    let bytes = s.as_str().as_bytes_vec();
    let blen = bytes.len();
    push_u64le(out, blen as u64);
    push_bytes(out, bytes.as_slice());
    proof {
        lemma_pow256_8();
        assert(out@ =~= old(out)@ + enc_str(s@));
    }
}

/// Encodes a version list into the bytes of its cache file: the compressed,
/// schema-tagged payload.  The second clause is the round trip: the file
/// decodes back to exactly the list that was stored.
pub fn encode_version_list(tags: &Vec<String>) -> (r: Vec<u8>)
    ensures
        r@ == spec_encode_list(tags.deep_view()),
        spec_decode_list(r@) == Some(tags.deep_view()),
{
    let ghost l = tags.deep_view();
    let mut payload: Vec<u8> = Vec::new();
    payload.push(117);
    payload.push(98);
    payload.push(1);
    payload.push(TAG_LIST);
    assert(payload@ =~= spec_header(TAG_LIST));
    let count = tags.len();
    push_u64le(&mut payload, count as u64);
    assert(l.take(0) =~= Seq::<Seq<char>>::empty());
    assert(payload@ =~= spec_header(TAG_LIST) + le_bytes(l.len(), 8) + enc_str_list(l.take(0)));
    let mut i: usize = 0;
    while i < count
        invariant
            i <= count,
            count == tags@.len(),
            l == tags.deep_view(),
            payload@ == spec_header(TAG_LIST) + le_bytes(l.len(), 8) + enc_str_list(
                l.take(i as int),
            ),
            forall|j: int| 0 <= j < i ==> #[trigger] encode_utf8(l[j]).len() < pow256(8),
        decreases count - i,
    {
        let ghost pre = payload@;
        push_string(&mut payload, &tags[i]);
        proof {
            assert(tags@[i as int]@ == l[i as int]);
            lemma_enc_str_list_snoc(l, i as int);
            assert(payload@ =~= spec_header(TAG_LIST) + le_bytes(l.len(), 8) + enc_str_list(
                l.take(i as int + 1),
            ));
        }
        i += 1;
    }
    assert(l.take(count as int) =~= l);
    let r = compress_bytes(payload.as_slice());
    proof {
        lemma_pow256_8();
        lemma_payload_list_round_trip(l);
    }
    r
}

/// Encodes the latest-version entry into the bytes of its cache file.  The
/// second clause is the round trip.
pub fn encode_latest(latest: &Option<String>) -> (r: Vec<u8>)
    ensures
        r@ == spec_encode_opt(latest.deep_view()),
        spec_decode_opt(r@) == Some(latest.deep_view()),
{
    let ghost o = latest.deep_view();
    let mut payload: Vec<u8> = Vec::new();
    payload.push(117);
    payload.push(98);
    payload.push(1);
    payload.push(TAG_OPT);
    match latest {
        None => {
            payload.push(0);
            assert(payload@ =~= payload_of_opt(o));
        },
        Some(s) => {
            payload.push(1);
            push_string(&mut payload, s);
            assert(payload@ =~= payload_of_opt(o));
        },
    }
    let r = compress_bytes(payload.as_slice());
    proof {
        lemma_payload_opt_round_trip(o);
    }
    r
}

/// Reads the eight little-endian bytes at `pos` back into a value.
fn read_u64le(b: &[u8], pos: usize) -> (v: u64)
    requires
        pos + 8 <= b@.len(),
    ensures
        v as nat == le_value(b@.subrange(pos as int, pos as int + 8)),
{
    let blen = b.len();
    let b0 = *slice_index_get(b, pos) as u64;
    let b1 = *slice_index_get(b, pos + 1) as u64;
    let b2 = *slice_index_get(b, pos + 2) as u64;
    let b3 = *slice_index_get(b, pos + 3) as u64;
    let b4 = *slice_index_get(b, pos + 4) as u64;
    let b5 = *slice_index_get(b, pos + 5) as u64;
    let b6 = *slice_index_get(b, pos + 6) as u64;
    let b7 = *slice_index_get(b, pos + 7) as u64;
    let v = b0 + 256 * (b1 + 256 * (b2 + 256 * (b3 + 256 * (b4 + 256 * (b5 + 256 * (b6 + 256
        * b7))))));
    proof {
        reveal_with_fuel(le_value, 10);
        let s = b@.subrange(pos as int, pos as int + 8);
        assert(s.drop_first() =~= b@.subrange(pos as int + 1, pos as int + 8));
        assert(s.drop_first().drop_first() =~= b@.subrange(pos as int + 2, pos as int + 8));
        assert(s.drop_first().drop_first().drop_first() =~= b@.subrange(
            pos as int + 3,
            pos as int + 8,
        ));
        assert(s.drop_first().drop_first().drop_first().drop_first() =~= b@.subrange(
            pos as int + 4,
            pos as int + 8,
        ));
        assert(s.drop_first().drop_first().drop_first().drop_first().drop_first() =~= b@.subrange(
            pos as int + 5,
            pos as int + 8,
        ));
        assert(s.drop_first().drop_first().drop_first().drop_first().drop_first().drop_first()
            =~= b@.subrange(pos as int + 6, pos as int + 8));
        assert(s.drop_first().drop_first().drop_first().drop_first().drop_first().drop_first().drop_first()
            =~= b@.subrange(pos as int + 7, pos as int + 8));
        assert(s.drop_first().drop_first().drop_first().drop_first().drop_first().drop_first().drop_first().drop_first()
            =~= Seq::<u8>::empty());
    }
    v
}

/// Reads one string record at `pos`, returning the string and the position
/// just past it; `None` when the bytes there do not form one.
fn read_string(b: &[u8], pos: usize) -> (r: Option<(String, usize)>)
    requires
        pos <= b@.len(),
    ensures
        match r {
            Some(p) => dec_str(b@.skip(pos as int)) == Some((p.0@, b@.skip(p.1 as int))) && pos + 8
                <= p.1 <= b@.len(),
            None => dec_str(b@.skip(pos as int)) is None,
        },
{
    let blen = b.len();
    if blen - pos < 8 {
        return None;
    }
    let n64 = read_u64le(b, pos);
    proof {
        assert(b@.skip(pos as int).subrange(0, 8) =~= b@.subrange(pos as int, pos as int + 8));
    }
    let rem = blen - (pos + 8);
    if n64 > rem as u64 {
        return None;
    }
    let n = n64 as usize;
    let mut bytes: Vec<u8> = Vec::new();
    let mut j: usize = 0;
    while j < n
        invariant
            j <= n,
            pos + 8 + n <= b@.len() <= usize::MAX,
            bytes@ == b@.subrange(pos as int + 8, pos as int + 8 + j as int),
        decreases n - j,
    {
        bytes.push(*slice_index_get(b, pos + 8 + j));
        assert(bytes@ =~= b@.subrange(pos as int + 8, pos as int + 8 + (j + 1)));
        j += 1;
    }
    proof {
        assert(b@.skip(pos as int).subrange(8, 8 + n as int) =~= bytes@);
    }
    match string_from_utf8(bytes) {
        Some(s) => {
            proof {
                assert(b@.skip(pos as int).skip(8 + n as int) =~= b@.skip(
                    pos as int + 8 + n as int,
                ));
            }
            Some((s, pos + 8 + n))
        },
        None => None,
    }
}

/// Whether the four bytes at the front of `p` are the header for `tag`.
fn header_matches(p: &[u8], tag: u8) -> (r: bool)
    requires
        p@.len() >= 4,
    ensures
        r == (p@.subrange(0, 4) == spec_header(tag)),
{
    let ok = *slice_index_get(p, 0) == 117 && *slice_index_get(p, 1) == 98 && *slice_index_get(
        p,
        2,
    ) == 1 && *slice_index_get(p, 3) == tag;
    proof {
        if ok {
            assert(p@.subrange(0, 4) =~= spec_header(tag));
        } else {
            if p@.subrange(0, 4) == spec_header(tag) {
                assert(p@[0] == spec_header(tag)[0]);
                assert(p@[1] == spec_header(tag)[1]);
                assert(p@[2] == spec_header(tag)[2]);
                assert(p@[3] == spec_header(tag)[3]);
            }
        }
    }
    ok
}

/// Decodes an uncompressed version-list payload.
fn decode_list_payload(p: &[u8]) -> (r: Option<Vec<String>>)
    ensures
        match r {
            Some(v) => dec_payload_list(p@) == Some(v.deep_view()),
            None => dec_payload_list(p@) is None,
        },
{
    let plen = p.len();
    if plen < 12 {
        return None;
    }
    if !header_matches(p, TAG_LIST) {
        return None;
    }
    let cnt = read_u64le(p, 4);
    let ghost n0 = le_value(p@.subrange(4, 12));
    let mut out: Vec<String> = Vec::new();
    let mut pos: usize = 12;
    let mut i: u64 = 0;
    proof {
        assert(out.deep_view() =~= Seq::<Seq<char>>::empty());
        assert(forall|l2: Seq<Seq<char>>| #[trigger] (Seq::<Seq<char>>::empty() + l2) =~= l2);
    }
    while i < cnt
        invariant
            i <= cnt,
            cnt as nat == n0,
            n0 == le_value(p@.subrange(4, 12)),
            p@.subrange(0, 4) == spec_header(TAG_LIST),
            12 <= pos <= p@.len(),
            p@.len() < 0x1_0000_0000_0000_0000,
            (dec_str_list(p@.skip(12), n0) == (match dec_str_list(
                p@.skip(pos as int),
                (cnt - i) as nat,
            ) {
                Some(t) => Some::<(Seq<Seq<char>>, Seq<u8>)>((out.deep_view() + t.0, t.1)),
                None => None::<(Seq<Seq<char>>, Seq<u8>)>,
            })),
        decreases cnt - i,
    {
        match read_string(p, pos) {
            None => {
                proof {
                    assert((cnt - i) as nat != 0);
                    assert(dec_str_list(p@.skip(pos as int), (cnt - i) as nat) is None);
                }
                return None;
            },
            Some(sp) => {
                let (s, np) = sp;
                let ghost out_pre = out.deep_view();
                out.push(s);
                proof {
                    assert(out.deep_view() =~= out_pre.push(s@));
                    assert(forall|l2: Seq<Seq<char>>|
                        out_pre + (seq![s@] + l2) =~= #[trigger] (out_pre.push(s@) + l2));
                }
                pos = np;
                i = i + 1;
            },
        }
    }
    assert(dec_str_list(p@.skip(pos as int), 0) == Some::<(Seq<Seq<char>>, Seq<u8>)>((
        Seq::<Seq<char>>::empty(),
        p@.skip(pos as int),
    )));
    assert(out.deep_view() + Seq::<Seq<char>>::empty() =~= out.deep_view());
    if pos == plen {
        assert(p@.skip(pos as int) =~= Seq::<u8>::empty());
        Some(out)
    } else {
        assert(p@.skip(pos as int).len() > 0);
        None
    }
}

/// Decodes the bytes of a version-list cache file; `None` on any corruption,
/// from a failed decompression to a malformed payload.
pub fn decode_version_list(file: &[u8]) -> (r: Option<Vec<String>>)
    ensures
        match r {
            Some(v) => spec_decode_list(file@) == Some(v.deep_view()),
            None => spec_decode_list(file@) is None,
        },
{
    match decompress_bytes(file) {
        None => None,
        Some(payload) => decode_list_payload(payload.as_slice()),
    }
}

/// Decodes an uncompressed latest-version payload.
fn decode_opt_payload(p: &[u8]) -> (r: Option<Option<String>>)
    ensures
        match r {
            Some(v) => dec_payload_opt(p@) == Some(v.deep_view()),
            None => dec_payload_opt(p@) is None,
        },
{
    let plen = p.len();
    if plen < 5 {
        return None;
    }
    if !header_matches(p, TAG_OPT) {
        return None;
    }
    let presence = *slice_index_get(p, 4);
    if presence == 0 {
        if plen == 5 {
            Some(None)
        } else {
            None
        }
    } else if presence == 1 {
        match read_string(p, 5) {
            None => None,
            Some(sp) => {
                let (s, np) = sp;
                if np == plen {
                    assert(p@.skip(np as int) =~= Seq::<u8>::empty());
                    Some(Some(s))
                } else {
                    assert(p@.skip(np as int).len() > 0);
                    None
                }
            },
        }
    } else {
        None
    }
}

/// Decodes the bytes of a latest-version cache file; `None` on any
/// corruption.
pub fn decode_latest(file: &[u8]) -> (r: Option<Option<String>>)
    ensures
        match r {
            Some(v) => spec_decode_opt(file@) == Some(v.deep_view()),
            None => spec_decode_opt(file@) is None,
        },
{
    match decompress_bytes(file) {
        None => None,
        Some(payload) => decode_opt_payload(payload.as_slice()),
    }
}

} // verus!
