use vstd::prelude::*;
use vstd::bytes::{
    spec_u32_from_le_bytes, spec_u32_to_le_bytes, spec_u64_from_le_bytes, spec_u64_to_le_bytes,
    u32_from_le_bytes, u32_to_le_bytes, u64_from_le_bytes, u64_to_le_bytes,
};
use vstd::utf8::{decode_utf8, encode_utf8, valid_utf8};

verus! {

/// The order of the bytes of a machine word.
#[derive(Clone, Copy, Debug, PartialEq, Eq, Structural)]
pub enum ByteOrder {
    Little,
    Big,
}

/// The number of bytes of a `usize`.
pub open spec fn word_width() -> nat {
    (usize::BITS / 8) as nat
}

/// The bytes of a `usize` holding `n`, least significant first.
pub open spec fn le_word(n: nat) -> Seq<u8> {
    if usize::BITS == 64 {
        spec_u64_to_le_bytes(n as u64)
    } else {
        spec_u32_to_le_bytes(n as u32)
    }
}

/// The bytes of a `usize` holding `n`, in the byte order `order`.
pub open spec fn word_bytes(n: nat, order: ByteOrder) -> Seq<u8> {
    match order {
        ByteOrder::Little => le_word(n),
        ByteOrder::Big => le_word(n).reverse(),
    }
}

/// The `usize` whose bytes, least significant first, are `b`.
pub open spec fn le_value(b: Seq<u8>) -> nat {
    if usize::BITS == 64 {
        spec_u64_from_le_bytes(b) as nat
    } else {
        spec_u32_from_le_bytes(b) as nat
    }
}

/// The `usize` whose bytes, in the byte order `order`, are `b`.
pub open spec fn word_value(b: Seq<u8>, order: ByteOrder) -> nat {
    match order {
        ByteOrder::Little => le_value(b),
        ByteOrder::Big => le_value(b.reverse()),
    }
}

/// The bytes of a word read back give the word.
proof fn lemma_word_roundtrip(n: nat, order: ByteOrder)
    requires
        n <= usize::MAX,
    ensures
        word_bytes(n, order).len() == word_width(),
        word_value(word_bytes(n, order), order) == n,
{
    vstd::bytes::lemma_auto_spec_u64_to_from_le_bytes();
    vstd::bytes::lemma_auto_spec_u32_to_from_le_bytes();
    let le = le_word(n);
    assert(le.len() == word_width());
    assert(le_value(le) == n);
    assert(le.reverse().reverse() =~= le);
}

/// Calls `u16::from_ne_bytes`. What it gives depends on the machine's byte order, so nothing is
/// said of it.
#[verifier::external_body]
fn u16_from_native(bytes: [u8; 2]) -> u16 {
    u16::from_ne_bytes(bytes)
}

/// The byte order of this machine.
pub fn native_order() -> ByteOrder {
    if u16_from_native([1, 0]) == 1 {
        ByteOrder::Little
    } else {
        ByteOrder::Big
    }
}

fn reversed(v: &Vec<u8>) -> (r: Vec<u8>)
    ensures
        r@ == v@.reverse(),
{
    let n = v.len();
    let mut r: Vec<u8> = Vec::new();
    let mut i: usize = 0;
    while i < n
        invariant
            n == v@.len(),
            0 <= i <= n,
            r@.len() == i,
            forall|k: int| 0 <= k < i ==> r@[k] == v@[n - 1 - k],
        decreases n - i,
    {
        r.push(v[n - 1 - i]);
        i = i + 1;
    }
    proof {
        assert(r@ =~= v@.reverse());
    }
    r
}

/// The bytes of `n` in the byte order `order`.
fn word_of(n: usize, order: ByteOrder) -> (r: Vec<u8>)
    ensures
        r@ == word_bytes(n as nat, order),
{
    let le = if usize::BITS == 64 {
        u64_to_le_bytes(n as u64)
    } else {
        u32_to_le_bytes(n as u32)
    };
    match order {
        ByteOrder::Little => le,
        ByteOrder::Big => reversed(&le),
    }
}

/// The `usize` whose bytes, in the byte order `order`, are `b`.
fn value_of(b: Vec<u8>, order: ByteOrder) -> (r: usize)
    requires
        b@.len() == word_width(),
    ensures
        r == word_value(b@, order),
{
    let le = match order {
        ByteOrder::Little => b,
        ByteOrder::Big => reversed(&b),
    };
    if usize::BITS == 64 {
        u64_from_le_bytes(le.as_slice()) as usize
    } else {
        u32_from_le_bytes(le.as_slice()) as usize
    }
}


/// A plugin found on disk: its name, its id (a C string, with its terminating nul), and the
/// path of the bundle it is in.
#[derive(Clone, Debug, PartialEq, Eq)]
pub struct PluginDescriptor {
    pub name: String,
    pub id: Vec<u8>,
    pub path: String,
}

/// Whether `b` is a C string with its nul: nul-terminated, with no other nul.
pub open spec fn is_c_string(b: Seq<u8>) -> bool {
    &&& b.len() > 0
    &&& b.last() == 0
    &&& forall|i: int| 0 <= i < b.len() - 1 ==> b[i] != 0
}

/// A field on the wire: its length as eight little-endian bytes, then its bytes.
pub open spec fn field_bytes(bytes: Seq<u8>, order: ByteOrder) -> Seq<u8> {
    word_bytes(bytes.len(), order) + bytes
}

/// A descriptor on the wire: its name, its id and its path, each as a field.
pub open spec fn descriptor_bytes(name: Seq<char>, id: Seq<u8>, path: Seq<char>, order: ByteOrder) -> Seq<u8> {
    field_bytes(encode_utf8(name), order) + field_bytes(id, order) + field_bytes(encode_utf8(path), order)
}

/// The field that starts at `pos` in `buf` and where the next one starts, or `None` where
/// `buf` ends before the field does.
pub open spec fn read_field(buf: Seq<u8>, pos: int, order: ByteOrder) -> Option<(Seq<u8>, int)> {
    let w = word_width();
    if 0 <= pos && pos + w <= buf.len() {
        let n = word_value(buf.subrange(pos, pos + w), order);
        if pos + w + n <= buf.len() {
            Some((buf.subrange(pos + w, pos + w + n), pos + w + n))
        } else {
            None
        }
    } else {
        None
    }
}

/// The three fields of the descriptor at the start of `buf` and its length, or `None` where
/// `buf` ends before the descriptor does.
pub open spec fn read_fields(buf: Seq<u8>, order: ByteOrder) -> Option<(Seq<u8>, Seq<u8>, Seq<u8>, int)> {
    match read_field(buf, 0, order) {
        Some((name, p1)) => match read_field(buf, p1, order) {
            Some((id, p2)) => match read_field(buf, p2, order) {
                Some((path, p3)) => Some((name, id, path, p3)),
                None => None,
            },
            None => None,
        },
        None => None,
    }
}

/// What decoding the start of a buffer gives.
#[derive(Debug)]
pub enum Decoded {
    /// A descriptor, and the number of bytes it took.
    Descriptor(PluginDescriptor, usize),
    /// A complete descriptor whose name or path is not UTF-8, or whose id is not a C string,
    /// and the number of bytes it took.
    Invalid(usize),
    /// The buffer ends before the descriptor does.
    Incomplete,
}

/// Calls `std::str::from_utf8`. Trusted: it succeeds exactly on valid UTF-8, and then gives
/// the characters that the bytes encode.
#[verifier::external_body]
fn str_from_utf8(bytes: &[u8]) -> (r: Option<&str>)
    ensures
        r is Some <==> valid_utf8(bytes@),
        r matches Some(s) ==> s@ == decode_utf8(bytes@),
{
    std::str::from_utf8(bytes).ok()
}

fn push_all(v: &mut Vec<u8>, s: &[u8])
    ensures
        final(v)@ == old(v)@ + s@,
{
    let n = s.len();
    let mut i: usize = 0;
    while i < n
        invariant
            n == s@.len(),
            0 <= i <= n,
            v@ == old(v)@ + s@.subrange(0, i as int),
        decreases n - i,
    {
        v.push(s[i]);
        proof {
            assert(s@.subrange(0, i + 1) =~= s@.subrange(0, i as int).push(s@[i as int]));
        }
        i = i + 1;
    }
    proof {
        assert(s@.subrange(0, n as int) =~= s@);
    }
}

fn push_field(v: &mut Vec<u8>, s: &[u8], order: ByteOrder)
    ensures
        final(v)@ == old(v)@ + field_bytes(s@, order),
{
    let mut len = word_of(s.len(), order);
    v.append(&mut len);
    push_all(v, s);
    proof {
        assert(final(v)@ =~= old(v)@ + field_bytes(s@, order));
    }
}

/// The bytes that stand for a descriptor on the wire.
pub fn encode_descriptor(descriptor: &PluginDescriptor, order: ByteOrder) -> (r: Vec<u8>)
    ensures
        r@ == descriptor_bytes(descriptor.name@, descriptor.id@, descriptor.path@, order),
{
    let mut r: Vec<u8> = Vec::new();
    push_field(&mut r, descriptor.name.as_str().as_bytes(), order);
    push_field(&mut r, descriptor.id.as_slice(), order);
    push_field(&mut r, descriptor.path.as_str().as_bytes(), order);
    proof {
        assert(r@ =~= descriptor_bytes(descriptor.name@, descriptor.id@, descriptor.path@, order));
    }
    r
}

fn slice_to_vec(s: &[u8], start: usize, end: usize) -> (r: Vec<u8>)
    requires
        start <= end <= s@.len(),
    ensures
        r@ == s@.subrange(start as int, end as int),
{
    let mut r: Vec<u8> = Vec::new();
    let mut i: usize = start;
    while i < end
        invariant
            start <= i <= end <= s@.len(),
            r@ == s@.subrange(start as int, i as int),
        decreases end - i,
    {
        r.push(s[i]);
        proof {
            assert(s@.subrange(start as int, i + 1) =~= s@.subrange(start as int, i as int).push(
                s@[i as int],
            ));
        }
        i = i + 1;
    }
    r
}

fn field_at(buf: &[u8], pos: usize, order: ByteOrder) -> (r: Option<(usize, usize)>)
    ensures
        match read_field(buf@, pos as int, order) {
            Some((bytes, next)) => r matches Some((start, end)) && start + bytes.len() == end
                && end == next && buf@.subrange(start as int, end as int) == bytes,
            None => r is None,
        },
{
    let w: usize = (usize::BITS / 8) as usize;
    if pos > buf.len() || buf.len() - pos < w {
        return None;
    }
    let header = slice_to_vec(buf, pos, pos + w);
    let n = value_of(header, order);
    let start = pos + w;
    if n > buf.len() - start {
        return None;
    }
    let end = start + n;
    Some((start, end))
}

/// Whether `b` is a C string with its nul, as `CStr::from_bytes_with_nul` checks it.
pub fn c_string_ok(b: &[u8]) -> (r: bool)
    ensures
        r == is_c_string(b@),
{
    let n = b.len();
    if n == 0 || b[n - 1] != 0 {
        return false;
    }
    let mut i: usize = 0;
    while i < n - 1
        invariant
            n == b@.len(),
            n > 0,
            0 <= i <= n - 1,
            forall|k: int| 0 <= k < i ==> b@[k] != 0,
        decreases n - 1 - i,
    {
        if b[i] == 0 {
            return false;
        }
        i = i + 1;
    }
    true
}

/// Decodes the descriptor at the start of `buf`.
pub fn decode_descriptor(buf: &[u8], order: ByteOrder) -> (r: Decoded)
    ensures
        match read_fields(buf@, order) {
            None => r is Incomplete,
            Some((name, id, path, len)) => if valid_utf8(name) && is_c_string(id) && valid_utf8(
                path,
            ) {
                r matches Decoded::Descriptor(d, n) && n == len && d.name@ == decode_utf8(name)
                    && d.id@ == id && d.path@ == decode_utf8(path)
            } else {
                r == Decoded::Invalid(len as usize)
            },
        },
{
    let (s1, e1) = match field_at(buf, 0, order) {
        Some(f) => f,
        None => {
            return Decoded::Incomplete;
        },
    };
    let (s2, e2) = match field_at(buf, e1, order) {
        Some(f) => f,
        None => {
            return Decoded::Incomplete;
        },
    };
    let (s3, e3) = match field_at(buf, e2, order) {
        Some(f) => f,
        None => {
            return Decoded::Incomplete;
        },
    };
    let name_bytes = slice_to_vec(buf, s1, e1);
    let id = slice_to_vec(buf, s2, e2);
    let path_bytes = slice_to_vec(buf, s3, e3);
    let name = str_from_utf8(name_bytes.as_slice());
    let id_ok = c_string_ok(id.as_slice());
    let path = str_from_utf8(path_bytes.as_slice());
    match (name, path) {
        (Some(name), Some(path)) => {
            if id_ok {
                Decoded::Descriptor(
                    PluginDescriptor { name: name.to_owned(), id, path: path.to_owned() },
                    e3,
                )
            } else {
                Decoded::Invalid(e3)
            }
        },
        _ => Decoded::Invalid(e3),
    }
}

proof fn lemma_read_field_of(bytes: Seq<u8>, before: Seq<u8>, after: Seq<u8>, order: ByteOrder)
    requires
        bytes.len() <= usize::MAX,
    ensures
        read_field(before + field_bytes(bytes, order) + after, before.len() as int, order) == Some(
            (bytes, before.len() + word_width() + bytes.len() as int),
        ),
        field_bytes(bytes, order).len() == word_width() + bytes.len(),
{
    lemma_word_roundtrip(bytes.len(), order);
    let buf = before + field_bytes(bytes, order) + after;
    let pos = before.len() as int;
    let w = word_width();
    let header = word_bytes(bytes.len(), order);
    assert(buf.subrange(pos, pos + w) =~= header);
    assert(buf.subrange(pos + w, pos + w + bytes.len()) =~= bytes);
}

/// Decoding the bytes of a descriptor, whatever follows them, gives the same descriptor back
/// and tells where it ends: the name and path are valid UTF-8 that decodes to what was
/// encoded, and the id comes back unchanged.
pub proof fn lemma_descriptor_roundtrip(
    name: Seq<char>,
    id: Seq<u8>,
    path: Seq<char>,
    rest: Seq<u8>,
    order: ByteOrder,
)
    requires
        encode_utf8(name).len() <= usize::MAX,
        id.len() <= usize::MAX,
        encode_utf8(path).len() <= usize::MAX,
    ensures
        read_fields(descriptor_bytes(name, id, path, order) + rest, order) == Some(
            (
                encode_utf8(name),
                id,
                encode_utf8(path),
                descriptor_bytes(name, id, path, order).len() as int,
            ),
        ),
        valid_utf8(encode_utf8(name)),
        valid_utf8(encode_utf8(path)),
        decode_utf8(encode_utf8(name)) == name,
        decode_utf8(encode_utf8(path)) == path,
{
    broadcast use vstd::utf8::encode_utf8_valid_utf8, vstd::utf8::encode_utf8_decode_utf8;

    let n = encode_utf8(name);
    let p = encode_utf8(path);
    let buf = descriptor_bytes(name, id, path, order) + rest;
    let empty = Seq::<u8>::empty();
    let fi = field_bytes(id, order);
    let fp = field_bytes(p, order);
    let fname = field_bytes(n, order);
    lemma_read_field_of(n, empty, fi + fp + rest, order);
    assert(empty + fname + (fi + fp + rest) =~= buf);
    lemma_read_field_of(id, fname, fp + rest, order);
    assert(fname + fi + (fp + rest) =~= buf);
    lemma_read_field_of(p, fname + fi, rest, order);
    assert(fname + fi + fp + rest =~= buf);
}

/// Fields one after another.
pub open spec fn fields_bytes(fields: Seq<Seq<u8>>, order: ByteOrder) -> Seq<u8>
    decreases fields.len(),
{
    if fields.len() == 0 {
        Seq::empty()
    } else {
        fields_bytes(fields.drop_last(), order) + field_bytes(fields.last(), order)
    }
}

/// A list of paths on the wire: their number as the bytes of a `usize`, then each path as a
/// field.
pub open spec fn path_list_bytes(paths: Seq<Seq<char>>, order: ByteOrder) -> Seq<u8> {
    word_bytes(paths.len(), order) + fields_bytes(paths.map_values(|p: Seq<char>| encode_utf8(p)), order)
}

/// The `n` fields that start at `pos` in `buf` and where the next byte is, or `None` where
/// `buf` ends before they do.
pub open spec fn read_n_fields(buf: Seq<u8>, pos: int, n: nat, order: ByteOrder) -> Option<(Seq<Seq<u8>>, int)>
    decreases n,
{
    if n == 0 {
        Some((Seq::empty(), pos))
    } else {
        match read_n_fields(buf, pos, (n - 1) as nat, order) {
            Some((fields, p)) => match read_field(buf, p, order) {
                Some((f, q)) => Some((fields.push(f), q)),
                None => None,
            },
            None => None,
        }
    }
}

/// The fields of the path list at the start of `buf` and its length, or `None` where `buf`
/// ends before the list does.
pub open spec fn read_path_list(buf: Seq<u8>, order: ByteOrder) -> Option<(Seq<Seq<u8>>, int)> {
    let w = word_width();
    if buf.len() < w {
        None
    } else {
        read_n_fields(buf, w as int, word_value(buf.subrange(0, w as int), order), order)
    }
}

/// What decoding a list of paths gives.
#[derive(Debug)]
pub enum DecodedPaths {
    /// The paths, and the number of bytes they took.
    Paths(Vec<String>, usize),
    /// A complete list in which a path is not UTF-8.
    Invalid,
    /// The buffer ends before the list does.
    Incomplete,
}

/// Whether every field is valid UTF-8.
pub open spec fn all_utf8(fields: Seq<Seq<u8>>) -> bool {
    forall|i: int| 0 <= i < fields.len() ==> valid_utf8(#[trigger] fields[i])
}

/// The bytes that stand for a list of paths on the wire.
pub fn encode_paths(paths: &[String], order: ByteOrder) -> (r: Vec<u8>)
    ensures
        r@ == path_list_bytes(paths@.map_values(|p: String| p@), order),
{
    let ghost views = paths@.map_values(|p: String| p@);
    let mut r = word_of(paths.len(), order);
    let mut i: usize = 0;
    while i < paths.len()
        invariant
            i <= paths@.len(),
            views == paths@.map_values(|p: String| p@),
            r@ == word_bytes(paths@.len(), order) + fields_bytes(
                views.take(i as int).map_values(|p: Seq<char>| encode_utf8(p)),
                order,
            ),
        decreases paths@.len() - i,
    {
        let ghost before = r@;
        push_field(&mut r, paths[i].as_str().as_bytes(), order);
        proof {
            let f = views.take(i + 1).map_values(|p: Seq<char>| encode_utf8(p));
            assert(f.drop_last() =~= views.take(i as int).map_values(|p: Seq<char>| encode_utf8(p)));
            assert(f.last() == encode_utf8(paths@[i as int]@));
            assert(r@ =~= word_bytes(paths@.len(), order) + fields_bytes(f, order));
        }
        i = i + 1;
    }
    proof {
        assert(views.take(paths@.len() as int) =~= views);
    }
    r
}

/// Decodes the list of paths at the start of `buf`.
pub fn decode_paths(buf: &[u8], order: ByteOrder) -> (r: DecodedPaths)
    ensures
        match read_path_list(buf@, order) {
            None => r is Incomplete,
            Some((fields, len)) => if all_utf8(fields) {
                r matches DecodedPaths::Paths(paths, n) && n == len && paths@.len() == fields.len()
                    && forall|i: int|
                    0 <= i < fields.len() ==> (#[trigger] paths@[i])@ == decode_utf8(fields[i])
            } else {
                r is Invalid
            },
        },
{
    let w: usize = (usize::BITS / 8) as usize;
    if buf.len() < w {
        return DecodedPaths::Incomplete;
    }
    let header = slice_to_vec(buf, 0, w);
    let n = value_of(header, order);
    let mut ranges: Vec<(usize, usize)> = Vec::new();
    let ghost mut fields: Seq<Seq<u8>> = Seq::empty();
    let mut pos: usize = w;
    let mut k: usize = 0;
    while k < n
        invariant
            w == word_width(),
            buf@.len() >= w,
            n == word_value(buf@.subrange(0, w as int), order),
            k <= n,
            read_n_fields(buf@, w as int, k as nat, order) == Some((fields, pos as int)),
            ranges@.len() == fields.len(),
            forall|i: int|
                0 <= i < ranges@.len() ==> (#[trigger] ranges@[i]).0 <= ranges@[i].1 <= buf@.len()
                    && buf@.subrange(ranges@[i].0 as int, ranges@[i].1 as int) == fields[i],
        decreases n - k,
    {
        match field_at(buf, pos, order) {
            Some((start, end)) => {
                proof {
                    fields = fields.push(buf@.subrange(start as int, end as int));
                }
                ranges.push((start, end));
                pos = end;
                k = k + 1;
            },
            None => {
                proof {
                    assert(read_n_fields(buf@, w as int, (k + 1) as nat, order) is None);
                    lemma_read_n_fields_stops(buf@, w as int, k as nat, (n - k - 1) as nat, order);
                }
                return DecodedPaths::Incomplete;
            },
        }
    }
    let mut paths: Vec<String> = Vec::new();
    let mut i: usize = 0;
    while i < ranges.len()
        invariant
            read_path_list(buf@, order) == Some((fields, pos as int)),
            i <= ranges@.len(),
            ranges@.len() == fields.len(),
            forall|j: int|
                0 <= j < ranges@.len() ==> (#[trigger] ranges@[j]).0 <= ranges@[j].1 <= buf@.len()
                    && buf@.subrange(ranges@[j].0 as int, ranges@[j].1 as int) == fields[j],
            paths@.len() == i,
            forall|j: int| 0 <= j < i ==> valid_utf8(#[trigger] fields[j]),
            forall|j: int| 0 <= j < i ==> (#[trigger] paths@[j])@ == decode_utf8(fields[j]),
        decreases ranges@.len() - i,
    {
        let (start, end) = ranges[i];
        let bytes = slice_to_vec(buf, start, end);
        match str_from_utf8(bytes.as_slice()) {
            Some(s) => {
                paths.push(s.to_owned());
            },
            None => {
                proof {
                    assert(bytes@ == fields[i as int]);
                    assert(!valid_utf8(fields[i as int]));
                    assert(!all_utf8(fields));
                }
                return DecodedPaths::Invalid;
            },
        }
        i = i + 1;
    }
    DecodedPaths::Paths(paths, pos)
}

/// Once the fields run out, reading more of them finds none.
proof fn lemma_read_n_fields_stops(buf: Seq<u8>, pos: int, k: nat, more: nat, order: ByteOrder)
    requires
        read_n_fields(buf, pos, k + 1, order) is None,
    ensures
        read_n_fields(buf, pos, k + 1 + more, order) is None,
    decreases more,
{
    if more > 0 {
        lemma_read_n_fields_stops(buf, pos, k, (more - 1) as nat, order);
    }
}

/// Reading `n` fields from fields written one after another, whatever follows them, gives
/// them back and tells where they end.
proof fn lemma_read_fields_of(fields: Seq<Seq<u8>>, before: Seq<u8>, after: Seq<u8>, order: ByteOrder)
    requires
        forall|i: int| 0 <= i < fields.len() ==> (#[trigger] fields[i]).len() <= usize::MAX,
    ensures
        read_n_fields(before + fields_bytes(fields, order) + after, before.len() as int, fields.len(), order)
            == Some((fields, before.len() + fields_bytes(fields, order).len() as int)),
    decreases fields.len(),
{
    if fields.len() > 0 {
        let init = fields.drop_last();
        let last = fields.last();
        assert forall|i: int| 0 <= i < init.len() implies (#[trigger] init[i]).len() <= usize::MAX by {
            assert(init[i] == fields[i]);
        }
        assert(last.len() <= usize::MAX) by {
            assert(last == fields[fields.len() - 1]);
        }
        let fl = field_bytes(last, order);
        assert(fields_bytes(fields, order) == fields_bytes(init, order) + fl);
        assert(before + fields_bytes(fields, order) + after =~= before + fields_bytes(init, order) + (fl + after));
        lemma_read_fields_of(init, before, fl + after, order);
        assert(before + fields_bytes(init, order) + fl + after =~= before + fields_bytes(fields, order) + after);
        lemma_read_field_of(last, before + fields_bytes(init, order), after, order);
        assert(init.push(last) =~= fields);
    }
}

/// Decoding the bytes of a list of paths, whatever follows them, gives the paths back: each
/// is valid UTF-8 that decodes to the path that was encoded.
pub proof fn lemma_path_list_roundtrip(paths: Seq<Seq<char>>, rest: Seq<u8>, order: ByteOrder)
    requires
        paths.len() <= usize::MAX,
        forall|i: int| 0 <= i < paths.len() ==> encode_utf8(#[trigger] paths[i]).len() <= usize::MAX,
    ensures
        read_path_list(path_list_bytes(paths, order) + rest, order) == Some(
            (paths.map_values(|p: Seq<char>| encode_utf8(p)), path_list_bytes(paths, order).len() as int),
        ),
        forall|i: int|
            0 <= i < paths.len() ==> valid_utf8(encode_utf8(#[trigger] paths[i])) && decode_utf8(
                encode_utf8(paths[i]),
            ) == paths[i],
{
    broadcast use vstd::utf8::encode_utf8_valid_utf8, vstd::utf8::encode_utf8_decode_utf8;

    lemma_word_roundtrip(paths.len(), order);
    let fields = paths.map_values(|p: Seq<char>| encode_utf8(p));
    let header = word_bytes(paths.len(), order);
    let buf = path_list_bytes(paths, order) + rest;
    let w = word_width();
    assert(buf.subrange(0, w as int) =~= header);
    assert forall|i: int| 0 <= i < fields.len() implies (#[trigger] fields[i]).len() <= usize::MAX by {
        assert(fields[i] == encode_utf8(paths[i]));
    }
    lemma_read_fields_of(fields, header, rest, order);
    assert(header + fields_bytes(fields, order) + rest =~= buf);
}

} // verus!
