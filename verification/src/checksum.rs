use vstd::prelude::*;

verus! {

/// The CRC-32C register shifted `n` bits: each bit shifts it right and, where the bit shifted
/// out is set, folds in the Castagnoli polynomial in reversed bit order.
pub open spec fn crc_shift(r: u32, n: nat) -> u32
    decreases n,
{
    if n == 0 {
        r
    } else {
        crc_shift(if r % 2 == 0 { r / 2 } else { (r / 2) ^ 0x82F6_3B78u32 }, (n - 1) as nat)
    }
}

/// The CRC-32C register after taking in `data`, starting from `r`, each byte from its lowest
/// bit up.
pub open spec fn crc_register(r: u32, data: Seq<u8>) -> u32
    decreases data.len(),
{
    if data.len() == 0 {
        r
    } else {
        crc_shift(crc_register(r, data.drop_last()) ^ (data.last() as u32), 8)
    }
}

/// The CRC-32C checksum of `data`, continuing from the checksum `crc` of the bytes before it:
/// the register starts from `crc` inverted and is inverted at the end.
pub open spec fn crc32c_of(crc: u32, data: Seq<u8>) -> u32 {
    !crc_register(!crc, data)
}

proof fn lemma_register_concat(r: u32, a: Seq<u8>, b: Seq<u8>)
    ensures
        crc_register(r, a + b) == crc_register(crc_register(r, a), b),
    decreases b.len(),
{
    if b.len() == 0 {
        assert(a + b =~= a);
    } else {
        lemma_register_concat(r, a, b.drop_last());
        assert((a + b).drop_last() =~= a + b.drop_last());
        assert((a + b).last() == b.last());
    }
}

/// Checksums stream: continuing the checksum of `a` over `b` gives the checksum of `a`
/// followed by `b`.
pub proof fn lemma_crc32c_streams(crc: u32, a: Seq<u8>, b: Seq<u8>)
    ensures
        crc32c_of(crc32c_of(crc, a), b) == crc32c_of(crc, a + b),
{
    let x = crc_register(!crc, a);
    assert(!(!x) == x) by (bit_vector);
    lemma_register_concat(!crc, a, b);
}

/// Calls `crc32c::crc32c_append`. Trusted: it gives the CRC-32C checksum of `data`
/// continuing from `crc`, as the crate's bitwise table and its hardware path both compute it.
#[verifier::external_body]
fn crc32c_append(crc: u32, data: &[u8]) -> (r: u32)
    ensures
        r == crc32c_of(crc, data@),
{
    crc32c::crc32c_append(crc, data)
}

/// A CRC-32C checksum computed over data that arrives in chunks.
pub struct Crc {
    value: u32,
    consumed: Ghost<Seq<u8>>,
}

impl View for Crc {
    /// The bytes taken in so far.
    type V = Seq<u8>;

    closed spec fn view(&self) -> Seq<u8> {
        self.consumed@
    }
}

impl Crc {
    /// The checksum stands for the bytes taken in so far, and continues over more bytes as
    /// the checksum of all of them would.
    pub closed spec fn wf(&self) -> bool {
        self.value == crc32c_of(0, self.consumed@)
    }

    /// The checksum of no bytes.
    pub fn new() -> (r: Self)
        ensures
            r.wf(),
            r@ == Seq::<u8>::empty(),
    {
        let empty: [u8; 0] = [];
        let value = crc32c_append(0, &empty);
        proof {
            assert(empty@ =~= Seq::<u8>::empty());
        }
        Crc { value, consumed: Ghost(Seq::empty()) }
    }

    /// Takes in the next chunk of bytes.
    pub fn update(&mut self, chunk: &[u8])
        requires
            old(self).wf(),
        ensures
            final(self).wf(),
            final(self)@ == old(self)@ + chunk@,
    {
        let value = crc32c_append(self.value, chunk);
        let ghost consumed = self.consumed@ + chunk@;
        proof {
            lemma_crc32c_streams(0, self.consumed@, chunk@);
        }
        self.value = value;
        self.consumed = Ghost(consumed);
    }

    /// The checksum of all the bytes taken in.
    pub fn value(&self) -> (r: u32)
        requires
            self.wf(),
        ensures
            r == crc32c_of(0, self@),
    {
        self.value
    }
}

} // verus!
