//! The fixed-layout on-disk record codec.
//!
//! Every stored value is prefixed by a 20-byte header in big-endian order:
//! an 8-byte expiration deadline (whole seconds since the epoch), an 8-byte
//! CAS stamp, and 4 bytes of opaque client flags; the raw payload follows
//! immediately.  A record read back with fewer than 20 bytes is corrupt and
//! is treated as an engine error, never as a missing key.

use vstd::prelude::*;

verus! {

/// Big-endian value of a byte sequence, most significant byte first.
pub open spec fn be_val(s: Seq<u8>) -> int
    decreases s.len(),
{
    if s.len() == 0 {
        0
    } else {
        be_val(s.drop_last()) * 256 + s.last()
    }
}

/// The `n`-byte big-endian encoding of `x` (mod 256^n).
pub open spec fn be_bytes(x: int, n: nat) -> Seq<u8>
    decreases n,
{
    if n == 0 {
        Seq::empty()
    } else {
        be_bytes(x / 256, (n - 1) as nat).push((x % 256) as u8)
    }
}

/// 256 raised to the power `n`.
pub open spec fn pow256(n: nat) -> int
    decreases n,
{
    if n == 0 {
        1
    } else {
        256 * pow256((n - 1) as nat)
    }
}

/// The 8-byte big-endian encoding of a `u64`.
pub open spec fn be_u64(x: u64) -> Seq<u8> {
    be_bytes(x as int, 8)
}

/// The 4-byte big-endian encoding of a `u32`.
pub open spec fn be_u32(x: u32) -> Seq<u8> {
    be_bytes(x as int, 4)
}

/// The two header field widths used by the record layout.
pub proof fn lemma_pow256_values()
    ensures
        pow256(4) == 0x1_0000_0000,
        pow256(8) == 0x1_0000_0000_0000_0000,
{
    reveal_with_fuel(pow256, 9);
}

pub proof fn lemma_pow256_positive(n: nat)
    ensures
        pow256(n) >= 1,
    decreases n,
{
    if n > 0 {
        lemma_pow256_positive((n - 1) as nat);
    }
}

pub proof fn lemma_pow256_mono(i: nat, j: nat)
    requires
        i <= j,
    ensures
        pow256(i) <= pow256(j),
    decreases j,
{
    if i < j {
        lemma_pow256_mono(i, (j - 1) as nat);
        lemma_pow256_positive((j - 1) as nat);
    }
}

pub proof fn lemma_be_bytes_len(x: int, n: nat)
    ensures
        be_bytes(x, n).len() == n,
    decreases n,
{
    if n > 0 {
        lemma_be_bytes_len(x / 256, (n - 1) as nat);
    }
}

/// Appending one byte multiplies the value by 256 and adds the byte.
pub proof fn lemma_be_val_push(t: Seq<u8>, b: u8)
    ensures
        be_val(t.push(b)) == be_val(t) * 256 + b,
{
    let u = t.push(b);
    assert(u.drop_last() =~= t);
    assert(u.last() == b);
}

/// A byte sequence denotes a value in `[0, 256^len)`.
pub proof fn lemma_be_val_bound(s: Seq<u8>)
    ensures
        0 <= be_val(s) < pow256(s.len()),
    decreases s.len(),
{
    if s.len() == 0 {
    } else {
        let t = s.drop_last();
        lemma_be_val_bound(t);
        assert(be_val(s) == be_val(t) * 256 + s.last());
        assert(be_val(t) * 256 <= (pow256(t.len()) - 1) * 256) by (nonlinear_arith)
            requires
                be_val(t) <= pow256(t.len()) - 1,
        ;
        assert(be_val(t) * 256 >= 0) by (nonlinear_arith)
            requires
                be_val(t) >= 0,
        ;
    }
}

/// Encoding `x` in `n` bytes and reading the bytes back yields `x` whenever
/// `x` fits in `n` bytes.
pub proof fn lemma_be_val_be_bytes(x: int, n: nat)
    requires
        0 <= x < pow256(n),
    ensures
        be_val(be_bytes(x, n)) == x,
    decreases n,
{
    if n == 0 {
    } else {
        let q = x / 256;
        let r = x % 256;
        vstd::arithmetic::div_mod::lemma_fundamental_div_mod(x, 256);
        assert(x == 256 * q + r);
        assert(q < pow256((n - 1) as nat));
        lemma_be_val_be_bytes(q, (n - 1) as nat);
        lemma_be_val_push(be_bytes(q, (n - 1) as nat), r as u8);
    }
}

/// The record bytes for the given header fields and payload.
pub open spec fn spec_encode_record(deadline: u64, cas: u64, flags: u32, payload: Seq<u8>) -> Seq<
    u8,
> {
    be_u64(deadline) + be_u64(cas) + be_u32(flags) + payload
}

/// A stored record is well formed when it is long enough to hold the header.
pub open spec fn record_wf(rec: Seq<u8>) -> bool {
    rec.len() >= 20
}

/// The expiration deadline stored in a record.
pub open spec fn rec_deadline(rec: Seq<u8>) -> int {
    be_val(rec.subrange(0, 8))
}

/// The CAS stamp stored in a record.
pub open spec fn rec_cas(rec: Seq<u8>) -> int {
    be_val(rec.subrange(8, 16))
}

/// The client flags stored in a record.
pub open spec fn rec_flags(rec: Seq<u8>) -> int {
    be_val(rec.subrange(16, 20))
}

/// The raw payload stored behind the 20-byte header.
pub open spec fn rec_payload(rec: Seq<u8>) -> Seq<u8> {
    rec.skip(20)
}

/// A record is live at second `now` iff its deadline has not yet passed;
/// a record whose deadline equals `now` is still live during that second.
pub open spec fn spec_live(rec: Seq<u8>, now: u64) -> bool {
    rec_deadline(rec) >= now
}

/// Reading the fields of a freshly encoded record gives back exactly the
/// values that were encoded.
pub proof fn lemma_record_fields(deadline: u64, cas: u64, flags: u32, payload: Seq<u8>)
    ensures
        spec_encode_record(deadline, cas, flags, payload).len() == 20 + payload.len(),
        rec_deadline(spec_encode_record(deadline, cas, flags, payload)) == deadline,
        rec_cas(spec_encode_record(deadline, cas, flags, payload)) == cas,
        rec_flags(spec_encode_record(deadline, cas, flags, payload)) == flags,
        rec_payload(spec_encode_record(deadline, cas, flags, payload)) =~= payload,
{
    let r = spec_encode_record(deadline, cas, flags, payload);
    lemma_be_bytes_len(deadline as int, 8);
    lemma_be_bytes_len(cas as int, 8);
    lemma_be_bytes_len(flags as int, 4);
    assert(r.subrange(0, 8) =~= be_u64(deadline));
    assert(r.subrange(8, 16) =~= be_u64(cas));
    assert(r.subrange(16, 20) =~= be_u32(flags));
    assert(r.skip(20) =~= payload);
    lemma_pow256_values();
    lemma_be_val_be_bytes(deadline as int, 8);
    lemma_be_val_be_bytes(cas as int, 8);
    lemma_be_val_be_bytes(flags as int, 4);
}

/// The `n` low-order big-endian bytes of `x`.
fn push_be(x: u64, n: usize) -> (r: Vec<u8>)
    ensures
        r@ == be_bytes(x as int, n as nat),
    decreases n,
{
    if n == 0 {
        let v: Vec<u8> = Vec::new();
        proof {
            assert(v@ =~= be_bytes(x as int, 0));
        }
        v
    } else {
        let mut v = push_be(x / 256, n - 1);
        v.push((x % 256) as u8);
        v
    }
}

/// Builds the 8-byte big-endian encoding of a `u64`.
pub fn u64_to_be_bytes(x: u64) -> (r: Vec<u8>)
    ensures
        r@ == be_u64(x),
{
    push_be(x, 8)
}

/// Builds the 4-byte big-endian encoding of a `u32`.
pub fn u32_to_be_bytes(x: u32) -> (r: Vec<u8>)
    ensures
        r@ == be_u32(x),
{
    push_be(x as u64, 4)
}

/// Reads the `n`-byte big-endian field starting at `start`; `n` is at most 8
/// so the value fits in a `u64`.
pub fn be_field(s: &[u8], start: usize, n: usize) -> (r: u64)
    requires
        n <= 8,
        start + n <= s@.len(),
    ensures
        r == be_val(s@.subrange(start as int, start + n)),
{
    let slen = s.len();
    let mut acc: u64 = 0;
    let mut j: usize = 0;
    proof {
        lemma_pow256_positive(0);
    }
    while j < n
        invariant
            0 <= j <= n <= 8,
            start + n <= slen == s@.len(),
            acc == be_val(s@.subrange(start as int, start + j)),
            acc < pow256(j as nat),
        decreases n - j,
    {
        let b = s[start + j];
        proof {
            let pre = s@.subrange(start as int, start + j);
            assert(s@.subrange(start as int, start + j + 1) =~= pre.push(s@[start + j]));
            lemma_be_val_push(pre, s@[start + j]);
            lemma_pow256_mono((j + 1) as nat, 8);
            lemma_pow256_values();
            assert(acc * 256 <= (pow256(j as nat) - 1) * 256) by (nonlinear_arith)
                requires
                    acc <= pow256(j as nat) - 1,
            ;
            assert(acc * 256 >= 0) by (nonlinear_arith)
                requires
                    acc >= 0,
            ;
        }
        acc = acc * 256 + (b as u64);
        j = j + 1;
    }
    acc
}

/// Assembles a record from an already-encoded deadline and flag fields, a
/// fresh CAS stamp, and the payload.
pub fn encode_record_raw(deadline_bytes: &[u8], cas: u64, flag_bytes: &[u8], payload: &[u8]) -> (r:
    Vec<u8>)
    requires
        deadline_bytes@.len() == 8,
        flag_bytes@.len() == 4,
    ensures
        r@ == deadline_bytes@ + be_u64(cas) + flag_bytes@ + payload@,
{
    let mut r = vstd::slice::slice_to_vec(deadline_bytes);
    let mut cas_bytes = u64_to_be_bytes(cas);
    r.append(&mut cas_bytes);
    let mut fb = vstd::slice::slice_to_vec(flag_bytes);
    r.append(&mut fb);
    let mut pb = vstd::slice::slice_to_vec(payload);
    r.append(&mut pb);
    proof {
        assert(r@ =~= deadline_bytes@ + be_u64(cas) + flag_bytes@ + payload@);
    }
    r
}

/// Encodes a record from its header fields and payload.
pub fn encode_record(deadline: u64, cas: u64, flags: u32, payload: &[u8]) -> (r: Vec<u8>)
    ensures
        r@ == spec_encode_record(deadline, cas, flags, payload@),
{
    let deadline_bytes = u64_to_be_bytes(deadline);
    let flag_bytes = u32_to_be_bytes(flags);
    proof {
        lemma_be_bytes_len(deadline as int, 8);
        lemma_be_bytes_len(flags as int, 4);
    }
    let r = encode_record_raw(deadline_bytes.as_slice(), cas, flag_bytes.as_slice(), payload);
    proof {
        assert(r@ =~= spec_encode_record(deadline, cas, flags, payload@));
    }
    r
}

/// Decodes the header of a stored record; `None` means the record is too
/// short to be well formed.
pub fn decode_header(rec: &[u8]) -> (r: Option<(u64, u64, u32)>)
    ensures
        record_wf(rec@) ==> (r matches Some(h) && h.0 == rec_deadline(rec@) && h.1 == rec_cas(rec@)
            && h.2 == rec_flags(rec@)),
        !record_wf(rec@) ==> r is None,
{
    if rec.len() < 20 {
        return None;
    }
    let deadline = be_field(rec, 0, 8);
    let cas = be_field(rec, 8, 8);
    let flags_64 = be_field(rec, 16, 4);
    proof {
        lemma_be_val_bound(rec@.subrange(16, 20));
        lemma_pow256_values();
    }
    Some((deadline, cas, flags_64 as u32))
}

/// Copies the payload out of a well-formed record.
pub fn record_payload_vec(rec: &[u8]) -> (r: Vec<u8>)
    requires
        record_wf(rec@),
    ensures
        r@ == rec_payload(rec@),
{
    let p = vstd::slice::slice_subrange(rec, 20, rec.len());
    let r = vstd::slice::slice_to_vec(p);
    proof {
        assert(r@ =~= rec_payload(rec@));
    }
    r
}

} // verus!
