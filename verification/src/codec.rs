//! Canonical wire encoding of native-value transactions in the
//! destination chain's typed transaction format: a type marker byte
//! followed by the recursive-length-prefix encoding of the field list.
//!
//! Integers are encoded as minimal big-endian byte strings with no
//! leading zero and the empty string for zero; the decoder accepts
//! only these canonical forms, so encoding and decoding are mutually
//! inverse.

use vstd::prelude::*;
use crate::crypto::keccak256;
use crate::crypto::keccak256_of;

verus! {

/// Leading marker byte of the typed transaction encoding.
pub const TX_TYPE_MARKER: u8 = 2;

/// A native-value transfer before signing.  The payload is empty and
/// the access list is empty: only value transfers are built.
pub struct UnsignedTransaction {
    /// Numeric chain id of the destination chain.
    pub chain_id: u64,
    /// Per-account sequence number.
    pub nonce: u64,
    /// Max priority fee per unit gas.
    pub max_priority_fee_per_gas: u128,
    /// Max fee per unit gas.
    pub max_fee_per_gas: u128,
    /// Gas limit.
    pub gas_limit: u128,
    /// Destination account, 20 bytes.
    pub to: Vec<u8>,
    /// Transferred value in the chain's smallest unit.
    pub value: u128,
}

/// The three signature fields appended to a signed transaction.
pub struct SignatureParts {
    /// Recovery indicator, 0 or 1.
    pub y_parity: u8,
    /// Scalar r as 32 big-endian bytes.
    pub r: Vec<u8>,
    /// Scalar s as 32 big-endian bytes.
    pub s: Vec<u8>,
}

/// Mathematical model of an unsigned transaction.
pub struct TxView {
    pub chain_id: nat,
    pub nonce: nat,
    pub max_priority_fee_per_gas: nat,
    pub max_fee_per_gas: nat,
    pub gas_limit: nat,
    pub to: Seq<u8>,
    pub value: nat,
}

/// Mathematical model of the signature fields.
pub struct SigView {
    pub y_parity: nat,
    pub r: Seq<u8>,
    pub s: Seq<u8>,
}

impl View for UnsignedTransaction {
    type V = TxView;

    open spec fn view(&self) -> TxView {
        TxView {
            chain_id: self.chain_id as nat,
            nonce: self.nonce as nat,
            max_priority_fee_per_gas: self.max_priority_fee_per_gas as nat,
            max_fee_per_gas: self.max_fee_per_gas as nat,
            gas_limit: self.gas_limit as nat,
            to: self.to@,
            value: self.value as nat,
        }
    }
}

impl View for SignatureParts {
    type V = SigView;

    open spec fn view(&self) -> SigView {
        SigView { y_parity: self.y_parity as nat, r: self.r@, s: self.s@ }
    }
}

impl UnsignedTransaction {
    /// The destination field holds exactly 20 bytes.
    pub open spec fn wf(&self) -> bool {
        self.to@.len() == 20
    }
}

impl SignatureParts {
    /// Indicator is one bit and both scalars are 32 bytes.
    pub open spec fn wf(&self) -> bool {
        self.y_parity <= 1 && self.r@.len() == 32 && self.s@.len() == 32
    }
}

/// Whether a transaction model is within the ranges the executable
/// types can hold.
pub open spec fn tx_view_wf(t: TxView) -> bool {
    &&& t.chain_id <= u64::MAX
    &&& t.nonce <= u64::MAX
    &&& t.max_priority_fee_per_gas <= u128::MAX
    &&& t.max_fee_per_gas <= u128::MAX
    &&& t.gas_limit <= u128::MAX
    &&& t.to.len() == 20
    &&& t.value <= u128::MAX
}

/// Whether a signature model is well formed.
pub open spec fn sig_view_wf(g: SigView) -> bool {
    g.y_parity <= 1 && g.r.len() == 32 && g.s.len() == 32
}

/// Minimal big-endian bytes of a natural number; empty for zero.
pub open spec fn be_bytes(n: nat) -> Seq<u8>
    decreases n,
{
    if n == 0 {
        Seq::empty()
    } else {
        be_bytes(n / 256) + seq![(n % 256) as u8]
    }
}

/// The natural number a big-endian byte sequence denotes.
pub open spec fn be_val(s: Seq<u8>) -> nat
    decreases s.len(),
{
    if s.len() == 0 {
        0
    } else {
        (be_val(s.drop_last()) * 256 + s.last()) as nat
    }
}

/// Round trip: the value of the minimal bytes of `n` is `n` again,
/// and the minimal bytes never start with zero.
pub proof fn lemma_be_bytes_val(n: nat)
    ensures
        be_val(be_bytes(n)) == n,
        n > 0 ==> be_bytes(n).len() > 0 && be_bytes(n)[0] != 0,
    decreases n,
{
    if n > 0 {
        lemma_be_bytes_val(n / 256);
        assert(be_bytes(n).drop_last() =~= be_bytes(n / 256));
        assert(be_bytes(n).last() == n % 256);
        if n / 256 > 0 {
            assert(be_bytes(n)[0] == be_bytes(n / 256)[0]);
        } else {
            assert(be_bytes(n) =~= seq![(n % 256) as u8]);
        }
    }
}

/// The minimal bytes of a number below 256^k fit in k bytes.
pub proof fn lemma_be_bytes_len(n: nat, k: nat)
    requires
        n < pow256(k),
    ensures
        be_bytes(n).len() <= k,
    decreases k,
{
    if n > 0 {
        if k == 0 {
        } else {
            assert(n / 256 < pow256((k - 1) as nat)) by {
                assert(pow256(k) == 256 * pow256((k - 1) as nat));
            }
            lemma_be_bytes_len(n / 256, (k - 1) as nat);
        }
    }
}

/// 256 to the power k.
pub open spec fn pow256(k: nat) -> nat
    decreases k,
{
    if k == 0 {
        1
    } else {
        256 * pow256((k - 1) as nat)
    }
}

/// Every 128-bit value is below 256^16, and every machine word below
/// 256^8.
pub proof fn lemma_pow256_machine_widths()
    ensures
        pow256(16) == 0x100000000000000000000000000000000,
        pow256(8) == 0x10000000000000000,
        pow256(32)
            == 0x10000000000000000000000000000000000000000000000000000000000000000,
{
    reveal_with_fuel(pow256, 33);
}

/// A byte sequence of length k denotes a value below 256^k.
pub proof fn lemma_be_val_bound(s: Seq<u8>)
    ensures
        be_val(s) < pow256(s.len()),
    decreases s.len(),
{
    if s.len() > 0 {
        lemma_be_val_bound(s.drop_last());
    }
}

/// A sequence with no leading zero is the minimal encoding of its
/// value.
pub proof fn lemma_be_val_bytes(s: Seq<u8>)
    requires
        s.len() == 0 || s[0] != 0,
    ensures
        be_bytes(be_val(s)) == s,
    decreases s.len(),
{
    if s.len() > 0 {
        let t = s.drop_last();
        lemma_be_val_bytes(t);
        let v = be_val(s);
        assert(v == be_val(t) * 256 + s.last());
        if s.len() == 1 {
            assert(t.len() == 0);
            assert(v == s.last());
            assert(v != 0);
            assert(v < 256);
            assert(v / 256 == 0) by (nonlinear_arith)
                requires 0 < v < 256;
            assert(be_bytes(v) =~= seq![(v % 256) as u8]);
            assert(v % 256 == v) by (nonlinear_arith)
                requires 0 < v < 256;
            assert(be_bytes(v) =~= s);
        } else {
            assert(t.len() > 0 && t[0] != 0);
            assert(be_val(t) > 0) by {
                lemma_be_val_pos(t);
            }
            assert(v > 0);
            assert(v / 256 == be_val(t) && v % 256 == s.last()) by (nonlinear_arith)
                requires
                    v == be_val(t) * 256 + s.last(),
                    0 <= s.last() < 256,
                    be_val(t) >= 0;
            assert(be_bytes(v) =~= be_bytes(be_val(t)) + seq![(v % 256) as u8]);
            assert(be_bytes(v) =~= s);
        }
    }
}

/// A sequence whose first byte is nonzero denotes a positive value.
pub proof fn lemma_be_val_pos(s: Seq<u8>)
    requires
        s.len() > 0,
        s[0] != 0,
    ensures
        be_val(s) > 0,
    decreases s.len(),
{
    if s.len() == 1 {
    } else {
        lemma_be_val_pos(s.drop_last());
    }
}

/// Dropping leading zeros does not change the denoted value.
pub proof fn lemma_be_val_skip_zeros(s: Seq<u8>, i: int)
    requires
        0 <= i <= s.len(),
        forall|j: int| 0 <= j < i ==> s[j] == 0,
    ensures
        be_val(s.subrange(i, s.len() as int)) == be_val(s),
    decreases s.len(),
{
    if i == s.len() {
        lemma_be_val_all_zero(s);
        assert(s.subrange(i, s.len() as int) =~= Seq::<u8>::empty());
    } else if s.len() > 0 {
        let t = s.drop_last();
        if i <= t.len() {
            lemma_be_val_skip_zeros(t, i);
            assert(s.subrange(i, s.len() as int).drop_last() =~= t.subrange(i, t.len() as int));
            assert(s.subrange(i, s.len() as int).last() == s.last());
        }
    }
}

/// An all-zero sequence denotes zero.
pub proof fn lemma_be_val_all_zero(s: Seq<u8>)
    requires
        forall|j: int| 0 <= j < s.len() ==> s[j] == 0,
    ensures
        be_val(s) == 0,
    decreases s.len(),
{
    if s.len() > 0 {
        lemma_be_val_all_zero(s.drop_last());
    }
}

/// The encoding of a byte string: itself for a single small byte, a
/// length-tagged header otherwise (all strings here are at most 55
/// bytes).
pub open spec fn rlp_str(s: Seq<u8>) -> Seq<u8> {
    if s.len() == 1 && s[0] < 0x80 {
        s
    } else if s.len() <= 55 {
        seq![(0x80 + s.len()) as u8] + s
    } else {
        seq![(0xb7 + be_bytes(s.len()).len()) as u8] + be_bytes(s.len()) + s
    }
}

/// The encoding of a list with the given payload.
pub open spec fn rlp_list(payload: Seq<u8>) -> Seq<u8> {
    if payload.len() <= 55 {
        seq![(0xc0 + payload.len()) as u8] + payload
    } else {
        seq![(0xf7 + be_bytes(payload.len()).len()) as u8] + be_bytes(payload.len()) + payload
    }
}

/// The encoding of an unsigned integer: its minimal big-endian bytes
/// as a byte string.
pub open spec fn rlp_uint(n: nat) -> Seq<u8> {
    rlp_str(be_bytes(n))
}

/// Field list shared by the unsigned and the signed encoding: chain
/// id, nonce, priority fee, max fee, gas limit, destination, value,
/// empty payload, empty access list.
pub open spec fn spec_base_fields(t: TxView) -> Seq<u8> {
    rlp_uint(t.chain_id) + rlp_uint(t.nonce) + rlp_uint(t.max_priority_fee_per_gas) + rlp_uint(
        t.max_fee_per_gas,
    ) + rlp_uint(t.gas_limit) + rlp_str(t.to) + rlp_uint(t.value) + rlp_str(Seq::empty())
        + rlp_list(Seq::empty())
}

/// The wire bytes of an unsigned transaction.
pub open spec fn spec_encode_unsigned(t: TxView) -> Seq<u8> {
    seq![TX_TYPE_MARKER] + rlp_list(spec_base_fields(t))
}

/// The wire bytes of a signed transaction: the same base fields with
/// indicator, r and s appended, under the same marker byte.
pub open spec fn spec_encode_signed(t: TxView, g: SigView) -> Seq<u8> {
    seq![TX_TYPE_MARKER] + rlp_list(
        spec_base_fields(t) + rlp_uint(g.y_parity) + rlp_uint(be_val(g.r)) + rlp_uint(
            be_val(g.s),
        ),
    )
}

/// Minimal big-endian bytes of a 128-bit value.
fn be_bytes_exec(n: u128) -> (r: Vec<u8>)
    ensures
        r@ == be_bytes(n as nat),
    decreases n,
{
    if n == 0 {
        Vec::new()
    } else {
        let mut v = be_bytes_exec(n / 256);
        v.push((n % 256) as u8);
        assert(v@ =~= be_bytes((n / 256) as nat) + seq![(n as nat % 256) as u8]);
        v
    }
}

/// Append the bytes of `s` to `out`.
fn push_all(out: &mut Vec<u8>, s: &Vec<u8>)
    ensures
        final(out)@ == old(out)@ + s@,
{
    let n = s.len();
    let mut i: usize = 0;
    while i < n
        invariant
            n == s@.len(),
            0 <= i <= n,
            out@ == old(out)@ + s@.subrange(0, i as int),
        decreases n - i,
    {
        out.push(s[i]);
        assert(old(out)@ + s@.subrange(0, i as int) + seq![s@[i as int]] =~= old(out)@
            + s@.subrange(0, i + 1));
        i += 1;
    }
    assert(s@.subrange(0, n as int) =~= s@);
}

/// Append the string encoding of `s` (at most 55 bytes) to `out`.
fn push_str_bytes(out: &mut Vec<u8>, s: &Vec<u8>)
    requires
        s@.len() <= 55,
    ensures
        final(out)@ == old(out)@ + rlp_str(s@),
{
    if s.len() == 1 && s[0] < 0x80 {
        out.push(s[0]);
        assert(out@ =~= old(out)@ + rlp_str(s@));
    } else {
        out.push(0x80 + s.len() as u8);
        push_all(out, s);
        assert(out@ =~= old(out)@ + rlp_str(s@));
    }
}

/// Append the integer encoding of `n` to `out`.
fn push_uint(out: &mut Vec<u8>, n: u128)
    ensures
        final(out)@ == old(out)@ + rlp_uint(n as nat),
{
    let b = be_bytes_exec(n);
    proof {
        assert((n as nat) < pow256(16)) by {
            lemma_pow256_machine_widths();
        }
        lemma_be_bytes_len(n as nat, 16);
    }
    push_str_bytes(out, &b);
}

/// Append the integer encoding of a 32-byte big-endian scalar to
/// `out`: leading zeros are stripped to make the encoding minimal.
fn push_scalar_bytes(out: &mut Vec<u8>, rs: &Vec<u8>)
    requires
        rs@.len() == 32,
    ensures
        final(out)@ == old(out)@ + rlp_uint(be_val(rs@)),
{
    let mut i: usize = 0;
    while i < 32
        invariant
            rs@.len() == 32,
            0 <= i <= 32,
            forall|j: int| 0 <= j < i ==> rs@[j] == 0,
        ensures
            0 <= i <= 32,
            forall|j: int| 0 <= j < i ==> rs@[j] == 0,
            i < 32 ==> rs@[i as int] != 0,
        decreases 32 - i,
    {
        if rs[i] != 0 {
            break;
        }
        i += 1;
    }
    let trimmed = crate::strutil::subvec(rs, i, 32);
    proof {
        lemma_be_val_skip_zeros(rs@, i as int);
        lemma_be_val_bytes(trimmed@);
        assert(be_bytes(be_val(rs@)) == trimmed@);
    }
    push_str_bytes(out, &trimmed);
}

/// Prefix the marker byte and the list header to a finished payload.
fn wrap_typed_list(payload: Vec<u8>) -> (r: Vec<u8>)
    ensures
        r@ == seq![TX_TYPE_MARKER] + rlp_list(payload@),
{
    let mut out: Vec<u8> = Vec::new();
    out.push(TX_TYPE_MARKER);
    if payload.len() <= 55 {
        out.push(0xc0 + payload.len() as u8);
        push_all(&mut out, &payload);
        assert(out@ =~= seq![TX_TYPE_MARKER] + rlp_list(payload@));
    } else {
        let lenbytes = be_bytes_exec(payload.len() as u128);
        proof {
            assert((payload@.len() as nat) < pow256(8)) by {
                assert(payload@.len() <= usize::MAX);
                lemma_pow256_machine_widths();
            }
            lemma_be_bytes_len(payload@.len() as nat, 8);
        }
        out.push(0xf7 + lenbytes.len() as u8);
        push_all(&mut out, &lenbytes);
        push_all(&mut out, &payload);
        assert(out@ =~= seq![TX_TYPE_MARKER] + rlp_list(payload@));
    }
    out
}

/// The shared field list of `tx`, encoded.
fn base_payload(tx: &UnsignedTransaction) -> (r: Vec<u8>)
    requires
        tx.wf(),
    ensures
        r@ == spec_base_fields(tx@),
{
    let mut payload: Vec<u8> = Vec::new();
    push_uint(&mut payload, tx.chain_id as u128);
    push_uint(&mut payload, tx.nonce as u128);
    push_uint(&mut payload, tx.max_priority_fee_per_gas);
    push_uint(&mut payload, tx.max_fee_per_gas);
    push_uint(&mut payload, tx.gas_limit);
    push_str_bytes(&mut payload, &tx.to);
    push_uint(&mut payload, tx.value);
    // empty payload field
    payload.push(0x80);
    // empty access list
    payload.push(0xc0);
    proof {
        assert(rlp_str(Seq::<u8>::empty()) =~= seq![0x80u8]);
        assert(rlp_list(Seq::<u8>::empty()) =~= seq![0xc0u8]);
        assert(payload@ =~= spec_base_fields(tx@));
    }
    payload
}

/// The wire bytes of `tx` before signing: exactly the byte sequence
/// whose digest is signed.
pub fn encode_unsigned(tx: &UnsignedTransaction) -> (r: Vec<u8>)
    requires
        tx.wf(),
    ensures
        r@ == spec_encode_unsigned(tx@),
{
    let payload = base_payload(tx);
    wrap_typed_list(payload)
}

/// The signing digest of an encoded transaction.
pub fn tx_digest(encoded: &Vec<u8>) -> (d: Vec<u8>)
    ensures
        d@ == keccak256_of(encoded@),
        d@.len() == 32,
{
    keccak256(encoded)
}

/// The wire bytes of `tx` together with its signature fields, under
/// the same marker and the same base field encoding as the unsigned
/// form.
pub fn encode_signed(tx: &UnsignedTransaction, sig: &SignatureParts) -> (r: Vec<u8>)
    requires
        tx.wf(),
        sig.wf(),
    ensures
        r@ == spec_encode_signed(tx@, sig@),
{
    let mut payload = base_payload(tx);
    push_uint(&mut payload, sig.y_parity as u128);
    push_scalar_bytes(&mut payload, &sig.r);
    push_scalar_bytes(&mut payload, &sig.s);
    proof {
        assert(payload@ =~= spec_base_fields(tx@) + rlp_uint(sig@.y_parity) + rlp_uint(
            be_val(sig@.r),
        ) + rlp_uint(be_val(sig@.s)));
    }
    wrap_typed_list(payload)
}

/// Parse one canonically encoded byte string at position `i`.
pub open spec fn parse_str_at(s: Seq<u8>, i: int) -> Option<(Seq<u8>, int)> {
    if 0 <= i < s.len() {
        let b = s[i];
        if b < 0x80 {
            Some((seq![b], i + 1))
        } else if b <= 0xb7 {
            let n = b - 0x80;
            if i + 1 + n <= s.len() {
                let content = s.subrange(i + 1, i + 1 + n);
                if n == 1 && content[0] < 0x80 {
                    None
                } else {
                    Some((content, i + 1 + n))
                }
            } else {
                None
            }
        } else {
            None
        }
    } else {
        None
    }
}

/// Parse one canonically encoded unsigned integer of at most
/// `max_len` bytes at position `i`.
pub open spec fn parse_uint_at(s: Seq<u8>, i: int, max_len: nat) -> Option<(nat, int)> {
    match parse_str_at(s, i) {
        Some(p) => {
            if p.0.len() > max_len {
                None
            } else if p.0.len() > 0 && p.0[0] == 0 {
                None
            } else {
                Some((be_val(p.0), p.1))
            }
        },
        None => None,
    }
}

/// The list payload of a typed transaction encoding, when the marker
/// and the list header are exact.
pub open spec fn spec_payload_of(s: Seq<u8>) -> Option<Seq<u8>> {
    if s.len() >= 2 && s[0] == TX_TYPE_MARKER {
        let b = s[1];
        if 0xc0 <= b <= 0xf7 {
            if s.len() - 2 == b - 0xc0 {
                Some(s.subrange(2, s.len() as int))
            } else {
                None
            }
        } else if b > 0xf7 {
            let ll = b - 0xf7;
            if s.len() >= 2 + ll {
                let lenbytes = s.subrange(2, 2 + ll);
                if lenbytes[0] != 0 && be_val(lenbytes) > 55 && s.len() - 2 - ll == be_val(
                    lenbytes,
                ) {
                    Some(s.subrange(2 + ll, s.len() as int))
                } else {
                    None
                }
            } else {
                None
            }
        } else {
            None
        }
    } else {
        None
    }
}

/// Parse the nine base fields from a list payload.
pub open spec fn spec_parse_base(p: Seq<u8>) -> Option<(TxView, int)> {
    match parse_uint_at(p, 0, 8) {
        None => None,
        Some(cid) => match parse_uint_at(p, cid.1, 8) {
            None => None,
            Some(nonce) => match parse_uint_at(p, nonce.1, 16) {
                None => None,
                Some(mpf) => match parse_uint_at(p, mpf.1, 16) {
                    None => None,
                    Some(mf) => match parse_uint_at(p, mf.1, 16) {
                        None => None,
                        Some(gas) => match parse_str_at(p, gas.1) {
                            None => None,
                            Some(to) => if to.0.len() != 20 {
                                None
                            } else {
                                match parse_uint_at(p, to.1, 16) {
                                    None => None,
                                    Some(value) => match parse_str_at(p, value.1) {
                                        None => None,
                                        Some(data) => if data.0.len() != 0 {
                                            None
                                        } else {
                                            if data.1 < p.len() && p[data.1] == 0xc0 {
                                                Some(
                                                    (
                                                        TxView {
                                                            chain_id: cid.0,
                                                            nonce: nonce.0,
                                                            max_priority_fee_per_gas: mpf.0,
                                                            max_fee_per_gas: mf.0,
                                                            gas_limit: gas.0,
                                                            to: to.0,
                                                            value: value.0,
                                                        },
                                                        data.1 + 1,
                                                    ),
                                                )
                                            } else {
                                                None
                                            }
                                        },
                                    },
                                }
                            },
                        },
                    },
                },
            },
        },
    }
}

/// A byte sequence left-padded with zeros to 32 bytes.
pub open spec fn pad32(b: Seq<u8>) -> Seq<u8> {
    Seq::new((32 - b.len()) as nat, |i: int| 0u8) + b
}

/// Decode a signed transaction encoding back into its field tuple.
/// Only the canonical forms produced by `spec_encode_signed` are
/// accepted.
pub open spec fn spec_decode_signed(s: Seq<u8>) -> Option<(TxView, SigView)> {
    match spec_payload_of(s) {
        None => None,
        Some(p) => match spec_parse_base(p) {
            None => None,
            Some(base) => match parse_uint_at(p, base.1, 1) {
                None => None,
                Some(y) => if y.0 > 1 {
                    None
                } else {
                    match parse_uint_at(p, y.1, 32) {
                        None => None,
                        Some(rv) => match parse_uint_at(p, rv.1, 32) {
                            None => None,
                            Some(sv) => if sv.1 == p.len() {
                                Some(
                                    (
                                        base.0,
                                        SigView {
                                            y_parity: y.0,
                                            r: pad32(be_bytes(rv.0)),
                                            s: pad32(be_bytes(sv.0)),
                                        },
                                    ),
                                )
                            } else {
                                None
                            },
                        },
                    }
                },
            },
        },
    }
}

/// Two big-endian sequences of one length with one value are the same
/// sequence.
pub proof fn lemma_be_val_injective(s1: Seq<u8>, s2: Seq<u8>)
    requires
        s1.len() == s2.len(),
        be_val(s1) == be_val(s2),
    ensures
        s1 == s2,
    decreases s1.len(),
{
    if s1.len() > 0 {
        let a = s1.drop_last();
        let b = s2.drop_last();
        assert(be_val(a) == be_val(b) && s1.last() == s2.last()) by (nonlinear_arith)
            requires
                be_val(a) * 256 + s1.last() == be_val(b) * 256 + s2.last(),
                0 <= s1.last() < 256,
                0 <= s2.last() < 256,
                be_val(a) >= 0,
                be_val(b) >= 0;
        lemma_be_val_injective(a, b);
        assert(forall|j: int| 0 <= j < s1.len() - 1 ==> s1[j] == a[j] && s2[j] == b[j]);
        assert(s1 =~= s2);
    } else {
        assert(s1 =~= s2);
    }
}

/// Padding the minimal bytes of a 32-byte scalar's value gives the
/// scalar back.
pub proof fn lemma_pad32_roundtrip(x: Seq<u8>)
    requires
        x.len() == 32,
    ensures
        pad32(be_bytes(be_val(x))) == x,
{
    let v = be_val(x);
    let t = be_bytes(v);
    lemma_be_val_bound(x);
    lemma_be_bytes_len(v, 32);
    lemma_be_bytes_val(v);
    let padded = pad32(t);
    assert(padded.len() == 32);
    assert(forall|j: int| 0 <= j < 32 - t.len() ==> padded[j] == 0);
    assert(padded.subrange(32 - t.len(), 32) =~= t);
    lemma_be_val_skip_zeros(padded, 32 - t.len());
    assert(be_val(padded) == be_val(t) == v);
    lemma_be_val_injective(padded, x);
}

/// An encoded byte string embedded in a stream parses back to itself.
proof fn lemma_parse_str_encoded(p: Seq<u8>, i: int, c: Seq<u8>)
    requires
        c.len() <= 55,
        0 <= i,
        i + rlp_str(c).len() <= p.len(),
        p.subrange(i, i + rlp_str(c).len() as int) == rlp_str(c),
    ensures
        parse_str_at(p, i) == Some((c, i + rlp_str(c).len() as int)),
{
    let h = rlp_str(c);
    if c.len() == 1 && c[0] < 0x80 {
        assert(p[i] == h[0]);
        assert(seq![p[i]] =~= c);
    } else {
        assert(h[0] == 0x80 + c.len());
        assert(p[i] == h[0]);
        let n = c.len() as int;
        assert(forall|j: int| 0 <= j < n ==> p[i + 1 + j] == h[1 + j] && h[1 + j] == #[trigger] c[j]);
        assert(p.subrange(i + 1, i + 1 + n) =~= c);
        if n == 1 {
            assert(c[0] >= 0x80);
        }
    }
}

/// An encoded integer embedded in a stream parses back to its value.
proof fn lemma_parse_uint_encoded(p: Seq<u8>, i: int, n: nat, k: nat)
    requires
        n < pow256(k),
        k <= 55,
        0 <= i,
        i + rlp_uint(n).len() <= p.len(),
        p.subrange(i, i + rlp_uint(n).len() as int) == rlp_uint(n),
    ensures
        parse_uint_at(p, i, k) == Some((n, i + rlp_uint(n).len() as int)),
{
    lemma_be_bytes_val(n);
    lemma_be_bytes_len(n, k);
    lemma_parse_str_encoded(p, i, be_bytes(n));
}

/// The encoding of an integer below 256^k takes between 1 and k + 1
/// bytes.
proof fn lemma_rlp_uint_len(n: nat, k: nat)
    requires
        n < pow256(k),
        k <= 55,
    ensures
        1 <= rlp_uint(n).len() <= k + 1,
{
    lemma_be_bytes_len(n, k);
}

/// Decoding inverts encoding: the wire bytes of a well-formed signed
/// transaction decode back to exactly the field tuple and signature
/// they were built from.
#[verifier::rlimit(100)]
pub proof fn lemma_signed_round_trip(t: TxView, g: SigView)
    requires
        tx_view_wf(t),
        sig_view_wf(g),
    ensures
        spec_decode_signed(spec_encode_signed(t, g)) == Some((t, g)),
{
    lemma_pow256_machine_widths();
    let f1 = rlp_uint(t.chain_id);
    let f2 = rlp_uint(t.nonce);
    let f3 = rlp_uint(t.max_priority_fee_per_gas);
    let f4 = rlp_uint(t.max_fee_per_gas);
    let f5 = rlp_uint(t.gas_limit);
    let f6 = rlp_str(t.to);
    let f7 = rlp_uint(t.value);
    let f8 = rlp_str(Seq::<u8>::empty());
    let f9 = rlp_list(Seq::<u8>::empty());
    let f10 = rlp_uint(g.y_parity);
    let f11 = rlp_uint(be_val(g.r));
    let f12 = rlp_uint(be_val(g.s));
    let p = spec_base_fields(t) + f10 + f11 + f12;
    let enc = spec_encode_signed(t, g);

    // value-range facts for the integer fields
    assert(t.chain_id < pow256(8) && t.nonce < pow256(8));
    assert(t.max_priority_fee_per_gas < pow256(16));
    assert(t.max_fee_per_gas < pow256(16));
    assert(t.gas_limit < pow256(16) && t.value < pow256(16));
    assert(g.y_parity < pow256(1)) by {
        assert(pow256(1) == 256) by {
            reveal_with_fuel(pow256, 2);
        }
    }
    lemma_be_val_bound(g.r);
    lemma_be_val_bound(g.s);

    // length facts
    lemma_rlp_uint_len(t.chain_id, 8);
    lemma_rlp_uint_len(t.nonce, 8);
    lemma_rlp_uint_len(t.max_priority_fee_per_gas, 16);
    lemma_rlp_uint_len(t.max_fee_per_gas, 16);
    lemma_rlp_uint_len(t.gas_limit, 16);
    lemma_rlp_uint_len(t.value, 16);
    assert(f6.len() == 21);
    assert(f8.len() == 1 && f8[0] == 0x80) by {
        assert(f8 =~= seq![0x80u8]);
    }
    assert(f9.len() == 1 && f9[0] == 0xc0) by {
        assert(f9 =~= seq![0xc0u8]);
    }
    lemma_rlp_uint_len(g.y_parity, 1);
    lemma_rlp_uint_len(be_val(g.r), 32);
    lemma_rlp_uint_len(be_val(g.s), 32);
    assert(p.len() <= 180);

    // the payload is recovered whole
    assert(spec_payload_of(enc) == Some(p)) by {
        if p.len() <= 55 {
            assert(enc[0] == TX_TYPE_MARKER);
            assert(enc[1] == 0xc0 + p.len());
            assert(enc.subrange(2, enc.len() as int) =~= p);
        } else {
            let lb = be_bytes(p.len() as nat);
            lemma_be_bytes_val(p.len() as nat);
            lemma_be_bytes_len(p.len() as nat, 8);
            let ll = lb.len() as int;
            assert(enc[0] == TX_TYPE_MARKER);
            assert(enc[1] == 0xf7 + ll);
            assert(enc.subrange(2, 2 + ll) =~= lb);
            assert(enc.subrange(2 + ll, enc.len() as int) =~= p);
        }
    }

    // field positions inside the payload
    let i1 = f1.len() as int;
    let i2 = i1 + f2.len();
    let i3 = i2 + f3.len();
    let i4 = i3 + f4.len();
    let i5 = i4 + f5.len();
    let i6 = i5 + f6.len();
    let i7 = i6 + f7.len();
    let i8 = i7 + f8.len();
    let i9 = i8 + f9.len();
    let i10 = i9 + f10.len();
    let i11 = i10 + f11.len();
    let i12 = i11 + f12.len();
    assert(p.len() == i12);

    assert(p.subrange(0, i1) =~= f1);
    lemma_parse_uint_encoded(p, 0, t.chain_id, 8);
    assert(p.subrange(i1, i2) =~= f2);
    lemma_parse_uint_encoded(p, i1, t.nonce, 8);
    assert(p.subrange(i2, i3) =~= f3);
    lemma_parse_uint_encoded(p, i2, t.max_priority_fee_per_gas, 16);
    assert(p.subrange(i3, i4) =~= f4);
    lemma_parse_uint_encoded(p, i3, t.max_fee_per_gas, 16);
    assert(p.subrange(i4, i5) =~= f5);
    lemma_parse_uint_encoded(p, i4, t.gas_limit, 16);
    assert(p.subrange(i5, i6) =~= f6);
    lemma_parse_str_encoded(p, i5, t.to);
    assert(p.subrange(i6, i7) =~= f7);
    lemma_parse_uint_encoded(p, i6, t.value, 16);
    assert(p.subrange(i7, i8) =~= f8);
    lemma_parse_str_encoded(p, i7, Seq::<u8>::empty());
    assert(p[i8] == 0xc0);
    assert(p.subrange(i9, i10) =~= f10);
    lemma_parse_uint_encoded(p, i9, g.y_parity, 1);
    assert(p.subrange(i10, i11) =~= f11);
    lemma_parse_uint_encoded(p, i10, be_val(g.r), 32);
    assert(p.subrange(i11, i12) =~= f12);
    lemma_parse_uint_encoded(p, i11, be_val(g.s), 32);

    assert(spec_parse_base(p) == Some(
        (
            TxView {
                chain_id: t.chain_id,
                nonce: t.nonce,
                max_priority_fee_per_gas: t.max_priority_fee_per_gas,
                max_fee_per_gas: t.max_fee_per_gas,
                gas_limit: t.gas_limit,
                to: t.to,
                value: t.value,
            },
            i9,
        ),
    ));
    lemma_pad32_roundtrip(g.r);
    lemma_pad32_roundtrip(g.s);
    assert(spec_decode_signed(enc) == Some(
        (
            TxView {
                chain_id: t.chain_id,
                nonce: t.nonce,
                max_priority_fee_per_gas: t.max_priority_fee_per_gas,
                max_fee_per_gas: t.max_fee_per_gas,
                gas_limit: t.gas_limit,
                to: t.to,
                value: t.value,
            },
            SigView { y_parity: g.y_parity, r: g.r, s: g.s },
        ),
    ));
}

/// Powers of 256 are positive and monotone in the exponent.
proof fn lemma_pow256_mono(a: nat, b: nat)
    requires
        a <= b,
    ensures
        1 <= pow256(a) <= pow256(b),
    decreases b,
{
    if a == b {
        lemma_pow256_pos(a);
    } else {
        lemma_pow256_mono(a, (b - 1) as nat);
        assert(pow256(b) == 256 * pow256((b - 1) as nat));
    }
}

/// Every power of 256 is at least 1.
proof fn lemma_pow256_pos(k: nat)
    ensures
        pow256(k) >= 1,
    decreases k,
{
    if k > 0 {
        lemma_pow256_pos((k - 1) as nat);
    }
}

/// The value a short big-endian byte vector denotes.
fn be_val_exec(v: &Vec<u8>) -> (r: u128)
    requires
        v@.len() <= 16,
    ensures
        r == be_val(v@),
{
    let mut acc: u128 = 0;
    let mut k: usize = 0;
    let n = v.len();
    while k < n
        invariant
            n == v@.len() <= 16,
            0 <= k <= n,
            acc == be_val(v@.subrange(0, k as int)),
        decreases n - k,
    {
        proof {
            assert(v@.subrange(0, k + 1).drop_last() =~= v@.subrange(0, k as int));
            assert(be_val(v@.subrange(0, k + 1)) == acc * 256 + v@[k as int]);
            lemma_be_val_bound(v@.subrange(0, k + 1));
            lemma_pow256_mono((k + 1) as nat, 16);
            lemma_pow256_machine_widths();
        }
        acc = acc * 256 + v[k] as u128;
        k += 1;
    }
    assert(v@.subrange(0, n as int) =~= v@);
    acc
}

/// Parse one canonically encoded byte string.
fn parse_str_exec(s: &Vec<u8>, i: usize) -> (r: Option<(Vec<u8>, usize)>)
    ensures
        match r {
            Some(p) => parse_str_at(s@, i as int) == Some((p.0@, p.1 as int)) && i < p.1
                <= s@.len(),
            None => parse_str_at(s@, i as int) is None,
        },
{
    if i >= s.len() {
        return None;
    }
    let b = s[i];
    if b < 0x80 {
        let mut c: Vec<u8> = Vec::new();
        c.push(b);
        assert(c@ =~= seq![s@[i as int]]);
        Some((c, i + 1))
    } else if b <= 0xb7 {
        let n = (b - 0x80) as usize;
        if n <= s.len() - i - 1 {
            let content = crate::strutil::subvec(s, i + 1, i + 1 + n);
            if n == 1 && content[0] < 0x80 {
                None
            } else {
                Some((content, i + 1 + n))
            }
        } else {
            None
        }
    } else {
        None
    }
}

/// Parse one canonically encoded unsigned integer of at most
/// `max_len` bytes.
fn parse_uint_exec(s: &Vec<u8>, i: usize, max_len: usize) -> (r: Option<(u128, usize)>)
    requires
        max_len <= 16,
    ensures
        match r {
            Some(p) => parse_uint_at(s@, i as int, max_len as nat) == Some(
                (p.0 as nat, p.1 as int),
            ) && i < p.1 <= s@.len() && (p.0 as nat) < pow256(max_len as nat),
            None => parse_uint_at(s@, i as int, max_len as nat) is None,
        },
{
    match parse_str_exec(s, i) {
        None => None,
        Some((content, j)) => {
            if content.len() > max_len {
                return None;
            }
            if content.len() > 0 && content[0] == 0 {
                return None;
            }
            let v = be_val_exec(&content);
            proof {
                lemma_be_val_bound(content@);
                lemma_pow256_mono(content@.len(), max_len as nat);
            }
            Some((v, j))
        },
    }
}

/// A scalar left-padded with zeros to 32 bytes.
fn pad_scalar32(content: &Vec<u8>) -> (r: Vec<u8>)
    requires
        content@.len() <= 32,
    ensures
        r@ == pad32(content@),
        r@.len() == 32,
{
    let mut out: Vec<u8> = Vec::new();
    let zeros = 32 - content.len();
    let mut i: usize = 0;
    while i < zeros
        invariant
            zeros == 32 - content@.len(),
            0 <= i <= zeros,
            out@ == Seq::new(i as nat, |j: int| 0u8),
        decreases zeros - i,
    {
        out.push(0);
        assert(Seq::new(i as nat, |j: int| 0u8) + seq![0u8] =~= Seq::new(
            (i + 1) as nat,
            |j: int| 0u8,
        ));
        i += 1;
    }
    push_all(&mut out, content);
    assert(out@ =~= pad32(content@));
    out
}

/// The list payload of a typed transaction encoding.
fn extract_payload(bytes: &Vec<u8>) -> (r: Option<Vec<u8>>)
    ensures
        match r {
            Some(p) => spec_payload_of(bytes@) == Some(p@),
            None => spec_payload_of(bytes@) is None,
        },
{
    if bytes.len() < 2 {
        return None;
    }
    if bytes[0] != TX_TYPE_MARKER {
        return None;
    }
    let b = bytes[1];
    if 0xc0 <= b && b <= 0xf7 {
        let n = (b - 0xc0) as usize;
        if bytes.len() - 2 == n {
            Some(crate::strutil::subvec(bytes, 2, bytes.len()))
        } else {
            None
        }
    } else if b > 0xf7 {
        let ll = (b - 0xf7) as usize;
        if bytes.len() >= 2 + ll {
            let lenbytes = crate::strutil::subvec(bytes, 2, 2 + ll);
            if lenbytes[0] == 0 {
                return None;
            }
            let n = be_val_exec(&lenbytes);
            if n > 55 && (bytes.len() - 2 - ll) as u128 == n {
                Some(crate::strutil::subvec(bytes, 2 + ll, bytes.len()))
            } else {
                None
            }
        } else {
            None
        }
    } else {
        None
    }
}

/// Decode the wire bytes of a signed transaction back into its field
/// tuple and signature.  Only the canonical encodings produced by
/// `encode_signed` are accepted.
pub fn decode_signed(bytes: &Vec<u8>) -> (r: Option<(UnsignedTransaction, SignatureParts)>)
    ensures
        match r {
            Some(pair) => spec_decode_signed(bytes@) == Some((pair.0@, pair.1@)) && pair.0.wf()
                && pair.1.wf(),
            None => spec_decode_signed(bytes@) is None,
        },
{
    proof {
        lemma_pow256_machine_widths();
    }
    let p = match extract_payload(bytes) {
        Some(p) => p,
        None => {
            return None;
        },
    };
    let (chain_id, i1) = match parse_uint_exec(&p, 0, 8) {
        Some(x) => x,
        None => {
            return None;
        },
    };
    let (nonce, i2) = match parse_uint_exec(&p, i1, 8) {
        Some(x) => x,
        None => {
            return None;
        },
    };
    let (mpf, i3) = match parse_uint_exec(&p, i2, 16) {
        Some(x) => x,
        None => {
            return None;
        },
    };
    let (mf, i4) = match parse_uint_exec(&p, i3, 16) {
        Some(x) => x,
        None => {
            return None;
        },
    };
    let (gas, i5) = match parse_uint_exec(&p, i4, 16) {
        Some(x) => x,
        None => {
            return None;
        },
    };
    let (to, i6) = match parse_str_exec(&p, i5) {
        Some(x) => x,
        None => {
            return None;
        },
    };
    if to.len() != 20 {
        return None;
    }
    let (value, i7) = match parse_uint_exec(&p, i6, 16) {
        Some(x) => x,
        None => {
            return None;
        },
    };
    let (data, i8) = match parse_str_exec(&p, i7) {
        Some(x) => x,
        None => {
            return None;
        },
    };
    if data.len() != 0 {
        return None;
    }
    if !(i8 < p.len() && p[i8] == 0xc0) {
        return None;
    }
    let i9 = i8 + 1;
    let (y, i10) = match parse_uint_exec(&p, i9, 1) {
        Some(x) => x,
        None => {
            return None;
        },
    };
    if y > 1 {
        return None;
    }
    let (rb, i11) = match parse_str_exec(&p, i10) {
        Some(x) => x,
        None => {
            return None;
        },
    };
    if rb.len() > 32 {
        return None;
    }
    if rb.len() > 0 && rb[0] == 0 {
        return None;
    }
    let (sb, i12) = match parse_str_exec(&p, i11) {
        Some(x) => x,
        None => {
            return None;
        },
    };
    if sb.len() > 32 {
        return None;
    }
    if sb.len() > 0 && sb[0] == 0 {
        return None;
    }
    if i12 != p.len() {
        return None;
    }
    proof {
        lemma_be_val_bytes(rb@);
        lemma_be_val_bytes(sb@);
    }
    let r32 = pad_scalar32(&rb);
    let s32 = pad_scalar32(&sb);
    let tx = UnsignedTransaction {
        chain_id: chain_id as u64,
        nonce: nonce as u64,
        max_priority_fee_per_gas: mpf,
        max_fee_per_gas: mf,
        gas_limit: gas,
        to,
        value,
    };
    let sig = SignatureParts { y_parity: y as u8, r: r32, s: s32 };
    Some((tx, sig))
}

} // verus!
