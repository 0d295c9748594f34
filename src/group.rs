//! Scalars of the field of order `group_order()` and elements of the Ristretto
//! group, each held as its canonical 32-byte encoding.
use curve25519_dalek::constants::RISTRETTO_BASEPOINT_COMPRESSED;
use curve25519_dalek::ristretto::{CompressedRistretto, RistrettoPoint};
use vstd::arithmetic::power2::pow2;
use vstd::prelude::*;

verus! {

/// The prime order of the group, `2^252 + 27742317777372353535851937790883648493`.
pub open spec fn group_order() -> nat {
    pow2(252) + 27742317777372353535851937790883648493nat
}

/// The integer that a byte string encodes in little-endian order.
pub open spec fn le_value(bytes: Seq<u8>) -> nat
    decreases bytes.len(),
{
    if bytes.len() == 0 {
        0
    } else {
        bytes[0] as nat + 256 * le_value(bytes.drop_first())
    }
}

/// `256^i`.
pub open spec fn pow256(i: nat) -> nat
    decreases i,
{
    if i == 0 {
        1
    } else {
        256 * pow256((i - 1) as nat)
    }
}

/// The canonical 32-byte little-endian encoding of a field element.
pub open spec fn scalar_bytes(v: nat) -> Seq<u8> {
    Seq::new(32, |i: int| ((v / pow256(i as nat)) % 256) as u8)
}

/// `256^i` is positive.
pub proof fn lemma_pow256_positive(i: nat)
    ensures
        pow256(i) > 0,
    decreases i,
{
    if i > 0 {
        lemma_pow256_positive((i - 1) as nat);
    }
}

/// Dividing by `256^i` and then by 256 is dividing by `256^(i+1)`.
pub proof fn lemma_div_pow256_step(n: nat, i: nat)
    ensures
        n / pow256(i) / 256 == n / pow256(i + 1),
{
    lemma_pow256_positive(i);
    assert(pow256(i + 1) == 256 * pow256(i));
    vstd::arithmetic::div_mod::lemma_div_denominator(n as int, pow256(i) as int, 256);
    assert(pow256(i) * 256 == 256 * pow256(i)) by (nonlinear_arith);
}

/// Each byte of a little-endian string is a base-256 digit of its value.
proof fn lemma_le_digits(b: Seq<u8>)
    ensures
        forall|i: int|
            0 <= i < b.len() ==> #[trigger] b[i] == ((le_value(b) / pow256(i as nat)) % 256) as u8,
    decreases b.len(),
{
    if b.len() > 0 {
        let rest = b.drop_first();
        lemma_le_digits(rest);
        let v = le_value(b);
        vstd::arithmetic::div_mod::lemma_fundamental_div_mod_converse(
            v as int,
            256,
            le_value(rest) as int,
            b[0] as int,
        );
        assert forall|i: int| 0 <= i < b.len() implies #[trigger] b[i] == ((v / pow256(
            i as nat,
        )) % 256) as u8 by {
            if i > 0 {
                assert(b[i] == rest[i - 1]);
                lemma_pow256_positive((i - 1) as nat);
                vstd::arithmetic::div_mod::lemma_div_denominator(
                    v as int,
                    256,
                    pow256((i - 1) as nat) as int,
                );
                assert(pow256(i as nat) == 256 * pow256((i - 1) as nat));
                assert(le_value(rest) == v / 256);
                assert(v / pow256(i as nat) == le_value(rest) / pow256((i - 1) as nat));
                assert(rest[i - 1] == ((le_value(rest) / pow256((i - 1) as nat)) % 256) as u8);
            } else {
                assert(pow256(0) == 1);
                assert(v / pow256(0) == v);
                assert(b[0] as int == v as int % 256);
            }
            assert(b[i] == ((v / pow256(i as nat)) % 256) as u8);
        }
    }
}

/// `256^k` is `2^(8k)`.
proof fn lemma_pow256_pow2(k: nat)
    ensures
        pow256(k) == pow2(8 * k),
    decreases k,
{
    vstd::arithmetic::power2::lemma2_to64();
    if k > 0 {
        lemma_pow256_pow2((k - 1) as nat);
        vstd::arithmetic::power2::lemma_pow2_adds(8 * (k - 1) as nat, 8);
        assert(8 * k == 8 * (k - 1) + 8);
    }
}

/// The group order is below `2^256`.
proof fn lemma_order_below_256_bits()
    ensures
        group_order() < pow256(32),
{
    lemma_pow256_pow2(32);
    vstd::arithmetic::power2::lemma2_to64();
    vstd::arithmetic::power2::lemma_pow2_adds(64, 64);
    vstd::arithmetic::power2::lemma_pow2_strictly_increases(128, 252);
    vstd::arithmetic::power2::lemma_pow2_adds(252, 4);
    assert(pow2(128) == 0x10000000000000000 * 0x10000000000000000nat);
    assert(27742317777372353535851937790883648493nat < 0x10000000000000000 * 0x10000000000000000nat);
}

/// The first `k` base-256 digits of `v` read back to `v` modulo `256^k`.
proof fn lemma_digits_value(v: nat, k: nat)
    ensures
        le_value(Seq::new(k, |i: int| ((v / pow256(i as nat)) % 256) as u8)) == v % pow256(k),
    decreases k,
{
    let s = Seq::new(k, |i: int| ((v / pow256(i as nat)) % 256) as u8);
    if k == 0 {
        assert(pow256(0) == 1);
    } else {
        let w = v / 256;
        lemma_digits_value(w, (k - 1) as nat);
        let t = Seq::new((k - 1) as nat, |i: int| ((w / pow256(i as nat)) % 256) as u8);
        assert forall|i: int| 0 <= i < k - 1 implies #[trigger] s.drop_first()[i] == t[i] by {
            lemma_pow256_positive(i as nat);
            vstd::arithmetic::div_mod::lemma_div_denominator(v as int, 256, pow256(i as nat) as int);
            assert(pow256((i + 1) as nat) == 256 * pow256(i as nat));
        }
        assert(s.drop_first() =~= t);
        assert(pow256(0) == 1);
        assert(v / pow256(0) == v);
        assert(s[0] == ((v / pow256(0)) % 256) as u8);
        assert(s[0] as nat == v % 256);
        lemma_pow256_positive((k - 1) as nat);
        vstd::arithmetic::div_mod::lemma_mod_breakdown(v as int, 256, pow256((k - 1) as nat) as int);
        assert(pow256(k) == 256 * pow256((k - 1) as nat));
    }
}

/// The canonical encoding of a field element is 32 bytes that read back to it.
pub proof fn lemma_scalar_bytes_value(v: nat)
    requires
        v < group_order(),
    ensures
        le_value(scalar_bytes(v)) == v,
        scalar_bytes(v).len() == 32,
{
    lemma_digits_value(v, 32);
    lemma_order_below_256_bits();
    vstd::arithmetic::div_mod::lemma_small_mod(v, pow256(32));
}

/// A 32-byte string is the canonical encoding of its value.
pub proof fn lemma_encoding_of_value(b: Seq<u8>)
    requires
        b.len() == 32,
    ensures
        b == scalar_bytes(le_value(b)),
{
    lemma_le_digits(b);
    assert(b =~= scalar_bytes(le_value(b)));
}

/// The field element that a byte string stands for: its little-endian value
/// reduced modulo the group order.
pub open spec fn scalar_of(bytes: Seq<u8>) -> nat {
    le_value(bytes) % group_order()
}

/// Field addition.
pub open spec fn field_add(a: nat, b: nat) -> nat {
    (a + b) % group_order()
}

/// Field subtraction.
pub open spec fn field_sub(a: nat, b: nat) -> nat {
    ((a - b) % (group_order() as int)) as nat
}

/// Field multiplication.
pub open spec fn field_mul(a: nat, b: nat) -> nat {
    (a * b) % group_order()
}

/// Field negation.
pub open spec fn field_neg(a: nat) -> nat {
    ((0 - a) % (group_order() as int)) as nat
}

/// Whether 32 bytes are the canonical encoding of a group element.
pub uninterp spec fn ristretto_decodes(encoding: Seq<u8>) -> bool;

/// The encoding of the sum of two group elements.
pub uninterp spec fn ristretto_sum(a: Seq<u8>, b: Seq<u8>) -> Seq<u8>;

/// The encoding of the difference of two group elements.
pub uninterp spec fn ristretto_difference(a: Seq<u8>, b: Seq<u8>) -> Seq<u8>;

/// The encoding of the inverse of a group element.
pub uninterp spec fn ristretto_negation(a: Seq<u8>) -> Seq<u8>;

/// The encoding of the multiple `s * P` of a group element.
pub uninterp spec fn ristretto_multiple(s: nat, p: Seq<u8>) -> Seq<u8>;

/// The encoding of the element that 64 uniform bytes map to.
pub uninterp spec fn ristretto_from_uniform(bytes: Seq<u8>) -> Seq<u8>;

/// Relies on `Scalar::from_bytes_mod_order`, `+` and `Scalar::to_bytes`:
/// the canonical encoding of the field sum.
#[verifier::external_body]
fn encoded_scalar_sum(a: &[u8; 32], b: &[u8; 32]) -> (r: [u8; 32])
    ensures
        le_value(r@) == field_add(scalar_of(a@), scalar_of(b@)),
{
    let x = curve25519_dalek::Scalar::from_bytes_mod_order(*a);
    let y = curve25519_dalek::Scalar::from_bytes_mod_order(*b);
    (x + y).to_bytes()
}

/// Relies on `Scalar::from_bytes_mod_order`, `-` and `Scalar::to_bytes`:
/// the canonical encoding of the field difference.
#[verifier::external_body]
fn encoded_scalar_difference(a: &[u8; 32], b: &[u8; 32]) -> (r: [u8; 32])
    ensures
        le_value(r@) == field_sub(scalar_of(a@), scalar_of(b@)),
{
    let x = curve25519_dalek::Scalar::from_bytes_mod_order(*a);
    let y = curve25519_dalek::Scalar::from_bytes_mod_order(*b);
    (x - y).to_bytes()
}

/// Relies on `Scalar::from_bytes_mod_order`, `*` and `Scalar::to_bytes`:
/// the canonical encoding of the field product.
#[verifier::external_body]
fn encoded_scalar_product(a: &[u8; 32], b: &[u8; 32]) -> (r: [u8; 32])
    ensures
        le_value(r@) == field_mul(scalar_of(a@), scalar_of(b@)),
{
    let x = curve25519_dalek::Scalar::from_bytes_mod_order(*a);
    let y = curve25519_dalek::Scalar::from_bytes_mod_order(*b);
    (x * y).to_bytes()
}

/// Relies on `Scalar::from_bytes_mod_order`, unary `-` and `Scalar::to_bytes`:
/// the canonical encoding of the field negation.
#[verifier::external_body]
fn encoded_scalar_negation(a: &[u8; 32]) -> (r: [u8; 32])
    ensures
        le_value(r@) == field_neg(scalar_of(a@)),
{
    let x = curve25519_dalek::Scalar::from_bytes_mod_order(*a);
    (-x).to_bytes()
}

/// Relies on `Scalar::from(u64)` and `Scalar::to_bytes`: the encoding of a
/// small integer.
#[verifier::external_body]
fn encoded_scalar_from_u64(n: u64) -> (r: [u8; 32])
    ensures
        le_value(r@) == n as nat,
{
    curve25519_dalek::Scalar::from(n).to_bytes()
}

/// Relies on `Scalar::from_bytes_mod_order_wide` and `Scalar::to_bytes`:
/// 64 little-endian bytes reduced modulo the group order.
#[verifier::external_body]
fn encoded_scalar_wide(b: &[u8; 64]) -> (r: [u8; 32])
    ensures
        le_value(r@) == le_value(b@) % group_order(),
{
    curve25519_dalek::Scalar::from_bytes_mod_order_wide(b).to_bytes()
}

/// Relies on `Scalar::from_canonical_bytes`: it accepts exactly the encodings
/// of integers below the group order.
#[verifier::external_body]
fn scalar_bytes_canonical(b: &[u8; 32]) -> (r: bool)
    ensures
        r == (le_value(b@) < group_order()),
{
    Option::<curve25519_dalek::Scalar>::from(curve25519_dalek::Scalar::from_canonical_bytes(*b)).is_some()
}

/// Relies on `Scalar::random` with the operating system's generator: some
/// field element, canonically encoded.
#[verifier::external_body]
fn encoded_random_scalar() -> (r: [u8; 32])
    ensures
        le_value(r@) < group_order(),
{
    curve25519_dalek::Scalar::random(&mut rand::rngs::OsRng).to_bytes()
}

/// Relies on `CompressedRistretto::decompress`: whether the bytes decode.
#[verifier::external_body]
fn point_bytes_decode(b: &[u8; 32]) -> (r: bool)
    ensures
        r == ristretto_decodes(b@),
{
    CompressedRistretto(*b).decompress().is_some()
}

/// Relies on `RistrettoPoint`'s `+`: the encoding of the sum.
#[verifier::external_body]
fn encoded_point_sum(a: &[u8; 32], b: &[u8; 32]) -> (r: [u8; 32])
    requires
        ristretto_decodes(a@),
        ristretto_decodes(b@),
    ensures
        r@ == ristretto_sum(a@, b@),
        ristretto_decodes(r@),
{
    let x: RistrettoPoint = CompressedRistretto(*a).decompress().unwrap();
    let y: RistrettoPoint = CompressedRistretto(*b).decompress().unwrap();
    (x + y).compress().to_bytes()
}

/// Relies on `RistrettoPoint`'s `-`: the encoding of the difference.
#[verifier::external_body]
fn encoded_point_difference(a: &[u8; 32], b: &[u8; 32]) -> (r: [u8; 32])
    requires
        ristretto_decodes(a@),
        ristretto_decodes(b@),
    ensures
        r@ == ristretto_difference(a@, b@),
        ristretto_decodes(r@),
{
    let x: RistrettoPoint = CompressedRistretto(*a).decompress().unwrap();
    let y: RistrettoPoint = CompressedRistretto(*b).decompress().unwrap();
    (x - y).compress().to_bytes()
}

/// Relies on `RistrettoPoint`'s unary `-`: the encoding of the inverse.
#[verifier::external_body]
fn encoded_point_negation(a: &[u8; 32]) -> (r: [u8; 32])
    requires
        ristretto_decodes(a@),
    ensures
        r@ == ristretto_negation(a@),
        ristretto_decodes(r@),
{
    let x: RistrettoPoint = CompressedRistretto(*a).decompress().unwrap();
    (-x).compress().to_bytes()
}

/// Relies on `Scalar * RistrettoPoint`: the encoding of the multiple, which
/// depends on the scalar's value modulo the group order alone.
#[verifier::external_body]
fn encoded_point_multiple(s: &[u8; 32], p: &[u8; 32]) -> (r: [u8; 32])
    requires
        ristretto_decodes(p@),
    ensures
        r@ == ristretto_multiple(scalar_of(s@), p@),
        ristretto_decodes(r@),
{
    let k = curve25519_dalek::Scalar::from_bytes_mod_order(*s);
    let x: RistrettoPoint = CompressedRistretto(*p).decompress().unwrap();
    (k * x).compress().to_bytes()
}

/// Relies on `RistrettoPoint::from_uniform_bytes`: the encoding of the element
/// that 64 bytes map to.
#[verifier::external_body]
fn encoded_point_from_uniform(b: &[u8; 64]) -> (r: [u8; 32])
    ensures
        r@ == ristretto_from_uniform(b@),
        ristretto_decodes(r@),
{
    RistrettoPoint::from_uniform_bytes(b).compress().to_bytes()
}

/// The compressed encoding of the Ristretto base point.
pub open spec fn basepoint_encoding() -> Seq<u8> {
    seq![
        0xe2u8, 0xf2, 0xae, 0x0a, 0x6a, 0xbc, 0x4e, 0x71, 0xa8, 0x84, 0xa9, 0x61, 0xc5, 0x00, 0x51,
        0x5f, 0x58, 0xe3, 0x0b, 0x6a, 0xa5, 0x82, 0xdd, 0x8d, 0xb6, 0xa6, 0x59, 0x45, 0xe0, 0x8d,
        0x2d, 0x76,
    ]
}

/// Relies on `RISTRETTO_BASEPOINT_COMPRESSED`: the encoding of the base point,
/// as written in curve25519-dalek's constants.
#[verifier::external_body]
fn encoded_basepoint() -> (r: [u8; 32])
    ensures
        r@ == basepoint_encoding(),
        ristretto_decodes(r@),
{
    RISTRETTO_BASEPOINT_COMPRESSED.to_bytes()
}

/// Whether two 32-byte arrays are equal.
fn bytes_equal(a: &[u8; 32], b: &[u8; 32]) -> (r: bool)
    ensures
        r == (a@ == b@),
{
    let mut i: usize = 0;
    while i < 32
        invariant
            0 <= i <= 32,
            a@.len() == 32,
            b@.len() == 32,
            forall|j: int| 0 <= j < i ==> a@[j] == b@[j],
        decreases 32 - i,
    {
        if a[i] != b[i] {
            return false;
        }
        i = i + 1;
    }
    assert(a@ =~= b@);
    true
}

/// An element of the scalar field, held as its canonical little-endian
/// encoding. Its view is the integer it stands for, below `group_order()`.
#[derive(Clone, Copy, Debug)]
pub struct Scalar {
    bytes: [u8; 32],
}

impl View for Scalar {
    type V = nat;

    closed spec fn view(&self) -> nat {
        scalar_of(self.bytes@)
    }
}

impl Scalar {
    #[verifier::type_invariant]
    closed spec fn canonical(self) -> bool {
        le_value(self.bytes@) < group_order()
    }

    /// The 32 bytes that this scalar is written as.
    pub closed spec fn encoding(self) -> Seq<u8> {
        self.bytes@
    }

    /// The scalar that a small integer stands for.
    pub fn from_u64(n: u64) -> (r: Scalar)
        ensures
            r@ == n as nat,
            r.encoding().len() == 32,
            le_value(r.encoding()) == n as nat,
    {
        let bytes = encoded_scalar_from_u64(n);
        let r = Scalar { bytes };
        proof {
            lemma_small_below_order(n as nat);
            lemma_reduced_encoding(bytes@);
        }
        r
    }

    /// The scalar that 64 uniform bytes reduce to (used for challenges).
    pub fn from_bytes_mod_order_wide(b: &[u8; 64]) -> (r: Scalar)
        ensures
            r@ == le_value(b@) % group_order(),
            le_value(r.encoding()) == r@,
    {
        let bytes = encoded_scalar_wide(b);
        proof {
            lemma_order_positive();
            vstd::arithmetic::div_mod::lemma_mod_bound(le_value(b@) as int, group_order() as int);
            lemma_reduced_encoding(bytes@);
        }
        Scalar { bytes }
    }

    /// The scalar whose canonical encoding is `b`, if `b` is canonical.
    pub fn from_canonical_bytes(b: &[u8; 32]) -> (r: Option<Scalar>)
        ensures
            r.is_some() == (le_value(b@) < group_order()),
            r.is_some() ==> r.unwrap().encoding() == b@ && r.unwrap()@ == le_value(b@),
    {
        if scalar_bytes_canonical(b) {
            proof {
                lemma_reduced_encoding(b@);
            }
            Some(Scalar { bytes: *b })
        } else {
            None
        }
    }

    /// A scalar drawn by the operating system's random generator.
    pub fn random() -> (r: Scalar)
        ensures
            le_value(r.encoding()) == r@,
    {
        let bytes = encoded_random_scalar();
        proof {
            lemma_reduced_encoding(bytes@);
        }
        Scalar { bytes }
    }

    /// The canonical 32-byte encoding.
    pub fn to_bytes(&self) -> (r: [u8; 32])
        ensures
            r@ == self.encoding(),
            r@ == scalar_bytes(self@),
    {
        proof {
            use_type_invariant(self);
            lemma_reduced_encoding(self.bytes@);
            lemma_encoding_of_value(self.bytes@);
        }
        self.bytes
    }

    /// Field addition.
    pub fn add(&self, other: &Scalar) -> (r: Scalar)
        ensures
            r@ == field_add(self@, other@),
            le_value(r.encoding()) == r@,
    {
        let bytes = encoded_scalar_sum(&self.bytes, &other.bytes);
        proof {
            lemma_field_ops_reduced(self@, other@);
            lemma_reduced_encoding(bytes@);
        }
        Scalar { bytes }
    }

    /// Field subtraction.
    pub fn sub(&self, other: &Scalar) -> (r: Scalar)
        ensures
            r@ == field_sub(self@, other@),
            le_value(r.encoding()) == r@,
    {
        let bytes = encoded_scalar_difference(&self.bytes, &other.bytes);
        proof {
            lemma_field_ops_reduced(self@, other@);
            lemma_reduced_encoding(bytes@);
        }
        Scalar { bytes }
    }

    /// Field multiplication.
    pub fn mul(&self, other: &Scalar) -> (r: Scalar)
        ensures
            r@ == field_mul(self@, other@),
            le_value(r.encoding()) == r@,
    {
        let bytes = encoded_scalar_product(&self.bytes, &other.bytes);
        proof {
            lemma_field_ops_reduced(self@, other@);
            lemma_reduced_encoding(bytes@);
        }
        Scalar { bytes }
    }

    /// Field negation.
    pub fn neg(&self) -> (r: Scalar)
        ensures
            r@ == field_neg(self@),
            le_value(r.encoding()) == r@,
    {
        let bytes = encoded_scalar_negation(&self.bytes);
        proof {
            lemma_field_ops_reduced(self@, 0);
            lemma_reduced_encoding(bytes@);
        }
        Scalar { bytes }
    }

    /// Whether two scalars are the same field element.
    pub fn equals(&self, other: &Scalar) -> (r: bool)
        ensures
            r == (self@ == other@),
    {
        proof {
            use_type_invariant(self);
            use_type_invariant(other);
            lemma_reduced_encoding(self.bytes@);
            lemma_reduced_encoding(other.bytes@);
            lemma_encoding_of_value(self.bytes@);
            lemma_encoding_of_value(other.bytes@);
        }
        bytes_equal(&self.bytes, &other.bytes)
    }
}

/// The group order is positive.
proof fn lemma_order_positive()
    ensures
        group_order() > 0,
{
    vstd::arithmetic::power2::lemma_pow2_pos(252);
}

/// A reduced encoding stands for its own little-endian value.
proof fn lemma_reduced_encoding(bytes: Seq<u8>)
    requires
        le_value(bytes) < group_order(),
    ensures
        scalar_of(bytes) == le_value(bytes),
{
    lemma_order_positive();
    vstd::arithmetic::div_mod::lemma_small_mod(le_value(bytes), group_order());
}

/// The field operations yield reduced values.
pub proof fn lemma_field_ops_reduced(a: nat, b: nat)
    ensures
        field_add(a, b) < group_order(),
        field_sub(a, b) < group_order(),
        field_mul(a, b) < group_order(),
        field_neg(a) < group_order(),
{
    lemma_order_positive();
    let m = group_order() as int;
    vstd::arithmetic::div_mod::lemma_mod_bound((a + b) as int, m);
    vstd::arithmetic::div_mod::lemma_mod_bound(a - b, m);
    vstd::arithmetic::div_mod::lemma_mod_bound((a * b) as int, m);
    vstd::arithmetic::div_mod::lemma_mod_bound(0 - a, m);
}

/// The scalar whose 32-byte encoding is `b`.
pub closed spec fn scalar_from_encoding(b: Seq<u8>) -> Scalar {
    Scalar { bytes: choose|a: [u8; 32]| #[trigger] a@ == b }
}

/// A scalar is the one its encoding names.
pub proof fn lemma_scalar_from_encoding(s: Scalar)
    ensures
        scalar_from_encoding(s.encoding()) == s,
{
    let a = choose|a: [u8; 32]| #[trigger] a@ == s.bytes@;
    assert(s.bytes@ == s.bytes@);
    broadcast use vstd::array::axiom_array_ext_equal;
    assert(a =~= s.bytes);
}

/// A point's encoding is 32 bytes long.
pub proof fn lemma_point_len(p: Point)
    ensures
        p@.len() == 32,
{
}

/// The point whose encoding is `b`.
pub closed spec fn point_from_encoding(b: Seq<u8>) -> Point {
    Point { bytes: choose|a: [u8; 32]| #[trigger] a@ == b }
}

/// A point is the one its encoding names.
pub proof fn lemma_point_from_encoding(p: Point)
    ensures
        point_from_encoding(p@) == p,
{
    let a = choose|a: [u8; 32]| #[trigger] a@ == p.bytes@;
    assert(p.bytes@ == p.bytes@);
    broadcast use vstd::array::axiom_array_ext_equal;
    assert(a =~= p.bytes);
}

/// An integer up to 2^64 + 1 is below the group order.
pub proof fn lemma_small_below_order(n: nat)
    requires
        n <= 0x10000000000000001,
    ensures
        n < group_order(),
        n % group_order() == n,
{
    vstd::arithmetic::power2::lemma2_to64();
    vstd::arithmetic::power2::lemma_pow2_strictly_increases(64, 252);
    vstd::arithmetic::div_mod::lemma_small_mod(n, group_order());
}

/// An element of the Ristretto group, held as its canonical compressed
/// encoding. Its view is that encoding.
#[derive(Clone, Copy, Debug)]
pub struct Point {
    bytes: [u8; 32],
}

impl View for Point {
    type V = Seq<u8>;

    closed spec fn view(&self) -> Seq<u8> {
        self.bytes@
    }
}

impl Point {
    #[verifier::type_invariant]
    closed spec fn decodes(self) -> bool {
        ristretto_decodes(self.bytes@)
    }

    /// The point whose encoding is `b`, if `b` encodes a group element.
    pub fn from_bytes(b: &[u8; 32]) -> (r: Option<Point>)
        ensures
            r.is_some() == ristretto_decodes(b@),
            r.is_some() ==> r.unwrap()@ == b@,
    {
        if point_bytes_decode(b) {
            Some(Point { bytes: *b })
        } else {
            None
        }
    }

    /// The canonical compressed encoding.
    pub fn to_bytes(&self) -> (r: [u8; 32])
        ensures
            r@ == self@,
            ristretto_decodes(r@),
    {
        proof {
            use_type_invariant(self);
        }
        self.bytes
    }

    /// The base point of the group.
    pub fn basepoint() -> (r: Point)
        ensures
            r == point_from_encoding(basepoint_encoding()),
            r@ == basepoint_encoding(),
    {
        let bytes = encoded_basepoint();
        let r = Point { bytes };
        proof {
            lemma_point_from_encoding(r);
        }
        r
    }

    /// The element that 64 uniform bytes map to.
    pub fn from_uniform_bytes(b: &[u8; 64]) -> (r: Point)
        ensures
            r@ == ristretto_from_uniform(b@),
            r == point_from_encoding(ristretto_from_uniform(b@)),
    {
        let bytes = encoded_point_from_uniform(b);
        let r = Point { bytes };
        proof {
            lemma_point_from_encoding(r);
        }
        r
    }

    /// Group addition.
    pub fn add(&self, other: &Point) -> (r: Point)
        ensures
            r@ == ristretto_sum(self@, other@),
    {
        proof {
            use_type_invariant(self);
            use_type_invariant(other);
        }
        let bytes = encoded_point_sum(&self.bytes, &other.bytes);
        Point { bytes }
    }

    /// Group subtraction.
    pub fn sub(&self, other: &Point) -> (r: Point)
        ensures
            r@ == ristretto_difference(self@, other@),
    {
        proof {
            use_type_invariant(self);
            use_type_invariant(other);
        }
        let bytes = encoded_point_difference(&self.bytes, &other.bytes);
        Point { bytes }
    }

    /// Group inverse.
    pub fn neg(&self) -> (r: Point)
        ensures
            r@ == ristretto_negation(self@),
    {
        proof {
            use_type_invariant(self);
        }
        let bytes = encoded_point_negation(&self.bytes);
        Point { bytes }
    }

    /// The multiple `s * self`.
    pub fn scale(&self, s: &Scalar) -> (r: Point)
        ensures
            r@ == ristretto_multiple(s@, self@),
    {
        proof {
            use_type_invariant(self);
        }
        let bytes = encoded_point_multiple(&s.bytes, &self.bytes);
        Point { bytes }
    }

    /// Whether two points are the same group element (encodings are canonical).
    pub fn equals(&self, other: &Point) -> (r: bool)
        ensures
            r == (self@ == other@),
    {
        bytes_equal(&self.bytes, &other.bytes)
    }
}

} // verus!
