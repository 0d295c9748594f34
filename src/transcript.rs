//! The Fiat-Shamir transcript: a log of every labelled message both roles
//! absorb, a wire buffer the prover writes and the verifier reads, and
//! challenges hashed from the log.
use crate::group::{
    group_order, lemma_div_pow256_step, lemma_encoding_of_value, le_value, pow256, ristretto_decodes, scalar_bytes, Point,
    Scalar,
};
use vstd::prelude::*;

verus! {

/// The 32 bytes that spongefish's session-identifier derivation (TurboSHAKE128)
/// hashes a tag to.
pub uninterp spec fn session_digest(tag: Seq<u8>) -> Seq<u8>;

/// Relies on `spongefish::derive_session_id` with the default TurboSHAKE128
/// sponge: a 32-byte hash of the tag.
#[verifier::external_body]
fn derive_digest(tag: &[u8]) -> (r: [u8; 32])
    ensures
        r@ == session_digest(tag@),
{
    *spongefish::derive_session_id::<spongefish::DefaultHash>(tag).as_bytes()
}

/// The eight little-endian bytes of a length.
pub open spec fn length_bytes(n: nat) -> Seq<u8> {
    Seq::new(8, |i: int| ((n / pow256(i as nat)) % 256) as u8)
}

/// One labelled message as it enters the log: the label's length, the label,
/// then the message.
pub open spec fn frame(label: Seq<u8>, data: Seq<u8>) -> Seq<u8> {
    length_bytes(label.len()) + label + data
}

/// Blocks written one after another.
pub open spec fn concat_blocks(blocks: Seq<Seq<u8>>) -> Seq<u8>
    decreases blocks.len(),
{
    if blocks.len() == 0 {
        Seq::empty()
    } else {
        concat_blocks(blocks.drop_last()) + blocks.last()
    }
}

/// Each block framed under one label, one after another.
pub open spec fn frames(label: Seq<u8>, blocks: Seq<Seq<u8>>) -> Seq<u8> {
    concat_blocks(blocks.map_values(|b: Seq<u8>| frame(label, b)))
}

/// The 32-byte block at position `k` of `bytes` from `start` on.
pub open spec fn block_at(bytes: Seq<u8>, start: int, k: int) -> Seq<u8> {
    bytes.subrange(start + 32 * k, start + 32 * k + 32)
}

/// The challenge drawn from a log: two digests of it, told apart by a final
/// byte, read as a 64-byte integer and reduced modulo the group order.
pub open spec fn challenge_value(log: Seq<u8>) -> nat {
    le_value(session_digest(log.push(0u8)) + session_digest(log.push(1u8))) % group_order()
}

/// The encodings of a sequence of field elements.
pub open spec fn scalar_encodings(s: Seq<nat>) -> Seq<Seq<u8>> {
    s.map_values(|x: nat| scalar_bytes(x))
}

/// The field elements of a sequence of scalars.
pub open spec fn scalar_values(s: Seq<Scalar>) -> Seq<nat> {
    s.map_values(|x: Scalar| x@)
}

/// The encodings of a sequence of points.
pub open spec fn point_encodings(p: Seq<Point>) -> Seq<Seq<u8>> {
    p.map_values(|x: Point| x@)
}

/// Whether the 32-byte blocks of `bytes` from `start` on, `n` of them, all
/// encode points.
pub open spec fn blocks_decode(bytes: Seq<u8>, start: int, n: int) -> bool {
    forall|k: int| 0 <= k < n ==> ristretto_decodes(#[trigger] block_at(bytes, start, k))
}

/// Whether the 32-byte blocks of `bytes` from `start` on, `n` of them, are all
/// canonical scalar encodings.
pub open spec fn blocks_canonical(bytes: Seq<u8>, start: int, n: int) -> bool {
    forall|k: int| 0 <= k < n ==> le_value(#[trigger] block_at(bytes, start, k)) < group_order()
}

/// Two roles share one transcript shape: the prover appends to `buffer`, the
/// verifier reads `buffer` from `cursor` on; both append to `log`.
pub struct ProofTranscript {
    log: Vec<u8>,
    buffer: Vec<u8>,
    cursor: usize,
}

impl ProofTranscript {
    /// Everything absorbed so far, framed.
    pub closed spec fn log(&self) -> Seq<u8> {
        self.log@
    }

    /// The bytes written (prover) or to be read (verifier).
    pub closed spec fn buffer(&self) -> Seq<u8> {
        self.buffer@
    }

    /// How many bytes of the buffer the verifier has read.
    pub closed spec fn cursor(&self) -> nat {
        self.cursor as nat
    }

    /// The read position lies within the buffer.
    pub closed spec fn wf(&self) -> bool {
        self.cursor <= self.buffer@.len()
    }

    /// A prover transcript for the protocol labelled `label`.
    pub fn new_prover(label: &[u8]) -> (r: ProofTranscript)
        ensures
            r.wf(),
            r.log() == frame(label@, Seq::empty()),
            r.buffer() == Seq::<u8>::empty(),
            r.cursor() == 0,
    {
        let mut log: Vec<u8> = Vec::new();
        append_frame(&mut log, label, &[]);
        ProofTranscript { log, buffer: Vec::new(), cursor: 0 }
    }

    /// A verifier transcript for the protocol labelled `label`, reading `proof`.
    pub fn new_verifier(label: &[u8], proof: &[u8]) -> (r: ProofTranscript)
        ensures
            r.wf(),
            r.log() == frame(label@, Seq::empty()),
            r.buffer() == proof@,
            r.cursor() == 0,
    {
        let mut log: Vec<u8> = Vec::new();
        append_frame(&mut log, label, &[]);
        let mut buffer: Vec<u8> = Vec::new();
        let mut i: usize = 0;
        while i < proof.len()
            invariant
                0 <= i <= proof@.len(),
                buffer@ == proof@.subrange(0, i as int),
            decreases proof@.len() - i,
        {
            buffer.push(proof[i]);
            i = i + 1;
        }
        assert(buffer@ =~= proof@);
        ProofTranscript { log, buffer, cursor: 0 }
    }

    /// Absorbs a scalar on both sides.
    pub fn common_absorb_scalar(&mut self, label: &[u8], s: &Scalar)
        ensures
            final(self).log() == old(self).log() + frame(label@, scalar_bytes(s@)),
            final(self).buffer() == old(self).buffer(),
            final(self).cursor() == old(self).cursor(),
            final(self).wf() == old(self).wf(),
    {
        let bytes = s.to_bytes();
        append_frame(&mut self.log, label, &bytes);
    }

    /// Absorbs a point on both sides.
    pub fn common_absorb_point(&mut self, label: &[u8], p: &Point)
        ensures
            final(self).log() == old(self).log() + frame(label@, p@),
            final(self).buffer() == old(self).buffer(),
            final(self).cursor() == old(self).cursor(),
            final(self).wf() == old(self).wf(),
    {
        let bytes = p.to_bytes();
        append_frame(&mut self.log, label, &bytes);
    }

    /// Absorbs a scalar and writes its encoding to the wire.
    pub fn prover_absorb_scalar(&mut self, label: &[u8], s: &Scalar)
        ensures
            final(self).log() == old(self).log() + frame(label@, scalar_bytes(s@)),
            final(self).buffer() == old(self).buffer() + scalar_bytes(s@),
            final(self).cursor() == old(self).cursor(),
            old(self).wf() ==> final(self).wf(),
    {
        let bytes = s.to_bytes();
        append_frame(&mut self.log, label, &bytes);
        append_bytes(&mut self.buffer, &bytes);
    }

    /// Absorbs a point and writes its encoding to the wire.
    pub fn prover_absorb_point(&mut self, label: &[u8], p: &Point)
        ensures
            final(self).log() == old(self).log() + frame(label@, p@),
            final(self).buffer() == old(self).buffer() + p@,
            final(self).cursor() == old(self).cursor(),
            old(self).wf() ==> final(self).wf(),
    {
        let bytes = p.to_bytes();
        append_frame(&mut self.log, label, &bytes);
        append_bytes(&mut self.buffer, &bytes);
    }

    /// Reads `n` points from the wire and absorbs each; `None` where the wire
    /// is too short or a block does not encode a point.
    pub fn verifier_receive_points(&mut self, label: &[u8], n: usize) -> (r: Option<Vec<Point>>)
        requires
            old(self).wf(),
        ensures
            final(self).wf(),
            final(self).buffer() == old(self).buffer(),
            r is Some == (old(self).cursor() + 32 * n <= old(self).buffer().len()
                && blocks_decode(old(self).buffer(), old(self).cursor() as int, n as int)),
            r matches Some(v) ==> {
                &&& v@.len() == n
                &&& forall|k: int|
                    0 <= k < n ==> (#[trigger] v@[k])@ == block_at(
                        old(self).buffer(),
                        old(self).cursor() as int,
                        k,
                    )
                &&& final(self).cursor() == old(self).cursor() + 32 * n
                &&& final(self).log() == old(self).log() + frames(label@, point_encodings(v@))
            },
    {
        let ghost start = self.cursor as int;
        let len = self.buffer.len();
        let remaining = len - self.cursor;
        if n > remaining / 32 {
            assert(32 * n > remaining) by (nonlinear_arith)
                requires
                    n > remaining / 32,
            ;
            return None;
        }
        assert(32 * n <= remaining) by (nonlinear_arith)
            requires
                n <= remaining / 32,
        ;
        let mut out: Vec<Point> = Vec::new();
        let mut k: usize = 0;
        while k < n
            invariant
                0 <= k <= n,
                start + 32 * n <= self.buffer@.len(),
                start == old(self).cursor as int,
                self.buffer@.len() == len,
                self.cursor == start + 32 * k,
                self.buffer@ == old(self).buffer@,
                out@.len() == k,
                forall|j: int|
                    0 <= j < k ==> (#[trigger] out@[j])@ == block_at(self.buffer@, start, j),
                forall|j: int| 0 <= j < k ==> ristretto_decodes(#[trigger] block_at(self.buffer@, start, j)),
                self.log@ == old(self).log@ + frames(label@, point_encodings(out@)),
            decreases n - k,
        {
            let block = read_block(&self.buffer, self.cursor);
            assert(block@ == block_at(self.buffer@, start, k as int));
            match Point::from_bytes(&block) {
                Some(p) => {
                    append_frame(&mut self.log, label, &block);
                    proof {
                        lemma_frames_push(label@, point_encodings(out@), p@);
                        assert(point_encodings(out@.push(p)) =~= point_encodings(out@).push(p@));
                    }
                    out.push(p);
                    self.cursor = self.cursor + 32;
                },
                None => {
                    assert(!ristretto_decodes(block_at(old(self).buffer@, start, k as int)));
                    assert(!blocks_decode(old(self).buffer(), old(self).cursor() as int, n as int));
                    return None;
                },
            }
            k = k + 1;
        }
        Some(out)
    }

    /// Reads the rest of the wire as scalars and absorbs each; `None` where
    /// the rest is not a whole number of blocks or a block is not canonical.
    pub fn verifier_receives_all_scalars(&mut self, label: &[u8]) -> (r: Option<Vec<Scalar>>)
        requires
            old(self).wf(),
        ensures
            final(self).wf(),
            final(self).buffer() == old(self).buffer(),
            r is Some == ((old(self).buffer().len() - old(self).cursor()) % 32 == 0
                && blocks_canonical(
                old(self).buffer(),
                old(self).cursor() as int,
                (old(self).buffer().len() - old(self).cursor()) / 32,
            )),
            r matches Some(v) ==> {
                &&& v@.len() == (old(self).buffer().len() - old(self).cursor()) / 32
                &&& forall|k: int|
                    0 <= k < v@.len() ==> (#[trigger] v@[k]).encoding() == block_at(
                        old(self).buffer(),
                        old(self).cursor() as int,
                        k,
                    ) && scalar_bytes(v@[k]@) == block_at(
                        old(self).buffer(),
                        old(self).cursor() as int,
                        k,
                    )
                &&& final(self).cursor() == old(self).buffer().len()
                &&& final(self).log() == old(self).log() + frames(label@, scalar_encodings(scalar_values(v@)))
            },
    {
        let ghost start = self.cursor as int;
        let len = self.buffer.len();
        let remaining = len - self.cursor;
        if remaining % 32 != 0 {
            return None;
        }
        let n = remaining / 32;
        assert(32 * n == remaining) by (nonlinear_arith)
            requires
                remaining % 32 == 0,
                n == remaining / 32,
        ;
        let mut out: Vec<Scalar> = Vec::new();
        let mut k: usize = 0;
        while k < n
            invariant
                0 <= k <= n,
                start == old(self).cursor as int,
                self.buffer@.len() == len,
                n == (self.buffer@.len() - start) / 32,
                start + 32 * n == self.buffer@.len(),
                self.cursor == start + 32 * k,
                self.buffer@ == old(self).buffer@,
                out@.len() == k,
                forall|j: int|
                    0 <= j < k ==> (#[trigger] out@[j]).encoding() == block_at(self.buffer@, start, j)
                        && scalar_bytes(out@[j]@) == block_at(self.buffer@, start, j),
                forall|j: int|
                    0 <= j < k ==> le_value(#[trigger] block_at(self.buffer@, start, j)) < group_order(),
                self.log@ == old(self).log@ + frames(label@, scalar_encodings(scalar_values(out@))),
            decreases n - k,
        {
            let block = read_block(&self.buffer, self.cursor);
            assert(block@ == block_at(self.buffer@, start, k as int));
            match Scalar::from_canonical_bytes(&block) {
                Some(s) => {
                    append_frame(&mut self.log, label, &block);
                    proof {
                        lemma_encoding_of_value(block@);
                        lemma_frames_push(label@, scalar_encodings(scalar_values(out@)), block@);
                        assert(scalar_encodings(scalar_values(out@.push(s))) =~= scalar_encodings(
                            scalar_values(out@),
                        ).push(block@));
                    }
                    out.push(s);
                    self.cursor = self.cursor + 32;
                },
                None => {
                    assert(!(le_value(block_at(old(self).buffer@, start, k as int)) < group_order()));
                    assert(!blocks_canonical(
                        old(self).buffer(),
                        old(self).cursor() as int,
                        (old(self).buffer().len() - old(self).cursor()) / 32,
                    ));
                    return None;
                },
            }
            k = k + 1;
        }
        Some(out)
    }

    /// Absorbs the label and draws a challenge from everything absorbed.
    pub fn challenge(&mut self, label: &[u8]) -> (r: Scalar)
        ensures
            final(self).log() == old(self).log() + frame(label@, Seq::empty()),
            r@ == challenge_value(final(self).log()),
            final(self).buffer() == old(self).buffer(),
            final(self).cursor() == old(self).cursor(),
            final(self).wf() == old(self).wf(),
    {
        append_frame(&mut self.log, label, &[]);
        let mut tag: Vec<u8> = self.log.clone();
        tag.push(0u8);
        let low = derive_digest(tag.as_slice());
        let ghost low_tag = tag@;
        tag.set(tag.len() - 1, 1u8);
        assert(low_tag =~= self.log@.push(0u8));
        assert(tag@ =~= self.log@.push(1u8));
        let high = derive_digest(tag.as_slice());
        let mut wide = [0u8; 64];
        let mut i: usize = 0;
        while i < 32
            invariant
                0 <= i <= 32,
                wide@.len() == 64,
                forall|j: int| 0 <= j < i ==> wide@[j] == low@[j],
                forall|j: int| 0 <= j < i ==> wide@[32 + j] == high@[j],
            decreases 32 - i,
        {
            wide[i] = low[i];
            wide[32 + i] = high[i];
            i = i + 1;
        }
        assert(wide@ =~= low@ + high@);
        Scalar::from_bytes_mod_order_wide(&wide)
    }

    /// The bytes the prover wrote.
    pub fn finalize(self) -> (r: Vec<u8>)
        ensures
            r@ == self.buffer(),
    {
        self.buffer
    }
}

/// Blocks of 32 bytes written one after another take 32 bytes each, and each
/// is found again at its position.
pub proof fn lemma_concat_blocks(blocks: Seq<Seq<u8>>)
    requires
        forall|k: int| 0 <= k < blocks.len() ==> (#[trigger] blocks[k]).len() == 32,
    ensures
        concat_blocks(blocks).len() == 32 * blocks.len(),
        forall|k: int|
            0 <= k < blocks.len() ==> #[trigger] block_at(concat_blocks(blocks), 0, k) == blocks[k],
    decreases blocks.len(),
{
    if blocks.len() > 0 {
        let init = blocks.drop_last();
        lemma_concat_blocks(init);
        let c = concat_blocks(blocks);
        assert forall|k: int| 0 <= k < blocks.len() implies #[trigger] block_at(c, 0, k)
            == blocks[k] by {
            if k < blocks.len() - 1 {
                assert(block_at(concat_blocks(init), 0, k) == init[k]);
                assert(block_at(c, 0, k) =~= block_at(concat_blocks(init), 0, k));
            } else {
                assert(block_at(c, 0, k) =~= blocks.last());
            }
        }
    }
}

/// Appending one more framed block extends the frames by that frame.
pub proof fn lemma_frames_push(label: Seq<u8>, blocks: Seq<Seq<u8>>, b: Seq<u8>)
    ensures
        frames(label, blocks.push(b)) == frames(label, blocks) + frame(label, b),
{
    let f = |x: Seq<u8>| frame(label, x);
    let mapped = blocks.push(b).map_values(f);
    assert(mapped.drop_last() =~= blocks.map_values(f));
    assert(mapped.last() == frame(label, b));
}

/// Appends `data` to `v`.
fn append_bytes(v: &mut Vec<u8>, data: &[u8])
    ensures
        final(v)@ == old(v)@ + data@,
{
    let mut i: usize = 0;
    let ghost start = v@;
    while i < data.len()
        invariant
            0 <= i <= data@.len(),
            v@ == start + data@.subrange(0, i as int),
        decreases data@.len() - i,
    {
        v.push(data[i]);
        i = i + 1;
        assert(v@ =~= start + data@.subrange(0, i as int));
    }
    assert(data@.subrange(0, data@.len() as int) =~= data@);
}

/// Appends the eight little-endian bytes of `n`.
fn append_length(v: &mut Vec<u8>, n: usize)
    ensures
        final(v)@ == old(v)@ + length_bytes(n as nat),
{
    let ghost start = v@;
    let mut x: usize = n;
    let mut i: usize = 0;
    assert(pow256(0) == 1);
    while i < 8
        invariant
            0 <= i <= 8,
            x as nat == n as nat / pow256(i as nat),
            v@.len() == start.len() + i,
            forall|j: int| 0 <= j < start.len() ==> v@[j] == start[j],
            forall|j: int|
                0 <= j < i ==> #[trigger] v@[start.len() + j] == ((n as nat / pow256(j as nat)) % 256) as u8,
        decreases 8 - i,
    {
        v.push((x % 256) as u8);
        proof {
            lemma_div_pow256_step(n as nat, i as nat);
        }
        x = x / 256;
        i = i + 1;
    }
    assert forall|j: int| start.len() <= j < v@.len() implies #[trigger] v@[j] == length_bytes(
        n as nat,
    )[j - start.len()] by {
        let jj = j - start.len();
        assert(v@[start.len() + jj] == ((n as nat / pow256(jj as nat)) % 256) as u8);
    }
    assert(v@ =~= start + length_bytes(n as nat));
}

/// Appends one framed message.
fn append_frame(v: &mut Vec<u8>, label: &[u8], data: &[u8])
    ensures
        final(v)@ == old(v)@ + frame(label@, data@),
{
    append_length(v, label.len());
    append_bytes(v, label);
    append_bytes(v, data);
    assert(final(v)@ =~= old(v)@ + frame(label@, data@));
}

/// The 32 bytes of `buffer` from `start` on.
fn read_block(buffer: &Vec<u8>, start: usize) -> (r: [u8; 32])
    requires
        start + 32 <= buffer@.len(),
    ensures
        r@ == buffer@.subrange(start as int, start + 32),
{
    let len = buffer.len();
    let mut out = [0u8; 32];
    let mut i: usize = 0;
    while i < 32
        invariant
            0 <= i <= 32,
            start + 32 <= buffer@.len(),
            buffer@.len() == len,
            out@.len() == 32,
            forall|j: int| 0 <= j < i ==> out@[j] == buffer@[start + j],
        decreases 32 - i,
    {
        out[i] = buffer[start + i];
        i = i + 1;
    }
    assert(out@ =~= buffer@.subrange(start as int, start + 32));
    out
}

} // verus!
