use vstd::prelude::*;
use vstd::bytes::{
    lemma_auto_spec_u32_to_from_le_bytes, lemma_auto_spec_u64_to_from_le_bytes,
    spec_u32_from_le_bytes, spec_u32_to_le_bytes, spec_u64_from_le_bytes, spec_u64_to_le_bytes,
    u32_from_le_bytes, u32_to_le_bytes, u64_from_le_bytes, u64_to_le_bytes,
};
use vstd::slice::{slice_subrange, slice_to_vec};

use crate::errors::DecodeError;

verus! {

/// Length in bytes of one signature on the wire: (r, s) plus a recovery byte.
pub const SIGNATURE_LEN: usize = 65;

/// Length in bytes of a payload id on the wire.
pub const PAYLOAD_ID_LEN: usize = 2;

/// One payload entry of a commitment, keyed by a two-byte id
/// (for example the MMR-root payload).
#[derive(Clone, Debug, PartialEq, Eq)]
pub struct PayloadItem {
    /// Two-byte payload id.
    pub id: Vec<u8>,
    /// Arbitrary-length payload data, e.g. an MMR root hash.
    pub data: Vec<u8>,
}

/// Mathematical model of a `PayloadItem`.
pub struct PayloadItemV {
    pub id: Seq<u8>,
    pub data: Seq<u8>,
}

impl DeepView for PayloadItem {
    type V = PayloadItemV;

    open spec fn deep_view(&self) -> PayloadItemV {
        PayloadItemV { id: self.id@, data: self.data@ }
    }
}

impl View for PayloadItem {
    type V = PayloadItemV;

    open spec fn view(&self) -> PayloadItemV {
        self.deep_view()
    }
}

/// Block metadata signed by the source chain's finality gadget.
#[derive(Clone, Debug, PartialEq, Eq)]
pub struct Commitment {
    /// Payload items signed by the validators.
    pub payloads: Vec<PayloadItem>,
    /// Block number this commitment is for (4 bytes on the wire).
    pub block_number: u32,
    /// Id of the validator set that signed (8 bytes on the wire).
    pub validator_set_id: u64,
}

/// Mathematical model of a `Commitment`.
pub struct CommitmentV {
    pub payloads: Seq<PayloadItemV>,
    pub block_number: u32,
    pub validator_set_id: u64,
}

impl DeepView for Commitment {
    type V = CommitmentV;

    open spec fn deep_view(&self) -> CommitmentV {
        CommitmentV {
            payloads: self.payloads.deep_view(),
            block_number: self.block_number,
            validator_set_id: self.validator_set_id,
        }
    }
}

impl View for Commitment {
    type V = CommitmentV;

    open spec fn view(&self) -> CommitmentV {
        self.deep_view()
    }
}

/// One validator signature together with its leaf position in the
/// validator Merkle tree.
#[derive(Clone, Debug, PartialEq, Eq)]
pub struct Signature {
    /// Leaf index of the signer in the validator Merkle tree.
    pub index: u32,
    /// The 65 signature bytes: r, s, and a recovery byte.
    pub signature: Vec<u8>,
}

/// Mathematical model of a `Signature`.
pub struct SignatureV {
    pub index: u32,
    pub signature: Seq<u8>,
}

impl DeepView for Signature {
    type V = SignatureV;

    open spec fn deep_view(&self) -> SignatureV {
        SignatureV { index: self.index, signature: self.signature@ }
    }
}

impl View for Signature {
    type V = SignatureV;

    open spec fn view(&self) -> SignatureV {
        self.deep_view()
    }
}

/// The wire artifact from the source finality gadget: a commitment plus
/// the signatures attesting to it.
#[derive(Clone, Debug, PartialEq, Eq)]
pub struct SignedCommitment {
    /// The commitment being signed, if present.
    pub commitment: Option<Commitment>,
    /// All the signatures, positionally aligned with validator leaf indexes.
    pub signatures: Vec<Signature>,
}

/// Mathematical model of a `SignedCommitment`.
pub struct SignedCommitmentV {
    pub commitment: Option<CommitmentV>,
    pub signatures: Seq<SignatureV>,
}

impl DeepView for SignedCommitment {
    type V = SignedCommitmentV;

    open spec fn deep_view(&self) -> SignedCommitmentV {
        SignedCommitmentV {
            commitment: self.commitment.deep_view(),
            signatures: self.signatures.deep_view(),
        }
    }
}

impl View for SignedCommitment {
    type V = SignedCommitmentV;

    open spec fn view(&self) -> SignedCommitmentV {
        self.deep_view()
    }
}

// ---------------------------------------------------------------------------
// Validity: what may stand on the wire.
// ---------------------------------------------------------------------------

pub open spec fn valid_payload_item(p: PayloadItemV) -> bool {
    &&& p.id.len() == PAYLOAD_ID_LEN
    &&& p.data.len() <= u32::MAX
}

pub open spec fn valid_commitment(c: CommitmentV) -> bool {
    &&& c.payloads.len() <= u32::MAX
    &&& forall|i: int| 0 <= i < c.payloads.len() ==> valid_payload_item(#[trigger] c.payloads[i])
}

pub open spec fn valid_signature(s: SignatureV) -> bool {
    s.signature.len() == SIGNATURE_LEN
}

pub open spec fn valid_signed_commitment(sc: SignedCommitmentV) -> bool {
    &&& match sc.commitment {
        Some(c) => valid_commitment(c),
        None => true,
    }
    &&& sc.signatures.len() <= u32::MAX
    &&& forall|i: int| 0 <= i < sc.signatures.len() ==> valid_signature(#[trigger] sc.signatures[i])
}

// ---------------------------------------------------------------------------
// The wire format, as a function from models to bytes.
//
// All integers are little-endian and of fixed, contractual width:
// block_number 4 bytes, validator_set_id 8 bytes, every count and every
// data length 4 bytes, payload ids 2 bytes, signatures 65 bytes.
// ---------------------------------------------------------------------------

pub open spec fn spec_encode_payload_item(p: PayloadItemV) -> Seq<u8> {
    p.id + spec_u32_to_le_bytes(p.data.len() as u32) + p.data
}

pub open spec fn spec_encode_payload_items(ps: Seq<PayloadItemV>) -> Seq<u8>
    decreases ps.len(),
{
    if ps.len() == 0 {
        Seq::empty()
    } else {
        spec_encode_payload_item(ps[0]) + spec_encode_payload_items(ps.skip(1))
    }
}

pub open spec fn spec_encode_commitment(c: CommitmentV) -> Seq<u8> {
    spec_u32_to_le_bytes(c.payloads.len() as u32) + spec_encode_payload_items(c.payloads)
        + spec_u32_to_le_bytes(c.block_number) + spec_u64_to_le_bytes(c.validator_set_id)
}

pub open spec fn spec_encode_signature(s: SignatureV) -> Seq<u8> {
    spec_u32_to_le_bytes(s.index) + s.signature
}

pub open spec fn spec_encode_signatures(ss: Seq<SignatureV>) -> Seq<u8>
    decreases ss.len(),
{
    if ss.len() == 0 {
        Seq::empty()
    } else {
        spec_encode_signature(ss[0]) + spec_encode_signatures(ss.skip(1))
    }
}

pub open spec fn spec_encode_signed_commitment(sc: SignedCommitmentV) -> Seq<u8> {
    (match sc.commitment {
        None => seq![0u8],
        Some(c) => seq![1u8] + spec_encode_commitment(c),
    }) + spec_u32_to_le_bytes(sc.signatures.len() as u32) + spec_encode_signatures(sc.signatures)
}

// ---------------------------------------------------------------------------
// The parser, as a function from bytes to a model and the unread rest.
// ---------------------------------------------------------------------------

pub open spec fn spec_parse_u8(s: Seq<u8>) -> Option<(u8, Seq<u8>)> {
    if s.len() >= 1 {
        Some((s[0], s.skip(1)))
    } else {
        None
    }
}

pub open spec fn spec_parse_u32(s: Seq<u8>) -> Option<(u32, Seq<u8>)> {
    if s.len() >= 4 {
        Some((spec_u32_from_le_bytes(s.take(4)), s.skip(4)))
    } else {
        None
    }
}

pub open spec fn spec_parse_u64(s: Seq<u8>) -> Option<(u64, Seq<u8>)> {
    if s.len() >= 8 {
        Some((spec_u64_from_le_bytes(s.take(8)), s.skip(8)))
    } else {
        None
    }
}

pub open spec fn spec_parse_raw(s: Seq<u8>, n: int) -> Option<(Seq<u8>, Seq<u8>)> {
    if 0 <= n <= s.len() {
        Some((s.take(n), s.skip(n)))
    } else {
        None
    }
}

pub open spec fn spec_parse_payload_item(s: Seq<u8>) -> Option<(PayloadItemV, Seq<u8>)> {
    match spec_parse_raw(s, PAYLOAD_ID_LEN as int) {
        None => None,
        Some((id, r1)) => match spec_parse_u32(r1) {
            None => None,
            Some((n, r2)) => match spec_parse_raw(r2, n as int) {
                None => None,
                Some((data, r3)) => Some((PayloadItemV { id, data }, r3)),
            },
        },
    }
}

pub open spec fn spec_parse_payload_items(s: Seq<u8>, n: nat) -> Option<(Seq<PayloadItemV>, Seq<u8>)>
    decreases n,
{
    if n == 0 {
        Some((Seq::empty(), s))
    } else {
        match spec_parse_payload_item(s) {
            None => None,
            Some((p, r1)) => match spec_parse_payload_items(r1, (n - 1) as nat) {
                None => None,
                Some((ps, r2)) => Some((seq![p] + ps, r2)),
            },
        }
    }
}

pub open spec fn spec_parse_commitment(s: Seq<u8>) -> Option<(CommitmentV, Seq<u8>)> {
    match spec_parse_u32(s) {
        None => None,
        Some((n, r1)) => match spec_parse_payload_items(r1, n as nat) {
            None => None,
            Some((ps, r2)) => match spec_parse_u32(r2) {
                None => None,
                Some((block_number, r3)) => match spec_parse_u64(r3) {
                    None => None,
                    Some((validator_set_id, r4)) => Some(
                        (CommitmentV { payloads: ps, block_number, validator_set_id }, r4),
                    ),
                },
            },
        },
    }
}

pub open spec fn spec_parse_signature(s: Seq<u8>) -> Option<(SignatureV, Seq<u8>)> {
    match spec_parse_u32(s) {
        None => None,
        Some((index, r1)) => match spec_parse_raw(r1, SIGNATURE_LEN as int) {
            None => None,
            Some((signature, r2)) => Some((SignatureV { index, signature }, r2)),
        },
    }
}

pub open spec fn spec_parse_signatures(s: Seq<u8>, n: nat) -> Option<(Seq<SignatureV>, Seq<u8>)>
    decreases n,
{
    if n == 0 {
        Some((Seq::empty(), s))
    } else {
        match spec_parse_signature(s) {
            None => None,
            Some((sg, r1)) => match spec_parse_signatures(r1, (n - 1) as nat) {
                None => None,
                Some((sgs, r2)) => Some((seq![sg] + sgs, r2)),
            },
        }
    }
}

pub open spec fn spec_parse_signatures_section(s: Seq<u8>) -> Option<(Seq<SignatureV>, Seq<u8>)> {
    match spec_parse_u32(s) {
        None => None,
        Some((n, r1)) => spec_parse_signatures(r1, n as nat),
    }
}

pub open spec fn spec_parse_signed_commitment(s: Seq<u8>) -> Option<(SignedCommitmentV, Seq<u8>)> {
    match spec_parse_u8(s) {
        None => None,
        Some((tag, r1)) => if tag == 0 {
            match spec_parse_signatures_section(r1) {
                None => None,
                Some((sgs, r2)) => Some(
                    (SignedCommitmentV { commitment: None, signatures: sgs }, r2),
                ),
            }
        } else if tag == 1 {
            match spec_parse_commitment(r1) {
                None => None,
                Some((c, r2)) => match spec_parse_signatures_section(r2) {
                    None => None,
                    Some((sgs, r3)) => Some(
                        (SignedCommitmentV { commitment: Some(c), signatures: sgs }, r3),
                    ),
                },
            }
        } else {
            None
        },
    }
}

/// What a byte string means as a whole: a signed commitment with nothing
/// left over, or nothing.
pub open spec fn spec_decode_signed_commitment(s: Seq<u8>) -> Option<SignedCommitmentV> {
    match spec_parse_signed_commitment(s) {
        Some((sc, rest)) => if rest.len() == 0 {
            Some(sc)
        } else {
            None
        },
        None => None,
    }
}

// ---------------------------------------------------------------------------
// Encoding a list item by item appends at the tail; the recursive
// definitions split at the head. These lemmas bridge the two.
// ---------------------------------------------------------------------------

proof fn lemma_encode_payload_items_push(ps: Seq<PayloadItemV>, p: PayloadItemV)
    ensures
        spec_encode_payload_items(ps.push(p)) == spec_encode_payload_items(ps)
            + spec_encode_payload_item(p),
    decreases ps.len(),
{
    if ps.len() == 0 {
        assert(ps.push(p)[0] == p);
        assert(ps.push(p).skip(1) =~= ps);
        assert(spec_encode_payload_items(ps.push(p)) =~= spec_encode_payload_items(ps)
            + spec_encode_payload_item(p));
    } else {
        lemma_encode_payload_items_push(ps.skip(1), p);
        assert(ps.push(p).skip(1) =~= ps.skip(1).push(p));
        assert(ps.push(p)[0] == ps[0]);
        assert(spec_encode_payload_items(ps.push(p)) == spec_encode_payload_item(ps[0]) + (
        spec_encode_payload_items(ps.skip(1)) + spec_encode_payload_item(p)));
        assert(spec_encode_payload_item(ps[0]) + (spec_encode_payload_items(ps.skip(1))
            + spec_encode_payload_item(p)) =~= (spec_encode_payload_item(ps[0])
            + spec_encode_payload_items(ps.skip(1))) + spec_encode_payload_item(p));
    }
}

proof fn lemma_encode_signatures_push(ss: Seq<SignatureV>, sg: SignatureV)
    ensures
        spec_encode_signatures(ss.push(sg)) == spec_encode_signatures(ss)
            + spec_encode_signature(sg),
    decreases ss.len(),
{
    if ss.len() == 0 {
        assert(ss.push(sg)[0] == sg);
        assert(ss.push(sg).skip(1) =~= ss);
        assert(spec_encode_signatures(ss.push(sg)) =~= spec_encode_signatures(ss)
            + spec_encode_signature(sg));
    } else {
        lemma_encode_signatures_push(ss.skip(1), sg);
        assert(ss.push(sg).skip(1) =~= ss.skip(1).push(sg));
        assert(ss.push(sg)[0] == ss[0]);
        assert(spec_encode_signatures(ss.push(sg)) == spec_encode_signature(ss[0]) + (
        spec_encode_signatures(ss.skip(1)) + spec_encode_signature(sg)));
        assert(spec_encode_signature(ss[0]) + (spec_encode_signatures(ss.skip(1))
            + spec_encode_signature(sg)) =~= (spec_encode_signature(ss[0])
            + spec_encode_signatures(ss.skip(1))) + spec_encode_signature(sg));
    }
}

// ---------------------------------------------------------------------------
// Executable encoding.
// ---------------------------------------------------------------------------

fn encode_u32_into(out: &mut Vec<u8>, x: u32)
    ensures
        final(out)@ == old(out)@ + spec_u32_to_le_bytes(x),
{
    let mut bs = u32_to_le_bytes(x);
    out.append(&mut bs);
}

fn encode_u64_into(out: &mut Vec<u8>, x: u64)
    ensures
        final(out)@ == old(out)@ + spec_u64_to_le_bytes(x),
{
    let mut bs = u64_to_le_bytes(x);
    out.append(&mut bs);
}

fn encode_raw_into(out: &mut Vec<u8>, bytes: &Vec<u8>)
    ensures
        final(out)@ == old(out)@ + bytes@,
{
    let mut copy = slice_to_vec(bytes.as_slice());
    out.append(&mut copy);
}

fn encode_payload_item_into(out: &mut Vec<u8>, p: &PayloadItem)
    requires
        valid_payload_item(p@),
    ensures
        final(out)@ == old(out)@ + spec_encode_payload_item(p@),
{
    encode_raw_into(out, &p.id);
    encode_u32_into(out, p.data.len() as u32);
    encode_raw_into(out, &p.data);
    assert(final(out)@ =~= old(out)@ + spec_encode_payload_item(p@));
}

fn encode_commitment_into(out: &mut Vec<u8>, c: &Commitment)
    requires
        valid_commitment(c@),
    ensures
        final(out)@ == old(out)@ + spec_encode_commitment(c@),
{
    let n_payloads: u32 = c.payloads.len() as u32;
    encode_u32_into(out, n_payloads);
    let ghost base = out@;
    for i in 0..c.payloads.len()
        invariant
            valid_commitment(c@),
            out@ == base + spec_encode_payload_items(c@.payloads.take(i as int)),
    {
        assert(c@.payloads[i as int] == c.payloads@[i as int].deep_view());
        encode_payload_item_into(out, &c.payloads[i]);
        proof {
            lemma_encode_payload_items_push(c@.payloads.take(i as int), c@.payloads[i as int]);
            assert(c@.payloads.take(i + 1) =~= c@.payloads.take(i as int).push(
                c@.payloads[i as int],
            ));
            assert(out@ =~= base + spec_encode_payload_items(c@.payloads.take(i + 1)));
        }
    }
    assert(c@.payloads.take(c.payloads.len() as int) =~= c@.payloads);
    encode_u32_into(out, c.block_number);
    encode_u64_into(out, c.validator_set_id);
    assert(final(out)@ =~= old(out)@ + spec_encode_commitment(c@));
}

fn encode_signature_into(out: &mut Vec<u8>, sg: &Signature)
    requires
        valid_signature(sg@),
    ensures
        final(out)@ == old(out)@ + spec_encode_signature(sg@),
{
    encode_u32_into(out, sg.index);
    encode_raw_into(out, &sg.signature);
    assert(final(out)@ =~= old(out)@ + spec_encode_signature(sg@));
}

impl SignedCommitment {
    /// Deterministic encoding of this signed commitment in the wire format.
    pub fn encode(&self) -> (out: Vec<u8>)
        requires
            valid_signed_commitment(self@),
        ensures
            out@ == spec_encode_signed_commitment(self@),
    {
        let mut out: Vec<u8> = Vec::new();
        match &self.commitment {
            None => {
                out.push(0u8);
                assert(out@ =~= seq![0u8]);
            },
            Some(c) => {
                out.push(1u8);
                assert(out@ =~= seq![1u8]);
                encode_commitment_into(&mut out, c);
            },
        }
        let ghost head = out@;
        let n_sigs: u32 = self.signatures.len() as u32;
        encode_u32_into(&mut out, n_sigs);
        let ghost base = out@;
        for i in 0..self.signatures.len()
            invariant
                valid_signed_commitment(self@),
                out@ == base + spec_encode_signatures(self@.signatures.take(i as int)),
        {
            assert(self@.signatures[i as int] == self.signatures@[i as int].deep_view());
            encode_signature_into(&mut out, &self.signatures[i]);
            proof {
                lemma_encode_signatures_push(
                    self@.signatures.take(i as int),
                    self@.signatures[i as int],
                );
                assert(self@.signatures.take(i + 1) =~= self@.signatures.take(i as int).push(
                    self@.signatures[i as int],
                ));
                assert(out@ =~= base + spec_encode_signatures(self@.signatures.take(i + 1)));
            }
        }
        assert(self@.signatures.take(self.signatures.len() as int) =~= self@.signatures);
        assert(out@ =~= spec_encode_signed_commitment(self@));
        out
    }
}

// ---------------------------------------------------------------------------
// Executable decoding. Each reader mirrors one spec parser: on success the
// spec parser accepts the unread suffix and leaves exactly what the reader
// leaves; on failure the spec parser rejects it.
// ---------------------------------------------------------------------------

pub(crate) fn parse_u8_at(b: &Vec<u8>, pos: usize) -> (r: Result<(u8, usize), DecodeError>)
    requires
        pos <= b@.len(),
    ensures
        match r {
            Ok((x, p2)) => {
                &&& spec_parse_u8(b@.skip(pos as int)) == Some((x, b@.skip(p2 as int)))
                &&& pos < p2 <= b@.len()
            },
            Err(e) => spec_parse_u8(b@.skip(pos as int)) is None && e == DecodeError::Malformed,
        },
{
    if pos < b.len() {
        let x = b[pos];
        proof {
            assert(b@.skip(pos as int)[0] == b@[pos as int]);
            assert(b@.skip(pos as int).skip(1) =~= b@.skip(pos as int + 1));
        }
        Ok((x, pos + 1))
    } else {
        Err(DecodeError::Malformed)
    }
}

pub(crate) fn parse_u32_at(b: &Vec<u8>, pos: usize) -> (r: Result<(u32, usize), DecodeError>)
    requires
        pos <= b@.len(),
    ensures
        match r {
            Ok((x, p2)) => {
                &&& spec_parse_u32(b@.skip(pos as int)) == Some((x, b@.skip(p2 as int)))
                &&& pos < p2 <= b@.len()
            },
            Err(e) => spec_parse_u32(b@.skip(pos as int)) is None && e == DecodeError::Malformed,
        },
{
    if b.len() - pos >= 4 {
        let x = u32_from_le_bytes(slice_subrange(b.as_slice(), pos, pos + 4));
        proof {
            assert(b@.skip(pos as int).take(4) =~= b@.subrange(pos as int, pos as int + 4));
            assert(b@.skip(pos as int).skip(4) =~= b@.skip(pos as int + 4));
        }
        Ok((x, pos + 4))
    } else {
        Err(DecodeError::Malformed)
    }
}

pub(crate) fn parse_u64_at(b: &Vec<u8>, pos: usize) -> (r: Result<(u64, usize), DecodeError>)
    requires
        pos <= b@.len(),
    ensures
        match r {
            Ok((x, p2)) => {
                &&& spec_parse_u64(b@.skip(pos as int)) == Some((x, b@.skip(p2 as int)))
                &&& pos < p2 <= b@.len()
            },
            Err(e) => spec_parse_u64(b@.skip(pos as int)) is None && e == DecodeError::Malformed,
        },
{
    if b.len() - pos >= 8 {
        let x = u64_from_le_bytes(slice_subrange(b.as_slice(), pos, pos + 8));
        proof {
            assert(b@.skip(pos as int).take(8) =~= b@.subrange(pos as int, pos as int + 8));
            assert(b@.skip(pos as int).skip(8) =~= b@.skip(pos as int + 8));
        }
        Ok((x, pos + 8))
    } else {
        Err(DecodeError::Malformed)
    }
}

pub(crate) fn parse_raw_at(b: &Vec<u8>, pos: usize, n: usize) -> (r: Result<(Vec<u8>, usize), DecodeError>)
    requires
        pos <= b@.len(),
    ensures
        match r {
            Ok((v, p2)) => {
                &&& spec_parse_raw(b@.skip(pos as int), n as int) == Some(
                    (v@, b@.skip(p2 as int)),
                )
                &&& v@.len() == n
                &&& pos <= p2 <= b@.len()
            },
            Err(e) => spec_parse_raw(b@.skip(pos as int), n as int) is None && e
                == DecodeError::Malformed,
        },
{
    if n <= b.len() - pos {
        let v = slice_to_vec(slice_subrange(b.as_slice(), pos, pos + n));
        proof {
            assert(b@.skip(pos as int).take(n as int) =~= b@.subrange(
                pos as int,
                pos as int + n as int,
            ));
            assert(b@.skip(pos as int).skip(n as int) =~= b@.skip(pos as int + n as int));
        }
        Ok((v, pos + n))
    } else {
        Err(DecodeError::Malformed)
    }
}

fn parse_payload_item_at(b: &Vec<u8>, pos: usize) -> (r: Result<
    (PayloadItem, usize),
    DecodeError,
>)
    requires
        pos <= b@.len(),
    ensures
        match r {
            Ok((p, p2)) => {
                &&& spec_parse_payload_item(b@.skip(pos as int)) == Some(
                    (p@, b@.skip(p2 as int)),
                )
                &&& valid_payload_item(p@)
                &&& pos <= p2 <= b@.len()
            },
            Err(e) => spec_parse_payload_item(b@.skip(pos as int)) is None && e
                == DecodeError::Malformed,
        },
{
    let (id, pos1) = match parse_raw_at(b, pos, PAYLOAD_ID_LEN) {
        Ok(x) => x,
        Err(e) => {
            return Err(e);
        },
    };
    let (n, pos2) = match parse_u32_at(b, pos1) {
        Ok(x) => x,
        Err(e) => {
            return Err(e);
        },
    };
    let (data, pos3) = match parse_raw_at(b, pos2, n as usize) {
        Ok(x) => x,
        Err(e) => {
            return Err(e);
        },
    };
    Ok((PayloadItem { id, data }, pos3))
}

fn parse_payload_items_at(b: &Vec<u8>, pos: usize, n: u32) -> (r: Result<
    (Vec<PayloadItem>, usize),
    DecodeError,
>)
    requires
        pos <= b@.len(),
    ensures
        match r {
            Ok((ps, p2)) => {
                &&& spec_parse_payload_items(b@.skip(pos as int), n as nat) == Some(
                    (ps.deep_view(), b@.skip(p2 as int)),
                )
                &&& forall|i: int|
                    0 <= i < ps.deep_view().len() ==> valid_payload_item(
                        #[trigger] ps.deep_view()[i],
                    )
                &&& ps.deep_view().len() <= u32::MAX
                &&& pos <= p2 <= b@.len()
            },
            Err(e) => spec_parse_payload_items(b@.skip(pos as int), n as nat) is None && e
                == DecodeError::Malformed,
        },
{
    let mut acc: Vec<PayloadItem> = Vec::new();
    let mut cur: usize = pos;
    proof {
        match spec_parse_payload_items(b@.skip(cur as int), n as nat) {
            None => {},
            Some((ps, r)) => {
                assert(acc.deep_view() + ps =~= ps);
            },
        }
    }
    for i in 0..n
        invariant
            pos <= cur <= b@.len(),
            acc.deep_view().len() == i,
            forall|j: int|
                0 <= j < acc.deep_view().len() ==> valid_payload_item(#[trigger] acc.deep_view()[j]),
            spec_parse_payload_items(b@.skip(pos as int), n as nat) == match spec_parse_payload_items(
                b@.skip(cur as int),
                (n - i) as nat,
            ) {
                None => None::<(Seq<PayloadItemV>, Seq<u8>)>,
                Some((ps, r)) => Some((acc.deep_view() + ps, r)),
            },
    {
        let (p, p2) = match parse_payload_item_at(b, cur) {
            Ok(x) => x,
            Err(e) => {
                return Err(e);
            },
        };
        proof {
            let ghost old_acc = acc.deep_view();
            match spec_parse_payload_items(b@.skip(p2 as int), (n - i - 1) as nat) {
                None => {},
                Some((ps2, r)) => {
                    assert(old_acc + (seq![p.deep_view()] + ps2) =~= old_acc.push(p.deep_view())
                        + ps2);
                },
            }
        }
        let ghost prev_acc = acc.deep_view();
        acc.push(p);
        proof {
            assert(acc.deep_view() =~= prev_acc.push(p.deep_view()));
        }
        cur = p2;
    }
    proof {
        assert(spec_parse_payload_items(b@.skip(cur as int), 0nat) == Some(
            (Seq::<PayloadItemV>::empty(), b@.skip(cur as int)),
        ));
        assert(acc.deep_view() + Seq::<PayloadItemV>::empty() =~= acc.deep_view());
    }
    Ok((acc, cur))
}

fn parse_commitment_at(b: &Vec<u8>, pos: usize) -> (r: Result<(Commitment, usize), DecodeError>)
    requires
        pos <= b@.len(),
    ensures
        match r {
            Ok((c, p2)) => {
                &&& spec_parse_commitment(b@.skip(pos as int)) == Some((c@, b@.skip(p2 as int)))
                &&& valid_commitment(c@)
                &&& pos <= p2 <= b@.len()
            },
            Err(e) => spec_parse_commitment(b@.skip(pos as int)) is None && e
                == DecodeError::Malformed,
        },
{
    let (n, pos1) = match parse_u32_at(b, pos) {
        Ok(x) => x,
        Err(e) => {
            return Err(e);
        },
    };
    let (payloads, pos2) = match parse_payload_items_at(b, pos1, n) {
        Ok(x) => x,
        Err(e) => {
            return Err(e);
        },
    };
    let (block_number, pos3) = match parse_u32_at(b, pos2) {
        Ok(x) => x,
        Err(e) => {
            return Err(e);
        },
    };
    let (validator_set_id, pos4) = match parse_u64_at(b, pos3) {
        Ok(x) => x,
        Err(e) => {
            return Err(e);
        },
    };
    Ok((Commitment { payloads, block_number, validator_set_id }, pos4))
}

fn parse_signature_at(b: &Vec<u8>, pos: usize) -> (r: Result<(Signature, usize), DecodeError>)
    requires
        pos <= b@.len(),
    ensures
        match r {
            Ok((sg, p2)) => {
                &&& spec_parse_signature(b@.skip(pos as int)) == Some((sg@, b@.skip(p2 as int)))
                &&& valid_signature(sg@)
                &&& pos <= p2 <= b@.len()
            },
            Err(e) => spec_parse_signature(b@.skip(pos as int)) is None && e
                == DecodeError::Malformed,
        },
{
    let (index, pos1) = match parse_u32_at(b, pos) {
        Ok(x) => x,
        Err(e) => {
            return Err(e);
        },
    };
    let (signature, pos2) = match parse_raw_at(b, pos1, SIGNATURE_LEN) {
        Ok(x) => x,
        Err(e) => {
            return Err(e);
        },
    };
    Ok((Signature { index, signature }, pos2))
}

fn parse_signatures_at(b: &Vec<u8>, pos: usize, n: u32) -> (r: Result<
    (Vec<Signature>, usize),
    DecodeError,
>)
    requires
        pos <= b@.len(),
    ensures
        match r {
            Ok((sgs, p2)) => {
                &&& spec_parse_signatures(b@.skip(pos as int), n as nat) == Some(
                    (sgs.deep_view(), b@.skip(p2 as int)),
                )
                &&& forall|i: int|
                    0 <= i < sgs.deep_view().len() ==> valid_signature(
                        #[trigger] sgs.deep_view()[i],
                    )
                &&& sgs.deep_view().len() <= u32::MAX
                &&& pos <= p2 <= b@.len()
            },
            Err(e) => spec_parse_signatures(b@.skip(pos as int), n as nat) is None && e
                == DecodeError::Malformed,
        },
{
    let mut acc: Vec<Signature> = Vec::new();
    let mut cur: usize = pos;
    proof {
        match spec_parse_signatures(b@.skip(cur as int), n as nat) {
            None => {},
            Some((sgs, r)) => {
                assert(acc.deep_view() + sgs =~= sgs);
            },
        }
    }
    for i in 0..n
        invariant
            pos <= cur <= b@.len(),
            acc.deep_view().len() == i,
            forall|j: int|
                0 <= j < acc.deep_view().len() ==> valid_signature(#[trigger] acc.deep_view()[j]),
            spec_parse_signatures(b@.skip(pos as int), n as nat) == match spec_parse_signatures(
                b@.skip(cur as int),
                (n - i) as nat,
            ) {
                None => None::<(Seq<SignatureV>, Seq<u8>)>,
                Some((sgs, r)) => Some((acc.deep_view() + sgs, r)),
            },
    {
        let (sg, p2) = match parse_signature_at(b, cur) {
            Ok(x) => x,
            Err(e) => {
                return Err(e);
            },
        };
        proof {
            let ghost old_acc = acc.deep_view();
            match spec_parse_signatures(b@.skip(p2 as int), (n - i - 1) as nat) {
                None => {},
                Some((sgs2, r)) => {
                    assert(old_acc + (seq![sg.deep_view()] + sgs2) =~= old_acc.push(sg.deep_view())
                        + sgs2);
                },
            }
        }
        let ghost prev_acc = acc.deep_view();
        acc.push(sg);
        proof {
            assert(acc.deep_view() =~= prev_acc.push(sg.deep_view()));
        }
        cur = p2;
    }
    proof {
        assert(spec_parse_signatures(b@.skip(cur as int), 0nat) == Some(
            (Seq::<SignatureV>::empty(), b@.skip(cur as int)),
        ));
        assert(acc.deep_view() + Seq::<SignatureV>::empty() =~= acc.deep_view());
    }
    Ok((acc, cur))
}

fn parse_signatures_section_at(b: &Vec<u8>, pos: usize) -> (r: Result<
    (Vec<Signature>, usize),
    DecodeError,
>)
    requires
        pos <= b@.len(),
    ensures
        match r {
            Ok((sgs, p2)) => {
                &&& spec_parse_signatures_section(b@.skip(pos as int)) == Some(
                    (sgs.deep_view(), b@.skip(p2 as int)),
                )
                &&& forall|i: int|
                    0 <= i < sgs.deep_view().len() ==> valid_signature(
                        #[trigger] sgs.deep_view()[i],
                    )
                &&& sgs.deep_view().len() <= u32::MAX
                &&& pos <= p2 <= b@.len()
            },
            Err(e) => spec_parse_signatures_section(b@.skip(pos as int)) is None && e
                == DecodeError::Malformed,
        },
{
    let (n, pos1) = match parse_u32_at(b, pos) {
        Ok(x) => x,
        Err(e) => {
            return Err(e);
        },
    };
    parse_signatures_at(b, pos1, n)
}

impl SignedCommitment {
    /// Deterministic decoding of the wire format; the exact inverse of
    /// `encode` on valid values, and an error on every other byte string.
    pub fn decode(bytes: &Vec<u8>) -> (r: Result<SignedCommitment, DecodeError>)
        ensures
            r is Ok <==> spec_decode_signed_commitment(bytes@) is Some,
            match r {
                Ok(sc) => {
                    &&& spec_decode_signed_commitment(bytes@) == Some(sc@)
                    &&& valid_signed_commitment(sc@)
                },
                Err(e) => {
                    &&& spec_decode_signed_commitment(bytes@) is None
                    &&& (e == DecodeError::Malformed <==> spec_parse_signed_commitment(
                        bytes@,
                    ) is None)
                    &&& (e == DecodeError::Trailing <==> spec_parse_signed_commitment(
                        bytes@,
                    ) is Some)
                },
            },
    {
        proof {
            assert(bytes@.skip(0) =~= bytes@);
        }
        let (tag, pos1) = match parse_u8_at(bytes, 0) {
            Ok(x) => x,
            Err(e) => {
                return Err(e);
            },
        };
        let (commitment, pos2) = if tag == 0 {
            (None, pos1)
        } else if tag == 1 {
            match parse_commitment_at(bytes, pos1) {
                Ok((c, p)) => (Some(c), p),
                Err(e) => {
                    return Err(e);
                },
            }
        } else {
            return Err(DecodeError::Malformed);
        };
        let (signatures, pos3) = match parse_signatures_section_at(bytes, pos2) {
            Ok(x) => x,
            Err(e) => {
                return Err(e);
            },
        };
        if pos3 != bytes.len() {
            return Err(DecodeError::Trailing);
        }
        let sc = SignedCommitment { commitment, signatures };
        proof {
            assert(bytes@.skip(pos3 as int) =~= Seq::<u8>::empty());
        }
        Ok(sc)
    }
}

// ---------------------------------------------------------------------------
// Round trip: the parser inverts the encoder on every valid value.
// ---------------------------------------------------------------------------

proof fn lemma_parse_u8_rt(x: u8, rest: Seq<u8>)
    ensures
        spec_parse_u8(seq![x] + rest) == Some((x, rest)),
{
    assert((seq![x] + rest)[0] == x);
    assert((seq![x] + rest).skip(1) =~= rest);
}

proof fn lemma_parse_u32_rt(x: u32, rest: Seq<u8>)
    ensures
        spec_parse_u32(spec_u32_to_le_bytes(x) + rest) == Some((x, rest)),
{
    lemma_auto_spec_u32_to_from_le_bytes();
    let s = spec_u32_to_le_bytes(x) + rest;
    assert(s.take(4) =~= spec_u32_to_le_bytes(x));
    assert(s.skip(4) =~= rest);
}

proof fn lemma_parse_u64_rt(x: u64, rest: Seq<u8>)
    ensures
        spec_parse_u64(spec_u64_to_le_bytes(x) + rest) == Some((x, rest)),
{
    lemma_auto_spec_u64_to_from_le_bytes();
    let s = spec_u64_to_le_bytes(x) + rest;
    assert(s.take(8) =~= spec_u64_to_le_bytes(x));
    assert(s.skip(8) =~= rest);
}

proof fn lemma_parse_raw_rt(data: Seq<u8>, rest: Seq<u8>)
    ensures
        spec_parse_raw(data + rest, data.len() as int) == Some((data, rest)),
{
    assert((data + rest).take(data.len() as int) =~= data);
    assert((data + rest).skip(data.len() as int) =~= rest);
}

proof fn lemma_parse_payload_item_rt(p: PayloadItemV, rest: Seq<u8>)
    requires
        valid_payload_item(p),
    ensures
        spec_parse_payload_item(spec_encode_payload_item(p) + rest) == Some((p, rest)),
{
    let r1 = spec_u32_to_le_bytes(p.data.len() as u32) + (p.data + rest);
    assert(spec_encode_payload_item(p) + rest =~= p.id + r1);
    lemma_parse_raw_rt(p.id, r1);
    lemma_parse_u32_rt(p.data.len() as u32, p.data + rest);
    lemma_parse_raw_rt(p.data, rest);
}

proof fn lemma_parse_payload_items_rt(ps: Seq<PayloadItemV>, rest: Seq<u8>)
    requires
        forall|i: int| 0 <= i < ps.len() ==> valid_payload_item(#[trigger] ps[i]),
    ensures
        spec_parse_payload_items(spec_encode_payload_items(ps) + rest, ps.len()) == Some(
            (ps, rest),
        ),
    decreases ps.len(),
{
    if ps.len() == 0 {
        assert(spec_encode_payload_items(ps) + rest =~= rest);
        assert(Seq::<PayloadItemV>::empty() =~= ps);
    } else {
        let tail = ps.skip(1);
        lemma_parse_payload_items_rt(tail, rest);
        lemma_parse_payload_item_rt(ps[0], spec_encode_payload_items(tail) + rest);
        assert(spec_encode_payload_items(ps) + rest =~= spec_encode_payload_item(ps[0]) + (
        spec_encode_payload_items(tail) + rest));
        assert(seq![ps[0]] + tail =~= ps);
    }
}

proof fn lemma_parse_commitment_rt(c: CommitmentV, rest: Seq<u8>)
    requires
        valid_commitment(c),
    ensures
        spec_parse_commitment(spec_encode_commitment(c) + rest) == Some((c, rest)),
{
    let n32 = c.payloads.len() as u32;
    let tail3 = spec_u64_to_le_bytes(c.validator_set_id) + rest;
    let tail2 = spec_u32_to_le_bytes(c.block_number) + tail3;
    let tail1 = spec_encode_payload_items(c.payloads) + tail2;
    assert(spec_encode_commitment(c) + rest =~= spec_u32_to_le_bytes(n32) + tail1);
    lemma_parse_u32_rt(n32, tail1);
    lemma_parse_payload_items_rt(c.payloads, tail2);
    lemma_parse_u32_rt(c.block_number, tail3);
    lemma_parse_u64_rt(c.validator_set_id, rest);
}

proof fn lemma_parse_signature_rt(sg: SignatureV, rest: Seq<u8>)
    requires
        valid_signature(sg),
    ensures
        spec_parse_signature(spec_encode_signature(sg) + rest) == Some((sg, rest)),
{
    assert(spec_encode_signature(sg) + rest =~= spec_u32_to_le_bytes(sg.index) + (sg.signature
        + rest));
    lemma_parse_u32_rt(sg.index, sg.signature + rest);
    lemma_parse_raw_rt(sg.signature, rest);
}

proof fn lemma_parse_signatures_rt(ss: Seq<SignatureV>, rest: Seq<u8>)
    requires
        forall|i: int| 0 <= i < ss.len() ==> valid_signature(#[trigger] ss[i]),
    ensures
        spec_parse_signatures(spec_encode_signatures(ss) + rest, ss.len()) == Some((ss, rest)),
    decreases ss.len(),
{
    if ss.len() == 0 {
        assert(spec_encode_signatures(ss) + rest =~= rest);
        assert(Seq::<SignatureV>::empty() =~= ss);
    } else {
        let tail = ss.skip(1);
        lemma_parse_signatures_rt(tail, rest);
        lemma_parse_signature_rt(ss[0], spec_encode_signatures(tail) + rest);
        assert(spec_encode_signatures(ss) + rest =~= spec_encode_signature(ss[0]) + (
        spec_encode_signatures(tail) + rest));
        assert(seq![ss[0]] + tail =~= ss);
    }
}

proof fn lemma_parse_signatures_section_rt(ss: Seq<SignatureV>, rest: Seq<u8>)
    requires
        ss.len() <= u32::MAX,
        forall|i: int| 0 <= i < ss.len() ==> valid_signature(#[trigger] ss[i]),
    ensures
        spec_parse_signatures_section(
            (spec_u32_to_le_bytes(ss.len() as u32) + spec_encode_signatures(ss)) + rest,
        ) == Some((ss, rest)),
{
    let s = (spec_u32_to_le_bytes(ss.len() as u32) + spec_encode_signatures(ss)) + rest;
    assert(s =~= spec_u32_to_le_bytes(ss.len() as u32) + (spec_encode_signatures(ss) + rest));
    lemma_parse_u32_rt(ss.len() as u32, spec_encode_signatures(ss) + rest);
    lemma_parse_signatures_rt(ss, rest);
}

proof fn lemma_parse_signed_commitment_rt(sc: SignedCommitmentV, rest: Seq<u8>)
    requires
        valid_signed_commitment(sc),
    ensures
        spec_parse_signed_commitment(spec_encode_signed_commitment(sc) + rest) == Some(
            (sc, rest),
        ),
{
    let section = spec_u32_to_le_bytes(sc.signatures.len() as u32) + spec_encode_signatures(
        sc.signatures,
    );
    match sc.commitment {
        None => {
            assert(spec_encode_signed_commitment(sc) + rest =~= seq![0u8] + (section + rest));
            lemma_parse_u8_rt(0u8, section + rest);
            lemma_parse_signatures_section_rt(sc.signatures, rest);
        },
        Some(c) => {
            assert(spec_encode_signed_commitment(sc) + rest =~= seq![1u8] + (
            spec_encode_commitment(c) + (section + rest)));
            lemma_parse_u8_rt(1u8, spec_encode_commitment(c) + (section + rest));
            lemma_parse_commitment_rt(c, section + rest);
            lemma_parse_signatures_section_rt(sc.signatures, rest);
        },
    }
}

/// Round trip: decoding the encoding of any valid signed commitment yields
/// exactly that commitment, with nothing left over.
pub proof fn lemma_signed_commitment_round_trip(sc: SignedCommitmentV)
    requires
        valid_signed_commitment(sc),
    ensures
        spec_decode_signed_commitment(spec_encode_signed_commitment(sc)) == Some(sc),
{
    lemma_parse_signed_commitment_rt(sc, Seq::empty());
    assert(spec_encode_signed_commitment(sc) + Seq::<u8>::empty() =~= spec_encode_signed_commitment(
        sc,
    ));
}

} // verus!
