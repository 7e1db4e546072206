//! Header data and the deterministic byte layout of the message that
//! validators sign: the big-endian height, the raw timestamp bytes, the
//! application hash and the validator-set hash, in that fixed order, hashed
//! with SHA-256.

use vstd::prelude::*;

verus! {

use vstd::utf8::encode_utf8;

/// One signature of a committee member over a header digest, referenced by
/// the 20-byte address derived from the member's public key.
#[derive(Clone, Debug)]
pub struct CommitSignature {
    pub validator_address: [u8; 20],
    pub signature: Vec<u8>,
}

/// One committed block header; `app_hash` is the fact being attested.
#[derive(Clone, Debug)]
pub struct TendermintHeader {
    pub height: u64,
    pub time: String,
    pub app_hash: [u8; 32],
    pub validators_hash: [u8; 32],
    pub commit_signatures: Vec<CommitSignature>,
}

/// The SHA-256 digest of a byte sequence, named but not written out: it is
/// computed only by the `sha2` crate and never restated here.
pub uninterp spec fn sha256_of(bytes: Seq<u8>) -> Seq<u8>;

/// Relies on sha2::Sha256 (`update`, `finalize`): the 32-byte SHA-256 digest,
/// a function of the input bytes alone.
#[verifier::external_body]
pub(crate) fn sha256(bytes: &[u8]) -> (r: [u8; 32])
    ensures
        r@ == sha256_of(bytes@),
        r@.len() == 32,
{
    let mut hasher = <sha2::Sha256 as sha2::digest::Digest>::new();
    sha2::digest::Digest::update(&mut hasher, bytes);
    let out = sha2::digest::Digest::finalize(hasher);
    out.into()
}

/// The eight big-endian bytes of a 64-bit integer.
pub open spec fn u64_be_bytes(x: u64) -> Seq<u8> {
    seq![
        ((x >> 56) & 0xff) as u8,
        ((x >> 48) & 0xff) as u8,
        ((x >> 40) & 0xff) as u8,
        ((x >> 32) & 0xff) as u8,
        ((x >> 24) & 0xff) as u8,
        ((x >> 16) & 0xff) as u8,
        ((x >> 8) & 0xff) as u8,
        (x & 0xff) as u8,
    ]
}

/// The signing message of a header: height (big-endian), timestamp bytes,
/// application hash, validator-set hash, concatenated in this order and no
/// other.
pub open spec fn header_message(h: TendermintHeader) -> Seq<u8> {
    u64_be_bytes(h.height) + encode_utf8(h.time@) + h.app_hash@ + h.validators_hash@
}

/// The 32-byte digest every validator signature is computed over.
pub open spec fn header_digest(h: TendermintHeader) -> Seq<u8> {
    sha256_of(header_message(h))
}

/// The signing message binds the four signed fields exactly: two headers
/// produce the same message if and only if they agree on height, timestamp,
/// application hash and validator-set hash. So the digest is deterministic in
/// those fields, and a change to any one of them changes the message (and
/// with it the digest, short of a SHA-256 collision).
pub proof fn lemma_message_binds_fields(h1: TendermintHeader, h2: TendermintHeader)
    ensures
        header_message(h1) == header_message(h2) <==> (h1.height == h2.height && h1.time@
            == h2.time@ && h1.app_hash@ == h2.app_hash@ && h1.validators_hash@
            == h2.validators_hash@),
{
    broadcast use vstd::array::group_array_axioms;

    if h1.height == h2.height && h1.time@ == h2.time@ && h1.app_hash@ == h2.app_hash@
        && h1.validators_hash@ == h2.validators_hash@ {
        assert(header_message(h1) == header_message(h2));
    }
    if header_message(h1) == header_message(h2) {
        let m1 = header_message(h1);
        let m2 = header_message(h2);
        let t1 = encode_utf8(h1.time@);
        let t2 = encode_utf8(h2.time@);
        let tn = t1.len() as int;
        assert(m1.len() == 8 + t1.len() + 64);
        assert(m2.len() == 8 + t2.len() + 64);
        assert(t1.len() == t2.len());
        let x1 = h1.height;
        let x2 = h2.height;
        assert forall|i: int| 0 <= i < 8 implies u64_be_bytes(x1)[i] == u64_be_bytes(x2)[i] by {
            assert(m1[i] == u64_be_bytes(x1)[i]);
            assert(m2[i] == u64_be_bytes(x2)[i]);
        }
        assert(((x1 >> 56) & 0xff) < 256 && ((x1 >> 48) & 0xff) < 256 && ((x1 >> 40) & 0xff) < 256
            && ((x1 >> 32) & 0xff) < 256 && ((x1 >> 24) & 0xff) < 256 && ((x1 >> 16) & 0xff) < 256
            && ((x1 >> 8) & 0xff) < 256 && (x1 & 0xff) < 256) by (bit_vector);
        assert(((x2 >> 56) & 0xff) < 256 && ((x2 >> 48) & 0xff) < 256 && ((x2 >> 40) & 0xff) < 256
            && ((x2 >> 32) & 0xff) < 256 && ((x2 >> 24) & 0xff) < 256 && ((x2 >> 16) & 0xff) < 256
            && ((x2 >> 8) & 0xff) < 256 && (x2 & 0xff) < 256) by (bit_vector);
        assert(x1 == x2) by (bit_vector)
            requires
                (x1 >> 56) & 0xff == (x2 >> 56) & 0xff,
                (x1 >> 48) & 0xff == (x2 >> 48) & 0xff,
                (x1 >> 40) & 0xff == (x2 >> 40) & 0xff,
                (x1 >> 32) & 0xff == (x2 >> 32) & 0xff,
                (x1 >> 24) & 0xff == (x2 >> 24) & 0xff,
                (x1 >> 16) & 0xff == (x2 >> 16) & 0xff,
                (x1 >> 8) & 0xff == (x2 >> 8) & 0xff,
                x1 & 0xff == x2 & 0xff,
        ;
        assert forall|i: int| 0 <= i < tn implies t1[i] == t2[i] by {
            assert(m1[8 + i] == t1[i]);
            assert(m2[8 + i] == t2[i]);
        }
        assert(t1 =~= t2);
        vstd::utf8::encode_utf8_decode_utf8(h1.time@);
        vstd::utf8::encode_utf8_decode_utf8(h2.time@);
        assert(h1.time@ == h2.time@);
        assert forall|i: int| 0 <= i < 32 implies h1.app_hash@[i] == h2.app_hash@[i] by {
            assert(m1[8 + tn + i] == h1.app_hash@[i]);
            assert(m2[8 + tn + i] == h2.app_hash@[i]);
        }
        assert(h1.app_hash@ =~= h2.app_hash@);
        assert forall|i: int| 0 <= i < 32 implies h1.validators_hash@[i] == h2.validators_hash@[i]
            by {
            assert(m1[8 + tn + 32 + i] == h1.validators_hash@[i]);
            assert(m2[8 + tn + 32 + i] == h2.validators_hash@[i]);
        }
        assert(h1.validators_hash@ =~= h2.validators_hash@);
    }
}

impl TendermintHeader {
    /// The digest of this header for signing: SHA-256 over the pinned field
    /// layout. Pure; two headers with equal fields get equal digests.
    pub fn digest(&self) -> (r: [u8; 32])
        ensures
            r@ == header_digest(*self),
            r@.len() == 32,
    {
        let mut msg: Vec<u8> = Vec::new();
        let x = self.height;
        proof {
            assert(((x >> 56) & 0xff) < 256 && ((x >> 48) & 0xff) < 256 && ((x >> 40) & 0xff)
                < 256 && ((x >> 32) & 0xff) < 256 && ((x >> 24) & 0xff) < 256 && ((x >> 16) & 0xff)
                < 256 && ((x >> 8) & 0xff) < 256 && (x & 0xff) < 256) by (bit_vector);
        }
        msg.push(((x >> 56) & 0xff) as u8);
        msg.push(((x >> 48) & 0xff) as u8);
        msg.push(((x >> 40) & 0xff) as u8);
        msg.push(((x >> 32) & 0xff) as u8);
        msg.push(((x >> 24) & 0xff) as u8);
        msg.push(((x >> 16) & 0xff) as u8);
        msg.push(((x >> 8) & 0xff) as u8);
        msg.push((x & 0xff) as u8);
        proof {
            assert(msg@ =~= u64_be_bytes(x));
        }
        let time_bytes: &[u8] = self.time.as_str().as_bytes();
        let tn = time_bytes.len();
        let mut i: usize = 0;
        while i < tn
            invariant
                i <= tn,
                tn == time_bytes@.len(),
                time_bytes@ == encode_utf8(self.time@),
                msg@ == u64_be_bytes(self.height) + time_bytes@.take(i as int),
            decreases tn - i,
        {
            msg.push(time_bytes[i]);
            proof {
                assert(time_bytes@.take(i + 1) =~= time_bytes@.take(i as int).push(
                    time_bytes@[i as int],
                ));
            }
            i = i + 1;
        }
        proof {
            assert(time_bytes@.take(tn as int) =~= time_bytes@);
        }
        let mut i: usize = 0;
        while i < 32
            invariant
                i <= 32,
                msg@ == u64_be_bytes(self.height) + encode_utf8(self.time@) + self.app_hash@.take(
                    i as int,
                ),
            decreases 32 - i,
        {
            msg.push(self.app_hash[i]);
            proof {
                assert(self.app_hash@.take(i + 1) =~= self.app_hash@.take(i as int).push(
                    self.app_hash@[i as int],
                ));
            }
            i = i + 1;
        }
        proof {
            assert(self.app_hash@.take(32) =~= self.app_hash@);
        }
        let mut i: usize = 0;
        while i < 32
            invariant
                i <= 32,
                msg@ == u64_be_bytes(self.height) + encode_utf8(self.time@) + self.app_hash@
                    + self.validators_hash@.take(i as int),
            decreases 32 - i,
        {
            msg.push(self.validators_hash[i]);
            proof {
                assert(self.validators_hash@.take(i + 1) =~= self.validators_hash@.take(
                    i as int,
                ).push(self.validators_hash@[i as int]));
            }
            i = i + 1;
        }
        proof {
            assert(self.validators_hash@.take(32) =~= self.validators_hash@);
            assert(msg@ == header_message(*self));
        }
        sha256(msg.as_slice())
    }
}

} // verus!
