//! Fiat-Shamir transcripts: merlin's `Transcript` behind named operations,
//! and the protocol-level append and challenge helpers built on them.

use vstd::prelude::*;

use crate::field::{s_wide, scalar_from_bytes_wide, scalar_to_bytes, s_bytes_of};
use crate::group::{compressed_to_bytes, cr_bytes_of};

verus! {

use curve25519_dalek::ristretto::CompressedRistretto;
use curve25519_dalek::scalar::Scalar;
use merlin::Transcript;

#[verifier::external_type_specification]
#[verifier::external_body]
pub struct ExTranscript(Transcript);

/// What `Transcript::new` returns for a domain label.
pub uninterp spec fn fresh_transcript(label: Seq<u8>) -> Transcript;

/// What `Transcript::append_message` leaves the transcript as.
pub uninterp spec fn appended(t: Transcript, label: Seq<u8>, msg: Seq<u8>) -> Transcript;

/// What `Transcript::challenge_bytes` produces with a 64-byte buffer: the
/// transcript afterwards, and the challenge bytes.
pub uninterp spec fn challenged(t: Transcript, label: Seq<u8>) -> (Transcript, Seq<u8>);

/// Relies on `Transcript::append_message`: absorbs the labeled bytes,
/// deterministically in the prior state, label and message. The message
/// length must fit in 32 bits; the outside call aborts on anything longer.
#[verifier::external_body]
pub fn transcript_append_message(t: &mut Transcript, label: &'static [u8], message: &[u8])
    requires
        message@.len() <= 0xFFFF_FFFF,
    ensures
        *final(t) == appended(*old(t), label@, message@),
{
    t.append_message(label, message)
}

/// Relies on `Transcript::challenge_bytes` with a 64-byte buffer: both the
/// bytes and the successor state are functions of the prior state and the
/// label.
#[verifier::external_body]
pub fn transcript_challenge_bytes(t: &mut Transcript, label: &'static [u8]) -> (r: [u8; 64])
    ensures
        (*final(t), r@) == challenged(*old(t), label@),
{
    let mut buf = [0u8; 64];
    t.challenge_bytes(label, &mut buf);
    buf
}

/// The minimal big-endian encoding of a number: no leading zero bytes,
/// except that zero itself is the single byte zero.
pub open spec fn be_bytes_min(v: nat) -> Seq<u8>
    decreases v,
{
    if v < 256 {
        seq![v as u8]
    } else {
        be_bytes_min(v / 256).push((v % 256) as u8)
    }
}

/// `256^k`, the number of `k`-byte values.
pub open spec fn pow256(k: nat) -> nat
    decreases k,
{
    if k == 0 {
        1
    } else {
        256 * pow256((k - 1) as nat)
    }
}

/// A value below `256^k` takes at most `k` minimal big-endian bytes.
pub proof fn lemma_be_bytes_min_len(v: nat, k: nat)
    requires
        k >= 1,
        v < pow256(k),
    ensures
        be_bytes_min(v).len() <= k,
    decreases k,
{
    if v >= 256 {
        assert(pow256(0) == 1);
        assert(pow256(1) == 256);
        assert(k >= 2) by {
            if k == 1 {
                assert(v < pow256(1));
            }
        }
        assert(v / 256 < pow256((k - 1) as nat)) by (nonlinear_arith)
            requires
                v < pow256(k),
                pow256(k) == 256 * pow256((k - 1) as nat),
        ;
        lemma_be_bytes_min_len(v / 256, (k - 1) as nat);
    }
}

/// The minimal big-endian bytes of `v`, as [`be_bytes_min`] describes them.
pub fn to_be_bytes_min(v: usize) -> (r: Vec<u8>)
    ensures
        r@ == be_bytes_min(v as nat),
    decreases v,
{
    if v < 256 {
        let mut out: Vec<u8> = Vec::new();
        out.push(v as u8);
        proof {
            assert(out@ =~= be_bytes_min(v as nat));
        }
        out
    } else {
        let mut out = to_be_bytes_min(v / 256);
        out.push((v % 256) as u8);
        proof {
            assert(out@ =~= be_bytes_min(v as nat));
        }
        out
    }
}

/// Appending different kinds of protocol data to a Fiat-Shamir transcript.
pub trait TranscriptProtocol: Sized {
    /// The state after absorbing labeled bytes.
    spec fn spec_appended(self, label: Seq<u8>, msg: Seq<u8>) -> Self;

    /// The successor state and the bytes of a 64-byte challenge.
    spec fn spec_challenged(self, label: Seq<u8>) -> (Self, Seq<u8>);

    /// The state after absorbing each point of a sequence in order, under
    /// one label.
    spec fn spec_appended_points(self, label: Seq<u8>, pts: Seq<CompressedRistretto>) -> Self;

    /// Absorbs a number as its minimal big-endian bytes, so that the
    /// transcript does not depend on the machine's word size.
    fn append_usize(&mut self, label: &'static [u8], value: usize)
        ensures
            *final(self) == old(self).spec_appended(label@, be_bytes_min(value as nat)),
    ;

    /// Absorbs every point of a vector in order, under one label.
    fn append_points_vector(&mut self, label: &'static [u8], vec: &Vec<CompressedRistretto>)
        ensures
            *final(self) == old(self).spec_appended_points(label@, vec@),
    ;

    /// Absorbs a compressed point's 32 bytes.
    fn append_point(&mut self, label: &'static [u8], point: &CompressedRistretto)
        ensures
            *final(self) == old(self).spec_appended(label@, cr_bytes_of(*point)),
    ;

    /// Absorbs a scalar's 32 canonical bytes.
    fn append_scalar(&mut self, label: &'static [u8], scalar: &Scalar)
        ensures
            *final(self) == old(self).spec_appended(label@, s_bytes_of(*scalar)),
    ;

    /// Draws a challenge scalar: 64 challenge bytes reduced into the field.
    fn challenge_scalar(&mut self, label: &'static [u8]) -> (r: Scalar)
        ensures
            *final(self) == old(self).spec_challenged(label@).0,
            r == s_wide(old(self).spec_challenged(label@).1),
    ;
}

impl TranscriptProtocol for Transcript {
    open spec fn spec_appended(self, label: Seq<u8>, msg: Seq<u8>) -> Transcript {
        appended(self, label, msg)
    }

    open spec fn spec_challenged(self, label: Seq<u8>) -> (Transcript, Seq<u8>) {
        challenged(self, label)
    }

    open spec fn spec_appended_points(
        self,
        label: Seq<u8>,
        pts: Seq<CompressedRistretto>,
    ) -> Transcript
        decreases pts.len(),
    {
        if pts.len() == 0 {
            self
        } else {
            appended(self, label, cr_bytes_of(pts[0])).spec_appended_points(
                label,
                pts.subrange(1, pts.len() as int),
            )
        }
    }

    fn append_usize(&mut self, label: &'static [u8], value: usize) {
        let bytes = to_be_bytes_min(value);
        proof {
            assert((value as nat) < pow256(8)) by {
                reveal_with_fuel(pow256, 9);
            }
            lemma_be_bytes_min_len(value as nat, 8);
        }
        transcript_append_message(self, label, bytes.as_slice());
    }

    fn append_points_vector(&mut self, label: &'static [u8], vec: &Vec<CompressedRistretto>) {
        proof {
            assert(vec@.subrange(0, vec@.len() as int) =~= vec@);
        }
        let mut i: usize = 0;
        while i < vec.len()
            invariant
                i <= vec@.len(),
                self.spec_appended_points(label@, vec@.subrange(i as int, vec@.len() as int))
                    == old(self).spec_appended_points(label@, vec@),
            decreases vec@.len() - i,
        {
            self.append_point(label, &vec[i]);
            proof {
                let rest = vec@.subrange(i as int, vec@.len() as int);
                assert(rest.subrange(1, rest.len() as int) =~= vec@.subrange(
                    i + 1,
                    vec@.len() as int,
                ));
                assert(rest[0] == vec@[i as int]);
            }
            i = i + 1;
        }
        proof {
            assert(vec@.subrange(vec@.len() as int, vec@.len() as int).len() == 0);
        }
    }

    fn append_point(&mut self, label: &'static [u8], point: &CompressedRistretto) {
        let bytes = compressed_to_bytes(point);
        transcript_append_message(self, label, bytes.as_slice());
    }

    fn append_scalar(&mut self, label: &'static [u8], scalar: &Scalar) {
        let bytes = scalar_to_bytes(scalar);
        transcript_append_message(self, label, bytes.as_slice());
    }

    fn challenge_scalar(&mut self, label: &'static [u8]) -> (r: Scalar) {
        let buf = transcript_challenge_bytes(self, label);
        scalar_from_bytes_wide(&buf)
    }
}

} // verus!
