//! Leaf nodes: a 32-byte value split into two independently encoded halves.

use vstd::prelude::*;

use crate::committer::Committer;

verus! {

/// The upper 16 bytes of a leaf value.
pub struct UpperValue(pub [u8; 16]);

/// The lower 16 bytes of a leaf value, followed by the bookkeeping byte
/// that distinguishes "never written" from "written as zero".
pub struct LowerValue(pub [u8; 17]);

/// The 17 bytes encoding the lower half of `value` under the given
/// modification flag: the first 16 value bytes, then the flag byte.
pub open spec fn spec_lower(value: Seq<u8>, modifier: bool) -> Seq<u8> {
    value.take(16).push(
        if modifier {
            1u8
        } else {
            0u8
        },
    )
}

/// The 16 bytes of the upper half of `value`.
pub open spec fn spec_upper(value: Seq<u8>) -> Seq<u8> {
    value.subrange(16, 32)
}

/// A leaf: the suffix selecting it within its suffix tree, the raw value,
/// the modification flag, and the cached byte halves and scalar encodings.
pub struct LeafNode<C: Committer> {
    pub suffix: [u8; 1],
    pub value: [u8; 32],
    pub lower: LowerValue,
    pub lower_field: C::Scalar,
    pub upper: UpperValue,
    pub upper_field: C::Scalar,
    pub modifier: bool,
}

impl<C: Committer> LeafNode<C> {
    /// The cached halves and scalar encodings agree with the value and the
    /// modification flag; every constructor and update re-derives them.
    pub open spec fn wf(&self) -> bool {
        &&& self.lower.0@ == spec_lower(self.value@, self.modifier)
        &&& self.upper.0@ == spec_upper(self.value@)
        &&& self.lower_field == C::spec_from_bytes(self.lower.0@)
        &&& self.upper_field == C::spec_from_bytes(self.upper.0@)
    }

    /// A fresh, never-modified leaf holding `value` under `suffix`.
    pub fn new(suffix: [u8; 1], value: [u8; 32]) -> (r: LeafNode<C>)
        ensures
            r.wf(),
            r.suffix == suffix,
            r.value == value,
            !r.modifier,
    {
        let modifier = false;
        let (lower, upper) = Self::split_node_value(value, modifier);
        let lower_field = C::from_bytes_to_scalar(lower.0.as_slice());
        let upper_field = C::from_bytes_to_scalar(upper.0.as_slice());
        LeafNode { suffix, value, modifier, lower, lower_field, upper, upper_field }
    }

    /// Overwrites the value, marking the leaf modified and re-deriving the
    /// cached halves and scalar encodings.
    pub fn update(&mut self, value: [u8; 32])
        ensures
            final(self).wf(),
            final(self).suffix == old(self).suffix,
            final(self).value == value,
            final(self).modifier,
    {
        self.modifier = true;
        self.value = value;
        let (lower, upper) = Self::split_node_value(value, true);
        self.lower_field = C::from_bytes_to_scalar(lower.0.as_slice());
        self.upper_field = C::from_bytes_to_scalar(upper.0.as_slice());
        self.lower = lower;
        self.upper = upper;
    }

    /// Splits a 32-byte value into its lower half (with the flag byte
    /// appended) and its upper half.
    pub fn split_node_value(value: [u8; 32], modifier: bool) -> (r: (LowerValue, UpperValue))
        ensures
            r.0.0@ == spec_lower(value@, modifier),
            r.1.0@ == spec_upper(value@),
    {
        let mut lower: [u8; 17] = [0u8; 17];
        let mut i: usize = 0;
        while i < 16
            invariant
                i <= 16,
                lower@.len() == 17,
                forall|k: int| 0 <= k < i ==> lower@[k] == value@[k],
            decreases 16 - i,
        {
            lower[i] = value[i];
            i = i + 1;
        }
        lower[16] = if modifier {
            1
        } else {
            0
        };
        let mut upper: [u8; 16] = [0u8; 16];
        let mut j: usize = 0;
        while j < 16
            invariant
                j <= 16,
                upper@.len() == 16,
                forall|k: int| 0 <= k < j ==> upper@[k] == value@[16 + k],
            decreases 16 - j,
        {
            upper[j] = value[16 + j];
            j = j + 1;
        }
        proof {
            assert(lower@ =~= spec_lower(value@, modifier));
            assert(upper@ =~= spec_upper(value@));
        }
        (LowerValue(lower), UpperValue(upper))
    }

    /// The two scalar encodings of the value halves, lower first.
    pub fn get_value_as_scalars(&self) -> (r: Vec<C::Scalar>)
        ensures
            r@ =~= seq![self.lower_field, self.upper_field],
    {
        let mut v: Vec<C::Scalar> = Vec::new();
        v.push(self.lower_field);
        v.push(self.upper_field);
        v
    }
}

} // verus!
