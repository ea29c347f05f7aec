//! The per-edge contact record produced by the narrow phase.

use vstd::prelude::*;
use crate::segment::Contact;

verus! {

/// A fixed record of exactly four slots, one per edge of the subject, in
/// the order top, right, bottom, left; each slot optionally holds the
/// contact point found on that edge.  The slot order is fixed and never
/// reordered; "all four empty" is the distinguished no-collision state.
#[derive(Clone, Copy, PartialEq, Debug)]
pub struct CollisionResult {
    pub top: Option<Contact>,
    pub right: Option<Contact>,
    pub bottom: Option<Contact>,
    pub left: Option<Contact>,
}

/// No slot holds a contact.
pub open spec fn result_is_empty(r: CollisionResult) -> bool {
    r.top is None && r.right is None && r.bottom is None && r.left is None
}

/// The merge rule: per slot, the first present value wins, so the
/// left-hand operand beats the right-hand one only where both are present.
pub open spec fn spec_combine(a: CollisionResult, b: CollisionResult) -> CollisionResult {
    CollisionResult {
        top: if a.top is Some {
            a.top
        } else {
            b.top
        },
        right: if a.right is Some {
            a.right
        } else {
            b.right
        },
        bottom: if a.bottom is Some {
            a.bottom
        } else {
            b.bottom
        },
        left: if a.left is Some {
            a.left
        } else {
            b.left
        },
    }
}

impl CollisionResult {
    pub fn new(
        top: Option<Contact>,
        right: Option<Contact>,
        bottom: Option<Contact>,
        left: Option<Contact>,
    ) -> (r: CollisionResult)
        ensures
            r.top == top,
            r.right == right,
            r.bottom == bottom,
            r.left == left,
    {
        CollisionResult { top, right, bottom, left }
    }

    /// The all-empty record.
    pub fn empty() -> (r: CollisionResult)
        ensures
            result_is_empty(r),
    {
        CollisionResult { top: None, right: None, bottom: None, left: None }
    }

    /// Converts the all-empty record to an absent-collision value, so call
    /// sites can test one `Option` instead of four.
    pub fn into_option(self) -> (r: Option<CollisionResult>)
        ensures
            r is Some <==> !result_is_empty(self),
            r matches Some(inner) ==> inner == self,
    {
        if self.top.is_none() && self.right.is_none() && self.bottom.is_none()
            && self.left.is_none() {
            None
        } else {
            Some(self)
        }
    }

    /// Merges two records slot by slot; per slot the first present value
    /// wins, so `self` beats `other` only where both slots are present.
    pub fn combine(self, other: CollisionResult) -> (r: CollisionResult)
        ensures
            r == spec_combine(self, other),
    {
        CollisionResult {
            top: if self.top.is_some() {
                self.top
            } else {
                other.top
            },
            right: if self.right.is_some() {
                self.right
            } else {
                other.right
            },
            bottom: if self.bottom.is_some() {
                self.bottom
            } else {
                other.bottom
            },
            left: if self.left.is_some() {
                self.left
            } else {
                other.left
            },
        }
    }
}

impl Default for CollisionResult {
    /// The all-empty record, as `CollisionResult::empty` builds it.
    fn default() -> (r: CollisionResult)
        ensures
            result_is_empty(r),
    {
        CollisionResult { top: None, right: None, bottom: None, left: None }
    }
}

/// Merging is idempotent: merging a record with itself changes nothing.
pub proof fn lemma_combine_idempotent(r: CollisionResult)
    ensures
        spec_combine(r, r) == r,
{
}

/// The all-empty record is the identity of the merge, on either side.
pub proof fn lemma_combine_empty_identity(r: CollisionResult, e: CollisionResult)
    requires
        result_is_empty(e),
    ensures
        spec_combine(r, e) == r,
        spec_combine(e, r) == r,
{
}

} // verus!
