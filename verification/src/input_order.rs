//! The canonical order of transaction inputs.

use crate::bytes::{bytes_le, lex_le};
use crate::ledger::{tx_id_eq, OutputRef};
use std::cmp::Ordering;
use vstd::prelude::*;

verus! {

/// `a` comes before `b`, or equals it, in the canonical order of inputs: by
/// transaction id in byte-lexicographic order, then by index.
pub open spec fn ref_le(a: OutputRef, b: OutputRef) -> bool {
    if a.tx_id == b.tx_id {
        a.index <= b.index
    } else {
        lex_le(a.tx_id@, b.tx_id@)
    }
}

/// How `a` stands to `b` in the canonical order of inputs.
pub fn output_ref_ordering(a: &OutputRef, b: &OutputRef) -> (r: Ordering)
    ensures
        (r == Ordering::Equal) == (*a == *b),
        (r == Ordering::Less) == (ref_le(*a, *b) && *a != *b),
        (r == Ordering::Greater) == !ref_le(*a, *b),
{
    if tx_id_eq(&a.tx_id, &b.tx_id) {
        if a.index < b.index {
            Ordering::Less
        } else if a.index == b.index {
            Ordering::Equal
        } else {
            Ordering::Greater
        }
    } else if bytes_le(a.tx_id.as_slice(), b.tx_id.as_slice()) {
        Ordering::Less
    } else {
        Ordering::Greater
    }
}

} // verus!
