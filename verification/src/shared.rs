//! Shared handles and the content digest.
//!
//! Fetchers and persisters are shared by reference between the coordinator
//! and every job; the two `Arc` helpers below carry that sharing through
//! verified code.

use crate::chars::{digits_value, is_digit};
use std::collections::hash_map::DefaultHasher;
use std::hash::{Hash, Hasher};
use std::sync::Arc;
use vstd::prelude::*;

verus! {

/// What the standard hasher digests a byte slice to, rendered in base 10.
pub uninterp spec fn hash_chars(content: Seq<u8>) -> Seq<char>;

/// The content digest used in content identifiers: the 64-bit hash of the
/// bytes, rendered in base 10.
///
/// Relies on std's `DefaultHasher` (SipHash-1-3 with fixed zero keys):
/// the digest is a function of the bytes alone, the same in every process;
/// and on `u64::to_string`: the base-10 rendering of a 64-bit value is a
/// nonempty string of decimal digits, without sign or prefix.
#[verifier::external_body]
pub fn hash(content: &[u8]) -> (r: String)
    ensures
        r@ == hash_chars(content@),
        r@.len() >= 1,
        forall|i: int| 0 <= i < r@.len() ==> is_digit(#[trigger] r@[i]),
        digits_value(r@) <= u64::MAX,
{
    let mut hasher = DefaultHasher::new();
    content.hash(&mut hasher);
    hasher.finish().to_string()
}

/// Relies on `Arc::clone`: the clone refers to the same value.
#[verifier::external_body]
pub(crate) fn arc_clone<T>(a: &Arc<T>) -> (r: Arc<T>)
    ensures
        r == *a,
{
    a.clone()
}

/// Relies on `Arc::as_ref`: the reference is to the held value.
#[verifier::external_body]
pub(crate) fn arc_ref<T>(a: &Arc<T>) -> (r: &T)
    ensures
        *r == *a,
{
    a.as_ref()
}

} // verus!
