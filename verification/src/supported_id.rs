//! The validated-identifier abstraction.
//!
//! A `SupportedChainId` can only be obtained through `parse_from_parameter`,
//! which parses a raw string parameter as an unsigned 64-bit integer and
//! checks it against the allow-list. A value of this type is therefore
//! proof that the check was performed: downstream code need not re-check.

use vstd::prelude::*;
use vstd::string::StringSliceAdditionalSpecFns;

use crate::allow_list::AllowListStore;
use crate::digits::decimal_repr;
use crate::digits::lemma_decimal_repr_round_trip;
use crate::digits::parse_u64_decimal;
use crate::digits::parsed_u64;

verus! {

/// Why a raw parameter was rejected. Both kinds are per-request errors:
/// the caller reports them to its client and carries on.
#[derive(Debug)]
pub enum ValidationError {
    /// The raw text is not an unsigned 64-bit decimal integer literal;
    /// carries the original text for diagnostics.
    MalformedInput { raw: String },
    /// The text parsed as an integer, but the integer is not in the
    /// allow-list; carries the parsed value.
    NotSupported { value: u64 },
}

/// A chain identifier whose value was confirmed, at construction, to be a
/// member of the allow-list. The field is private and the only public
/// constructor is `parse_from_parameter`, so every instance carries that
/// guarantee.
#[derive(Debug, Clone, Copy, PartialEq, Eq, Hash, Structural)]
pub struct SupportedChainId {
    value: u64,
}

impl View for SupportedChainId {
    type V = u64;

    closed spec fn view(&self) -> u64 {
        self.value
    }
}

/// What `parse_from_parameter` guarantees of its result `r`, given the
/// bytes `s` of the raw parameter and the allow-list `allowed`. The three
/// arms exclude one another, so this determines the outcome for every
/// input: a value in the allow-list is accepted and returned, a value
/// outside it is `NotSupported`, and text that does not denote an
/// unsigned 64-bit integer is `MalformedInput`.
pub open spec fn parse_post(
    s: Seq<u8>,
    allowed: Set<u64>,
    r: Result<SupportedChainId, ValidationError>,
) -> bool {
    match r {
        Ok(id) => parsed_u64(s) == Some(id@) && allowed.contains(id@),
        Err(ValidationError::MalformedInput { .. }) => parsed_u64(s) is None,
        Err(ValidationError::NotSupported { value }) => parsed_u64(s) == Some(value)
            && !allowed.contains(value),
    }
}

impl SupportedChainId {
    /// The wrapped value.
    pub fn value(&self) -> (v: u64)
        ensures
            v == self@,
    {
        self.value
    }

    /// The single gate through which a raw string parameter becomes a
    /// trusted identifier: parse the text as an unsigned 64-bit integer,
    /// then check membership in `store`. `MalformedInput` carries the raw
    /// text unchanged.
    pub fn parse_from_parameter(value: &str, store: &AllowListStore) -> (r: Result<
        SupportedChainId,
        ValidationError,
    >)
        ensures
            parse_post(value.spec_bytes(), store@, r),
            (r matches Err(ValidationError::MalformedInput { raw }) ==> raw@ == value@),
    {
        match parse_u64_decimal(value) {
            None => Err(ValidationError::MalformedInput { raw: value.to_owned() }),
            Some(number) => {
                if store.contains(number) {
                    Ok(SupportedChainId { value: number })
                } else {
                    Err(ValidationError::NotSupported { value: number })
                }
            },
        }
    }
}

/// Law: every value in the allow-list, written in decimal, is accepted.
/// Its decimal representation parses back to the value itself, so any
/// result that meets the parse contract wraps exactly that value.
pub proof fn lemma_allow_listed_decimal_accepted(n: u64, allowed: Set<u64>)
    requires
        allowed.contains(n),
    ensures
        parsed_u64(decimal_repr(n)) == Some(n),
        forall|r: Result<SupportedChainId, ValidationError>|
            #[trigger] parse_post(decimal_repr(n), allowed, r) ==> (r matches Ok(id) && id@
                == n),
{
    lemma_decimal_repr_round_trip(n);
}

/// Law: every representable value outside the allow-list, written in
/// decimal, is rejected as `NotSupported`, carrying the value itself.
pub proof fn lemma_unlisted_decimal_rejected(n: u64, allowed: Set<u64>)
    requires
        !allowed.contains(n),
    ensures
        parsed_u64(decimal_repr(n)) == Some(n),
        forall|r: Result<SupportedChainId, ValidationError>|
            #[trigger] parse_post(decimal_repr(n), allowed, r) ==> (r matches Err(
                ValidationError::NotSupported { value },
            ) && value == n),
{
    lemma_decimal_repr_round_trip(n);
}

/// Law: a string whose bytes do not denote an unsigned 64-bit integer
/// (negative numbers, non-numeric text, fractions, values past the 64-bit
/// range) is rejected as `MalformedInput`, whatever the allow-list holds.
pub proof fn lemma_malformed_input_rejected(s: Seq<u8>, allowed: Set<u64>)
    requires
        parsed_u64(s) is None,
    ensures
        forall|r: Result<SupportedChainId, ValidationError>|
            #[trigger] parse_post(s, allowed, r) ==> r matches Err(
                ValidationError::MalformedInput { .. },
            ),
{
}

/// Law: parsing is a pure function of the raw input and the allow-list.
/// Two results that both meet the parse contract for the same input agree
/// on success, and two successes wrap equal values.
pub proof fn lemma_parse_deterministic(
    s: Seq<u8>,
    allowed: Set<u64>,
    r1: Result<SupportedChainId, ValidationError>,
    r2: Result<SupportedChainId, ValidationError>,
)
    requires
        parse_post(s, allowed, r1),
        parse_post(s, allowed, r2),
    ensures
        r1 is Ok <==> r2 is Ok,
        (r1 matches Ok(a) ==> (r2 matches Ok(b) && a@ == b@)),
{
}

} // verus!
