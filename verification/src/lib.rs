//! Validation of an untrusted numeric identifier against a configured
//! allow-list, at the boundary where request parameters are parsed.
//!
//! The crate offers two pieces. `allow_list::AllowListStore` is a set of
//! supported values, built once from configuration text and read-only
//! thereafter. `supported_id::SupportedChainId` is a wrapper that can only
//! be constructed by parsing a raw string and checking it against the
//! store, so holding one proves the check was performed and downstream
//! code can rely on the value without re-checking.

pub mod allow_list;
pub mod digits;
pub mod supported_id;
