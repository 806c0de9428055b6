//! The process-wide allow-list of supported identifier values.
//!
//! An `AllowListStore` is built exactly once, from configuration text
//! holding a JSON array of unsigned 64-bit integers, and is queried
//! read-only thereafter.

use vstd::prelude::*;

verus! {

/// The integers that `serde_json` reads out of a text, when the text is a
/// JSON array of unsigned 64-bit integers, in the order they are listed;
/// `None` when the text is not such an array. The outcome is a function
/// of the text alone.
pub uninterp spec fn parsed_id_list(s: Seq<char>) -> Option<Seq<u64>>;

/// The configuration text could not be read as a JSON array of unsigned
/// 64-bit integers. Loading configuration is a startup concern: this
/// error is fatal to the process, not to a single request.
#[derive(Debug)]
pub struct ConfigError;

#[verifier::external_type_specification]
#[verifier::external_body]
pub struct ExJsonError(serde_json::Error);

/// Relies on serde_json::from_str with target `Vec<u64>`: it succeeds
/// exactly on a JSON array of unsigned 64-bit integers and then yields
/// the integers of the array; success and contents depend on the text
/// alone.
#[verifier::external_body]
fn decode_id_array(text: &str) -> (r: Result<Vec<u64>, serde_json::Error>)
    ensures
        r is Ok <==> parsed_id_list(text@) is Some,
        r matches Ok(v) ==> Some(v@) == parsed_id_list(text@),
{
    serde_json::from_str::<Vec<u64>>(text)
}

/// The set of identifier values considered valid. Immutable once built:
/// any number of readers may query it concurrently without coordination.
pub struct AllowListStore {
    ids: Vec<u64>,
}

impl View for AllowListStore {
    type V = Set<u64>;

    closed spec fn view(&self) -> Set<u64> {
        self.ids@.to_set()
    }
}

impl AllowListStore {
    /// Builds the store from configuration text: a JSON array of unsigned
    /// 64-bit integers, e.g. `[1, 8543]`. Fails exactly when the text is
    /// not such an array; on success the members of the store are exactly
    /// the values listed in the text.
    pub fn from_config_text(text: &str) -> (r: Result<AllowListStore, ConfigError>)
        ensures
            r is Ok <==> parsed_id_list(text@) is Some,
            r matches Ok(store) ==> (forall|v: u64|
                #[trigger] store@.contains(v) <==> parsed_id_list(text@).unwrap().contains(v)),
    {
        match decode_id_array(text) {
            Ok(ids) => Ok(AllowListStore { ids }),
            Err(_) => Err(ConfigError),
        }
    }

    /// Pure membership query: true exactly when `candidate` is a member
    /// of the allow-list. Reads the cached set and mutates nothing.
    pub fn contains(&self, candidate: u64) -> (r: bool)
        ensures
            r == self@.contains(candidate),
    {
        let n = self.ids.len();
        let mut i: usize = 0;
        while i < n
            invariant
                i <= n,
                n == self.ids@.len(),
                forall|j: int| 0 <= j < i ==> self.ids@[j] != candidate,
        decreases n - i,
        {
            if self.ids[i] == candidate {
                proof {
                    assert(self.ids@.contains(candidate));
                }
                return true;
            }
            i = i + 1;
        }
        proof {
            assert(!self.ids@.contains(candidate));
        }
        false
    }
}

} // verus!
