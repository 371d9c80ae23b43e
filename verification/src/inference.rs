use crate::error::{Error, Result};
use vstd::prelude::*;
use vstd::string::StringExecFns;

verus! {

/// Configuration for next-ID generation.
#[derive(Clone, Copy, Debug, PartialEq, Eq, Structural)]
pub struct GenerationConfig {
    /// Maximum number of new IDs to generate (default: 64).
    pub max_new_tokens: usize,
    /// Pad token ID (default: 0).
    pub pad_token_id: u32,
}

impl Default for GenerationConfig {
    fn default() -> (config: Self)
        ensures
            config.max_new_tokens == 64,
            config.pad_token_id == 0,
    {
        GenerationConfig { max_new_tokens: 64, pad_token_id: 0 }
    }
}

/// The lines `"  <path>"` of `candidates`, joined by newlines.
pub open spec fn searched_list(candidates: Seq<Seq<char>>) -> Seq<char>
    decreases candidates.len(),
{
    if candidates.len() == 0 {
        Seq::empty()
    } else if candidates.len() == 1 {
        "  "@ + candidates[0]
    } else {
        searched_list(candidates.drop_last()) + "\n"@ + "  "@ + candidates.last()
    }
}

/// Returns the first of `candidates` that exists (`exists[i]` tells whether
/// `candidates[i]` does), or an I/O error listing every candidate.
pub fn find_file(candidates: &[String], exists: &[bool]) -> (result: Result<String>)
    requires
        exists@.len() == candidates@.len(),
    ensures
        forall|i: int|
            0 <= i < candidates@.len() && #[trigger] exists@[i] && (forall|j: int|
                0 <= j < i ==> !exists@[j]) ==> (result matches Ok(path) && path@
                == candidates@[i]@),
        (forall|i: int| 0 <= i < candidates@.len() ==> !#[trigger] exists@[i]) ==> (result matches Err(
            e,
        ) && e is Io && e.message() == "file not found; searched:\n"@ + searched_list(
            candidates@.map_values(|c: String| c@),
        )),
{
    let mut i: usize = 0;
    while i < candidates.len()
        invariant
            exists@.len() == candidates@.len(),
            i <= candidates.len(),
            forall|j: int| 0 <= j < i ==> !exists@[j],
        decreases candidates.len() - i,
    {
        if exists[i] {
            return Ok(candidates[i].clone());
        }
        i = i + 1;
    }
    let ghost all = candidates@.map_values(|c: String| c@);
    let mut listing = String::new();
    let mut k: usize = 0;
    while k < candidates.len()
        invariant
            all == candidates@.map_values(|c: String| c@),
            k <= candidates.len(),
            listing@ == searched_list(all.take(k as int)),
        decreases candidates.len() - k,
    {
        proof {
            assert(all.take(k + 1).drop_last() =~= all.take(k as int));
        }
        if k > 0 {
            listing.append("\n");
        }
        listing.append("  ");
        listing.append(candidates[k].as_str());
        proof {
            if k == 0 {
                assert(listing@ =~= "  "@ + all[0]);
            }
        }
        k = k + 1;
    }
    assert(all.take(k as int) =~= all);
    Err(Error::Io(String::from_str("file not found; searched:\n").concat(listing.as_str())))
}

} // verus!
