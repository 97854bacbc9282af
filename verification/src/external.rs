//! What the manager asks of its surroundings.
use vstd::prelude::*;

use crate::types::CryptoHash;

verus! {

/// The surroundings of a contract execution, implemented by whoever embeds the manager.
///
/// An implementation may keep a record of the data ids that it generates, so that a proof can
/// tell which ids went where. One that keeps none promises nothing: an id may be any value.
pub trait External {
    /// A record of the generated data ids is kept.
    open spec fn keeps_record(&self) -> bool {
        false
    }

    /// The data ids that were generated so far, oldest first, where a record is kept.
    open spec fn generated(&self) -> Seq<CryptoHash> {
        Seq::empty()
    }

    /// Generates a data id to connect the output of one receipt to the input of another.
    fn generate_data_id(&mut self) -> (data_id: CryptoHash)
        ensures
            old(self).keeps_record() ==> final(self).keeps_record() && final(self).generated()
                == old(self).generated().push(data_id),
    ;
}

} // verus!
