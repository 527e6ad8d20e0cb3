//! The replies of the commands.
use vstd::prelude::*;

verus! {

/// A height as a reply carries it.
#[derive(Clone, Copy, Debug, PartialEq, Eq, Structural)]
pub struct Height {
    pub revision_number: u64,
    pub revision_height: u64,
}

#[derive(Clone, Debug, PartialEq, Eq)]
pub struct GenesisMetadata {
    pub key: Vec<u8>,
    pub value: Vec<u8>,
}

#[derive(Clone, Debug, PartialEq, Eq)]
pub struct StatusResponse {
    pub status: String,
}

#[derive(Clone, Debug, PartialEq, Eq)]
pub struct ExportMetadataResponse {
    pub genesis_metadata: Vec<GenesisMetadata>,
}

#[derive(Clone, Copy, Debug, PartialEq, Eq, Structural)]
pub struct TimestampAtHeightResponse {
    pub timestamp: u64,
}

#[derive(Clone, Copy, Debug, PartialEq, Eq, Structural)]
pub struct VerifyClientMessageResponse {}

#[derive(Clone, Copy, Debug, PartialEq, Eq, Structural)]
pub struct CheckForMisbehaviourResponse {
    pub found_misbehaviour: bool,
}

/// The reply of a successful change: the heights it produced, if any.
#[derive(Clone, Debug, PartialEq, Eq)]
pub struct ContractResult {
    pub heights: Option<Vec<Height>>,
}

/// Whether `r` lists exactly `hs`, in order.
pub open spec fn same_heights(r: Seq<Height>, hs: Seq<crate::msg::Height>) -> bool {
    &&& r.len() == hs.len()
    &&& forall|i: int|
        0 <= i < r.len() ==> (#[trigger] r[i]).revision_number == hs[i].revision_number
            && r[i].revision_height == hs[i].revision_height
}

impl ContractResult {
    pub fn success() -> (r: ContractResult)
        ensures
            r.heights is None,
    {
        ContractResult { heights: None }
    }

    /// This result, carrying `heights`.
    pub fn heights(self, heights: Vec<crate::msg::Height>) -> (r: ContractResult)
        ensures
            r.heights matches Some(v) && same_heights(v@, heights@),
    {
        let mut out: Vec<Height> = Vec::new();
        let mut i: usize = 0;
        while i < heights.len()
            invariant
                i <= heights@.len(),
                same_heights(out@, heights@.subrange(0, i as int)),
            decreases heights@.len() - i,
        {
            let h = heights[i];
            out.push(Height { revision_number: h.revision_number, revision_height: h.revision_height });
            i = i + 1;
        }
        proof {
            assert(heights@.subrange(0, heights@.len() as int) =~= heights@);
        }
        let mut r = self;
        r.heights = Some(out);
        r
    }
}

} // verus!
