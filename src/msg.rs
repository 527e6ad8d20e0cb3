//! Commands that the host sends, with their payloads as plain bytes.
use crate::error::ContractError;
use vstd::prelude::*;
use vstd::utf8::encode_utf8;

verus! {

/// A height: revision number and height within the revision, ordered by
/// revision first.
#[derive(Clone, Copy, Debug, PartialEq, Eq, Structural, Default)]
pub struct Height {
    pub revision_number: u64,
    pub revision_height: u64,
}

/// Creates the client from its initial states and the engine's checksum.
#[derive(Clone, Debug, PartialEq, Eq)]
pub struct InstantiateMsg {
    pub client_state: Vec<u8>,
    pub consensus_state: Vec<u8>,
    pub checksum: Vec<u8>,
}

/// The commands that change the client.
#[derive(Clone, Debug, PartialEq, Eq)]
pub enum SudoMsg {
    UpdateState(UpdateStateMsg),
    UpdateStateOnMisbehaviour(UpdateStateOnMisbehaviourMsg),
    VerifyUpgradeAndUpdateState(VerifyUpgradeAndUpdateStateMsg),
    VerifyMembership(VerifyMembershipMsg),
    VerifyNonMembership(VerifyNonMembershipMsg),
    MigrateClientStore(MigrateClientStoreMsg),
}

#[derive(Clone, Debug, PartialEq, Eq)]
pub struct UpdateStateMsg {
    pub client_message: Vec<u8>,
}

#[derive(Clone, Debug, PartialEq, Eq)]
pub struct UpdateStateOnMisbehaviourMsg {
    pub client_message: Vec<u8>,
}

#[derive(Clone, Debug, PartialEq, Eq)]
pub struct VerifyUpgradeAndUpdateStateMsg {
    pub upgrade_client_state: Vec<u8>,
    pub upgrade_consensus_state: Vec<u8>,
    pub proof_upgrade_client: Vec<u8>,
    pub proof_upgrade_consensus_state: Vec<u8>,
}

/// The path of a proven value: the store prefix, then the pieces of the path.
#[derive(Clone, Debug, PartialEq, Eq)]
pub struct MerklePath {
    pub key_path: Vec<Vec<u8>>,
}

/// The pieces of `parts` one after the other.
pub open spec fn concat(parts: Seq<Seq<u8>>) -> Seq<u8>
    decreases parts.len(),
{
    if parts.len() == 0 {
        seq![]
    } else {
        concat(parts.drop_last()) + parts.last()
    }
}

/// Whether `b` is valid UTF-8.
pub open spec fn is_utf8(b: Seq<u8>) -> bool {
    exists|t: Seq<char>| encode_utf8(t) == b
}

/// Relies on String::from_utf8: the text that `b` encodes, where `b` is
/// valid UTF-8.
#[verifier::external_body]
fn utf8_string(b: Vec<u8>) -> (r: Option<String>)
    ensures
        match r {
            Some(s) => encode_utf8(s@) == b@,
            None => !is_utf8(b@),
        },
{
    String::from_utf8(b).ok()
}

impl MerklePath {
    pub open spec fn pieces(&self) -> Seq<Seq<u8>> {
        self.key_path@.map_values(|v: Vec<u8>| v@)
    }

    /// The store prefix (the first piece) and the path (the others, joined
    /// and read as UTF-8).
    pub fn prefix_and_path(&self) -> (r: Result<(Vec<u8>, String), ContractError>)
        ensures
            self.pieces().len() == 0 ==> (r matches Err(ContractError::Generic(m)) && m@
                == "prefix not found in the merkle path"@),
            self.pieces().len() > 0 && !is_utf8(concat(self.pieces().drop_first())) ==> r == Err::<
                (Vec<u8>, String),
                _,
            >(ContractError::FromUtf8),
            self.pieces().len() > 0 && is_utf8(concat(self.pieces().drop_first())) ==> (r matches Ok(
                (prefix, path),
            ) && prefix@ == self.pieces()[0] && encode_utf8(path@) == concat(self.pieces().drop_first())),
    {
        if self.key_path.len() == 0 {
            return Err(ContractError::generic("prefix not found in the merkle path"));
        }
        let prefix = vstd::slice::slice_to_vec(self.key_path[0].as_slice());
        let mut joined: Vec<u8> = Vec::new();
        let mut i: usize = 1;
        while i < self.key_path.len()
            invariant
                1 <= i <= self.key_path@.len(),
                joined@ == concat(self.pieces().subrange(1, i as int)),
            decreases self.key_path@.len() - i,
        {
            joined.extend_from_slice(self.key_path[i].as_slice());
            proof {
                assert(self.pieces().subrange(1, i + 1).drop_last() =~= self.pieces().subrange(1, i as int));
                assert(joined@ =~= concat(self.pieces().subrange(1, i + 1)));
            }
            i = i + 1;
        }
        proof {
            assert(self.pieces().subrange(1, self.pieces().len() as int) =~= self.pieces().drop_first());
        }
        match utf8_string(joined) {
            Some(path) => Ok((prefix, path)),
            None => Err(ContractError::FromUtf8),
        }
    }
}

#[derive(Clone, Debug, PartialEq, Eq)]
pub struct VerifyMembershipMsg {
    pub height: Height,
    pub delay_time_period: u64,
    pub delay_block_period: u64,
    pub proof: Vec<u8>,
    pub merkle_path: MerklePath,
    pub value: Vec<u8>,
}

#[derive(Clone, Debug, PartialEq, Eq)]
pub struct VerifyNonMembershipMsg {
    pub height: Height,
    pub delay_time_period: u64,
    pub delay_block_period: u64,
    pub proof: Vec<u8>,
    pub merkle_path: MerklePath,
}

#[derive(Clone, Copy, Debug, PartialEq, Eq, Structural)]
pub struct MigrateClientStoreMsg {}

/// The read-only commands.
#[derive(Clone, Debug, PartialEq, Eq)]
pub enum QueryMsg {
    Status(StatusMsg),
    ExportMetadata(ExportMetadataMsg),
    TimestampAtHeight(TimestampAtHeightMsg),
    VerifyClientMessage(VerifyClientMessageMsg),
    CheckForMisbehaviour(CheckForMisbehaviourMsg),
}

#[derive(Clone, Copy, Debug, PartialEq, Eq, Structural)]
pub struct StatusMsg {}

#[derive(Clone, Copy, Debug, PartialEq, Eq, Structural)]
pub struct ExportMetadataMsg {}

#[derive(Clone, Copy, Debug, PartialEq, Eq, Structural)]
pub struct TimestampAtHeightMsg {
    pub height: Height,
}

#[derive(Clone, Debug, PartialEq, Eq)]
pub struct VerifyClientMessageMsg {
    pub client_message: Vec<u8>,
}

#[derive(Clone, Debug, PartialEq, Eq)]
pub struct CheckForMisbehaviourMsg {
    pub client_message: Vec<u8>,
}

} // verus!
