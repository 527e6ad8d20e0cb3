//! The command dispatcher: each command loads what it needs, asks the
//! verification engine, and persists or reports the outcome.
use crate::context::{
    be_bytes, client_state_path, consensus_state_path, lemma_client_state_write_keeps_consensus_states,
    processed_height_path, processed_time_path, Context,
};
use crate::envelope::{decode_any, hosted_client_state_bytes, hosted_consensus_state_bytes, Any, AnyView};
use crate::error::{ContractError, LightError};
use crate::msg::{concat, is_utf8, Height, InstantiateMsg, QueryMsg, SudoMsg};
use crate::response::{
    same_heights, CheckForMisbehaviourResponse, ContractResult, StatusResponse, TimestampAtHeightResponse,
    VerifyClientMessageResponse,
};
use crate::store::{KVStore, KVStoreRead};
use vstd::prelude::*;

verus! {

/// What the engine reports of a new client.
#[derive(Clone, Copy, Debug, PartialEq, Eq, Structural)]
pub struct CreateClientResult {
    pub height: Height,
}

/// A client message that advances the client.
#[derive(Clone, Debug, PartialEq, Eq)]
pub struct UpdateStateData {
    pub new_any_client_state: Any,
    pub new_any_consensus_state: Any,
    pub height: Height,
}

/// A client message that proves misbehaviour.
#[derive(Clone, Debug, PartialEq, Eq)]
pub struct MisbehaviourData {
    pub new_any_client_state: Any,
}

/// The outcome of an update.
#[derive(Clone, Debug, PartialEq, Eq)]
pub enum UpdateClientResult {
    UpdateState(UpdateStateData),
    Misbehaviour(MisbehaviourData),
}

/// The verification engine: the consensus rules of one kind of chain. It
/// reads the client's stored states through the context it is handed.
pub trait LightClient {
    fn create_client<S: KVStoreRead>(
        &self,
        ctx: &Context<S>,
        any_client_state: &Any,
        any_consensus_state: &Any,
    ) -> Result<CreateClientResult, LightError>;

    fn update_client<S: KVStoreRead>(&self, ctx: &Context<S>, client_message: &Any) -> Result<UpdateClientResult, LightError>;

    fn verify_membership<S: KVStoreRead>(
        &self,
        ctx: &Context<S>,
        prefix: &Vec<u8>,
        path: &String,
        value: &Vec<u8>,
        height: Height,
        proof: &Vec<u8>,
    ) -> Result<(), LightError>;

    fn verify_non_membership<S: KVStoreRead>(
        &self,
        ctx: &Context<S>,
        prefix: &Vec<u8>,
        path: &String,
        height: Height,
        proof: &Vec<u8>,
    ) -> Result<(), LightError>;

    fn latest_height<S: KVStoreRead>(&self, ctx: &Context<S>) -> Result<Height, LightError>;

    /// "Active" or "Frozen", as the inner client state says.
    fn get_status_from_client_state(&self, any_client_state: &Any) -> Result<String, ContractError>;

    /// The time, in nanoseconds, that the inner consensus state records.
    fn get_timestamp_from_consensus_state(&self, any_consensus_state: &Any) -> Result<u64, ContractError>;
}

/// The reply of a query.
#[derive(Clone, Debug, PartialEq, Eq)]
pub enum QueryResponse {
    Status(StatusResponse),
    TimestampAtHeight(TimestampAtHeightResponse),
    VerifyClientMessage(VerifyClientMessageResponse),
    CheckForMisbehaviour(CheckForMisbehaviourResponse),
}

impl<S: KVStoreRead> Context<S> {
    /// The store after a new state at `height`: the client state, the
    /// consensus state and both update records.
    pub open spec fn with_new_state(
        &self,
        client_state: AnyView,
        consensus_state: AnyView,
        checksum: Seq<u8>,
        height: Height,
    ) -> Map<Seq<u8>, Seq<u8>> {
        self.contents().insert(
            self.key(client_state_path()),
            hosted_client_state_bytes(client_state, checksum, height),
        ).insert(self.key(consensus_state_path(height)), hosted_consensus_state_bytes(consensus_state)).insert(
            self.key(processed_time_path(height)),
            be_bytes(self.block_time_nanos as nat, 8),
        ).insert(self.key(processed_height_path(height)), be_bytes(self.block_height as nat, 8))
    }
}

/// Persists a new state at `height`.
pub fn apply_new_state<S: KVStore>(
    ctx: &mut Context<S>,
    height: Height,
    client_state: &Any,
    consensus_state: &Any,
) -> (r: Result<(), ContractError>)
    ensures
        final(ctx).same_setup(old(ctx)),
        match old(ctx).spec_checksum() {
            Ok(c) => r is Ok && final(ctx).contents() == old(ctx).with_new_state(
                client_state@,
                consensus_state@,
                c,
                height,
            ),
            Err(e) => r == Err::<(), _>(e) && final(ctx).contents() == old(ctx).contents(),
        },
{
    match ctx.store_client_state(height, client_state) {
        Ok(()) => {},
        Err(e) => return Err(e),
    }
    let _ = ctx.store_consensus_state(height, consensus_state);
    let timestamp = ctx.host_timestamp();
    let host_height = ctx.host_height();
    let _ = ctx.store_update_meta(height, timestamp, host_height);
    Ok(())
}

/// Persists the outcome of an update that advanced the client.
pub fn apply_update_state<S: KVStore>(ctx: &mut Context<S>, d: &UpdateStateData) -> (r: Result<ContractResult, ContractError>)
    ensures
        final(ctx).same_setup(old(ctx)),
        match old(ctx).spec_checksum() {
            Ok(c) => (r matches Ok(res) && res.heights matches Some(v) && same_heights(v@, seq![d.height]))
                && final(ctx).contents() == old(ctx).with_new_state(
                d.new_any_client_state@,
                d.new_any_consensus_state@,
                c,
                d.height,
            ),
            Err(e) => r == Err::<ContractResult, _>(e) && final(ctx).contents() == old(ctx).contents(),
        },
{
    match apply_new_state(ctx, d.height, &d.new_any_client_state, &d.new_any_consensus_state) {
        Ok(()) => {},
        Err(e) => return Err(e),
    }
    let mut hs: Vec<Height> = Vec::new();
    hs.push(d.height);
    proof {
        assert(hs@ =~= seq![d.height]);
    }
    Ok(ContractResult::success().heights(hs))
}

/// Persists the outcome of an update that found misbehaviour: the client
/// state alone is replaced, at the engine's latest height.
pub fn apply_misbehaviour<S: KVStore>(
    ctx: &mut Context<S>,
    latest_height: Height,
    new_client_state: &Any,
) -> (r: Result<ContractResult, ContractError>)
    ensures
        final(ctx).same_setup(old(ctx)),
        match old(ctx).spec_checksum() {
            Ok(c) => (r matches Ok(res) && res.heights is None) && final(ctx).contents() == old(ctx).contents().insert(
                old(ctx).key(client_state_path()),
                hosted_client_state_bytes(new_client_state@, c, latest_height),
            ),
            Err(e) => r == Err::<ContractResult, _>(e) && final(ctx).contents() == old(ctx).contents(),
        },
        forall|h: Height| #[trigger] final(ctx).stored(consensus_state_path(h)) == old(ctx).stored(consensus_state_path(h)),
{
    let r = match ctx.store_client_state(latest_height, new_client_state) {
        Ok(()) => Ok(ContractResult::success()),
        Err(e) => Err(e),
    };
    proof {
        assert forall|h: Height| #[trigger] ctx.stored(consensus_state_path(h)) == old(ctx).stored(consensus_state_path(h)) by {
            if let Ok(c) = old(ctx).spec_checksum() {
                lemma_client_state_write_keeps_consensus_states(
                    old(ctx).contents(),
                    old(ctx).migration_prefix,
                    hosted_client_state_bytes(new_client_state@, c, latest_height),
                    h,
                );
            }
        }
    }
    r
}

/// The new state of an update that advanced the client; any other
/// outcome breaks the engine's contract for this command and is an error.
pub fn expect_update_state(res: UpdateClientResult) -> (r: Result<UpdateStateData, ContractError>)
    ensures
        match res {
            UpdateClientResult::UpdateState(d) => r == Ok::<UpdateStateData, ContractError>(d),
            UpdateClientResult::Misbehaviour(_) => r matches Err(ContractError::Generic(m))
                && m@ == "unexpected non-UpdateState client message"@,
        },
{
    match res {
        UpdateClientResult::UpdateState(d) => Ok(d),
        _ => Err(ContractError::generic("unexpected non-UpdateState client message")),
    }
}

/// The finding of an update that proved misbehaviour; any other outcome
/// breaks the engine's contract for this command and is an error.
pub fn expect_misbehaviour(res: UpdateClientResult) -> (r: Result<MisbehaviourData, ContractError>)
    ensures
        match res {
            UpdateClientResult::Misbehaviour(d) => r == Ok::<MisbehaviourData, ContractError>(d),
            UpdateClientResult::UpdateState(_) => r matches Err(ContractError::Generic(m))
                && m@ == "unexpected non-Misbehaviour client message"@,
        },
{
    match res {
        UpdateClientResult::Misbehaviour(d) => Ok(d),
        _ => Err(ContractError::generic("unexpected non-Misbehaviour client message")),
    }
}

/// Whether an update outcome is a finding of misbehaviour.
pub fn is_misbehaviour(res: &UpdateClientResult) -> (r: bool)
    ensures
        r == (res is Misbehaviour),
{
    match res {
        UpdateClientResult::Misbehaviour(_) => true,
        _ => false,
    }
}

/// Creates the client: records the checksum, asks the engine to accept the
/// initial states, and persists them at the height it reports.
pub fn instantiate<L: LightClient, S: KVStore>(lc: &L, ctx: &mut Context<S>, msg: &InstantiateMsg) -> (r: Result<ContractResult, ContractError>)
    ensures
        decode_any(msg.client_state@) is None || decode_any(msg.consensus_state@) is None
            ==> r == Err::<ContractResult, _>(ContractError::Decode),
        decode_any(msg.client_state@) is Some && decode_any(msg.consensus_state@) is Some
            ==> (r is Err ==> r matches Err(ContractError::Light(_))),
        r is Err ==> final(ctx).contents() == old(ctx).contents(),
        r matches Ok(res) ==> res.heights is None && exists|height: Height|
            final(ctx).contents() == old(ctx).with_new_state(
                decode_any(msg.client_state@).unwrap(),
                decode_any(msg.consensus_state@).unwrap(),
                msg.checksum@,
                height,
            ),
{
    let checksum = vstd::slice::slice_to_vec(msg.checksum.as_slice());
    ctx.set_checksum(checksum);
    let any_client_state = match Any::decode(msg.client_state.as_slice()) {
        Some(a) => a,
        None => return Err(ContractError::Decode),
    };
    let any_consensus_state = match Any::decode(msg.consensus_state.as_slice()) {
        Some(a) => a,
        None => return Err(ContractError::Decode),
    };
    let res = match lc.create_client(&*ctx, &any_client_state, &any_consensus_state) {
        Ok(res) => res,
        Err(e) => return Err(ContractError::Light(e)),
    };
    let ghost before = *ctx;
    let r = apply_new_state(ctx, res.height, &any_client_state, &any_consensus_state);
    proof {
        assert(before.spec_checksum() == Ok::<Seq<u8>, ContractError>(msg.checksum@));
        assert(before.with_new_state(any_client_state@, any_consensus_state@, msg.checksum@, res.height)
            == old(ctx).with_new_state(any_client_state@, any_consensus_state@, msg.checksum@, res.height));
    }
    match r {
        Ok(()) => Ok(ContractResult::success()),
        Err(e) => Err(e),
    }
}

/// Runs a command that changes the client.
pub fn sudo<L: LightClient, S: KVStore>(lc: &L, ctx: &mut Context<S>, msg: &SudoMsg) -> (r: Result<ContractResult, ContractError>)
    ensures
        final(ctx).same_setup(old(ctx)),
        r is Err ==> final(ctx).contents() == old(ctx).contents(),
        match msg {
            SudoMsg::UpdateState(m) => {
                &&& decode_any(m.client_message@) is None ==> r == Err::<ContractResult, _>(ContractError::Decode)
                &&& decode_any(m.client_message@) is Some ==> (r is Err ==> (r matches Err(ContractError::Light(_)))
                    || (r matches Err(ContractError::Generic(_))))
                &&& r matches Ok(res) ==> old(ctx).spec_checksum() is Ok && exists|cs: AnyView, cons: AnyView, h: Height|
                    final(ctx).contents() == old(ctx).with_new_state(cs, cons, old(ctx).spec_checksum()->Ok_0, h)
                        && (res.heights matches Some(v) && same_heights(v@, seq![h]))
            },
            SudoMsg::UpdateStateOnMisbehaviour(m) => {
                &&& decode_any(m.client_message@) is None ==> r == Err::<ContractResult, _>(ContractError::Decode)
                &&& decode_any(m.client_message@) is Some ==> (r is Err ==> (r matches Err(ContractError::Light(_)))
                    || (r matches Err(ContractError::Generic(_))))
                &&& forall|h: Height| #[trigger] final(ctx).stored(consensus_state_path(h)) == old(ctx).stored(consensus_state_path(h))
                &&& r matches Ok(res) ==> res.heights is None && old(ctx).spec_checksum() is Ok && exists|cs: AnyView, h: Height|
                    final(ctx).contents() == old(ctx).contents().insert(
                        old(ctx).key(client_state_path()),
                        hosted_client_state_bytes(cs, old(ctx).spec_checksum()->Ok_0, h),
                    )
            },
            SudoMsg::VerifyUpgradeAndUpdateState(_) => r matches Err(ContractError::Unsupported(m))
                && m@ == "VerifyUpgradeAndUpdateState is not supported"@,
            SudoMsg::VerifyMembership(m) => {
                &&& final(ctx).contents() == old(ctx).contents()
                &&& r matches Ok(res) ==> res.heights is None
                &&& m.merkle_path.pieces().len() == 0 ==> (r matches Err(ContractError::Generic(_)))
                &&& m.merkle_path.pieces().len() > 0 && !is_utf8(concat(m.merkle_path.pieces().drop_first()))
                    ==> r == Err::<ContractResult, _>(ContractError::FromUtf8)
                &&& m.merkle_path.pieces().len() > 0 && is_utf8(concat(m.merkle_path.pieces().drop_first()))
                    ==> (r is Err ==> r matches Err(ContractError::Light(_)))
            },
            SudoMsg::VerifyNonMembership(m) => {
                &&& final(ctx).contents() == old(ctx).contents()
                &&& r matches Ok(res) ==> res.heights is None
                &&& m.merkle_path.pieces().len() == 0 ==> (r matches Err(ContractError::Generic(_)))
                &&& m.merkle_path.pieces().len() > 0 && !is_utf8(concat(m.merkle_path.pieces().drop_first()))
                    ==> r == Err::<ContractResult, _>(ContractError::FromUtf8)
                &&& m.merkle_path.pieces().len() > 0 && is_utf8(concat(m.merkle_path.pieces().drop_first()))
                    ==> (r is Err ==> r matches Err(ContractError::Light(_)))
            },
            SudoMsg::MigrateClientStore(_) => r matches Err(ContractError::Unsupported(m))
                && m@ == "MigrateClientStore is not supported"@,
        },
{
    match msg {
        SudoMsg::UpdateState(m) => {
            let any_message = match Any::decode(m.client_message.as_slice()) {
                Some(a) => a,
                None => return Err(ContractError::Decode),
            };
            let res = match lc.update_client(&*ctx, &any_message) {
                Ok(res) => res,
                Err(e) => return Err(ContractError::Light(e)),
            };
            let d = match expect_update_state(res) {
                Ok(d) => d,
                Err(e) => return Err(e),
            };
            apply_update_state(ctx, &d)
        },
        SudoMsg::UpdateStateOnMisbehaviour(m) => {
            let any_message = match Any::decode(m.client_message.as_slice()) {
                Some(a) => a,
                None => return Err(ContractError::Decode),
            };
            let res = match lc.update_client(&*ctx, &any_message) {
                Ok(res) => res,
                Err(e) => return Err(ContractError::Light(e)),
            };
            let d = match expect_misbehaviour(res) {
                Ok(d) => d,
                Err(e) => return Err(e),
            };
            let latest_height = match lc.latest_height(&*ctx) {
                Ok(h) => h,
                Err(e) => return Err(ContractError::Light(e)),
            };
            apply_misbehaviour(ctx, latest_height, &d.new_any_client_state)
        },
        SudoMsg::VerifyUpgradeAndUpdateState(_) => {
            Err(ContractError::unsupported("VerifyUpgradeAndUpdateState is not supported"))
        },
        SudoMsg::VerifyMembership(m) => {
            let (prefix, path) = match m.merkle_path.prefix_and_path() {
                Ok(x) => x,
                Err(e) => return Err(e),
            };
            match lc.verify_membership(&*ctx, &prefix, &path, &m.value, m.height, &m.proof) {
                Ok(()) => Ok(ContractResult::success()),
                Err(e) => Err(ContractError::Light(e)),
            }
        },
        SudoMsg::VerifyNonMembership(m) => {
            let (prefix, path) = match m.merkle_path.prefix_and_path() {
                Ok(x) => x,
                Err(e) => return Err(e),
            };
            match lc.verify_non_membership(&*ctx, &prefix, &path, m.height, &m.proof) {
                Ok(()) => Ok(ContractResult::success()),
                Err(e) => Err(ContractError::Light(e)),
            }
        },
        SudoMsg::MigrateClientStore(_) => Err(ContractError::unsupported("MigrateClientStore is not supported")),
    }
}

/// Answers a read-only command.
pub fn query<L: LightClient, S: KVStoreRead>(lc: &L, ctx: &Context<S>, msg: &QueryMsg) -> (r: Result<QueryResponse, ContractError>)
    ensures
        match msg {
            QueryMsg::Status(_) => {
                &&& ctx.spec_client_state() matches Err(e) ==> r == Err::<QueryResponse, _>(ContractError::Light(e))
                &&& r matches Ok(resp) ==> resp is Status && ctx.spec_client_state() is Ok
            },
            QueryMsg::ExportMetadata(_) => r matches Err(ContractError::Unsupported(m))
                && m@ == "ExportMetadata is not supported"@,
            QueryMsg::TimestampAtHeight(m) => {
                &&& ctx.spec_consensus_state(m.height) matches Err(e) ==> r == Err::<QueryResponse, _>(ContractError::Light(e))
                &&& r matches Ok(resp) ==> resp is TimestampAtHeight && ctx.spec_consensus_state(m.height) is Ok
            },
            QueryMsg::VerifyClientMessage(m) => {
                &&& decode_any(m.client_message@) is None ==> r == Err::<QueryResponse, _>(ContractError::Decode)
                &&& decode_any(m.client_message@) is Some ==> (r is Err ==> r matches Err(ContractError::Light(_)))
                &&& r matches Ok(resp) ==> resp is VerifyClientMessage
            },
            QueryMsg::CheckForMisbehaviour(m) => {
                &&& decode_any(m.client_message@) is None ==> r == Err::<QueryResponse, _>(ContractError::Decode)
                &&& decode_any(m.client_message@) is Some ==> (r is Err ==> r matches Err(ContractError::Light(_)))
                &&& r matches Ok(resp) ==> resp is CheckForMisbehaviour
            },
        },
{
    match msg {
        QueryMsg::Status(_) => {
            let any_client_state = match ctx.client_state() {
                Ok(a) => a,
                Err(e) => return Err(ContractError::Light(e)),
            };
            match lc.get_status_from_client_state(&any_client_state) {
                Ok(status) => Ok(QueryResponse::Status(StatusResponse { status })),
                Err(e) => Err(e),
            }
        },
        QueryMsg::ExportMetadata(_) => Err(ContractError::unsupported("ExportMetadata is not supported")),
        QueryMsg::TimestampAtHeight(m) => {
            let any_consensus_state = match ctx.consensus_state(m.height) {
                Ok(a) => a,
                Err(e) => return Err(ContractError::Light(e)),
            };
            match lc.get_timestamp_from_consensus_state(&any_consensus_state) {
                Ok(timestamp) => Ok(QueryResponse::TimestampAtHeight(TimestampAtHeightResponse { timestamp })),
                Err(e) => Err(e),
            }
        },
        QueryMsg::VerifyClientMessage(m) => {
            let any_message = match Any::decode(m.client_message.as_slice()) {
                Some(a) => a,
                None => return Err(ContractError::Decode),
            };
            match lc.update_client(ctx, &any_message) {
                Ok(_) => Ok(QueryResponse::VerifyClientMessage(VerifyClientMessageResponse {})),
                Err(e) => Err(ContractError::Light(e)),
            }
        },
        QueryMsg::CheckForMisbehaviour(m) => {
            let any_message = match Any::decode(m.client_message.as_slice()) {
                Some(a) => a,
                None => return Err(ContractError::Decode),
            };
            match lc.update_client(ctx, &any_message) {
                Ok(res) => Ok(
                    QueryResponse::CheckForMisbehaviour(
                        CheckForMisbehaviourResponse { found_misbehaviour: is_misbehaviour(&res) },
                    ),
                ),
                Err(e) => Err(ContractError::Light(e)),
            }
        },
    }
}

} // verus!
