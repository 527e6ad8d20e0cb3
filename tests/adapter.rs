use ibc_elc_client_cw::context::{Context, MigrationPrefix};
use ibc_elc_client_cw::entrypoint::{
    expect_misbehaviour, expect_update_state, instantiate, query, sudo, CreateClientResult, LightClient, MisbehaviourData, QueryResponse,
    UpdateClientResult, UpdateStateData,
};
use ibc_elc_client_cw::envelope::{
    read_hosted_client_state, Any, WasmClientState, WasmConsensusState,
    WASM_CLIENT_STATE_TYPE_URL,
};
use ibc_elc_client_cw::error::{ContractError, LightError, WasmLightClientSpecificError};
use ibc_elc_client_cw::msg::{
    CheckForMisbehaviourMsg, ExportMetadataMsg, Height, InstantiateMsg, MerklePath,
    MigrateClientStoreMsg, QueryMsg, StatusMsg, SudoMsg, TimestampAtHeightMsg,
    UpdateStateMsg, UpdateStateOnMisbehaviourMsg, VerifyMembershipMsg,
    VerifyUpgradeAndUpdateStateMsg,
};
use ibc_elc_client_cw::response::ContractResult;
use ibc_elc_client_cw::store::{KVStoreRead, MemStore};

const CREATE_HEIGHT: Height = Height { revision_number: 0, revision_height: 1 };
const UPDATE_HEIGHT: Height = Height { revision_number: 0, revision_height: 5 };

/// An engine that accepts everything; a client message tagged
/// `/mock.Update` carries a timestamp, one tagged `/mock.Misbehaviour`
/// freezes the client.
struct MockClient;

impl LightClient for MockClient {
    fn create_client<S: KVStoreRead>(
        &self,
        _ctx: &Context<S>,
        _any_client_state: &Any,
        _any_consensus_state: &Any,
    ) -> Result<CreateClientResult, LightError> {
        Ok(CreateClientResult { height: CREATE_HEIGHT })
    }

    fn update_client<S: KVStoreRead>(
        &self,
        ctx: &Context<S>,
        client_message: &Any,
    ) -> Result<UpdateClientResult, LightError> {
        ctx.client_state()?;
        if client_message.type_url == b"/mock.Update".to_vec() {
            Ok(UpdateClientResult::UpdateState(UpdateStateData {
                new_any_client_state: any("/mock.ClientState", b"active"),
                new_any_consensus_state: any("/mock.ConsensusState", &client_message.value),
                height: UPDATE_HEIGHT,
            }))
        } else if client_message.type_url == b"/mock.Misbehaviour".to_vec() {
            Ok(UpdateClientResult::Misbehaviour(MisbehaviourData {
                new_any_client_state: any("/mock.ClientState", b"frozen"),
            }))
        } else {
            Err(LightError::Engine("unknown client message".to_string()))
        }
    }

    fn verify_membership<S: KVStoreRead>(
        &self,
        ctx: &Context<S>,
        _prefix: &Vec<u8>,
        _path: &String,
        _value: &Vec<u8>,
        height: Height,
        _proof: &Vec<u8>,
    ) -> Result<(), LightError> {
        ctx.consensus_state(height).map(|_| ())
    }

    fn verify_non_membership<S: KVStoreRead>(
        &self,
        ctx: &Context<S>,
        _prefix: &Vec<u8>,
        _path: &String,
        height: Height,
        _proof: &Vec<u8>,
    ) -> Result<(), LightError> {
        ctx.consensus_state(height).map(|_| ())
    }

    fn latest_height<S: KVStoreRead>(&self, _ctx: &Context<S>) -> Result<Height, LightError> {
        Ok(UPDATE_HEIGHT)
    }

    fn get_status_from_client_state(&self, any_client_state: &Any) -> Result<String, ContractError> {
        if any_client_state.value == b"frozen".to_vec() {
            Ok("Frozen".to_string())
        } else {
            Ok("Active".to_string())
        }
    }

    fn get_timestamp_from_consensus_state(&self, any_consensus_state: &Any) -> Result<u64, ContractError> {
        let bytes: [u8; 8] = any_consensus_state
            .value
            .as_slice()
            .try_into()
            .map_err(|_| ContractError::generic("bad timestamp"))?;
        Ok(u64::from_be_bytes(bytes))
    }
}

fn any(type_url: &str, value: &[u8]) -> Any {
    Any::new(type_url.as_bytes().to_vec(), value.to_vec())
}

fn new_ctx() -> Context<MemStore> {
    Context::new(MemStore::new(), "contract0".to_string(), 100, 1_000_000_000)
}

fn created() -> Context<MemStore> {
    let mut ctx = new_ctx();
    let msg = InstantiateMsg {
        client_state: any("/mock.ClientState", b"CS1").encode_to_vec(),
        consensus_state: any("/mock.ConsensusState", b"CN1").encode_to_vec(),
        checksum: vec![0xAA],
    };
    instantiate(&MockClient, &mut ctx, &msg).unwrap();
    ctx
}

fn update_msg(type_url: &str, value: &[u8]) -> Vec<u8> {
    any(type_url, value).encode_to_vec()
}

#[test]
fn any_round_trip_with_tag_as_data() {
    for value in [b"".to_vec(), WASM_CLIENT_STATE_TYPE_URL.as_bytes().to_vec(), vec![0u8; 300]] {
        let a = Any::new(b"/some.Type".to_vec(), value.clone());
        let back = Any::decode(&a.encode_to_vec()).unwrap();
        assert_eq!(back, a);
    }
    let empty = Any::new(vec![], vec![]);
    assert_eq!(empty.encode_to_vec(), Vec::<u8>::new());
    assert_eq!(Any::decode(&[]).unwrap(), empty);
}

#[test]
fn any_encoding_bytes() {
    let a = any("/a", b"xyz");
    // field 1 (key 0x0a), length 2, "/a"; field 2 (key 0x12), length 3, "xyz"
    assert_eq!(a.encode_to_vec(), vec![0x0a, 2, b'/', b'a', 0x12, 3, b'x', b'y', b'z']);
    // a 300-byte payload has a two-byte length
    let long = Any::new(vec![], vec![7u8; 300]);
    let enc = long.encode_to_vec();
    assert_eq!(&enc[..3], &[0x12, 0xac, 0x02]);
    assert_eq!(enc.len(), 303);
}

#[test]
fn any_decode_rejects_malformed() {
    // length runs past the end
    assert!(Any::decode(&[0x0a, 5, b'a']).is_none());
    // tag zero
    assert!(Any::decode(&[0x02, 0]).is_none());
    // a varint where a payload belongs
    assert!(Any::decode(&[0x08, 1]).is_none());
    // truncated varint key
    assert!(Any::decode(&[0x80]).is_none());
    // unknown field skipped, last field wins
    let a = Any::decode(&[0x18, 7, 0x12, 1, b'a', 0x12, 1, b'b']).unwrap();
    assert_eq!(a.value, b"b".to_vec());
}

#[test]
fn hosted_client_state_round_trip() {
    for inner_value in [b"".to_vec(), WASM_CLIENT_STATE_TYPE_URL.as_bytes().to_vec(), b"state".to_vec()] {
        let mut ctx = new_ctx();
        ctx.set_checksum(vec![1, 2, 3]);
        let inner = any("/inner.Type", &inner_value);
        let h = Height { revision_number: 3, revision_height: 200 };
        ctx.store_client_state(h, &inner).unwrap();
        let (a, w) = ctx.load_client_state().unwrap();
        assert_eq!(a, inner);
        assert_eq!(w.checksum, vec![1, 2, 3]);
        assert_eq!(w.latest_height, Some(h));
    }
}

#[test]
fn hosted_consensus_state_round_trip() {
    let mut ctx = new_ctx();
    let inner = any("/inner.Cons", b"");
    let h = Height { revision_number: 0, revision_height: 0 };
    ctx.store_consensus_state(h, &inner).unwrap();
    assert_eq!(ctx.consensus_state(h).unwrap(), inner);
}

#[test]
fn wasm_states_through_any() {
    let w = WasmClientState {
        data: vec![9],
        checksum: vec![],
        latest_height: Some(Height { revision_number: 0, revision_height: 0 }),
    };
    let back = WasmClientState::try_from_any(&w.to_any()).unwrap();
    assert_eq!(back, w);
    assert!(WasmConsensusState::try_from_any(&w.to_any()).is_none());
    let c = WasmConsensusState { data: vec![4, 5] };
    assert_eq!(WasmConsensusState::try_from_any(&c.to_any()).unwrap(), c);
}

#[test]
fn load_errors() {
    let mut ctx = new_ctx();
    assert_eq!(ctx.load_client_state().unwrap_err(), LightError::ClientStateNotFound);
    let h = Height { revision_number: 1, revision_height: 2 };
    assert_eq!(ctx.consensus_state(h).unwrap_err(), LightError::ConsensusStateNotFound(h));
    assert_eq!(
        ctx.obtain_checksum().unwrap_err(),
        ContractError::Light(LightError::ClientStateNotFound)
    );
    // a client state write needs a checksum
    assert!(ctx.store_client_state(h, &any("/x", b"y")).is_err());
    assert!(ctx.get_prefixed(b"clients/clientState").is_none());

    ctx.set_prefixed(b"clients/clientState", &[0xff]);
    assert_eq!(
        ctx.load_client_state().unwrap_err(),
        LightError::Wasm(WasmLightClientSpecificError::NotAnyWasmClientState)
    );
    let other = any("/other", b"").encode_to_vec();
    ctx.set_prefixed(b"clients/clientState", &other);
    assert_eq!(
        ctx.load_client_state().unwrap_err(),
        LightError::Wasm(WasmLightClientSpecificError::WrongClientStateType)
    );
    let bad_payload = any(WASM_CLIENT_STATE_TYPE_URL, &[0x08, 1]).encode_to_vec();
    ctx.set_prefixed(b"clients/clientState", &bad_payload);
    assert_eq!(
        ctx.load_client_state().unwrap_err(),
        LightError::Wasm(WasmLightClientSpecificError::NotWasmClientState)
    );
    let bad_inner = WasmClientState { data: vec![0xff], checksum: vec![1], latest_height: None }
        .to_any()
        .encode_to_vec();
    ctx.set_prefixed(b"clients/clientState", &bad_inner);
    assert_eq!(
        ctx.load_client_state().unwrap_err(),
        LightError::Wasm(WasmLightClientSpecificError::NotAnyClientState)
    );
    assert_eq!(
        read_hosted_client_state(&bad_inner).unwrap_err(),
        WasmLightClientSpecificError::NotAnyClientState
    );
}

#[test]
fn namespace_isolation() {
    let mut plain = new_ctx();
    plain.set_prefixed(b"k", b"none");
    assert_eq!(plain.get_prefixed(b"k"), Some(b"none".to_vec()));
    let store = plain.store;

    let mut subject = Context::new(store, "c".to_string(), 0, 0);
    subject.set_subject_prefix();
    assert_eq!(subject.get_prefixed(b"k"), None);
    subject.set_prefixed(b"k", b"subj");
    assert_eq!(subject.prefixed_key(b"k"), b"subject/k".to_vec());
    let store = subject.store;

    let mut substitute = Context::new(store, "c".to_string(), 0, 0);
    substitute.set_substitute_prefix();
    assert_eq!(substitute.get_prefixed(b"k"), None);
    substitute.set_prefixed(b"k", b"sub");
    assert_eq!(substitute.migration_prefix, Some(MigrationPrefix::Substitute));
    let store = substitute.store;

    let plain = Context::new(store, "c".to_string(), 0, 0);
    assert_eq!(plain.get_prefixed(b"k"), Some(b"none".to_vec()));
    assert_eq!(plain.get_prefixed(b"subject/k"), Some(b"subj".to_vec()));
    assert_eq!(plain.get_prefixed(b"substitute/k"), Some(b"sub".to_vec()));
}

#[test]
fn height_keys_sort_by_height() {
    let ctx = new_ctx();
    let h1 = ctx.consensus_state_key(Height { revision_number: 0, revision_height: 10 });
    let h2 = ctx.consensus_state_key(Height { revision_number: 0, revision_height: 20 });
    let h3 = ctx.consensus_state_key(Height { revision_number: 1, revision_height: 1 });
    assert!(h1 < h2 && h2 < h3);
    let mut keys = vec![h3.clone(), h1.clone(), h2.clone()];
    keys.sort();
    assert_eq!(keys, vec![h1.clone(), h2, h3]);
    let mut expected = b"clients/consensusStates/".to_vec();
    expected.extend_from_slice(&0u64.to_be_bytes());
    expected.push(b'-');
    expected.extend_from_slice(&10u64.to_be_bytes());
    assert_eq!(h1, expected);
}

#[test]
fn delete_consensus_state_is_idempotent() {
    let mut ctx = new_ctx();
    let h = Height { revision_number: 0, revision_height: 7 };
    ctx.delete_consensus_state(h).unwrap();
    ctx.store_consensus_state(h, &any("/c", b"v")).unwrap();
    ctx.delete_consensus_state(h).unwrap();
    ctx.delete_consensus_state(h).unwrap();
    assert_eq!(ctx.consensus_state(h).unwrap_err(), LightError::ConsensusStateNotFound(h));
}

#[test]
fn update_meta_records() {
    let mut ctx = new_ctx();
    let h = Height { revision_number: 2, revision_height: 9 };
    let host = Height { revision_number: 0, revision_height: 0x0102 };
    ctx.store_update_meta(h, 0x0a0b, host).unwrap();
    let mut key = ctx.consensus_state_key(h);
    key.extend_from_slice(b"/processedTime");
    assert_eq!(ctx.store.get(&key), Some(vec![0, 0, 0, 0, 0, 0, 0x0a, 0x0b]));
    let mut key2 = ctx.consensus_state_key(h);
    key2.extend_from_slice(b"/processedHeight");
    assert_eq!(ctx.store.get(&key2), Some(vec![0, 0, 0, 0, 0, 0, 0x01, 0x02]));
    ctx.delete_update_meta(h).unwrap();
    assert_eq!(ctx.store.get(&key), None);
    assert_eq!(ctx.store.get(&key2), None);
}

#[test]
fn create_stores_states() {
    let ctx = created();
    let (inner, w) = ctx.load_client_state().unwrap();
    assert_eq!(inner, any("/mock.ClientState", b"CS1"));
    assert_eq!(w.checksum, vec![0xAA]);
    assert_eq!(w.latest_height, Some(CREATE_HEIGHT));
    assert_eq!(ctx.consensus_state(CREATE_HEIGHT).unwrap(), any("/mock.ConsensusState", b"CN1"));
    // a fresh context recovers the checksum from the stored state
    let fresh = Context::new(ctx.store, "contract0".to_string(), 0, 0);
    assert_eq!(fresh.obtain_checksum().unwrap(), vec![0xAA]);
}

#[test]
fn create_rejects_malformed_payload() {
    let mut ctx = new_ctx();
    let msg = InstantiateMsg { client_state: vec![0xff], consensus_state: vec![], checksum: vec![1] };
    assert_eq!(instantiate(&MockClient, &mut ctx, &msg).unwrap_err(), ContractError::Decode);
    assert!(ctx.load_client_state().is_err());
}

#[test]
fn update_then_query_status_and_timestamp() {
    let mut ctx = created();
    let msg = SudoMsg::UpdateState(UpdateStateMsg {
        client_message: update_msg("/mock.Update", &1234u64.to_be_bytes()),
    });
    let res = sudo(&MockClient, &mut ctx, &msg).unwrap();
    let expected = ContractResult::success().heights(vec![UPDATE_HEIGHT]);
    assert_eq!(res, expected);
    let hs = res.heights.unwrap();
    assert_eq!((hs[0].revision_number, hs[0].revision_height), (0, 5));

    let status = query(&MockClient, &ctx, &QueryMsg::Status(StatusMsg {})).unwrap();
    match status {
        QueryResponse::Status(s) => assert_eq!(s.status, "Active"),
        other => panic!("unexpected reply {:?}", other),
    }
    let ts = query(
        &MockClient,
        &ctx,
        &QueryMsg::TimestampAtHeight(TimestampAtHeightMsg { height: UPDATE_HEIGHT }),
    )
    .unwrap();
    match ts {
        QueryResponse::TimestampAtHeight(t) => assert_eq!(t.timestamp, 1234),
        other => panic!("unexpected reply {:?}", other),
    }
    // the checksum is kept across updates
    let (_, w) = ctx.load_client_state().unwrap();
    assert_eq!(w.checksum, vec![0xAA]);
    assert_eq!(w.latest_height, Some(UPDATE_HEIGHT));
}

#[test]
fn update_with_misbehaviour_outcome_fails() {
    let mut ctx = created();
    let msg = SudoMsg::UpdateState(UpdateStateMsg { client_message: update_msg("/mock.Misbehaviour", b"") });
    match sudo(&MockClient, &mut ctx, &msg).unwrap_err() {
        ContractError::Generic(m) => assert_eq!(m, "unexpected non-UpdateState client message"),
        other => panic!("unexpected error {:?}", other),
    }
    assert_eq!(ctx.load_client_state().unwrap().0, any("/mock.ClientState", b"CS1"));
}

#[test]
fn update_rejects_malformed_message() {
    let mut ctx = created();
    let msg = SudoMsg::UpdateState(UpdateStateMsg { client_message: vec![0x0a, 9] });
    assert_eq!(sudo(&MockClient, &mut ctx, &msg).unwrap_err(), ContractError::Decode);
    let msg = SudoMsg::UpdateState(UpdateStateMsg { client_message: update_msg("/mock.Nothing", b"") });
    assert!(matches!(
        sudo(&MockClient, &mut ctx, &msg).unwrap_err(),
        ContractError::Light(LightError::Engine(_))
    ));
}

#[test]
fn migrate_client_store_is_unsupported() {
    let mut ctx = created();
    let before: Vec<Option<Vec<u8>>> = keys_of(&ctx).iter().map(|k| ctx.store.get(k)).collect();
    let err = sudo(&MockClient, &mut ctx, &SudoMsg::MigrateClientStore(MigrateClientStoreMsg {})).unwrap_err();
    assert_eq!(err, ContractError::Unsupported("MigrateClientStore is not supported".to_string()));
    let after: Vec<Option<Vec<u8>>> = keys_of(&ctx).iter().map(|k| ctx.store.get(k)).collect();
    assert_eq!(before, after);
    let err = sudo(
        &MockClient,
        &mut ctx,
        &SudoMsg::VerifyUpgradeAndUpdateState(VerifyUpgradeAndUpdateStateMsg {
            upgrade_client_state: vec![],
            upgrade_consensus_state: vec![],
            proof_upgrade_client: vec![],
            proof_upgrade_consensus_state: vec![],
        }),
    )
    .unwrap_err();
    assert_eq!(err, ContractError::unsupported("VerifyUpgradeAndUpdateState is not supported"));
    let err = query(&MockClient, &ctx, &QueryMsg::ExportMetadata(ExportMetadataMsg {})).unwrap_err();
    assert_eq!(err, ContractError::Unsupported("ExportMetadata is not supported".to_string()));
}

fn keys_of(ctx: &Context<MemStore>) -> Vec<Vec<u8>> {
    let mut keys = vec![b"clients/clientState".to_vec(), ctx.consensus_state_key(CREATE_HEIGHT)];
    for suffix in [&b"/processedTime"[..], &b"/processedHeight"[..]] {
        let mut k = ctx.consensus_state_key(CREATE_HEIGHT);
        k.extend_from_slice(suffix);
        keys.push(k);
    }
    keys
}

#[test]
fn misbehaviour_keeps_consensus_states() {
    let mut ctx = created();
    let before = ctx.consensus_state(CREATE_HEIGHT).unwrap();
    let msg = SudoMsg::UpdateStateOnMisbehaviour(UpdateStateOnMisbehaviourMsg {
        client_message: update_msg("/mock.Misbehaviour", b""),
    });
    let res = sudo(&MockClient, &mut ctx, &msg).unwrap();
    assert_eq!(res.heights, None);
    assert_eq!(ctx.consensus_state(CREATE_HEIGHT).unwrap(), before);
    assert!(ctx.consensus_state(UPDATE_HEIGHT).is_err());
    let (inner, w) = ctx.load_client_state().unwrap();
    assert_eq!(inner, any("/mock.ClientState", b"frozen"));
    assert_eq!(w.latest_height, Some(UPDATE_HEIGHT));
    match query(&MockClient, &ctx, &QueryMsg::Status(StatusMsg {})).unwrap() {
        QueryResponse::Status(s) => assert_eq!(s.status, "Frozen"),
        other => panic!("unexpected reply {:?}", other),
    }
}

#[test]
fn check_for_misbehaviour_query() {
    let ctx = created();
    let q = |t: &str| {
        query(
            &MockClient,
            &ctx,
            &QueryMsg::CheckForMisbehaviour(CheckForMisbehaviourMsg { client_message: update_msg(t, b"") }),
        )
        .unwrap()
    };
    assert!(matches!(q("/mock.Misbehaviour"), QueryResponse::CheckForMisbehaviour(r) if r.found_misbehaviour));
    assert!(matches!(q("/mock.Update"), QueryResponse::CheckForMisbehaviour(r) if !r.found_misbehaviour));
}

#[test]
fn merkle_path_prefix_and_path() {
    let mp = MerklePath { key_path: vec![b"ibc".to_vec(), b"clients/".to_vec(), b"07-tendermint-0".to_vec()] };
    let (prefix, path) = mp.prefix_and_path().unwrap();
    assert_eq!(prefix, b"ibc".to_vec());
    assert_eq!(path, "clients/07-tendermint-0");
    let only = MerklePath { key_path: vec![b"ibc".to_vec()] };
    assert_eq!(only.prefix_and_path().unwrap(), (b"ibc".to_vec(), String::new()));
    let empty = MerklePath { key_path: vec![] };
    assert_eq!(
        empty.prefix_and_path().unwrap_err(),
        ContractError::Generic("prefix not found in the merkle path".to_string())
    );
    let bad = MerklePath { key_path: vec![b"ibc".to_vec(), vec![0xff, 0xfe]] };
    assert_eq!(bad.prefix_and_path().unwrap_err(), ContractError::FromUtf8);
}

#[test]
fn verify_membership_reads_consensus_state() {
    let mut ctx = created();
    let msg = |h: Height| {
        SudoMsg::VerifyMembership(VerifyMembershipMsg {
            height: h,
            delay_time_period: 0,
            delay_block_period: 0,
            proof: vec![1],
            merkle_path: MerklePath { key_path: vec![b"ibc".to_vec(), b"a".to_vec()] },
            value: vec![2],
        })
    };
    assert_eq!(sudo(&MockClient, &mut ctx, &msg(CREATE_HEIGHT)).unwrap(), ContractResult::success());
    assert_eq!(
        sudo(&MockClient, &mut ctx, &msg(UPDATE_HEIGHT)).unwrap_err(),
        ContractError::Light(LightError::ConsensusStateNotFound(UPDATE_HEIGHT))
    );
}

#[test]
fn host_height_and_time() {
    let ctx = new_ctx();
    assert_eq!(ctx.host_height(), Height { revision_number: 0, revision_height: 100 });
    assert_eq!(ctx.host_timestamp(), 1_000_000_000);
    assert_eq!(ctx.client_id(), "contract0");
}

#[test]
fn checksum_from_outer_layers_only() {
    let mut ctx = new_ctx();
    let stored = WasmClientState { data: vec![0xff], checksum: vec![0xAB], latest_height: None }
        .to_any()
        .encode_to_vec();
    ctx.set_prefixed(b"clients/clientState", &stored);
    assert_eq!(ctx.obtain_checksum().unwrap(), vec![0xAB]);
    assert_eq!(
        ctx.load_client_state().unwrap_err(),
        LightError::Wasm(WasmLightClientSpecificError::NotAnyClientState)
    );
}

#[test]
fn outcome_checks() {
    let d = UpdateStateData {
        new_any_client_state: any("/c", b"1"),
        new_any_consensus_state: any("/n", b"2"),
        height: UPDATE_HEIGHT,
    };
    let m = MisbehaviourData { new_any_client_state: any("/c", b"f") };
    assert_eq!(expect_update_state(UpdateClientResult::UpdateState(d.clone())).unwrap(), d);
    assert_eq!(
        expect_update_state(UpdateClientResult::Misbehaviour(m.clone())).unwrap_err(),
        ContractError::generic("unexpected non-UpdateState client message")
    );
    assert_eq!(expect_misbehaviour(UpdateClientResult::Misbehaviour(m.clone())).unwrap(), m);
    assert_eq!(
        expect_misbehaviour(UpdateClientResult::UpdateState(d)).unwrap_err(),
        ContractError::generic("unexpected non-Misbehaviour client message")
    );
}

#[test]
fn misbehaviour_command_with_update_outcome_fails_without_write() {
    let mut ctx = created();
    let before = ctx.load_client_state().unwrap();
    let msg = SudoMsg::UpdateStateOnMisbehaviour(UpdateStateOnMisbehaviourMsg {
        client_message: update_msg("/mock.Update", &7u64.to_be_bytes()),
    });
    assert_eq!(
        sudo(&MockClient, &mut ctx, &msg).unwrap_err(),
        ContractError::generic("unexpected non-Misbehaviour client message")
    );
    assert_eq!(ctx.load_client_state().unwrap(), before);
    assert!(ctx.consensus_state(UPDATE_HEIGHT).is_err());
}

#[test]
fn membership_with_non_utf8_path() {
    let mut ctx = created();
    let msg = SudoMsg::VerifyMembership(VerifyMembershipMsg {
        height: CREATE_HEIGHT,
        delay_time_period: 0,
        delay_block_period: 0,
        proof: vec![],
        merkle_path: MerklePath { key_path: vec![b"ibc".to_vec(), vec![0xc3]] },
        value: vec![],
    });
    assert_eq!(sudo(&MockClient, &mut ctx, &msg).unwrap_err(), ContractError::FromUtf8);
}

#[test]
fn framing_follows_protobuf() {
    // unknown fixed-width fields (wire types 1 and 5) are skipped
    let mut b = vec![0x19, 1, 2, 3, 4, 5, 6, 7, 8, 0x25, 1, 2, 3, 4];
    b.extend_from_slice(&[0x12, 1, b'v']);
    assert_eq!(Any::decode(&b).unwrap(), any("", b"v"));
    // a truncated fixed-width field is malformed
    assert!(Any::decode(&[0x19, 1, 2]).is_none());
    // a key above 32 bits is malformed
    assert!(Any::decode(&[0x82, 0x80, 0x80, 0x80, 0x10, 0]).is_none());
    // a type tag must be UTF-8
    assert!(Any::decode(&[0x0a, 1, 0xff]).is_none());
    // a repeated height field is the merge of its occurrences
    let w = WasmClientState::decode(&[0x1a, 2, 0x08, 1, 0x1a, 2, 0x10, 2]).unwrap();
    assert_eq!(w.latest_height, Some(Height { revision_number: 1, revision_height: 2 }));
}
