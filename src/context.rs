//! The client state repository: a namespaced view over the host store that
//! owns the key layout and reads and writes the hosted states.
use crate::envelope::{
    decode_hosted_client_state, decode_hosted_consensus_state, decode_wasm_client_state_envelope,
    read_wasm_client_state_envelope, hosted_client_state_bytes,
    hosted_consensus_state_bytes, read_hosted_client_state, read_hosted_consensus_state, Any,
    WasmClientState, WasmConsensusState, any_bytes, AnyView, WASM_CLIENT_STATE_TYPE_URL,
    WASM_CONSENSUS_STATE_TYPE_URL,
};
use crate::error::{ContractError, LightError};
use crate::msg::Height;
use crate::store::{KVStore, KVStoreRead};
use crate::wire::{delimited_bytes, opt_delimited_bytes};
use vstd::prelude::*;
use vstd::string::StringSliceAdditionalSpecFns;

verus! {

pub const SUBJECT_PREFIX: &'static str = "subject/";
pub const SUBSTITUTE_PREFIX: &'static str = "substitute/";
pub const CLIENT_STATE_PATH: &'static str = "clients/clientState";
pub const CONSENSUS_STATE_PATH: &'static str = "clients/consensusStates/";
pub const HEIGHT_SEPARATOR: &'static str = "-";
pub const PROCESSED_TIME: &'static str = "/processedTime";
pub const PROCESSED_HEIGHT: &'static str = "/processedHeight";

/// The namespace that a migration addresses.
#[derive(Clone, Copy, Debug, PartialEq, Eq, Structural)]
pub enum MigrationPrefix {
    Subject,
    Substitute,
}

pub open spec fn prefix_of(p: Option<MigrationPrefix>) -> Seq<u8> {
    match p {
        None => seq![],
        Some(MigrationPrefix::Subject) => SUBJECT_PREFIX.spec_bytes(),
        Some(MigrationPrefix::Substitute) => SUBSTITUTE_PREFIX.spec_bytes(),
    }
}

/// The store key of `key` under namespace `p`.
pub open spec fn namespaced(p: Option<MigrationPrefix>, key: Seq<u8>) -> Seq<u8> {
    prefix_of(p) + key
}

/// The `n` bytes of `x` (modulo `256^n`), most significant first.
pub open spec fn be_bytes(x: nat, n: nat) -> Seq<u8>
    decreases n,
{
    if n == 0 {
        seq![]
    } else {
        be_bytes(x / 256, (n - 1) as nat).push((x % 256) as u8)
    }
}

pub open spec fn client_state_path() -> Seq<u8> {
    CLIENT_STATE_PATH.spec_bytes()
}

/// `clients/consensusStates/{revision}-{height}`, both numbers as eight
/// big-endian bytes.
pub open spec fn consensus_state_path(h: Height) -> Seq<u8> {
    CONSENSUS_STATE_PATH.spec_bytes() + be_bytes(h.revision_number as nat, 8) + HEIGHT_SEPARATOR.spec_bytes()
        + be_bytes(h.revision_height as nat, 8)
}

pub open spec fn processed_time_path(h: Height) -> Seq<u8> {
    consensus_state_path(h) + PROCESSED_TIME.spec_bytes()
}

pub open spec fn processed_height_path(h: Height) -> Seq<u8> {
    consensus_state_path(h) + PROCESSED_HEIGHT.spec_bytes()
}

pub proof fn lemma_be_bytes_len(x: nat, n: nat)
    ensures
        be_bytes(x, n).len() == n,
    decreases n,
{
    if n > 0 {
        lemma_be_bytes_len(x / 256, (n - 1) as nat);
    }
}

/// The lengths of the fixed parts of the key layout.
pub proof fn lemma_path_lengths()
    ensures
        SUBJECT_PREFIX.spec_bytes().len() == 8,
        SUBSTITUTE_PREFIX.spec_bytes().len() == 11,
        CLIENT_STATE_PATH.spec_bytes().len() == 19,
        CONSENSUS_STATE_PATH.spec_bytes().len() == 24,
        HEIGHT_SEPARATOR.spec_bytes().len() == 1,
        PROCESSED_TIME.spec_bytes().len() == 14,
        PROCESSED_HEIGHT.spec_bytes().len() == 16,
        WASM_CLIENT_STATE_TYPE_URL.spec_bytes().len() > 0,
        WASM_CONSENSUS_STATE_TYPE_URL.spec_bytes().len() > 0,
{
    reveal_strlit("subject/");
    reveal_strlit("substitute/");
    reveal_strlit("clients/clientState");
    reveal_strlit("clients/consensusStates/");
    reveal_strlit("-");
    reveal_strlit("/processedTime");
    reveal_strlit("/processedHeight");
    reveal_strlit("/ibc.lightclients.wasm.v1.ClientState");
    reveal_strlit("/ibc.lightclients.wasm.v1.ConsensusState");
    vstd::string::is_ascii_spec_bytes(SUBJECT_PREFIX);
    vstd::string::is_ascii_spec_bytes(SUBSTITUTE_PREFIX);
    vstd::string::is_ascii_spec_bytes(CLIENT_STATE_PATH);
    vstd::string::is_ascii_spec_bytes(CONSENSUS_STATE_PATH);
    vstd::string::is_ascii_spec_bytes(HEIGHT_SEPARATOR);
    vstd::string::is_ascii_spec_bytes(PROCESSED_TIME);
    vstd::string::is_ascii_spec_bytes(PROCESSED_HEIGHT);
    vstd::string::is_ascii_spec_bytes(WASM_CLIENT_STATE_TYPE_URL);
    vstd::string::is_ascii_spec_bytes(WASM_CONSENSUS_STATE_TYPE_URL);
}

/// A stored `Any` is never empty when its tag is not.
pub proof fn lemma_any_bytes_nonempty(a: AnyView)
    requires
        a.type_url.len() > 0,
    ensures
        any_bytes(a).len() > 0,
{
    assert(opt_delimited_bytes(1, a.type_url) == delimited_bytes(1, a.type_url));
}

/// Relies on u64::to_be_bytes: the eight bytes of `x`, most significant
/// first.
#[verifier::external_body]
fn u64_be_bytes(x: u64) -> (r: [u8; 8])
    ensures
        r@ == be_bytes(x as nat, 8),
{
    x.to_be_bytes()
}

fn push_be_bytes(out: &mut Vec<u8>, x: u64)
    ensures
        final(out)@ == old(out)@ + be_bytes(x as nat, 8),
{
    let b = u64_be_bytes(x);
    out.extend_from_slice(vstd::array::array_as_slice(&b));
    proof {
        assert(final(out)@ =~= old(out)@ + be_bytes(x as nat, 8));
    }
}

fn push_str(out: &mut Vec<u8>, s: &str)
    ensures
        final(out)@ == old(out)@ + s.spec_bytes(),
{
    out.extend_from_slice(s.as_bytes());
    proof {
        assert(final(out)@ =~= old(out)@ + s.spec_bytes());
    }
}

/// The adapter's view of one client: the host store under the active
/// namespace, the client's identity, the cached checksum and the host's
/// block height and time.
pub struct Context<S: KVStoreRead> {
    pub store: S,
    pub client_id: String,
    pub checksum: Option<Vec<u8>>,
    pub migration_prefix: Option<MigrationPrefix>,
    pub block_height: u64,
    pub block_time_nanos: u64,
}

impl<S: KVStoreRead> Context<S> {
    pub open spec fn contents(&self) -> Map<Seq<u8>, Seq<u8>> {
        self.store.contents()
    }

    /// The store key of `path` under this context's namespace.
    pub open spec fn key(&self, path: Seq<u8>) -> Seq<u8> {
        namespaced(self.migration_prefix, path)
    }

    /// What is stored at `path` under this context's namespace.
    pub open spec fn stored(&self, path: Seq<u8>) -> Option<Seq<u8>> {
        if self.contents().contains_key(self.key(path)) {
            Some(self.contents()[self.key(path)])
        } else {
            None
        }
    }

    /// The inner client state, as read from the store.
    pub open spec fn spec_client_state(&self) -> Result<AnyView, LightError> {
        match self.stored(client_state_path()) {
            None => Err(LightError::ClientStateNotFound),
            Some(b) => match decode_hosted_client_state(b) {
                Ok((inner, _)) => Ok(inner),
                Err(e) => Err(LightError::Wasm(e)),
            },
        }
    }

    /// The inner consensus state at `height`, as read from the store.
    pub open spec fn spec_consensus_state(&self, height: Height) -> Result<AnyView, LightError> {
        match self.stored(consensus_state_path(height)) {
            None => Err(LightError::ConsensusStateNotFound(height)),
            Some(b) => match decode_hosted_consensus_state(b, height) {
                Ok(inner) => Ok(inner),
                Err(e) => Err(LightError::Wasm(e)),
            },
        }
    }

    /// The checksum that a write of the client state uses: the cached one,
    /// else the one in the outer layers of the stored client state.
    pub open spec fn spec_checksum(&self) -> Result<Seq<u8>, ContractError> {
        match self.checksum {
            Some(c) => Ok(c@),
            None => match self.stored(client_state_path()) {
                None => Err(ContractError::Light(LightError::ClientStateNotFound)),
                Some(b) => match decode_wasm_client_state_envelope(b) {
                    Ok(w) => Ok(w.checksum),
                    Err(e) => Err(ContractError::Light(LightError::Wasm(e))),
                },
            },
        }
    }

    /// The context's other parts are as in `o`.
    pub open spec fn same_setup(&self, o: &Self) -> bool {
        &&& self.client_id == o.client_id
        &&& self.checksum == o.checksum
        &&& self.migration_prefix == o.migration_prefix
        &&& self.block_height == o.block_height
        &&& self.block_time_nanos == o.block_time_nanos
    }

    pub fn new(store: S, client_id: String, block_height: u64, block_time_nanos: u64) -> (r: Self)
        ensures
            r.store == store,
            r.client_id == client_id,
            r.checksum is None,
            r.migration_prefix is None,
            r.block_height == block_height,
            r.block_time_nanos == block_time_nanos,
    {
        Context { store, client_id, checksum: None, migration_prefix: None, block_height, block_time_nanos }
    }

    pub fn client_id(&self) -> (r: &String)
        ensures
            r == self.client_id,
    {
        &self.client_id
    }

    pub fn set_checksum(&mut self, checksum: Vec<u8>)
        ensures
            final(self).checksum == Some(checksum),
            final(self).store == old(self).store,
            final(self).client_id == old(self).client_id,
            final(self).migration_prefix == old(self).migration_prefix,
            final(self).block_height == old(self).block_height,
            final(self).block_time_nanos == old(self).block_time_nanos,
    {
        self.checksum = Some(checksum);
    }

    /// The checksum cached in this invocation, else the one of the stored
    /// client state.
    pub fn obtain_checksum(&self) -> (r: Result<Vec<u8>, ContractError>)
        ensures
            match self.spec_checksum() {
                Ok(c) => r matches Ok(x) && x@ == c,
                Err(e) => r == Err::<Vec<u8>, _>(e),
            },
    {
        match &self.checksum {
            Some(checksum) => Ok(checksum.clone()),
            None => {
                let key = self.prefixed_key(CLIENT_STATE_PATH.as_bytes());
                match self.store.get(key.as_slice()) {
                    None => Err(ContractError::Light(LightError::ClientStateNotFound)),
                    Some(value) => match read_wasm_client_state_envelope(value.as_slice()) {
                        Ok(w) => Ok(w.checksum),
                        Err(e) => Err(ContractError::Light(LightError::Wasm(e))),
                    },
                }
            },
        }
    }

    pub fn set_subject_prefix(&mut self)
        ensures
            final(self).migration_prefix == Some(MigrationPrefix::Subject),
            final(self).store == old(self).store,
            final(self).checksum == old(self).checksum,
            final(self).client_id == old(self).client_id,
    {
        self.migration_prefix = Some(MigrationPrefix::Subject);
    }

    pub fn set_substitute_prefix(&mut self)
        ensures
            final(self).migration_prefix == Some(MigrationPrefix::Substitute),
            final(self).store == old(self).store,
            final(self).checksum == old(self).checksum,
            final(self).client_id == old(self).client_id,
    {
        self.migration_prefix = Some(MigrationPrefix::Substitute);
    }

    /// `key` under the active namespace.
    pub fn prefixed_key(&self, key: &[u8]) -> (r: Vec<u8>)
        ensures
            r@ == self.key(key@),
    {
        let mut out: Vec<u8> = Vec::new();
        match self.migration_prefix {
            None => {},
            Some(MigrationPrefix::Subject) => push_str(&mut out, SUBJECT_PREFIX),
            Some(MigrationPrefix::Substitute) => push_str(&mut out, SUBSTITUTE_PREFIX),
        }
        out.extend_from_slice(key);
        proof {
            assert(out@ =~= self.key(key@));
        }
        out
    }

    pub fn get_prefixed(&self, key: &[u8]) -> (r: Option<Vec<u8>>)
        ensures
            match self.stored(key@) {
                Some(v) => r matches Some(x) && x@ == v,
                None => r is None,
            },
    {
        let k = self.prefixed_key(key);
        self.store.get(k.as_slice())
    }

    /// The host's height: revision zero, the current block height.
    pub fn host_height(&self) -> (r: Height)
        ensures
            r == (Height { revision_number: 0, revision_height: self.block_height }),
    {
        Height { revision_number: 0, revision_height: self.block_height }
    }

    /// The host's block time, in nanoseconds since the epoch.
    pub fn host_timestamp(&self) -> (r: u64)
        ensures
            r == self.block_time_nanos,
    {
        self.block_time_nanos
    }

    /// Reads the hosted client state and the inner state within it.
    pub fn load_client_state(&self) -> (r: Result<(Any, WasmClientState), LightError>)
        ensures
            match self.stored(client_state_path()) {
                None => r == Err::<(Any, WasmClientState), _>(LightError::ClientStateNotFound),
                Some(b) => match decode_hosted_client_state(b) {
                    Ok((inner, w)) => r matches Ok((a, x)) && a@ == inner && x@ == w,
                    Err(e) => r == Err::<(Any, WasmClientState), _>(LightError::Wasm(e)),
                },
            },
    {
        match self.get_prefixed(CLIENT_STATE_PATH.as_bytes()) {
            None => Err(LightError::ClientStateNotFound),
            Some(value) => match read_hosted_client_state(value.as_slice()) {
                Ok(x) => Ok(x),
                Err(e) => Err(LightError::Wasm(e)),
            },
        }
    }

    /// The inner client state.
    pub fn client_state(&self) -> (r: Result<Any, LightError>)
        ensures
            match self.spec_client_state() {
                Ok(inner) => r matches Ok(a) && a@ == inner,
                Err(e) => r == Err::<Any, _>(e),
            },
    {
        match self.load_client_state() {
            Ok((a, _)) => Ok(a),
            Err(e) => Err(e),
        }
    }

    /// The inner consensus state at `height`.
    pub fn consensus_state(&self, height: Height) -> (r: Result<Any, LightError>)
        ensures
            match self.spec_consensus_state(height) {
                Ok(inner) => r matches Ok(a) && a@ == inner,
                Err(e) => r == Err::<Any, _>(e),
            },
    {
        let path = consensus_state_path_of(height);
        match self.get_prefixed(path.as_slice()) {
            None => Err(LightError::ConsensusStateNotFound(height)),
            Some(value) => match read_hosted_consensus_state(value.as_slice(), height) {
                Ok(a) => Ok(a),
                Err(e) => Err(LightError::Wasm(e)),
            },
        }
    }

    /// The store key of the consensus state at `height`.
    pub fn consensus_state_key(&self, height: Height) -> (r: Vec<u8>)
        ensures
            r@ == self.key(consensus_state_path(height)),
    {
        let path = consensus_state_path_of(height);
        self.prefixed_key(path.as_slice())
    }

}

impl<S: KVStore> Context<S> {
    pub fn set_prefixed(&mut self, key: &[u8], value: &[u8])
        requires
            value@.len() > 0,
        ensures
            final(self).contents() == old(self).contents().insert(old(self).key(key@), value@),
            final(self).same_setup(old(self)),
    {
        let k = self.prefixed_key(key);
        self.store.set(k.as_slice(), value);
    }

    pub fn remove_prefixed(&mut self, key: &[u8])
        ensures
            final(self).contents() == old(self).contents().remove(old(self).key(key@)),
            final(self).same_setup(old(self)),
    {
        let k = self.prefixed_key(key);
        self.store.remove(k.as_slice());
    }

    /// Replaces the client state with `any_client_state` wrapped together
    /// with the checksum and `latest_height`.
    pub fn store_client_state(&mut self, latest_height: Height, any_client_state: &Any) -> (r: Result<(), ContractError>)
        ensures
            final(self).same_setup(old(self)),
            match old(self).spec_checksum() {
                Ok(c) => r is Ok && final(self).contents() == old(self).contents().insert(
                    old(self).key(client_state_path()),
                    hosted_client_state_bytes(any_client_state@, c, latest_height),
                ),
                Err(e) => r == Err::<(), _>(e) && final(self).contents() == old(self).contents(),
            },
    {
        let checksum = match self.obtain_checksum() {
            Ok(c) => c,
            Err(e) => return Err(e),
        };
        let w = WasmClientState {
            data: any_client_state.encode_to_vec(),
            checksum,
            latest_height: Some(latest_height),
        };
        let outer = w.to_any();
        let value = outer.encode_to_vec();
        proof {
            lemma_path_lengths();
            lemma_any_bytes_nonempty(outer@);
        }
        self.set_prefixed(CLIENT_STATE_PATH.as_bytes(), value.as_slice());
        Ok(())
    }

    /// Stores `any_consensus_state`, wrapped, as the consensus state at
    /// `height`; a later write at the same height replaces it.
    pub fn store_consensus_state(&mut self, height: Height, any_consensus_state: &Any) -> (r: Result<(), ContractError>)
        ensures
            r is Ok,
            final(self).same_setup(old(self)),
            final(self).contents() == old(self).contents().insert(
                old(self).key(consensus_state_path(height)),
                hosted_consensus_state_bytes(any_consensus_state@),
            ),
    {
        let w = WasmConsensusState { data: any_consensus_state.encode_to_vec() };
        let outer = w.to_any();
        let value = outer.encode_to_vec();
        proof {
            lemma_path_lengths();
            lemma_any_bytes_nonempty(outer@);
        }
        let path = consensus_state_path_of(height);
        self.set_prefixed(path.as_slice(), value.as_slice());
        Ok(())
    }

    /// Removes the consensus state at `height`, if there is one.
    pub fn delete_consensus_state(&mut self, height: Height) -> (r: Result<(), ContractError>)
        ensures
            r is Ok,
            final(self).same_setup(old(self)),
            final(self).contents() == old(self).contents().remove(old(self).key(consensus_state_path(height))),
    {
        let path = consensus_state_path_of(height);
        self.remove_prefixed(path.as_slice());
        Ok(())
    }

    /// Records when, in host time and host height, the consensus state at
    /// `height` was processed: each as eight big-endian bytes.
    pub fn store_update_meta(&mut self, height: Height, host_timestamp: u64, host_height: Height) -> (r: Result<(), ContractError>)
        ensures
            r is Ok,
            final(self).same_setup(old(self)),
            final(self).contents() == old(self).contents().insert(
                old(self).key(processed_time_path(height)),
                be_bytes(host_timestamp as nat, 8),
            ).insert(
                old(self).key(processed_height_path(height)),
                be_bytes(host_height.revision_height as nat, 8),
            ),
    {
        let mut path = consensus_state_path_of(height);
        push_str(&mut path, PROCESSED_TIME);
        let mut value: Vec<u8> = Vec::new();
        push_be_bytes(&mut value, host_timestamp);
        proof {
            lemma_be_bytes_len(host_timestamp as nat, 8);
            assert(path@ =~= processed_time_path(height));
        }
        self.set_prefixed(path.as_slice(), value.as_slice());
        let mut path = consensus_state_path_of(height);
        push_str(&mut path, PROCESSED_HEIGHT);
        let mut value: Vec<u8> = Vec::new();
        push_be_bytes(&mut value, host_height.revision_height);
        proof {
            lemma_be_bytes_len(host_height.revision_height as nat, 8);
            assert(path@ =~= processed_height_path(height));
        }
        self.set_prefixed(path.as_slice(), value.as_slice());
        Ok(())
    }

    /// Removes both records of `store_update_meta` at `height`.
    pub fn delete_update_meta(&mut self, height: Height) -> (r: Result<(), ContractError>)
        ensures
            r is Ok,
            final(self).same_setup(old(self)),
            final(self).contents() == old(self).contents().remove(old(self).key(processed_time_path(height))).remove(
                old(self).key(processed_height_path(height)),
            ),
    {
        let mut path = consensus_state_path_of(height);
        push_str(&mut path, PROCESSED_TIME);
        proof {
            assert(path@ =~= processed_time_path(height));
        }
        self.remove_prefixed(path.as_slice());
        let mut path = consensus_state_path_of(height);
        push_str(&mut path, PROCESSED_HEIGHT);
        proof {
            assert(path@ =~= processed_height_path(height));
        }
        self.remove_prefixed(path.as_slice());
        Ok(())
    }
}

/// The path of the consensus state at `height`, without namespace.
pub fn consensus_state_path_of(height: Height) -> (r: Vec<u8>)
    ensures
        r@ == consensus_state_path(height),
{
    let mut out: Vec<u8> = Vec::new();
    push_str(&mut out, CONSENSUS_STATE_PATH);
    push_be_bytes(&mut out, height.revision_number);
    push_str(&mut out, HEIGHT_SEPARATOR);
    push_be_bytes(&mut out, height.revision_height);
    proof {
        assert(out@ =~= consensus_state_path(height));
    }
    out
}

/// Namespace isolation: the same key under two different namespaces names
/// two different store entries, so a write or a removal under one leaves
/// what the other reads at that key as it was.
pub proof fn lemma_namespace_isolation(
    m: Map<Seq<u8>, Seq<u8>>,
    p1: Option<MigrationPrefix>,
    p2: Option<MigrationPrefix>,
    key: Seq<u8>,
    value: Seq<u8>,
)
    requires
        p1 != p2,
    ensures
        namespaced(p1, key) != namespaced(p2, key),
        m.insert(namespaced(p1, key), value).contains_key(namespaced(p2, key)) == m.contains_key(namespaced(p2, key)),
        m.insert(namespaced(p1, key), value)[namespaced(p2, key)] == m[namespaced(p2, key)],
        m.remove(namespaced(p1, key)).contains_key(namespaced(p2, key)) == m.contains_key(namespaced(p2, key)),
        m.remove(namespaced(p1, key))[namespaced(p2, key)] == m[namespaced(p2, key)],
{
    lemma_path_lengths();
    assert(prefix_of(p1).len() != prefix_of(p2).len());
    assert(namespaced(p1, key).len() != namespaced(p2, key).len());
}

/// Removing a consensus state twice leaves the store as removing it once.
pub proof fn lemma_delete_consensus_state_idempotent(m: Map<Seq<u8>, Seq<u8>>, p: Option<MigrationPrefix>, height: Height)
    ensures
        m.remove(namespaced(p, consensus_state_path(height))).remove(namespaced(p, consensus_state_path(height)))
            == m.remove(namespaced(p, consensus_state_path(height))),
{
    let k = namespaced(p, consensus_state_path(height));
    assert(m.remove(k).remove(k) =~= m.remove(k));
}

/// The client state's key is none of the keys of the per-height records.
pub proof fn lemma_client_state_key_apart(p: Option<MigrationPrefix>, height: Height)
    ensures
        namespaced(p, client_state_path()) != namespaced(p, consensus_state_path(height)),
        namespaced(p, client_state_path()) != namespaced(p, processed_time_path(height)),
        namespaced(p, client_state_path()) != namespaced(p, processed_height_path(height)),
        namespaced(p, consensus_state_path(height)) != namespaced(p, processed_time_path(height)),
        namespaced(p, consensus_state_path(height)) != namespaced(p, processed_height_path(height)),
        namespaced(p, processed_time_path(height)) != namespaced(p, processed_height_path(height)),
{
    lemma_path_lengths();
    lemma_be_bytes_len(height.revision_number as nat, 8);
    lemma_be_bytes_len(height.revision_height as nat, 8);
    assert(consensus_state_path(height).len() == 41);
    assert(namespaced(p, client_state_path()).len() == prefix_of(p).len() + 19);
    assert(namespaced(p, consensus_state_path(height)).len() == prefix_of(p).len() + 41);
    assert(namespaced(p, processed_time_path(height)).len() == prefix_of(p).len() + 55);
    assert(namespaced(p, processed_height_path(height)).len() == prefix_of(p).len() + 57);
}

/// Replacing the client state leaves every consensus state where it was.
pub proof fn lemma_client_state_write_keeps_consensus_states(
    m: Map<Seq<u8>, Seq<u8>>,
    p: Option<MigrationPrefix>,
    value: Seq<u8>,
    height: Height,
)
    ensures
        m.insert(namespaced(p, client_state_path()), value).contains_key(namespaced(p, consensus_state_path(height)))
            == m.contains_key(namespaced(p, consensus_state_path(height))),
        m.insert(namespaced(p, client_state_path()), value)[namespaced(p, consensus_state_path(height))]
            == m[namespaced(p, consensus_state_path(height))],
{
    lemma_client_state_key_apart(p, height);
}

/// Whether `a` sorts before `b` byte by byte, where both have one length:
/// they agree up to some position, and there `a` has the smaller byte.
pub open spec fn bytes_lt(a: Seq<u8>, b: Seq<u8>) -> bool {
    &&& a.len() == b.len()
    &&& exists|i: int| 0 <= i < a.len() && a.subrange(0, i) == b.subrange(0, i) && a[i] < b[i]
}

/// The order of heights: by revision, then by height within it.
pub open spec fn height_lt(h1: Height, h2: Height) -> bool {
    ||| h1.revision_number < h2.revision_number
    ||| h1.revision_number == h2.revision_number && h1.revision_height < h2.revision_height
}

/// Big-endian bytes of one width sort as the numbers do.
pub proof fn lemma_be_bytes_order(x: nat, y: nat, n: nat)
    requires
        x < y < vstd::arithmetic::power::pow(256, n),
    ensures
        bytes_lt(be_bytes(x, n), be_bytes(y, n)),
    decreases n,
{
    lemma_be_bytes_len(x, n);
    lemma_be_bytes_len(y, n);
    vstd::arithmetic::power::lemma_pow0(256);
    if n > 0 {
        let p = vstd::arithmetic::power::pow(256, (n - 1) as nat);
        vstd::arithmetic::power::lemma_pow_adds(256, (n - 1) as nat, 1);
        vstd::arithmetic::power::lemma_pow1(256);
        assert(y / 256 < p) by (nonlinear_arith)
            requires y < p * 256;
        assert(x / 256 <= y / 256) by (nonlinear_arith)
            requires x < y;
        let a = be_bytes(x / 256, (n - 1) as nat);
        let b = be_bytes(y / 256, (n - 1) as nat);
        lemma_be_bytes_len(x / 256, (n - 1) as nat);
        lemma_be_bytes_len(y / 256, (n - 1) as nat);
        let ex = be_bytes(x, n);
        let ey = be_bytes(y, n);
        if x / 256 < y / 256 {
            lemma_be_bytes_order(x / 256, y / 256, (n - 1) as nat);
            let i = choose|i: int| 0 <= i < a.len() && a.subrange(0, i) == b.subrange(0, i) && a[i] < b[i];
            assert(ex.subrange(0, i) =~= a.subrange(0, i));
            assert(ey.subrange(0, i) =~= b.subrange(0, i));
            assert(ex[i] == a[i] && ey[i] == b[i]);
        } else {
            assert(x % 256 < y % 256) by (nonlinear_arith)
                requires x < y, x / 256 == y / 256;
            let i = (n - 1) as int;
            assert(ex.subrange(0, i) =~= a);
            assert(ey.subrange(0, i) =~= b);
            assert(ex[i] < ey[i]);
        }
    }
}

/// Keys of consensus states sort as their heights do, under any namespace.
pub proof fn lemma_consensus_state_keys_sorted(p: Option<MigrationPrefix>, h1: Height, h2: Height)
    requires
        height_lt(h1, h2),
    ensures
        bytes_lt(namespaced(p, consensus_state_path(h1)), namespaced(p, consensus_state_path(h2))),
{
    let head = prefix_of(p) + CONSENSUS_STATE_PATH.spec_bytes();
    let sep = HEIGHT_SEPARATOR.spec_bytes();
    let n1 = be_bytes(h1.revision_number as nat, 8);
    let n2 = be_bytes(h2.revision_number as nat, 8);
    let t1 = be_bytes(h1.revision_height as nat, 8);
    let t2 = be_bytes(h2.revision_height as nat, 8);
    lemma_be_bytes_len(h1.revision_number as nat, 8);
    lemma_be_bytes_len(h2.revision_number as nat, 8);
    lemma_be_bytes_len(h1.revision_height as nat, 8);
    lemma_be_bytes_len(h2.revision_height as nat, 8);
    let k1 = namespaced(p, consensus_state_path(h1));
    let k2 = namespaced(p, consensus_state_path(h2));
    assert(k1 =~= head + n1 + sep + t1);
    assert(k2 =~= head + n2 + sep + t2);
    vstd::arithmetic::power::lemma_pow_positive(256, 8);
    reveal_with_fuel(vstd::arithmetic::power::pow, 9);
    assert(vstd::arithmetic::power::pow(256, 8) == 0x1_0000_0000_0000_0000);
    let h = head.len() as int;
    if h1.revision_number < h2.revision_number {
        lemma_be_bytes_order(h1.revision_number as nat, h2.revision_number as nat, 8);
        let i = choose|i: int| 0 <= i < n1.len() && n1.subrange(0, i) == n2.subrange(0, i) && n1[i] < n2[i];
        assert(k1.subrange(0, h + i) =~= head + n1.subrange(0, i));
        assert(k2.subrange(0, h + i) =~= head + n2.subrange(0, i));
        assert(k1[h + i] == n1[i] && k2[h + i] == n2[i]);
    } else {
        lemma_be_bytes_order(h1.revision_height as nat, h2.revision_height as nat, 8);
        let i = choose|i: int| 0 <= i < t1.len() && t1.subrange(0, i) == t2.subrange(0, i) && t1[i] < t2[i];
        let m = h + 8 + sep.len();
        assert(n1 == n2);
        assert(k1.subrange(0, m + i) =~= head + n1 + sep + t1.subrange(0, i));
        assert(k2.subrange(0, m + i) =~= head + n2 + sep + t2.subrange(0, i));
        assert(k1[m + i] == t1[i] && k2[m + i] == t2[i]);
    }
}

/// What `store_client_state` writes, `client_state` reads back: the inner
/// state exactly.
pub proof fn lemma_client_state_reads_back<S: KVStoreRead>(
    before: Context<S>,
    after: Context<S>,
    inner: AnyView,
    checksum: Seq<u8>,
    height: Height,
)
    requires
        crate::msg::is_utf8(inner.type_url),
        after.migration_prefix == before.migration_prefix,
        after.contents() == before.contents().insert(
            before.key(client_state_path()),
            hosted_client_state_bytes(inner, checksum, height),
        ),
        hosted_client_state_bytes(inner, checksum, height).len() <= usize::MAX,
    ensures
        after.spec_client_state() == Ok::<AnyView, LightError>(inner),
{
    crate::envelope::lemma_hosted_client_state_round_trip(inner, checksum, height);
}

/// What `store_consensus_state` writes at a height, `consensus_state` reads
/// back at that height: the inner state exactly.
pub proof fn lemma_consensus_state_reads_back<S: KVStoreRead>(
    before: Context<S>,
    after: Context<S>,
    inner: AnyView,
    height: Height,
)
    requires
        crate::msg::is_utf8(inner.type_url),
        after.migration_prefix == before.migration_prefix,
        after.contents() == before.contents().insert(
            before.key(consensus_state_path(height)),
            hosted_consensus_state_bytes(inner),
        ),
        hosted_consensus_state_bytes(inner).len() <= usize::MAX,
    ensures
        after.spec_consensus_state(height) == Ok::<AnyView, LightError>(inner),
{
    crate::envelope::lemma_hosted_consensus_state_round_trip(inner, height);
}

/// Namespace isolation, for two contexts over one store: a write or a
/// removal of `key` by `a` (what `set_prefixed` or `remove_prefixed` leaves)
/// does not change what `b`, under another namespace, reads at `key`.
pub proof fn lemma_namespace_isolation_contexts<S: KVStoreRead>(
    a: Context<S>,
    b: Context<S>,
    b_after: Context<S>,
    key: Seq<u8>,
    value: Option<Seq<u8>>,
)
    requires
        a.migration_prefix != b.migration_prefix,
        b.contents() == a.contents(),
        b_after.migration_prefix == b.migration_prefix,
        b_after.contents() == match value {
            Some(v) => a.contents().insert(a.key(key), v),
            None => a.contents().remove(a.key(key)),
        },
    ensures
        b_after.stored(key) == b.stored(key),
{
    lemma_namespace_isolation(a.contents(), a.migration_prefix, b.migration_prefix, key, value.unwrap_or(seq![]));
}

} // verus!
