//! The hosted-state envelopes: a self-describing `Any` (type tag and
//! payload), and the client and consensus states that wrap an inner `Any`
//! together with the code checksum and the latest height.
use crate::error::WasmLightClientSpecificError;
use crate::msg::{is_utf8, Height};
use crate::wire::{
    all_delimited, all_varint, delimited_bytes, delimited_field, fields_of, find_delimited,
    find_varint, join_delimited, joined_delimited, last_field, lemma_fields_last_delimited, delimited_at, lemma_fields_opt_delimited,
    lemma_fields_opt_varint, opt_delimited_bytes, opt_varint_bytes, read_fields,
    varint_field, write_delimited, write_opt_delimited, write_opt_varint, FieldValue, RawField,
};
use vstd::prelude::*;
use vstd::string::StringSliceAdditionalSpecFns;

verus! {

/// Type tag of the hosted client state.
pub const WASM_CLIENT_STATE_TYPE_URL: &'static str = "/ibc.lightclients.wasm.v1.ClientState";

/// Type tag of the hosted consensus state.
pub const WASM_CONSENSUS_STATE_TYPE_URL: &'static str = "/ibc.lightclients.wasm.v1.ConsensusState";

/// A self-describing value: a type tag and the encoded value it names.
#[derive(Clone, Debug, PartialEq, Eq)]
pub struct Any {
    pub type_url: Vec<u8>,
    pub value: Vec<u8>,
}

pub struct AnyView {
    pub type_url: Seq<u8>,
    pub value: Seq<u8>,
}

impl View for Any {
    type V = AnyView;

    open spec fn view(&self) -> AnyView {
        AnyView { type_url: self.type_url@, value: self.value@ }
    }
}

/// The hosted client state: inner state bytes, checksum and latest height.
#[derive(Clone, Debug, PartialEq, Eq)]
pub struct WasmClientState {
    pub data: Vec<u8>,
    pub checksum: Vec<u8>,
    pub latest_height: Option<Height>,
}

pub struct WasmClientStateView {
    pub data: Seq<u8>,
    pub checksum: Seq<u8>,
    pub latest_height: Option<Height>,
}

impl View for WasmClientState {
    type V = WasmClientStateView;

    open spec fn view(&self) -> WasmClientStateView {
        WasmClientStateView { data: self.data@, checksum: self.checksum@, latest_height: self.latest_height }
    }
}

/// The hosted consensus state: inner state bytes.
#[derive(Clone, Debug, PartialEq, Eq)]
pub struct WasmConsensusState {
    pub data: Vec<u8>,
}

pub open spec fn any_bytes(a: AnyView) -> Seq<u8> {
    opt_delimited_bytes(1, a.type_url) + opt_delimited_bytes(2, a.value)
}

/// The `Any` that `s` encodes: its tag must be UTF-8 text.
pub open spec fn decode_any(s: Seq<u8>) -> Option<AnyView> {
    match fields_of(s) {
        Some(fs) => if all_delimited(fs, 1) && all_delimited(fs, 2) && is_utf8(delimited_field(s, fs, 1)) {
            Some(AnyView { type_url: delimited_field(s, fs, 1), value: delimited_field(s, fs, 2) })
        } else {
            None
        },
        None => None,
    }
}

pub open spec fn height_bytes(h: Height) -> Seq<u8> {
    opt_varint_bytes(1, h.revision_number as nat) + opt_varint_bytes(2, h.revision_height as nat)
}

pub open spec fn decode_height(s: Seq<u8>) -> Option<Height> {
    match fields_of(s) {
        Some(fs) => if all_varint(fs, 1) && all_varint(fs, 2) {
            Some(Height { revision_number: varint_field(fs, 1), revision_height: varint_field(fs, 2) })
        } else {
            None
        },
        None => None,
    }
}

pub open spec fn wasm_client_state_bytes(w: WasmClientStateView) -> Seq<u8> {
    opt_delimited_bytes(1, w.data) + opt_delimited_bytes(2, w.checksum) + match w.latest_height {
        Some(h) => delimited_bytes(3, height_bytes(h)),
        None => seq![],
    }
}

pub open spec fn decode_wasm_client_state(s: Seq<u8>) -> Option<WasmClientStateView> {
    match fields_of(s) {
        Some(fs) => if all_delimited(fs, 1) && all_delimited(fs, 2) && all_delimited(fs, 3) {
            match last_field(fs, 3) {
                None => Some(
                    WasmClientStateView {
                        data: delimited_field(s, fs, 1),
                        checksum: delimited_field(s, fs, 2),
                        latest_height: None,
                    },
                ),
                Some(_) => match decode_height(joined_delimited(s, fs, 3)) {
                    Some(h) => Some(
                        WasmClientStateView {
                            data: delimited_field(s, fs, 1),
                            checksum: delimited_field(s, fs, 2),
                            latest_height: Some(h),
                        },
                    ),
                    None => None,
                },
            }
        } else {
            None
        },
        None => None,
    }
}

pub open spec fn wasm_consensus_state_bytes(data: Seq<u8>) -> Seq<u8> {
    opt_delimited_bytes(1, data)
}

pub open spec fn decode_wasm_consensus_state(s: Seq<u8>) -> Option<Seq<u8>> {
    match fields_of(s) {
        Some(fs) => if all_delimited(fs, 1) {
            Some(delimited_field(s, fs, 1))
        } else {
            None
        },
        None => None,
    }
}

/// Relies on std::str::from_utf8: whether `b` is valid UTF-8.
#[verifier::external_body]
fn utf8_valid(b: &[u8]) -> (r: bool)
    ensures
        r == is_utf8(b@),
{
    std::str::from_utf8(b).is_ok()
}

/// Type tags spelled by string constants are UTF-8.
pub proof fn lemma_str_is_utf8(s: &str)
    ensures
        is_utf8(s.spec_bytes()),
{
    assert(vstd::utf8::encode_utf8(s@) == s.spec_bytes());
}

/// Whether two byte strings are equal.
pub fn bytes_eq(a: &[u8], b: &[u8]) -> (r: bool)
    ensures
        r == (a@ == b@),
{
    if a.len() != b.len() {
        return false;
    }
    let mut i: usize = 0;
    while i < a.len()
        invariant
            a@.len() == b@.len(),
            i <= a@.len(),
            forall|j: int| 0 <= j < i ==> a@[j] == b@[j],
        decreases a@.len() - i,
    {
        if a[i] != b[i] {
            return false;
        }
        i = i + 1;
    }
    proof {
        assert(a@ =~= b@);
    }
    true
}

impl Any {
    pub fn new(type_url: Vec<u8>, value: Vec<u8>) -> (r: Any)
        ensures
            r.type_url@ == type_url@,
            r.value@ == value@,
    {
        Any { type_url, value }
    }

    pub fn encode_to_vec(&self) -> (r: Vec<u8>)
        ensures
            r@ == any_bytes(self@),
    {
        let mut out: Vec<u8> = Vec::new();
        write_opt_delimited(&mut out, 1, self.type_url.as_slice());
        write_opt_delimited(&mut out, 2, self.value.as_slice());
        proof {
            assert(out@ =~= any_bytes(self@));
        }
        out
    }

    pub fn decode(b: &[u8]) -> (r: Option<Any>)
        ensures
            match decode_any(b@) {
                Some(v) => r matches Some(a) && a@ == v,
                None => r is None,
            },
    {
        let fs = match read_fields(b) {
            Some(fs) => fs,
            None => return None,
        };
        let type_url = match find_delimited(b, &fs, 1) {
            Some(x) => x,
            None => return None,
        };
        let value = match find_delimited(b, &fs, 2) {
            Some(x) => x,
            None => return None,
        };
        if !utf8_valid(type_url.as_slice()) {
            return None;
        }
        Some(Any { type_url, value })
    }
}

pub fn encode_height(h: Height) -> (r: Vec<u8>)
    ensures
        r@ == height_bytes(h),
{
    let mut out: Vec<u8> = Vec::new();
    write_opt_varint(&mut out, 1, h.revision_number);
    write_opt_varint(&mut out, 2, h.revision_height);
    proof {
        assert(out@ =~= height_bytes(h));
    }
    out
}

pub fn decode_height_bytes(b: &[u8]) -> (r: Option<Height>)
    ensures
        r == decode_height(b@),
{
    let fs = match read_fields(b) {
        Some(fs) => fs,
        None => return None,
    };
    let revision_number = match find_varint(&fs, 1) {
        Some(x) => x,
        None => return None,
    };
    let revision_height = match find_varint(&fs, 2) {
        Some(x) => x,
        None => return None,
    };
    Some(Height { revision_number, revision_height })
}

impl WasmClientState {
    pub fn encode_to_vec(&self) -> (r: Vec<u8>)
        ensures
            r@ == wasm_client_state_bytes(self@),
    {
        let mut out: Vec<u8> = Vec::new();
        write_opt_delimited(&mut out, 1, self.data.as_slice());
        write_opt_delimited(&mut out, 2, self.checksum.as_slice());
        match self.latest_height {
            Some(h) => {
                let hb = encode_height(h);
                write_delimited(&mut out, 3, hb.as_slice());
            },
            None => {},
        }
        proof {
            assert(out@ =~= wasm_client_state_bytes(self@));
        }
        out
    }

    pub fn decode(b: &[u8]) -> (r: Option<WasmClientState>)
        ensures
            match decode_wasm_client_state(b@) {
                Some(v) => r matches Some(w) && w@ == v,
                None => r is None,
            },
    {
        let fs = match read_fields(b) {
            Some(fs) => fs,
            None => return None,
        };
        let data = match find_delimited(b, &fs, 1) {
            Some(x) => x,
            None => return None,
        };
        let checksum = match find_delimited(b, &fs, 2) {
            Some(x) => x,
            None => return None,
        };
        if find_delimited(b, &fs, 3).is_none() {
            return None;
        }
        let height_field = join_delimited(b, &fs, 3);
        let present = has_field(&fs, 3);
        let latest_height = if present {
            match decode_height_bytes(height_field.as_slice()) {
                Some(h) => Some(h),
                None => return None,
            }
        } else {
            None
        };
        Some(WasmClientState { data, checksum, latest_height })
    }

    /// The hosted client state named by `a`, or `None` where the tag is not
    /// that of a hosted client state or the payload does not decode.
    pub fn try_from_any(a: &Any) -> (r: Option<WasmClientState>)
        ensures
            a.type_url@ != WASM_CLIENT_STATE_TYPE_URL.spec_bytes() ==> r is None,
            a.type_url@ == WASM_CLIENT_STATE_TYPE_URL.spec_bytes() ==> match decode_wasm_client_state(a.value@) {
                Some(v) => r matches Some(w) && w@ == v,
                None => r is None,
            },
    {
        if bytes_eq(WASM_CLIENT_STATE_TYPE_URL.as_bytes(), a.type_url.as_slice()) {
            WasmClientState::decode(a.value.as_slice())
        } else {
            None
        }
    }

    pub fn to_any(&self) -> (r: Any)
        ensures
            r.type_url@ == WASM_CLIENT_STATE_TYPE_URL.spec_bytes(),
            r.value@ == wasm_client_state_bytes(self@),
    {
        Any::new(vstd::slice::slice_to_vec(WASM_CLIENT_STATE_TYPE_URL.as_bytes()), self.encode_to_vec())
    }
}

/// Whether some field has `tag`.
pub fn has_field(fs: &Vec<RawField>, tag: u64) -> (r: bool)
    ensures
        r == (last_field(fs@, tag) is Some),
{
    let mut i: usize = fs.len();
    proof {
        assert(fs@.subrange(0, fs@.len() as int) =~= fs@);
    }
    while i > 0
        invariant
            i <= fs@.len(),
            last_field(fs@, tag) == last_field(fs@.subrange(0, i as int), tag),
        decreases i,
    {
        proof {
            assert(fs@.subrange(0, i as int).drop_last() =~= fs@.subrange(0, i - 1));
        }
        if fs[i - 1].tag == tag {
            return true;
        }
        i = i - 1;
    }
    false
}

impl WasmConsensusState {
    pub fn encode_to_vec(&self) -> (r: Vec<u8>)
        ensures
            r@ == wasm_consensus_state_bytes(self.data@),
    {
        let mut out: Vec<u8> = Vec::new();
        write_opt_delimited(&mut out, 1, self.data.as_slice());
        proof {
            assert(out@ =~= wasm_consensus_state_bytes(self.data@));
        }
        out
    }

    pub fn decode(b: &[u8]) -> (r: Option<WasmConsensusState>)
        ensures
            match decode_wasm_consensus_state(b@) {
                Some(d) => r matches Some(w) && w.data@ == d,
                None => r is None,
            },
    {
        let fs = match read_fields(b) {
            Some(fs) => fs,
            None => return None,
        };
        match find_delimited(b, &fs, 1) {
            Some(data) => Some(WasmConsensusState { data }),
            None => None,
        }
    }

    /// The hosted consensus state named by `a`, or `None` where the tag is
    /// not that of a hosted consensus state or the payload does not decode.
    pub fn try_from_any(a: &Any) -> (r: Option<WasmConsensusState>)
        ensures
            a.type_url@ != WASM_CONSENSUS_STATE_TYPE_URL.spec_bytes() ==> r is None,
            a.type_url@ == WASM_CONSENSUS_STATE_TYPE_URL.spec_bytes() ==> match decode_wasm_consensus_state(a.value@) {
                Some(d) => r matches Some(w) && w.data@ == d,
                None => r is None,
            },
    {
        if bytes_eq(WASM_CONSENSUS_STATE_TYPE_URL.as_bytes(), a.type_url.as_slice()) {
            WasmConsensusState::decode(a.value.as_slice())
        } else {
            None
        }
    }

    pub fn to_any(&self) -> (r: Any)
        ensures
            r.type_url@ == WASM_CONSENSUS_STATE_TYPE_URL.spec_bytes(),
            r.value@ == wasm_consensus_state_bytes(self.data@),
    {
        Any::new(vstd::slice::slice_to_vec(WASM_CONSENSUS_STATE_TYPE_URL.as_bytes()), self.encode_to_vec())
    }
}

/// The bytes stored for a hosted client state around `inner`.
pub open spec fn hosted_client_state_bytes(inner: AnyView, checksum: Seq<u8>, height: Height) -> Seq<u8> {
    any_bytes(
        AnyView {
            type_url: WASM_CLIENT_STATE_TYPE_URL.spec_bytes(),
            value: wasm_client_state_bytes(
                WasmClientStateView { data: any_bytes(inner), checksum, latest_height: Some(height) },
            ),
        },
    )
}

/// The bytes stored for a hosted consensus state around `inner`.
pub open spec fn hosted_consensus_state_bytes(inner: AnyView) -> Seq<u8> {
    any_bytes(
        AnyView {
            type_url: WASM_CONSENSUS_STATE_TYPE_URL.spec_bytes(),
            value: wasm_consensus_state_bytes(any_bytes(inner)),
        },
    )
}

/// Reads the outer layers of a stored hosted client state: the envelope,
/// its tag and the hosted state, leaving the inner state undecoded.
pub open spec fn decode_wasm_client_state_envelope(s: Seq<u8>) -> Result<WasmClientStateView, WasmLightClientSpecificError> {
    match decode_any(s) {
        None => Err(WasmLightClientSpecificError::NotAnyWasmClientState),
        Some(outer) => if outer.type_url != WASM_CLIENT_STATE_TYPE_URL.spec_bytes() {
            Err(WasmLightClientSpecificError::WrongClientStateType)
        } else {
            match decode_wasm_client_state(outer.value) {
                None => Err(WasmLightClientSpecificError::NotWasmClientState),
                Some(w) => Ok(w),
            }
        },
    }
}

/// Reads a stored hosted client state: the outer layers, then the inner state.
pub open spec fn decode_hosted_client_state(s: Seq<u8>) -> Result<(AnyView, WasmClientStateView), WasmLightClientSpecificError> {
    match decode_wasm_client_state_envelope(s) {
        Err(e) => Err(e),
        Ok(w) => match decode_any(w.data) {
            None => Err(WasmLightClientSpecificError::NotAnyClientState),
            Some(inner) => Ok((inner, w)),
        },
    }
}

/// Reads a stored hosted consensus state, as above.
pub open spec fn decode_hosted_consensus_state(s: Seq<u8>, height: Height) -> Result<AnyView, WasmLightClientSpecificError> {
    match decode_any(s) {
        None => Err(WasmLightClientSpecificError::NotAnyWasmConsensusState(height)),
        Some(outer) => if outer.type_url != WASM_CONSENSUS_STATE_TYPE_URL.spec_bytes() {
            Err(WasmLightClientSpecificError::WrongConsensusStateType(height))
        } else {
            match decode_wasm_consensus_state(outer.value) {
                None => Err(WasmLightClientSpecificError::NotWasmConsensusState(height)),
                Some(d) => match decode_any(d) {
                    None => Err(WasmLightClientSpecificError::NotAnyConsensusState(height)),
                    Some(inner) => Ok(inner),
                },
            }
        },
    }
}

pub fn read_wasm_client_state_envelope(b: &[u8]) -> (r: Result<WasmClientState, WasmLightClientSpecificError>)
    ensures
        match decode_wasm_client_state_envelope(b@) {
            Ok(w) => r matches Ok(x) && x@ == w,
            Err(e) => r == Err::<WasmClientState, _>(e),
        },
{
    let outer = match Any::decode(b) {
        Some(o) => o,
        None => return Err(WasmLightClientSpecificError::NotAnyWasmClientState),
    };
    if !bytes_eq(WASM_CLIENT_STATE_TYPE_URL.as_bytes(), outer.type_url.as_slice()) {
        return Err(WasmLightClientSpecificError::WrongClientStateType);
    }
    match WasmClientState::decode(outer.value.as_slice()) {
        Some(w) => Ok(w),
        None => Err(WasmLightClientSpecificError::NotWasmClientState),
    }
}

pub fn read_hosted_client_state(b: &[u8]) -> (r: Result<(Any, WasmClientState), WasmLightClientSpecificError>)
    ensures
        match decode_hosted_client_state(b@) {
            Ok((inner, w)) => r matches Ok((a, x)) && a@ == inner && x@ == w,
            Err(e) => r == Err::<(Any, WasmClientState), _>(e),
        },
{
    let w = match read_wasm_client_state_envelope(b) {
        Ok(w) => w,
        Err(e) => return Err(e),
    };
    match Any::decode(w.data.as_slice()) {
        Some(inner) => Ok((inner, w)),
        None => Err(WasmLightClientSpecificError::NotAnyClientState),
    }
}

pub fn read_hosted_consensus_state(b: &[u8], height: Height) -> (r: Result<Any, WasmLightClientSpecificError>)
    ensures
        match decode_hosted_consensus_state(b@, height) {
            Ok(inner) => r matches Ok(a) && a@ == inner,
            Err(e) => r == Err::<Any, _>(e),
        },
{
    let outer = match Any::decode(b) {
        Some(o) => o,
        None => return Err(WasmLightClientSpecificError::NotAnyWasmConsensusState(height)),
    };
    if !bytes_eq(WASM_CONSENSUS_STATE_TYPE_URL.as_bytes(), outer.type_url.as_slice()) {
        return Err(WasmLightClientSpecificError::WrongConsensusStateType(height));
    }
    let w = match WasmConsensusState::decode(outer.value.as_slice()) {
        Some(w) => w,
        None => return Err(WasmLightClientSpecificError::NotWasmConsensusState(height)),
    };
    match Any::decode(w.data.as_slice()) {
        Some(inner) => Ok(inner),
        None => Err(WasmLightClientSpecificError::NotAnyConsensusState(height)),
    }
}

/// Decoding the encoding of an `Any` gives it back, whatever its bytes.
pub proof fn lemma_any_round_trip(a: AnyView)
    requires
        any_bytes(a).len() <= usize::MAX,
        is_utf8(a.type_url),
    ensures
        decode_any(any_bytes(a)) == Some(a),
{
    let s = any_bytes(a);
    let e1 = opt_delimited_bytes(1, a.type_url);
    let e2 = opt_delimited_bytes(2, a.value);
    assert(s.subrange(0, s.len() as int) =~= e1 + e2);
    lemma_fields_opt_delimited(s, 0, 1, a.type_url, e2);
    assert(e2 =~= e2 + seq![]);
    lemma_fields_opt_delimited(s, e1.len() as int, 2, a.value, seq![]);
    let f1: Seq<RawField> = if a.type_url.len() == 0 { seq![] } else { seq![delimited_at(0, 1, a.type_url)] };
    let f2: Seq<RawField> = if a.value.len() == 0 { seq![] } else { seq![delimited_at(e1.len() as int, 2, a.value)] };
    assert(f2 + seq![] =~= f2);
    let fs = f1 + f2;
    assert(fields_of(s) == Some(fs));
    reveal_with_fuel(last_field, 3);
    if fs.len() == 2 {
        assert(fs.drop_last() =~= f1);
    }
    if f1.len() == 0 {
        assert(fs =~= f2);
    }
    if f2.len() == 0 {
        assert(fs =~= f1);
    }
    assert(delimited_field(s, fs, 1) =~= a.type_url);
    assert(delimited_field(s, fs, 2) =~= a.value);
}

/// Decoding the encoding of a height gives it back.
pub proof fn lemma_height_round_trip(h: Height)
    requires
        height_bytes(h).len() <= usize::MAX,
    ensures
        decode_height(height_bytes(h)) == Some(h),
{
    let s = height_bytes(h);
    let e1 = opt_varint_bytes(1, h.revision_number as nat);
    let e2 = opt_varint_bytes(2, h.revision_height as nat);
    assert(s.subrange(0, s.len() as int) =~= e1 + e2);
    lemma_fields_opt_varint(s, 0, 1, h.revision_number, e2);
    assert(e2 =~= e2 + seq![]);
    lemma_fields_opt_varint(s, e1.len() as int, 2, h.revision_height, seq![]);
    let f1: Seq<RawField> = if h.revision_number == 0 { seq![] } else {
        seq![RawField { tag: 1, value: FieldValue::Varint(h.revision_number) }]
    };
    let f2: Seq<RawField> = if h.revision_height == 0 { seq![] } else {
        seq![RawField { tag: 2, value: FieldValue::Varint(h.revision_height) }]
    };
    assert(f2 + seq![] =~= f2);
    let fs = f1 + f2;
    assert(fields_of(s) == Some(fs));
    reveal_with_fuel(last_field, 3);
    if fs.len() == 2 {
        assert(fs.drop_last() =~= f1);
    }
    if f1.len() == 0 {
        assert(fs =~= f2);
    }
    if f2.len() == 0 {
        assert(fs =~= f1);
    }
}

/// Decoding the encoding of a hosted client state with a height gives it back.
#[verifier::rlimit(30)]
pub proof fn lemma_wasm_client_state_round_trip(w: WasmClientStateView)
    requires
        wasm_client_state_bytes(w).len() <= usize::MAX,
        w.latest_height is Some,
    ensures
        decode_wasm_client_state(wasm_client_state_bytes(w)) == Some(w),
{
    let h = w.latest_height.unwrap();
    let hb = height_bytes(h);
    let s = wasm_client_state_bytes(w);
    let e1 = opt_delimited_bytes(1, w.data);
    let e2 = opt_delimited_bytes(2, w.checksum);
    let e3 = delimited_bytes(3, hb);
    assert(s.subrange(0, s.len() as int) =~= e1 + (e2 + e3));
    lemma_fields_opt_delimited(s, 0, 1, w.data, e2 + e3);
    let p2 = e1.len() as int;
    lemma_fields_opt_delimited(s, p2, 2, w.checksum, e3);
    let p3 = p2 + e2.len();
    lemma_fields_last_delimited(s, p3, 3, hb);
    let f1: Seq<RawField> = if w.data.len() == 0 { seq![] } else { seq![delimited_at(0, 1, w.data)] };
    let f2: Seq<RawField> = if w.checksum.len() == 0 { seq![] } else { seq![delimited_at(p2, 2, w.checksum)] };
    let f3 = delimited_at(p3, 3, hb);
    let fs = f1 + (f2 + seq![f3]);
    assert(fields_of(s) == Some(fs));
    assert(hb.len() <= usize::MAX);
    lemma_height_round_trip(h);
    reveal_with_fuel(last_field, 4);
    assert(fs.last() == f3);
    assert(fs.drop_last() =~= f1 + f2);
    let g = f1 + f2;
    if g.len() == 2 {
        assert(g.drop_last() =~= f1);
    }
    if f1.len() == 0 {
        assert(g =~= f2);
    }
    if f2.len() == 0 {
        assert(g =~= f1);
    }
    assert(delimited_field(s, fs, 1) =~= w.data);
    assert(delimited_field(s, fs, 2) =~= w.checksum);
    reveal_with_fuel(joined_delimited, 4);
    assert(joined_delimited(s, g, 3) =~= seq![]) by {
        if g.len() == 2 {
            assert(g.drop_last().drop_last() =~= seq![]);
        } else if g.len() == 1 {
            assert(g.drop_last() =~= seq![]);
        }
    }
    assert(joined_delimited(s, fs, 3) =~= hb);
    assert forall|i: int| 0 <= i < fs.len() implies (#[trigger] fs[i]).value is Delimited by {
        if i < f1.len() {
            assert(fs[i] == f1[i]);
        } else if i < f1.len() + f2.len() {
            assert(fs[i] == f2[i - f1.len()]);
        } else {
            assert(fs[i] == f3);
        }
    }
}

/// Round trip of the stored client state: reading back what was stored for
/// an inner state, a checksum and a height gives each of them back exactly,
/// for any inner bytes, empty ones and ones that spell a type tag included.
pub proof fn lemma_hosted_client_state_round_trip(inner: AnyView, checksum: Seq<u8>, height: Height)
    requires
        is_utf8(inner.type_url),
        hosted_client_state_bytes(inner, checksum, height).len() <= usize::MAX,
    ensures
        decode_hosted_client_state(hosted_client_state_bytes(inner, checksum, height)) == Ok::<_, WasmLightClientSpecificError>(
            (inner, WasmClientStateView { data: any_bytes(inner), checksum, latest_height: Some(height) }),
        ),
{
    let w = WasmClientStateView { data: any_bytes(inner), checksum, latest_height: Some(height) };
    let outer = AnyView { type_url: WASM_CLIENT_STATE_TYPE_URL.spec_bytes(), value: wasm_client_state_bytes(w) };
    lemma_str_is_utf8(WASM_CLIENT_STATE_TYPE_URL);
    lemma_any_round_trip(outer);
    assert(any_bytes(outer).len() >= wasm_client_state_bytes(w).len());
    lemma_wasm_client_state_round_trip(w);
    assert(wasm_client_state_bytes(w).len() >= any_bytes(inner).len());
    lemma_any_round_trip(inner);
}

/// Round trip of the stored consensus state, as above.
pub proof fn lemma_hosted_consensus_state_round_trip(inner: AnyView, height: Height)
    requires
        is_utf8(inner.type_url),
        hosted_consensus_state_bytes(inner).len() <= usize::MAX,
    ensures
        decode_hosted_consensus_state(hosted_consensus_state_bytes(inner), height) == Ok::<_, WasmLightClientSpecificError>(inner),
{
    let d = any_bytes(inner);
    let outer = AnyView { type_url: WASM_CONSENSUS_STATE_TYPE_URL.spec_bytes(), value: wasm_consensus_state_bytes(d) };
    lemma_str_is_utf8(WASM_CONSENSUS_STATE_TYPE_URL);
    lemma_any_round_trip(outer);
    lemma_any_round_trip(inner);
    let s = wasm_consensus_state_bytes(d);
    assert(s.len() <= usize::MAX);
    assert(s.subrange(0, s.len() as int) =~= s + seq![]);
    lemma_fields_opt_delimited(s, 0, 1, d, seq![]);
    let f1: Seq<RawField> = if d.len() == 0 { seq![] } else { seq![delimited_at(0, 1, d)] };
    assert(f1 + seq![] =~= f1);
    reveal_with_fuel(last_field, 2);
    assert(delimited_field(s, f1, 1) =~= d);
}

} // verus!
