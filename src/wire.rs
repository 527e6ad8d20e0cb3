//! Field framing of the protobuf wire format: a message is a run of fields,
//! each a varint key (`tag * 8 + wire type`) followed by a varint value
//! (wire type 0), by eight or four bytes (wire types 1 and 5), or by a
//! length and that many bytes (wire type 2).
use crate::varint::{lemma_varint_at, lemma_varint_bound, lemma_varint_len, read_varint, varint_at, varint_bytes, write_varint};
use vstd::arithmetic::power2::lemma2_to64;
use vstd::prelude::*;

verus! {

/// What follows a field's key: a varint, a fixed-width value (which no
/// message here uses, so it is only skipped), or the bounds `[start, end)`
/// of a length-delimited payload within the message.
#[derive(Clone, Copy, Debug, PartialEq, Eq, Structural)]
pub enum FieldValue {
    Varint(u64),
    Fixed,
    Delimited(usize, usize),
}

/// One field of a message.
#[derive(Clone, Copy, Debug, PartialEq, Eq, Structural)]
pub struct RawField {
    pub tag: u64,
    pub value: FieldValue,
}

/// Largest tag: the key `tag * 8 + 7` fits in 32 bits.
pub const MAX_TAG: u64 = 0x1fff_ffff;

/// The field that starts at `pos`, and the position just after it.
pub open spec fn field_at(s: Seq<u8>, pos: int) -> Option<(RawField, int)> {
    match varint_at(s, pos) {
        None => None,
        Some((key, n)) => {
            let p = pos + n;
            let tag = (key / 8) as u64;
            if key > 0xffff_ffff || tag == 0 {
                None
            } else if key % 8 == 1 {
                if p + 8 <= s.len() {
                    Some((RawField { tag, value: FieldValue::Fixed }, p + 8))
                } else {
                    None
                }
            } else if key % 8 == 5 {
                if p + 4 <= s.len() {
                    Some((RawField { tag, value: FieldValue::Fixed }, p + 4))
                } else {
                    None
                }
            } else if key % 8 == 0 {
                match varint_at(s, p) {
                    Some((v, m)) => Some((RawField { tag, value: FieldValue::Varint(v as u64) }, p + m)),
                    None => None,
                }
            } else if key % 8 == 2 {
                match varint_at(s, p) {
                    Some((l, m)) => if p + m + l <= s.len() {
                        Some(
                            (
                                RawField {
                                    tag,
                                    value: FieldValue::Delimited((p + m) as usize, (p + m + l) as usize),
                                },
                                p + m + l,
                            ),
                        )
                    } else {
                        None
                    },
                    None => None,
                }
            } else {
                None
            }
        },
    }
}

pub open spec fn prepend(a: Seq<RawField>, o: Option<Seq<RawField>>) -> Option<Seq<RawField>> {
    match o {
        Some(t) => Some(a + t),
        None => None,
    }
}

/// The fields of `s` from `pos` to its end; `None` where they do not frame
/// the bytes exactly.
pub open spec fn fields_from(s: Seq<u8>, pos: int) -> Option<Seq<RawField>>
    decreases s.len() - pos,
{
    if pos >= s.len() {
        Some(seq![])
    } else {
        match field_at(s, pos) {
            Some((f, next)) => if pos < next <= s.len() {
                prepend(seq![f], fields_from(s, next))
            } else {
                None
            },
            None => None,
        }
    }
}

pub open spec fn fields_of(s: Seq<u8>) -> Option<Seq<RawField>> {
    fields_from(s, 0)
}

/// The value of the last field with `tag`: the one that counts.
pub open spec fn last_field(fs: Seq<RawField>, tag: u64) -> Option<FieldValue>
    decreases fs.len(),
{
    if fs.len() == 0 {
        None
    } else if fs.last().tag == tag {
        Some(fs.last().value)
    } else {
        last_field(fs.drop_last(), tag)
    }
}

pub open spec fn all_delimited(fs: Seq<RawField>, tag: u64) -> bool {
    forall|i: int| 0 <= i < fs.len() && fs[i].tag == tag ==> fs[i].value is Delimited
}

pub open spec fn all_varint(fs: Seq<RawField>, tag: u64) -> bool {
    forall|i: int| 0 <= i < fs.len() && fs[i].tag == tag ==> fs[i].value is Varint
}

/// The payload of field `tag`, empty where it is absent.
pub open spec fn delimited_field(s: Seq<u8>, fs: Seq<RawField>, tag: u64) -> Seq<u8> {
    match last_field(fs, tag) {
        Some(FieldValue::Delimited(a, e)) => s.subrange(a as int, e as int),
        _ => seq![],
    }
}

/// The value of field `tag`, zero where it is absent.
pub open spec fn varint_field(fs: Seq<RawField>, tag: u64) -> u64 {
    match last_field(fs, tag) {
        Some(FieldValue::Varint(v)) => v,
        _ => 0,
    }
}

/// The payloads of all fields with `tag`, joined in order: a message field
/// that occurs more than once is read as the merge of its occurrences.
pub open spec fn joined_delimited(s: Seq<u8>, fs: Seq<RawField>, tag: u64) -> Seq<u8>
    decreases fs.len(),
{
    if fs.len() == 0 {
        seq![]
    } else {
        joined_delimited(s, fs.drop_last(), tag) + match fs.last().value {
            FieldValue::Delimited(a, e) => if fs.last().tag == tag {
                s.subrange(a as int, e as int)
            } else {
                seq![]
            },
            _ => seq![],
        }
    }
}

pub open spec fn well_placed(f: RawField, len: nat) -> bool {
    f.value matches FieldValue::Delimited(a, e) ==> a <= e <= len
}

/// A length-delimited field with its key and length.
pub open spec fn delimited_bytes(tag: nat, payload: Seq<u8>) -> Seq<u8> {
    varint_bytes(tag * 8 + 2) + varint_bytes(payload.len()) + payload
}

/// A length-delimited field, left out when the payload is empty.
pub open spec fn opt_delimited_bytes(tag: nat, payload: Seq<u8>) -> Seq<u8> {
    if payload.len() == 0 {
        seq![]
    } else {
        delimited_bytes(tag, payload)
    }
}

/// A varint field, left out when the value is zero.
pub open spec fn opt_varint_bytes(tag: nat, v: nat) -> Seq<u8> {
    if v == 0 {
        seq![]
    } else {
        varint_bytes(tag * 8) + varint_bytes(v)
    }
}

/// The field that `delimited_bytes(tag, payload)` reads back as at `pos`.
pub open spec fn delimited_at(pos: int, tag: u64, payload: Seq<u8>) -> RawField {
    let start = pos + varint_bytes((tag * 8 + 2) as nat).len() + varint_bytes(payload.len()).len();
    RawField {
        tag,
        value: FieldValue::Delimited(start as usize, (start + payload.len()) as usize),
    }
}

/// Reads the field at `pos`.
pub fn read_field(b: &[u8], pos: usize) -> (r: Option<(RawField, usize)>)
    requires
        pos < b@.len(),
    ensures
        match field_at(b@, pos as int) {
            Some((f, next)) => r == Some((f, next as usize)) && pos < next <= b@.len()
                && well_placed(f, b@.len()),
            None => r is None,
        },
{
    proof {
        lemma2_to64();
        lemma_varint_len(b@.subrange(pos as int, b@.len() as int), 0);
        lemma_varint_bound(b@.subrange(pos as int, b@.len() as int), 0);
    }
    let (key, left) = match read_varint(b, pos) {
        Some(x) => x,
        None => return None,
    };
    let p = b.len() - left;
    let tag = key / 8;
    if key > 0xffff_ffff || tag == 0 {
        return None;
    }
    if key % 8 == 1 {
        if left >= 8 {
            return Some((RawField { tag, value: FieldValue::Fixed }, p + 8));
        } else {
            return None;
        }
    }
    if key % 8 == 5 {
        if left >= 4 {
            return Some((RawField { tag, value: FieldValue::Fixed }, p + 4));
        } else {
            return None;
        }
    }
    proof {
        lemma_varint_len(b@.subrange(p as int, b@.len() as int), 0);
        lemma_varint_bound(b@.subrange(p as int, b@.len() as int), 0);
    }
    if key % 8 == 0 {
        match read_varint(b, p) {
            Some((v, left2)) => Some((RawField { tag, value: FieldValue::Varint(v) }, b.len() - left2)),
            None => None,
        }
    } else if key % 8 == 2 {
        match read_varint(b, p) {
            Some((l, left2)) => {
                let start = b.len() - left2;
                if l <= left2 as u64 {
                    let end = start + l as usize;
                    Some((RawField { tag, value: FieldValue::Delimited(start, end) }, end))
                } else {
                    None
                }
            },
            None => None,
        }
    } else {
        None
    }
}

/// Splits a message into its fields.
pub fn read_fields(b: &[u8]) -> (r: Option<Vec<RawField>>)
    ensures
        match fields_of(b@) {
            Some(fs) => r matches Some(v) && v@ == fs,
            None => r is None,
        },
        r matches Some(v) ==> forall|i: int| 0 <= i < v@.len() ==> well_placed(#[trigger] v@[i], b@.len()),
{
    let mut acc: Vec<RawField> = Vec::new();
    let mut pos: usize = 0;
    while pos < b.len()
        invariant
            pos <= b@.len(),
            fields_of(b@) == prepend(acc@, fields_from(b@, pos as int)),
            forall|i: int| 0 <= i < acc@.len() ==> well_placed(#[trigger] acc@[i], b@.len()),
        decreases b@.len() - pos,
    {
        match read_field(b, pos) {
            Some((f, next)) => {
                proof {
                    let rest = fields_from(b@, next as int);
                    if let Some(t) = rest {
                        assert(acc@ + (seq![f] + t) =~= acc@.push(f) + t);
                    }
                }
                acc.push(f);
                pos = next;
            },
            None => return None,
        }
    }
    proof {
        assert(acc@ + seq![] =~= acc@);
    }
    Some(acc)
}

/// Copies `b[a..e]`.
pub fn copy_range(b: &[u8], a: usize, e: usize) -> (r: Vec<u8>)
    requires
        a <= e <= b@.len(),
    ensures
        r@ == b@.subrange(a as int, e as int),
{
    let mut r: Vec<u8> = Vec::new();
    let mut i: usize = a;
    while i < e
        invariant
            a <= i <= e <= b@.len(),
            r@ == b@.subrange(a as int, i as int),
        decreases e - i,
    {
        r.push(b[i]);
        proof {
            assert(r@ =~= b@.subrange(a as int, i + 1));
        }
        i = i + 1;
    }
    r
}

/// The payload of field `tag`, or `None` where a field of that tag is not
/// length-delimited.
pub fn find_delimited(b: &[u8], fs: &Vec<RawField>, tag: u64) -> (r: Option<Vec<u8>>)
    requires
        forall|i: int| 0 <= i < fs@.len() ==> well_placed(#[trigger] fs@[i], b@.len()),
    ensures
        all_delimited(fs@, tag) ==> (r matches Some(v) && v@ == delimited_field(b@, fs@, tag)),
        !all_delimited(fs@, tag) ==> r is None,
{
    let mut found: Option<FieldValue> = None;
    let mut i: usize = 0;
    while i < fs.len()
        invariant
            i <= fs@.len(),
            forall|j: int| 0 <= j < fs@.len() ==> well_placed(#[trigger] fs@[j], b@.len()),
            found == last_field(fs@.subrange(0, i as int), tag),
            found matches Some(FieldValue::Delimited(a, e)) ==> a <= e <= b@.len(),
            all_delimited(fs@.subrange(0, i as int), tag),
        decreases fs@.len() - i,
    {
        let f = fs[i];
        proof {
            assert(fs@.subrange(0, i + 1).drop_last() =~= fs@.subrange(0, i as int));
        }
        if f.tag == tag {
            match f.value {
                FieldValue::Delimited(_, _) => {},
                _ => {
                    proof {
                        assert(!all_delimited(fs@, tag));
                    }
                    return None;
                },
            }
            found = Some(f.value);
        }
        proof {
            let ss = fs@.subrange(0, i + 1);
            assert forall|j: int| 0 <= j < ss.len() && ss[j].tag == tag implies ss[j].value is Delimited by {
                if j < i {
                    assert(ss[j] == fs@.subrange(0, i as int)[j]);
                }
            }
        }
        i = i + 1;
    }
    proof {
        assert(fs@.subrange(0, fs@.len() as int) =~= fs@);
    }
    match found {
        Some(FieldValue::Delimited(a, e)) => Some(copy_range(b, a, e)),
        _ => Some(Vec::new()),
    }
}

/// The value of field `tag`, or `None` where a field of that tag is not a
/// varint.
pub fn find_varint(fs: &Vec<RawField>, tag: u64) -> (r: Option<u64>)
    ensures
        all_varint(fs@, tag) ==> r == Some(varint_field(fs@, tag)),
        !all_varint(fs@, tag) ==> r is None,
{
    let mut found: Option<FieldValue> = None;
    let mut i: usize = 0;
    while i < fs.len()
        invariant
            i <= fs@.len(),
            found == last_field(fs@.subrange(0, i as int), tag),
            all_varint(fs@.subrange(0, i as int), tag),
        decreases fs@.len() - i,
    {
        let f = fs[i];
        proof {
            assert(fs@.subrange(0, i + 1).drop_last() =~= fs@.subrange(0, i as int));
        }
        if f.tag == tag {
            match f.value {
                FieldValue::Varint(_) => {},
                _ => {
                    proof {
                        assert(!all_varint(fs@, tag));
                    }
                    return None;
                },
            }
            found = Some(f.value);
        }
        proof {
            let ss = fs@.subrange(0, i + 1);
            assert forall|j: int| 0 <= j < ss.len() && ss[j].tag == tag implies ss[j].value is Varint by {
                if j < i {
                    assert(ss[j] == fs@.subrange(0, i as int)[j]);
                }
            }
        }
        i = i + 1;
    }
    proof {
        assert(fs@.subrange(0, fs@.len() as int) =~= fs@);
    }
    match found {
        Some(FieldValue::Varint(v)) => Some(v),
        _ => Some(0),
    }
}

/// Appends a length-delimited field.
pub fn write_delimited(out: &mut Vec<u8>, tag: u64, payload: &[u8])
    requires
        1 <= tag <= MAX_TAG,
    ensures
        final(out)@ == old(out)@ + delimited_bytes(tag as nat, payload@),
{
    write_varint(tag * 8 + 2, out);
    write_varint(payload.len() as u64, out);
    out.extend_from_slice(payload);
    proof {
        assert(final(out)@ =~= old(out)@ + delimited_bytes(tag as nat, payload@));
    }
}

/// Appends a length-delimited field, unless the payload is empty.
pub fn write_opt_delimited(out: &mut Vec<u8>, tag: u64, payload: &[u8])
    requires
        1 <= tag <= MAX_TAG,
    ensures
        final(out)@ == old(out)@ + opt_delimited_bytes(tag as nat, payload@),
{
    if payload.len() > 0 {
        write_delimited(out, tag, payload);
    } else {
        proof {
            assert(final(out)@ =~= old(out)@ + opt_delimited_bytes(tag as nat, payload@));
        }
    }
}

/// Appends a varint field, unless the value is zero.
pub fn write_opt_varint(out: &mut Vec<u8>, tag: u64, v: u64)
    requires
        1 <= tag <= MAX_TAG,
    ensures
        final(out)@ == old(out)@ + opt_varint_bytes(tag as nat, v as nat),
{
    if v != 0 {
        write_varint(tag * 8, out);
        write_varint(v, out);
        proof {
            assert(final(out)@ =~= old(out)@ + opt_varint_bytes(tag as nat, v as nat));
        }
    } else {
        proof {
            assert(final(out)@ =~= old(out)@ + opt_varint_bytes(tag as nat, v as nat));
        }
    }
}

/// A length-delimited field reads back as itself, and its payload as the
/// bytes that were written.
pub proof fn lemma_delimited_at(s: Seq<u8>, pos: int, tag: u64, payload: Seq<u8>, rest: Seq<u8>)
    requires
        0 <= pos <= s.len() <= usize::MAX,
        1 <= tag <= MAX_TAG,
        s.subrange(pos, s.len() as int) == delimited_bytes(tag as nat, payload) + rest,
    ensures
        field_at(s, pos) == Some((delimited_at(pos, tag, payload), pos + delimited_bytes(tag as nat, payload).len())),
        delimited_at(pos, tag, payload).value matches FieldValue::Delimited(a, e)
            && s.subrange(a as int, e as int) == payload,
{
    let key = (tag * 8 + 2) as u64;
    let k = varint_bytes(key as nat);
    let l = varint_bytes(payload.len());
    assert(s.subrange(pos, s.len() as int) == k + (l + payload + rest)) by {
        assert(delimited_bytes(tag as nat, payload) + rest =~= k + (l + payload + rest));
    }
    lemma_varint_at(key, s, pos, l + payload + rest);
    let p = pos + k.len();
    assert(s.subrange(p, s.len() as int) =~= l + (payload + rest)) by {
        assert(s.subrange(p, s.len() as int) =~= s.subrange(pos, s.len() as int).subrange(k.len() as int, s.len() - pos));
        assert((k + (l + payload + rest)).subrange(k.len() as int, s.len() - pos) =~= l + (payload + rest));
    }
    assert(payload.len() <= usize::MAX);
    lemma_varint_at(payload.len() as u64, s, p, payload + rest);
    let start = p + l.len();
    assert(s.subrange(start, start + payload.len()) =~= payload) by {
        assert(s.subrange(start, start + payload.len()) =~= s.subrange(p, s.len() as int).subrange(l.len() as int, (l.len() + payload.len()) as int));
    }
    assert(key / 8 == tag && key % 8 == 2);
}

/// A field written by `opt_delimited_bytes` is framed as one field (or none,
/// for an empty payload) before what follows it.
pub proof fn lemma_fields_opt_delimited(s: Seq<u8>, pos: int, tag: u64, payload: Seq<u8>, rest: Seq<u8>)
    requires
        0 <= pos <= s.len() <= usize::MAX,
        1 <= tag <= MAX_TAG,
        s.subrange(pos, s.len() as int) == opt_delimited_bytes(tag as nat, payload) + rest,
    ensures
        fields_from(s, pos) == prepend(
            if payload.len() == 0 { seq![] } else { seq![delimited_at(pos, tag, payload)] },
            fields_from(s, pos + opt_delimited_bytes(tag as nat, payload).len()),
        ),
        payload.len() > 0 ==> (delimited_at(pos, tag, payload).value matches FieldValue::Delimited(a, e)
            && s.subrange(a as int, e as int) == payload),
        s.subrange(pos + opt_delimited_bytes(tag as nat, payload).len(), s.len() as int) == rest,
{
    let e = opt_delimited_bytes(tag as nat, payload);
    assert(s.subrange(pos + e.len(), s.len() as int) =~= (e + rest).subrange(e.len() as int, (e + rest).len() as int));
    if payload.len() == 0 {
        match fields_from(s, pos) {
            Some(t) => { assert(seq![] + t =~= t); },
            None => {},
        }
    } else {
        lemma_delimited_at(s, pos, tag, payload, rest);
        vstd::arithmetic::power2::lemma2_to64();
        assert(e.len() > 0) by {
            assert(delimited_bytes(tag as nat, payload) == varint_bytes((tag * 8 + 2) as nat) + varint_bytes(payload.len()) + payload);
        }
    }
}

/// A varint field reads back as itself.
pub proof fn lemma_fields_opt_varint(s: Seq<u8>, pos: int, tag: u64, v: u64, rest: Seq<u8>)
    requires
        0 <= pos <= s.len() <= usize::MAX,
        1 <= tag <= MAX_TAG,
        s.subrange(pos, s.len() as int) == opt_varint_bytes(tag as nat, v as nat) + rest,
    ensures
        fields_from(s, pos) == prepend(
            if v == 0 { seq![] } else { seq![RawField { tag, value: FieldValue::Varint(v) }] },
            fields_from(s, pos + opt_varint_bytes(tag as nat, v as nat).len()),
        ),
        s.subrange(pos + opt_varint_bytes(tag as nat, v as nat).len(), s.len() as int) == rest,
{
    let e = opt_varint_bytes(tag as nat, v as nat);
    assert(s.subrange(pos + e.len(), s.len() as int) =~= (e + rest).subrange(e.len() as int, (e + rest).len() as int));
    if v == 0 {
        match fields_from(s, pos) {
            Some(t) => { assert(seq![] + t =~= t); },
            None => {},
        }
    } else {
        let key = (tag * 8) as u64;
        let k = varint_bytes(key as nat);
        let vb = varint_bytes(v as nat);
        assert(s.subrange(pos, s.len() as int) =~= k + (vb + rest));
        lemma_varint_at(key, s, pos, vb + rest);
        let p = pos + k.len();
        assert(s.subrange(p, s.len() as int) =~= vb + rest) by {
            assert(s.subrange(p, s.len() as int) =~= s.subrange(pos, s.len() as int).subrange(k.len() as int, s.len() - pos));
        }
        lemma_varint_at(v, s, p, rest);
        lemma_varint_len(s.subrange(pos, s.len() as int), 0);
        assert(key / 8 == tag && key % 8 == 0);
    }
}

/// A length-delimited field that ends the message is framed as its last field.
pub proof fn lemma_fields_last_delimited(s: Seq<u8>, pos: int, tag: u64, payload: Seq<u8>)
    requires
        0 <= pos <= s.len() <= usize::MAX,
        1 <= tag <= MAX_TAG,
        s.subrange(pos, s.len() as int) == delimited_bytes(tag as nat, payload),
    ensures
        fields_from(s, pos) == Some(seq![delimited_at(pos, tag, payload)]),
        delimited_at(pos, tag, payload).value matches FieldValue::Delimited(a, e)
            && s.subrange(a as int, e as int) == payload,
{
    let e = delimited_bytes(tag as nat, payload);
    assert(e =~= e + seq![]);
    lemma_delimited_at(s, pos, tag, payload, seq![]);
    vstd::arithmetic::power2::lemma2_to64();
    assert(e.len() > 0) by {
        assert(e == varint_bytes((tag * 8 + 2) as nat) + varint_bytes(payload.len()) + payload);
    }
    assert(pos + e.len() == s.len());
    assert(fields_from(s, s.len() as int) == Some(Seq::<RawField>::empty()));
    assert(seq![delimited_at(pos, tag, payload)] + seq![] =~= seq![delimited_at(pos, tag, payload)]);
}

/// Joins the payloads of all length-delimited fields with `tag`.
pub fn join_delimited(b: &[u8], fs: &Vec<RawField>, tag: u64) -> (r: Vec<u8>)
    requires
        forall|i: int| 0 <= i < fs@.len() ==> well_placed(#[trigger] fs@[i], b@.len()),
    ensures
        r@ == joined_delimited(b@, fs@, tag),
{
    let mut out: Vec<u8> = Vec::new();
    let mut i: usize = 0;
    while i < fs.len()
        invariant
            i <= fs@.len(),
            forall|j: int| 0 <= j < fs@.len() ==> well_placed(#[trigger] fs@[j], b@.len()),
            out@ == joined_delimited(b@, fs@.subrange(0, i as int), tag),
        decreases fs@.len() - i,
    {
        let f = fs[i];
        proof {
            assert(fs@.subrange(0, i + 1).drop_last() =~= fs@.subrange(0, i as int));
            assert(well_placed(fs@[i as int], b@.len()));
        }
        match f.value {
            FieldValue::Delimited(a, e) => {
                if f.tag == tag {
                    let piece = copy_range(b, a, e);
                    out.extend_from_slice(piece.as_slice());
                }
            },
            _ => {},
        }
        proof {
            assert(out@ =~= joined_delimited(b@, fs@.subrange(0, i + 1), tag));
        }
        i = i + 1;
    }
    proof {
        assert(fs@.subrange(0, fs@.len() as int) =~= fs@);
    }
    out
}

} // verus!
