//! The byte format of a stored profile.
//!
//! A record is its fields in a fixed order. A text is its UTF-8 length as two
//! little-endian bytes followed by its UTF-8 bytes; an optional text is one
//! byte, 0 or 1, followed by the text when it is 1; a timestamp is eight
//! little-endian bytes; the active flag is one byte, 0 or 1. A record is never
//! longer than [`MAX_VALUE_SIZE`] bytes.

use crate::profile::{text_of, ProfileView, UserProfile};
use vstd::bytes::{
    lemma_auto_spec_u16_to_from_le_bytes, lemma_auto_spec_u64_to_from_le_bytes,
    spec_u16_from_le_bytes, spec_u16_to_le_bytes, spec_u64_from_le_bytes, spec_u64_to_le_bytes,
    u16_from_le_bytes, u16_to_le_bytes, u64_from_le_bytes, u64_to_le_bytes,
};
use vstd::prelude::*;
use vstd::slice::{slice_subrange, slice_to_vec};
use vstd::utf8::{
    decode_utf8, decode_utf8_encode_utf8, encode_utf8, encode_utf8_decode_utf8,
    encode_utf8_valid_utf8, valid_utf8,
};

verus! {

/// The longest record, in bytes, that the registry stores.
pub const MAX_VALUE_SIZE: usize = 1024;

/// The bytes of a text field.
pub open spec fn text_bytes(text: Seq<char>) -> Seq<u8> {
    spec_u16_to_le_bytes(encode_utf8(text).len() as u16) + encode_utf8(text)
}

/// The bytes of an optional text field.
pub open spec fn optional_text_bytes(field: Option<Seq<char>>) -> Seq<u8> {
    match field {
        Some(text) => seq![1u8] + text_bytes(text),
        None => seq![0u8],
    }
}

/// The byte of the active flag.
pub open spec fn flag_bytes(flag: bool) -> Seq<u8> {
    seq![if flag { 1u8 } else { 0u8 }]
}

/// The bytes of a whole record.
pub open spec fn record_bytes(p: ProfileView) -> Seq<u8> {
    text_bytes(p.principal_id) + optional_text_bytes(p.full_name) + optional_text_bytes(p.email)
        + text_bytes(p.role) + spec_u64_to_le_bytes(p.created_at) + spec_u64_to_le_bytes(
        p.last_login,
    ) + flag_bytes(p.is_active)
}

/// The bytes that the two timestamps and the active flag take together.
pub const FIXED_FIELDS_SIZE: usize = 17;

/// Whether the record of this profile is within the size bound.
pub open spec fn fits(p: ProfileView) -> bool {
    record_bytes(p).len() <= MAX_VALUE_SIZE
}

/// Whether a record with these four texts is within the size bound: its
/// other fields have a fixed width.
pub open spec fn texts_fit(
    principal_id: Seq<char>,
    full_name: Option<Seq<char>>,
    email: Option<Seq<char>>,
    role: Seq<char>,
) -> bool {
    text_bytes(principal_id).len() + optional_text_bytes(full_name).len() + optional_text_bytes(
        email,
    ).len() + text_bytes(role).len() + FIXED_FIELDS_SIZE <= MAX_VALUE_SIZE
}

/// Whether a profile fits depends on its four texts alone.
pub proof fn lemma_fits_by_texts(p: ProfileView)
    ensures
        fits(p) == texts_fit(p.principal_id, p.full_name, p.email, p.role),
{
    lemma_auto_spec_u64_to_from_le_bytes();
}

/// Reads a text field that starts at `at`: the text and where the next field
/// starts, or `None` where the bytes end early or are not UTF-8.
pub open spec fn read_text(bytes: Seq<u8>, at: int) -> Option<(Seq<char>, int)> {
    if 0 <= at && at + 2 <= bytes.len() {
        let n = spec_u16_from_le_bytes(bytes.subrange(at, at + 2)) as int;
        if at + 2 + n <= bytes.len() && valid_utf8(bytes.subrange(at + 2, at + 2 + n)) {
            Some((decode_utf8(bytes.subrange(at + 2, at + 2 + n)), at + 2 + n))
        } else {
            None
        }
    } else {
        None
    }
}

/// Reads an optional text field that starts at `at`.
pub open spec fn read_optional_text(bytes: Seq<u8>, at: int) -> Option<(Option<Seq<char>>, int)> {
    if 0 <= at < bytes.len() {
        if bytes[at] == 0 {
            Some((None, at + 1))
        } else if bytes[at] == 1 {
            match read_text(bytes, at + 1) {
                Some((text, next)) => Some((Some(text), next)),
                None => None,
            }
        } else {
            None
        }
    } else {
        None
    }
}

/// Reads a timestamp that starts at `at`.
pub open spec fn read_timestamp(bytes: Seq<u8>, at: int) -> Option<(u64, int)> {
    if 0 <= at && at + 8 <= bytes.len() {
        Some((spec_u64_from_le_bytes(bytes.subrange(at, at + 8)), at + 8))
    } else {
        None
    }
}

/// Reads the active flag at `at`.
pub open spec fn read_flag(bytes: Seq<u8>, at: int) -> Option<(bool, int)> {
    if 0 <= at < bytes.len() && bytes[at] <= 1 {
        Some((bytes[at] == 1, at + 1))
    } else {
        None
    }
}

/// The profile that `bytes` hold: each field read in turn from the start,
/// with nothing left over and no more than [`MAX_VALUE_SIZE`] bytes in all.
pub open spec fn decode_record(bytes: Seq<u8>) -> Option<ProfileView> {
    let principal_id = read_text(bytes, 0);
    let full_name = read_optional_text(bytes, principal_id.unwrap().1);
    let email = read_optional_text(bytes, full_name.unwrap().1);
    let role = read_text(bytes, email.unwrap().1);
    let created_at = read_timestamp(bytes, role.unwrap().1);
    let last_login = read_timestamp(bytes, created_at.unwrap().1);
    let is_active = read_flag(bytes, last_login.unwrap().1);
    if bytes.len() <= MAX_VALUE_SIZE && principal_id.is_some() && full_name.is_some()
        && email.is_some() && role.is_some() && created_at.is_some() && last_login.is_some()
        && is_active.is_some() && is_active.unwrap().1 == bytes.len() {
        Some(
            ProfileView {
                principal_id: principal_id.unwrap().0,
                full_name: full_name.unwrap().0,
                email: email.unwrap().0,
                role: role.unwrap().0,
                created_at: created_at.unwrap().0,
                last_login: last_login.unwrap().0,
                is_active: is_active.unwrap().0,
            },
        )
    } else {
        None
    }
}

/// The identity of a profile that fits is itself shorter than the size
/// bound.
pub proof fn lemma_fitting_key_is_short(p: ProfileView)
    requires
        fits(p),
    ensures
        encode_utf8(p.principal_id).len() <= MAX_VALUE_SIZE,
{
    lemma_auto_spec_u16_to_from_le_bytes();
}

/// A text field that lies at `at` is read back as written.
proof fn lemma_read_text_written(bytes: Seq<u8>, at: int, text: Seq<char>)
    requires
        0 <= at,
        at + text_bytes(text).len() <= bytes.len(),
        encode_utf8(text).len() <= u16::MAX,
        bytes.subrange(at, at + text_bytes(text).len()) == text_bytes(text),
    ensures
        read_text(bytes, at) == Some((text, at + text_bytes(text).len())),
{
    lemma_auto_spec_u16_to_from_le_bytes();
    encode_utf8_valid_utf8(text);
    encode_utf8_decode_utf8(text);
    let utf8 = encode_utf8(text);
    let n = utf8.len() as int;
    let field = text_bytes(text);
    assert(bytes.subrange(at, at + 2) =~= field.subrange(0, 2));
    assert(field.subrange(0, 2) =~= spec_u16_to_le_bytes(n as u16));
    assert(bytes.subrange(at + 2, at + 2 + n) =~= field.subrange(2, 2 + n));
    assert(field.subrange(2, 2 + n) =~= utf8);
}

/// An optional text field that lies at `at` is read back as written.
proof fn lemma_read_optional_text_written(bytes: Seq<u8>, at: int, field: Option<Seq<char>>)
    requires
        0 <= at,
        at + optional_text_bytes(field).len() <= bytes.len(),
        field matches Some(text) ==> encode_utf8(text).len() <= u16::MAX,
        bytes.subrange(at, at + optional_text_bytes(field).len()) == optional_text_bytes(field),
    ensures
        read_optional_text(bytes, at) == Some((field, at + optional_text_bytes(field).len())),
{
    let written = optional_text_bytes(field);
    assert(bytes[at] == bytes.subrange(at, at + written.len())[0]);
    match field {
        Some(text) => {
            assert(bytes.subrange(at + 1, at + 1 + text_bytes(text).len()) =~= written.subrange(
                1,
                written.len() as int,
            ));
            assert(written.subrange(1, written.len() as int) =~= text_bytes(text));
            lemma_read_text_written(bytes, at + 1, text);
        },
        None => {},
    }
}

/// A timestamp that lies at `at` is read back as written.
proof fn lemma_read_timestamp_written(bytes: Seq<u8>, at: int, value: u64)
    requires
        0 <= at,
        at + 8 <= bytes.len(),
        bytes.subrange(at, at + 8) == spec_u64_to_le_bytes(value),
    ensures
        read_timestamp(bytes, at) == Some((value, at + 8)),
{
    lemma_auto_spec_u64_to_from_le_bytes();
}

/// Decoding undoes encoding: the record of a profile that fits decodes to
/// that profile.
pub proof fn lemma_decode_inverts_encode(p: ProfileView)
    requires
        fits(p),
    ensures
        decode_record(record_bytes(p)) == Some(p),
{
    lemma_auto_spec_u16_to_from_le_bytes();
    lemma_auto_spec_u64_to_from_le_bytes();
    let bytes = record_bytes(p);
    let a = text_bytes(p.principal_id).len() as int;
    let b = a + optional_text_bytes(p.full_name).len();
    let c = b + optional_text_bytes(p.email).len();
    let d = c + text_bytes(p.role).len();
    assert(bytes.subrange(0, a) =~= text_bytes(p.principal_id));
    assert(bytes.subrange(a, b) =~= optional_text_bytes(p.full_name));
    assert(bytes.subrange(b, c) =~= optional_text_bytes(p.email));
    assert(bytes.subrange(c, d) =~= text_bytes(p.role));
    assert(bytes.subrange(d, d + 8) =~= spec_u64_to_le_bytes(p.created_at));
    assert(bytes.subrange(d + 8, d + 16) =~= spec_u64_to_le_bytes(p.last_login));
    assert(bytes[d + 16] == flag_bytes(p.is_active)[0]);
    lemma_read_text_written(bytes, 0, p.principal_id);
    lemma_read_optional_text_written(bytes, a, p.full_name);
    lemma_read_optional_text_written(bytes, b, p.email);
    lemma_read_text_written(bytes, c, p.role);
    lemma_read_timestamp_written(bytes, d, p.created_at);
    lemma_read_timestamp_written(bytes, d + 8, p.last_login);
}

/// What `read_text` accepts at `at` is the written form of what it returns.
proof fn lemma_text_read_canonical(bytes: Seq<u8>, at: int)
    requires
        read_text(bytes, at).is_some(),
    ensures
        ({
            let (text, next) = read_text(bytes, at).unwrap();
            at <= next <= bytes.len() && bytes.subrange(at, next) == text_bytes(text)
        }),
{
    lemma_auto_spec_u16_to_from_le_bytes();
    let (text, next) = read_text(bytes, at).unwrap();
    let prefix = bytes.subrange(at, at + 2);
    let body = bytes.subrange(at + 2, next);
    decode_utf8_encode_utf8(body);
    assert(spec_u16_to_le_bytes(spec_u16_from_le_bytes(prefix)) == prefix);
    assert(bytes.subrange(at, next) =~= prefix + body);
}

/// What `read_optional_text` accepts at `at` is the written form of what it
/// returns.
proof fn lemma_optional_text_read_canonical(bytes: Seq<u8>, at: int)
    requires
        read_optional_text(bytes, at).is_some(),
    ensures
        ({
            let (field, next) = read_optional_text(bytes, at).unwrap();
            at <= next <= bytes.len() && bytes.subrange(at, next) == optional_text_bytes(field)
        }),
{
    let (field, next) = read_optional_text(bytes, at).unwrap();
    if bytes[at] == 1 {
        lemma_text_read_canonical(bytes, at + 1);
        assert(bytes.subrange(at, next) =~= seq![1u8] + bytes.subrange(at + 1, next));
    } else {
        assert(bytes.subrange(at, next) =~= seq![0u8]);
    }
}

/// What `read_timestamp` accepts at `at` is the written form of what it
/// returns.
proof fn lemma_timestamp_read_canonical(bytes: Seq<u8>, at: int)
    requires
        read_timestamp(bytes, at).is_some(),
    ensures
        bytes.subrange(at, at + 8) == spec_u64_to_le_bytes(read_timestamp(bytes, at).unwrap().0),
{
    lemma_auto_spec_u64_to_from_le_bytes();
    let field = bytes.subrange(at, at + 8);
    assert(spec_u64_to_le_bytes(spec_u64_from_le_bytes(field)) == field);
}

/// Only records decode: bytes that decode to a profile are exactly the
/// record of that profile, which therefore fits.
pub proof fn lemma_decoded_is_encoded(bytes: Seq<u8>)
    requires
        decode_record(bytes).is_some(),
    ensures
        record_bytes(decode_record(bytes).unwrap()) == bytes,
        fits(decode_record(bytes).unwrap()),
{
    let a = read_text(bytes, 0).unwrap().1;
    let b = read_optional_text(bytes, a).unwrap().1;
    let c = read_optional_text(bytes, b).unwrap().1;
    let d = read_text(bytes, c).unwrap().1;
    lemma_text_read_canonical(bytes, 0);
    lemma_optional_text_read_canonical(bytes, a);
    lemma_optional_text_read_canonical(bytes, b);
    lemma_text_read_canonical(bytes, c);
    lemma_timestamp_read_canonical(bytes, d);
    lemma_timestamp_read_canonical(bytes, d + 8);
    let p = decode_record(bytes).unwrap();
    assert(bytes.subrange(d + 16, d + 17) =~= flag_bytes(p.is_active));
    assert(bytes =~= bytes.subrange(0, a) + bytes.subrange(a, b) + bytes.subrange(b, c)
        + bytes.subrange(c, d) + bytes.subrange(d, d + 8) + bytes.subrange(d + 8, d + 16)
        + bytes.subrange(d + 16, d + 17));
}

/// Calls `String::from_utf8`, which succeeds exactly on valid UTF-8 and then
/// yields the string that those bytes encode.
#[verifier::external_body]
fn text_from_utf8(bytes: Vec<u8>) -> (text: Option<String>)
    ensures
        text.is_some() == valid_utf8(bytes@),
        text matches Some(s) ==> s@ == decode_utf8(bytes@),
{
    String::from_utf8(bytes).ok()
}

/// What is left of `room` bytes after `need` of them are taken.
fn take_room(room: usize, need: usize) -> (left: Option<usize>)
    ensures
        match left {
            Some(rest) => need <= room && rest == room - need,
            None => need > room,
        },
{
    if need <= room {
        Some(room - need)
    } else {
        None
    }
}

/// What is left of `room` bytes after a text field.
fn room_after_text(room: usize, text: &str) -> (left: Option<usize>)
    ensures
        match left {
            Some(rest) => rest + text_bytes(text@).len() == room,
            None => text_bytes(text@).len() > room,
        },
{
    proof {
        lemma_auto_spec_u16_to_from_le_bytes();
    }
    match take_room(room, 2) {
        Some(rest) => take_room(rest, text.as_bytes().len()),
        None => None,
    }
}

/// What is left of `room` bytes after an optional text field.
fn room_after_optional_text(room: usize, field: &Option<String>) -> (left: Option<usize>)
    ensures
        match left {
            Some(rest) => rest + optional_text_bytes(text_of(*field)).len() == room,
            None => optional_text_bytes(text_of(*field)).len() > room,
        },
{
    match take_room(room, 1) {
        Some(rest) => match field {
            Some(text) => room_after_text(rest, text.as_str()),
            None => Some(rest),
        },
        None => None,
    }
}

/// Whether a record with these four texts is within the size bound.
pub fn record_fits(
    principal_id: &str,
    full_name: &Option<String>,
    email: &Option<String>,
    role: &str,
) -> (ok: bool)
    ensures
        ok == texts_fit(principal_id@, text_of(*full_name), text_of(*email), role@),
{
    let room = MAX_VALUE_SIZE - FIXED_FIELDS_SIZE;
    let room = match room_after_text(room, principal_id) {
        Some(rest) => rest,
        None => { return false; },
    };
    let room = match room_after_optional_text(room, full_name) {
        Some(rest) => rest,
        None => { return false; },
    };
    let room = match room_after_optional_text(room, email) {
        Some(rest) => rest,
        None => { return false; },
    };
    room_after_text(room, role).is_some()
}

/// Appends a text field to `out`.
fn put_text(out: &mut Vec<u8>, text: &str)
    requires
        encode_utf8(text@).len() <= u16::MAX,
    ensures
        final(out)@ == old(out)@ + text_bytes(text@),
{
    let utf8 = text.as_bytes();
    let mut prefix = u16_to_le_bytes(utf8.len() as u16);
    let mut body = slice_to_vec(utf8);
    out.append(&mut prefix);
    out.append(&mut body);
    assert(out@ =~= old(out)@ + text_bytes(text@));
}

/// Appends an optional text field to `out`.
fn put_optional_text(out: &mut Vec<u8>, field: &Option<String>)
    requires
        field matches Some(text) ==> encode_utf8(text@).len() <= u16::MAX,
    ensures
        final(out)@ == old(out)@ + optional_text_bytes(text_of(*field)),
{
    match field {
        Some(text) => {
            out.push(1u8);
            put_text(out, text.as_str());
            assert(out@ =~= old(out)@ + optional_text_bytes(text_of(*field)));
        },
        None => {
            out.push(0u8);
            assert(out@ =~= old(out)@ + optional_text_bytes(text_of(*field)));
        },
    }
}

impl UserProfile {
    /// Whether this profile's record is within the size bound.
    pub fn fits(&self) -> (ok: bool)
        ensures
            ok == fits(self@),
    {
        proof {
            lemma_fits_by_texts(self@);
        }
        record_fits(self.principal_id.as_str(), &self.full_name, &self.email, self.role.as_str())
    }

    /// The record of this profile, or `None` where it would be longer than
    /// [`MAX_VALUE_SIZE`] bytes.
    pub fn encode(&self) -> (record: Option<Vec<u8>>)
        ensures
            match record {
                Some(bytes) => fits(self@) && bytes@ == record_bytes(self@),
                None => !fits(self@),
            },
    {
        if !self.fits() {
            return None;
        }
        proof {
            lemma_auto_spec_u16_to_from_le_bytes();
        }
        let mut out: Vec<u8> = Vec::new();
        put_text(&mut out, self.principal_id.as_str());
        put_optional_text(&mut out, &self.full_name);
        put_optional_text(&mut out, &self.email);
        put_text(&mut out, self.role.as_str());
        let mut created_at = u64_to_le_bytes(self.created_at);
        out.append(&mut created_at);
        let mut last_login = u64_to_le_bytes(self.last_login);
        out.append(&mut last_login);
        out.push(if self.is_active { 1u8 } else { 0u8 });
        assert(out@ =~= record_bytes(self@));
        Some(out)
    }
}

/// Takes the text field that starts at `at`.
fn take_text(bytes: &[u8], at: usize) -> (field: Option<(String, usize)>)
    ensures
        match field {
            Some((text, next)) => read_text(bytes@, at as int) == Some((text@, next as int)),
            None => read_text(bytes@, at as int).is_none(),
        },
{
    let len = bytes.len();
    if at > len || len - at < 2 {
        return None;
    }
    let n = u16_from_le_bytes(slice_subrange(bytes, at, at + 2)) as usize;
    if len - at - 2 < n {
        return None;
    }
    let body = slice_to_vec(slice_subrange(bytes, at + 2, at + 2 + n));
    match text_from_utf8(body) {
        Some(text) => Some((text, at + 2 + n)),
        None => None,
    }
}

/// Takes the optional text field that starts at `at`.
fn take_optional_text(bytes: &[u8], at: usize) -> (field: Option<(Option<String>, usize)>)
    ensures
        match field {
            Some((text, next)) => read_optional_text(bytes@, at as int) == Some(
                (text_of(text), next as int),
            ),
            None => read_optional_text(bytes@, at as int).is_none(),
        },
{
    if at >= bytes.len() {
        return None;
    }
    let tag = bytes[at];
    if tag == 0 {
        Some((None, at + 1))
    } else if tag == 1 {
        match take_text(bytes, at + 1) {
            Some((text, next)) => Some((Some(text), next)),
            None => None,
        }
    } else {
        None
    }
}

/// Takes the timestamp that starts at `at`.
fn take_timestamp(bytes: &[u8], at: usize) -> (field: Option<(u64, usize)>)
    ensures
        match field {
            Some((value, next)) => read_timestamp(bytes@, at as int) == Some((value, next as int)),
            None => read_timestamp(bytes@, at as int).is_none(),
        },
{
    let len = bytes.len();
    if at > len || len - at < 8 {
        return None;
    }
    Some((u64_from_le_bytes(slice_subrange(bytes, at, at + 8)), at + 8))
}

/// Takes the active flag at `at`.
fn take_flag(bytes: &[u8], at: usize) -> (field: Option<(bool, usize)>)
    ensures
        match field {
            Some((flag, next)) => read_flag(bytes@, at as int) == Some((flag, next as int)),
            None => read_flag(bytes@, at as int).is_none(),
        },
{
    if at >= bytes.len() || bytes[at] > 1 {
        return None;
    }
    Some((bytes[at] == 1, at + 1))
}

impl UserProfile {
    /// The profile that a record holds, or `None` where the bytes are no
    /// record: too long, cut short, followed by more bytes, with a tag other
    /// than 0 or 1, or with a text that is not UTF-8.
    pub fn decode(bytes: &[u8]) -> (profile: Option<UserProfile>)
        ensures
            match profile {
                Some(p) => decode_record(bytes@) == Some(p@),
                None => decode_record(bytes@).is_none(),
            },
    {
        if bytes.len() > MAX_VALUE_SIZE {
            return None;
        }
        let (principal_id, at) = match take_text(bytes, 0) {
            Some(field) => field,
            None => { return None; },
        };
        let (full_name, at) = match take_optional_text(bytes, at) {
            Some(field) => field,
            None => { return None; },
        };
        let (email, at) = match take_optional_text(bytes, at) {
            Some(field) => field,
            None => { return None; },
        };
        let (role, at) = match take_text(bytes, at) {
            Some(field) => field,
            None => { return None; },
        };
        let (created_at, at) = match take_timestamp(bytes, at) {
            Some(field) => field,
            None => { return None; },
        };
        let (last_login, at) = match take_timestamp(bytes, at) {
            Some(field) => field,
            None => { return None; },
        };
        let (is_active, at) = match take_flag(bytes, at) {
            Some(field) => field,
            None => { return None; },
        };
        if at != bytes.len() {
            return None;
        }
        Some(
            UserProfile { principal_id, full_name, email, role, created_at, last_login, is_active },
        )
    }
}

} // verus!
