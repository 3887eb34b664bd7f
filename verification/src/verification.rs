//! The email-verification record — a short-lived code and magic link per
//! user — and the verification service rules built on the record store.

use vstd::prelude::*;
use crate::attr::{Attr, AttrV, attr_map_view};
use crate::decimal::{int_dec_of, parse_i64, parse_u32, i64_dec, parse_i64_exec, parse_u32_exec,
    u128_dec, dec_of};
use crate::hex::{parse_ascii_hex, ascii_hex_to_bytes};
use crate::store::{Store, lookup, item_get, find_item, put_model, Either};
use crate::token::{Id, Uuid};
use crate::user::{User, user_of_item};
use crate::value::Value;
use crate::error::Error;

verus! {

/// How long a fresh verification code lives, in minutes.
pub const EXPIRY_MINUTES: i64 = 10;

/// A pending email verification: the code the user may type, and the
/// magic id their link carries.  `expires` is Unix seconds.
#[derive(Clone, Debug)]
pub struct Verification {
    pub user_id: Id,
    pub magic_id: Uuid,
    pub code: u32,
    pub expires: i64,
}

/// The mathematical shape of a verification record.
pub struct VerificationV {
    pub user_id: Seq<u8>,
    pub magic_id: Seq<u8>,
    pub code: u32,
    pub expires: i64,
}

impl View for Verification {
    type V = VerificationV;

    open spec fn view(&self) -> VerificationV {
        VerificationV {
            user_id: self.user_id.0@,
            magic_id: self.magic_id.0@,
            code: self.code,
            expires: self.expires,
        }
    }
}

/// The flat attribute encoding of a verification record: the user id as
/// its hex digits in a byte blob (the shape the store has always held),
/// the magic id as its raw bytes, code and expiry as numeric strings.
pub open spec fn verification_item_spec(v: VerificationV) -> Seq<(Seq<char>, AttrV)> {
    seq![
        ("user_id"@, AttrV::B(crate::hex::ascii_hex_blob(v.user_id))),
        ("magic_id"@, AttrV::B(v.magic_id)),
        ("code"@, AttrV::N(dec_of(v.code as nat))),
        ("expires"@, AttrV::N(int_dec_of(v.expires as int))),
    ]
}

/// The text under the `expires` attribute: historically the store held
/// it as a string attribute, newer records hold it as a numeric one;
/// both are read.
pub open spec fn expires_text(item: Seq<(Seq<char>, AttrV)>) -> Option<Seq<char>> {
    match lookup(item, "expires"@) {
        Option::Some(AttrV::S(es)) => Some(es),
        Option::Some(AttrV::N(es)) => Some(es),
        _ => None,
    }
}

/// The verification a stored item decodes to, if it is well-formed.  The
/// stored `user_id` blob carries the identifier as ASCII hex digits; the
/// stored `expires` may be a string or a numeric attribute; `code` is a
/// numeric attribute.
pub open spec fn verification_of_item(item: Seq<(Seq<char>, AttrV)>) -> Option<VerificationV> {
    match lookup(item, "user_id"@) {
        Option::Some(AttrV::B(idb)) => match parse_ascii_hex(idb) {
            Option::Some(uid) => {
                if uid.len() == 12 {
                    match lookup(item, "magic_id"@) {
                        Option::Some(AttrV::B(mb)) => {
                            if mb.len() == 16 {
                                match lookup(item, "code"@) {
                                    Option::Some(AttrV::N(cs)) => match parse_u32(cs) {
                                        Option::Some(code) => match expires_text(item) {
                                            Option::Some(es) => match parse_i64(es) {
                                                Option::Some(exp) => Some(
                                                    VerificationV {
                                                        user_id: uid,
                                                        magic_id: mb,
                                                        code,
                                                        expires: exp,
                                                    },
                                                ),
                                                Option::None => None,
                                            },
                                            Option::None => None,
                                        },
                                        Option::None => None,
                                    },
                                    _ => None,
                                }
                            } else {
                                None
                            }
                        },
                        _ => None,
                    }
                } else {
                    None
                }
            },
            Option::None => None,
        },
        _ => None,
    }
}

/// Encoding a verification record and decoding the stored item gives the
/// record back exactly: the two mapping directions are mutual inverses on
/// every well-shaped record.
pub proof fn lemma_verification_round_trip(v: VerificationV)
    requires
        v.user_id.len() == 12,
        v.magic_id.len() == 16,
    ensures
        verification_of_item(verification_item_spec(v)) == Some(v),
{
    reveal_strlit("user_id");
    reveal_strlit("magic_id");
    reveal_strlit("code");
    reveal_strlit("expires");
    let e0 = ("user_id"@, AttrV::B(crate::hex::ascii_hex_blob(v.user_id)));
    let e1 = ("magic_id"@, AttrV::B(v.magic_id));
    let e2 = ("code"@, AttrV::N(dec_of(v.code as nat)));
    let e3 = ("expires"@, AttrV::N(int_dec_of(v.expires as int)));
    let item = verification_item_spec(v);
    let s0 = seq![e0];
    let s1 = s0.push(e1);
    let s2 = s1.push(e2);
    let s3 = s2.push(e3);
    assert(item =~= s3);
    assert("user_id"@.len() == 7);
    assert("magic_id"@.len() == 8);
    assert("code"@.len() == 4);
    assert("expires"@.len() == 7);
    assert("user_id"@[0] == 'u');
    assert("expires"@[0] == 'e');
    assert("user_id"@ != "magic_id"@);
    assert("user_id"@ != "code"@);
    assert("user_id"@ != "expires"@);
    assert("magic_id"@ != "code"@);
    assert("magic_id"@ != "expires"@);
    assert("code"@ != "expires"@);
    assert(lookup(Seq::<(Seq<char>, AttrV)>::empty(), "magic_id"@) is None);
    assert(lookup(s0, "user_id"@) == Some(e0.1)) by {
        assert(s0.last() == e0);
    }
    assert(lookup(s0, "magic_id"@) is None) by {
        assert(s0.last() == e0);
        assert(s0.drop_last() =~= Seq::<(Seq<char>, AttrV)>::empty());
        assert(lookup(Seq::<(Seq<char>, AttrV)>::empty(), "magic_id"@) is None);
    }
    crate::store::lemma_lookup_push(s0, e1.0, e1.1, "user_id"@);
    crate::store::lemma_lookup_push(s1, e2.0, e2.1, "user_id"@);
    crate::store::lemma_lookup_push(s2, e3.0, e3.1, "user_id"@);
    assert(lookup(item, "user_id"@) == Some(e0.1));
    crate::store::lemma_lookup_push(s0, e1.0, e1.1, "magic_id"@);
    crate::store::lemma_lookup_push(s1, e2.0, e2.1, "magic_id"@);
    crate::store::lemma_lookup_push(s2, e3.0, e3.1, "magic_id"@);
    assert(lookup(item, "magic_id"@) == Some(e1.1));
    crate::store::lemma_lookup_push(s1, e2.0, e2.1, "code"@);
    crate::store::lemma_lookup_push(s2, e3.0, e3.1, "code"@);
    assert(lookup(item, "code"@) == Some(e2.1));
    crate::store::lemma_lookup_push(s2, e3.0, e3.1, "expires"@);
    assert(lookup(item, "expires"@) == Some(e3.1));

    crate::hex::lemma_parse_ascii_hex_blob(v.user_id);
    crate::decimal::lemma_parse_int_dec_of(v.code as int);
    assert(int_dec_of(v.code as int) == dec_of(v.code as nat));
    crate::decimal::lemma_parse_int_dec_of(v.expires as int);
    assert(expires_text(item) == Some(int_dec_of(v.expires as int)));
}

impl Verification {
    /// Encodes the record as a flat attribute map.
    pub fn to_item(&self) -> (r: Vec<(String, Attr)>)
        ensures
            attr_map_view(r@) == verification_item_spec(self@),
    {
        let mut out: Vec<(String, Attr)> = Vec::new();
        let uid_attr: Attr = user_id_key(&self.user_id);
        let mut mid: Vec<u8> = Vec::new();
        let mut j: usize = 0;
        while j < 16
            invariant
                j <= 16,
                mid@ == self.magic_id.0@.take(j as int),
            decreases 16 - j,
        {
            mid.push(self.magic_id.0[j]);
            proof {
                assert(mid@ =~= self.magic_id.0@.take(j + 1));
            }
            j += 1;
        }
        proof {
            assert(self.magic_id.0@.take(16) =~= self.magic_id.0@);
        }
        crate::store::item_set(&mut out, String::from_str("user_id"), uid_attr);
        crate::store::item_set(&mut out, String::from_str("magic_id"), Attr::B(mid));
        crate::store::item_set(
            &mut out,
            String::from_str("code"),
            Attr::N(u128_dec(self.code as u128)),
        );
        crate::store::item_set(
            &mut out,
            String::from_str("expires"),
            Attr::N(i64_dec(self.expires)),
        );
        proof {
            assert(attr_map_view(out@) =~= verification_item_spec(self@));
        }
        out
    }

    /// Decodes a stored item back into a record; an error marks malformed
    /// stored attributes.
    pub fn from_item(item: &Vec<(String, Attr)>) -> (r: Result<Verification, String>)
        ensures
            r matches Ok(v) ==> verification_of_item(attr_map_view(item@)) == Some(v@),
            r is Err ==> verification_of_item(attr_map_view(item@)) is None,
    {
        let user_id: Id = match item_get(item, "user_id") {
            Some(Attr::B(bytes)) => {
                match ascii_hex_to_bytes(bytes.as_slice()) {
                    Some(uid) => {
                        if uid.len() == 12 {
                            let id = Id(
                                [
                                    uid[0],
                                    uid[1],
                                    uid[2],
                                    uid[3],
                                    uid[4],
                                    uid[5],
                                    uid[6],
                                    uid[7],
                                    uid[8],
                                    uid[9],
                                    uid[10],
                                    uid[11],
                                ],
                            );
                            proof {
                                assert(id.0@ =~= uid@);
                            }
                            id
                        } else {
                            return Err(String::from_str("Invalid user_id"));
                        }
                    },
                    None => {
                        return Err(String::from_str("Invalid user_id"));
                    },
                }
            },
            _ => {
                return Err(String::from_str("user_id not found or invalid"));
            },
        };
        let magic_id: Uuid = match item_get(item, "magic_id") {
            Some(Attr::B(bytes)) => {
                if bytes.len() == 16 {
                    let m = Uuid(
                        [
                            bytes[0],
                            bytes[1],
                            bytes[2],
                            bytes[3],
                            bytes[4],
                            bytes[5],
                            bytes[6],
                            bytes[7],
                            bytes[8],
                            bytes[9],
                            bytes[10],
                            bytes[11],
                            bytes[12],
                            bytes[13],
                            bytes[14],
                            bytes[15],
                        ],
                    );
                    proof {
                        assert(m.0@ =~= bytes@);
                    }
                    m
                } else {
                    return Err(String::from_str("Invalid magic_id"));
                }
            },
            _ => {
                return Err(String::from_str("magic_id not found or invalid"));
            },
        };
        let code: u32 = match item_get(item, "code") {
            Some(Attr::N(s)) => {
                match parse_u32_exec(s.as_str()) {
                    Some(code) => code,
                    None => {
                        return Err(String::from_str("code not found or invalid"));
                    },
                }
            },
            _ => {
                return Err(String::from_str("code not found or invalid"));
            },
        };
        let expires_str: &String = match item_get(item, "expires") {
            Some(Attr::S(s)) => s,
            Some(Attr::N(s)) => s,
            _ => {
                return Err(String::from_str("expires not found or invalid"));
            },
        };
        let expires: i64 = match parse_i64_exec(expires_str.as_str()) {
            Some(exp) => exp,
            None => {
                return Err(String::from_str("invalid timestamp for field expires"));
            },
        };
        Ok(Verification { user_id, magic_id, code, expires })
    }
}

/// Relies on `rand::Rng::gen_range` (on the thread rng): a uniformly
/// random value in the half-open range.  Nothing beyond the bounds is
/// assumed of the value.
#[verifier::external_body]
fn gen_range_u32(lo: u32, hi: u32) -> (r: u32)
    requires
        lo < hi,
    ensures
        lo <= r < hi,
{
    <rand::rngs::ThreadRng as rand::Rng>::gen_range(&mut rand::thread_rng(), lo..hi)
}

/// Creates and stores a fresh six-digit verification code for the user,
/// expiring [`EXPIRY_MINUTES`] from `now`.
pub fn generate_verification_code(store: &mut Store, user_id: Id, now: i64) -> (r: Verification)
    requires
        0 <= now <= crate::keys::MAX_TIMESTAMP,
    ensures
        100000 <= r.code < 1000000,
        r.user_id == user_id,
        r.expires == now + EXPIRY_MINUTES * 60,
        final(store)@ == put_model(old(store)@, "user_id"@, verification_item_spec(r@)),
{
    let code: u32 = gen_range_u32(100000, 1000000);
    let expires: i64 = now + EXPIRY_MINUTES * 60;
    let verification = Verification { user_id, magic_id: Uuid::new_v4(), code, expires };
    let item: Vec<(String, Attr)> = verification.to_item();
    store.create_item("user_id", item);
    verification
}

/// Looks the magic link id up (by the secondary index), rejects an absent
/// or expired verification, and hands back the user it belongs to.
pub fn verify_magic_link(store: &Store, magic_id: &Uuid, now: i64) -> (r: Result<Id, Error>)
    ensures
        find_item(store@, "magic_id"@, AttrV::B(magic_id.0@)) is None ==> r == Err::<Id, Error>(
            Error::VerificationCodeNotFound,
        ),
        find_item(store@, "magic_id"@, AttrV::B(magic_id.0@)) matches Some(it) ==> match
            verification_of_item(it) {
            Option::None => r is Err,
            Option::Some(v) => {
                &&& now > v.expires ==> r == Err::<Id, Error>(Error::VerificationCodeExpired)
                &&& now <= v.expires ==> (r matches Ok(id) && id.0@ == v.user_id)
            },
        },
{
    let mut key_bytes: Vec<u8> = Vec::new();
    let mut i: usize = 0;
    while i < 16
        invariant
            i <= 16,
            key_bytes@ == magic_id.0@.take(i as int),
        decreases 16 - i,
    {
        key_bytes.push(magic_id.0[i]);
        proof {
            assert(key_bytes@ =~= magic_id.0@.take(i + 1));
        }
        i += 1;
    }
    proof {
        assert(magic_id.0@.take(16) =~= magic_id.0@);
    }
    let key: Attr = Attr::B(key_bytes);
    match store.get_item("magic_id", &key) {
        None => Err(Error::VerificationCodeNotFound),
        Some(item) => {
            match Verification::from_item(&item) {
                Err(msg) => Err(Error::InternalServerError(msg)),
                Ok(verification) => {
                    if now > verification.expires {
                        Err(Error::VerificationCodeExpired)
                    } else {
                        Ok(verification.user_id)
                    }
                },
            }
        },
    }
}

/// Looks the user's pending verification up and compares the presented
/// code with the stored one.
pub fn verify_verification_code(store: &Store, user_id: &Id, code: u32) -> (r: Result<
    (),
    Error,
>)
    ensures
        find_item(store@, "user_id"@, AttrV::B(crate::hex::ascii_hex_blob(user_id.0@))) is None ==> r == Err::<
            (),
            Error,
        >(Error::VerificationCodeNotFound),
        find_item(store@, "user_id"@, AttrV::B(crate::hex::ascii_hex_blob(user_id.0@))) matches Some(it)
            ==> match verification_of_item(it) {
            Option::None => r is Err,
            Option::Some(v) => {
                &&& v.code != code ==> r == Err::<(), Error>(Error::WrongVerificationCode)
                &&& v.code == code ==> r is Ok
            },
        },
{
    let key: Attr = user_id_key(user_id);
    match store.get_item("user_id", &key) {
        None => Err(Error::VerificationCodeNotFound),
        Some(item) => {
            match Verification::from_item(&item) {
                Err(msg) => Err(Error::InternalServerError(msg)),
                Ok(verification) => {
                    if verification.code != code {
                        Err(Error::WrongVerificationCode)
                    } else {
                        Ok(())
                    }
                },
            }
        },
    }
}

/// The stored key blob for a user id: its hex digits as ASCII bytes.
fn user_id_key(id: &Id) -> (r: Attr)
    ensures
        r@ == AttrV::B(crate::hex::ascii_hex_blob(id.0@)),
{
    let hex: String = id.to_hex();
    proof {
        crate::hex::lemma_hex_of_ascii(id.0@);
    }
    let bytes: Vec<u8> = str_ascii_bytes(hex.as_str());
    proof {
        assert(bytes@ =~= crate::hex::ascii_hex_blob(id.0@));
    }
    Attr::B(bytes)
}

/// The bytes of an ASCII string, one per character.
fn str_ascii_bytes(s: &str) -> (r: Vec<u8>)
    requires
        forall|i: int| 0 <= i < s@.len() ==> ((#[trigger] s@[i]) as int) < 128,
    ensures
        r@.len() == s@.len(),
        forall|i: int| 0 <= i < s@.len() ==> r@[i] == (#[trigger] s@[i]) as u8,
{
    let n: usize = s.unicode_len();
    let mut out: Vec<u8> = Vec::new();
    let mut i: usize = 0;
    while i < n
        invariant
            i <= n,
            n as int == s@.len(),
            forall|k: int| 0 <= k < s@.len() ==> ((#[trigger] s@[k]) as int) < 128,
            out@.len() == i as int,
            forall|k: int| 0 <= k < i ==> out@[k] == (#[trigger] s@[k]) as u8,
        decreases n - i,
    {
        let c: char = s.get_char(i);
        out.push(char_to_ascii(c));
        i += 1;
    }
    out
}

/// One ASCII character as its byte.
fn char_to_ascii(c: char) -> (r: u8)
    requires
        (c as int) < 128,
    ensures
        r == c as u8,
{
    c as u8
}

/// The user a presented verification resolves to, if any: a stored,
/// well-formed, unexpired magic link (left), or a stored, well-formed
/// verification whose code matches (right).
pub open spec fn resolved_user_id(
    verifications: Seq<Seq<(Seq<char>, AttrV)>>,
    verification: Either<Uuid, (Id, u32)>,
    now: i64,
) -> Option<Seq<u8>> {
    match verification {
        Either::Left(magic_id) => match find_item(
            verifications,
            "magic_id"@,
            AttrV::B(magic_id.0@),
        ) {
            Option::Some(it) => match verification_of_item(it) {
                Option::Some(v) => if now <= v.expires {
                    Some(v.user_id)
                } else {
                    None
                },
                Option::None => None,
            },
            Option::None => None,
        },
        Either::Right(pair) => match find_item(
            verifications,
            "user_id"@,
            AttrV::B(crate::hex::ascii_hex_blob(pair.0.0@)),
        ) {
            Option::Some(it) => match verification_of_item(it) {
                Option::Some(v) => if v.code == pair.1 {
                    Some(pair.0.0@)
                } else {
                    None
                },
                Option::None => None,
            },
            Option::None => None,
        },
    }
}

/// No verification record is stored under the presented key.
pub open spec fn resolution_absent(
    verifications: Seq<Seq<(Seq<char>, AttrV)>>,
    verification: Either<Uuid, (Id, u32)>,
) -> bool {
    match verification {
        Either::Left(magic_id) => find_item(
            verifications,
            "magic_id"@,
            AttrV::B(magic_id.0@),
        ) is None,
        Either::Right(pair) => find_item(
            verifications,
            "user_id"@,
            AttrV::B(crate::hex::ascii_hex_blob(pair.0.0@)),
        ) is None,
    }
}

/// The presented magic link is stored and decodes, but its window passed.
pub open spec fn resolution_expired(
    verifications: Seq<Seq<(Seq<char>, AttrV)>>,
    verification: Either<Uuid, (Id, u32)>,
    now: i64,
) -> bool {
    verification is Left && match find_item(
        verifications,
        "magic_id"@,
        AttrV::B(verification->Left_0.0@),
    ) {
        Option::Some(it) => match verification_of_item(it) {
            Option::Some(v) => now > v.expires,
            Option::None => false,
        },
        Option::None => false,
    }
}

/// The stored verification decodes, but the presented code differs.
pub open spec fn resolution_wrong_code(
    verifications: Seq<Seq<(Seq<char>, AttrV)>>,
    verification: Either<Uuid, (Id, u32)>,
) -> bool {
    verification is Right && match find_item(
        verifications,
        "user_id"@,
        AttrV::B(crate::hex::ascii_hex_blob(verification->Right_0.0.0@)),
    ) {
        Option::Some(it) => match verification_of_item(it) {
            Option::Some(v) => v.code != verification->Right_0.1,
            Option::None => false,
        },
        Option::None => false,
    }
}

/// The single-field update the email-verification finisher writes.
pub open spec fn verified_fields() -> Seq<(Seq<char>, crate::value::ValueV)> {
    seq![("email_verified"@, crate::value::ValueV::Bool(true))]
}

/// Verifies an email either through the magic link or through the typed
/// code, then marks the resolved user's record verified: one field,
/// `email_verified`, set to true by the existence-conditioned update, and
/// the post-update record returned.  When resolution fails, its error
/// passes through and the user store is untouched.
pub fn verify_email(
    users: &mut Store,
    verifications: &Store,
    verification: Either<Uuid, (Id, u32)>,
    now: i64,
) -> (r: Result<User, Error>)
    ensures
        resolution_absent(verifications@, verification) ==> r == Err::<User, Error>(
            Error::VerificationCodeNotFound,
        ),
        resolution_expired(verifications@, verification, now) ==> r == Err::<User, Error>(
            Error::VerificationCodeExpired,
        ),
        resolution_wrong_code(verifications@, verification) ==> r == Err::<User, Error>(
            Error::WrongVerificationCode,
        ),
        resolved_user_id(verifications@, verification, now) is None ==> (r is Err
            && final(users)@ == old(users)@),
        resolved_user_id(verifications@, verification, now) matches Some(pk) ==> {
            &&& (find_item(old(users)@, "id"@, AttrV::B(pk)) is None ==> (r == Err::<
                User,
                Error,
            >(Error::ConditionFailed) && final(users)@ == old(users)@))
            &&& (find_item(old(users)@, "id"@, AttrV::B(pk)) matches Some(it) ==> (
            final(users)@ == put_model(
                old(users)@,
                "id"@,
                crate::store::merge_model(it, verified_fields()),
            ) && (match user_of_item(crate::store::merge_model(it, verified_fields())) {
                Option::Some(uv) => r matches Ok(u) && u@ == uv,
                Option::None => r is Err,
            })))
        },
        r matches Ok(u) ==> u@.email_verified,
{
    let pk: Id = match verification {
        Either::Left(magic_id) => {
            match verify_magic_link(verifications, &magic_id, now) {
                Ok(id) => id,
                Err(e) => {
                    return Err(e);
                },
            }
        },
        Either::Right((user_id, code)) => {
            match verify_verification_code(verifications, &user_id, code) {
                Ok(_) => user_id,
                Err(e) => {
                    return Err(e);
                },
            }
        },
    };
    let mut update: Vec<(String, Value)> = Vec::new();
    update.push((String::from_str("email_verified"), Value::Bool(true)));
    let ghost fields = crate::value::obj_view(update@);
    proof {
        crate::value::lemma_obj_view(update@);
        assert(fields.len() == 1);
        assert(fields[0] == ("email_verified"@, crate::value::ValueV::Bool(true)));
        assert(fields.last() == fields[0]);
        assert(fields =~= verified_fields());
        assert(crate::store::field_lookup(fields, "email_verified"@) == Some(
            crate::value::ValueV::Bool(true),
        ));
    }
    let ghost s0 = users@;
    let r: Result<User, Error> = crate::user::update_user(users, &pk, &update);
    proof {
        match find_item(s0, "id"@, AttrV::B(pk.0@)) {
            Option::None => {},
            Option::Some(it) => {
                crate::store::lemma_merge_lookup(it, fields, "email_verified"@);
                let merged = crate::store::merge_model(it, fields);
                assert(lookup(merged, "email_verified"@) == Some(AttrV::Bool(true)));
                match user_of_item(merged) {
                    Option::None => {},
                    Option::Some(uv) => {
                        assert(uv.email_verified);
                    },
                }
            },
        }
    }
    r
}

} // verus!
