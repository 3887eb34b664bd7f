//! The claim set of a bearer token, with its identifiers: a random token
//! id, an opaque subject identifier, and the audience that may be one name
//! or a non-empty list of names.

use vstd::prelude::*;
use crate::hex::{hex_of, parse_hex, bytes_to_hex, hex_to_bytes};
use crate::value::{Value, ValueV, obj_view, lemma_obj_view, clone_value, value_view};
use crate::number::Number;
use crate::json::{json_of_value, value_to_json};
use crate::keys::{KeySet, public_key_of};
use crate::paseto::{try_sign_payload, paseto_wellformed, paseto_valid, paseto_payload};
use crate::paseto::fits_token_limit;
use crate::error::Error;
use crate::clock::now_seconds;

verus! {

/// A random 128-bit token identifier.
#[derive(Clone, Copy, Debug, PartialEq, Eq, Default)]
pub struct Uuid(pub [u8; 16]);

impl Uuid {
    /// Relies on `uuid::Uuid::new_v4`: 16 random bytes with the version
    /// nibble set to 4 and the variant bits set to `10`, as RFC 4122
    /// documents.  The value is random; nothing else is assumed of it.
    #[verifier::external_body]
    pub fn new_v4() -> (r: Uuid)
        ensures
            r.0@[6] & 0xf0 == 0x40,
            r.0@[8] & 0xc0 == 0x80,
    {
        Uuid(*uuid::Uuid::new_v4().as_bytes())
    }

    /// The 32-character lowercase hex form, without hyphens.
    pub fn simple_hex(&self) -> (r: String)
        ensures
            r@ == hex_of(self.0@),
    {
        bytes_to_hex(self.0.as_slice())
    }

    /// Parses the 16 bytes back from 32 hex digits.
    pub fn from_hex(s: &str) -> (r: Result<Uuid, String>)
        ensures
            r matches Ok(id) ==> parse_hex(s@) == Some(id.0@),
            r is Err ==> !(parse_hex(s@) matches Some(b) && b.len() == 16),
    {
        match hex_to_bytes(s) {
            None => Err(String::from_str("invalid uuid length")),
            Some(v) => {
                if v.len() == 16 {
                    let id = Uuid(
                        [
                            v[0],
                            v[1],
                            v[2],
                            v[3],
                            v[4],
                            v[5],
                            v[6],
                            v[7],
                            v[8],
                            v[9],
                            v[10],
                            v[11],
                            v[12],
                            v[13],
                            v[14],
                            v[15],
                        ],
                    );
                    proof {
                        assert(id.0@ =~= v@);
                    }
                    Ok(id)
                } else {
                    Err(String::from_str("invalid uuid length"))
                }
            },
        }
    }
}

/// A 12-byte object identifier, carried in text as 24 hex digits.
#[derive(Clone, Copy, Debug, PartialEq, Eq, Default)]
pub struct Id(pub [u8; 12]);

impl Id {
    /// The 24-digit lowercase hex form.
    pub fn to_hex(&self) -> (r: String)
        ensures
            r@ == hex_of(self.0@),
    {
        bytes_to_hex(self.0.as_slice())
    }

    /// Parses an identifier from 24 hex digits, either case.
    pub fn from_str(s: &str) -> (r: Result<Id, String>)
        ensures
            r matches Ok(id) ==> parse_hex(s@) == Some(id.0@),
            r is Err ==> !(parse_hex(s@) matches Some(b) && b.len() == 12),
    {
        match hex_to_bytes(s) {
            None => Err(String::from_str("invalid id length")),
            Some(v) => {
                if v.len() == 12 {
                    let id = Id(
                        [
                            v[0],
                            v[1],
                            v[2],
                            v[3],
                            v[4],
                            v[5],
                            v[6],
                            v[7],
                            v[8],
                            v[9],
                            v[10],
                            v[11],
                        ],
                    );
                    proof {
                        assert(id.0@ =~= v@);
                    }
                    Ok(id)
                } else {
                    Err(String::from_str("invalid id length"))
                }
            },
        }
    }
}

/// The audience of a token: a single name, or a list of names.
#[derive(Clone, Debug)]
pub enum Audience {
    One(String),
    Many(Vec<String>),
}

impl Audience {
    /// Empty when the single name is the empty string, or the list holds
    /// no name at all.
    pub fn is_empty(&self) -> (r: bool)
        ensures
            r == match self {
                Audience::One(aud) => aud@.len() == 0,
                Audience::Many(aud) => aud@.len() == 0,
            },
    {
        match self {
            Audience::One(aud) => aud.as_str().unicode_len() == 0,
            Audience::Many(aud) => aud.len() == 0,
        }
    }
}

/// A signed claim set.  Constructed by the caller, signed once, immutable
/// thereafter.  Timestamps are Unix seconds.
#[derive(Clone, Debug)]
pub struct Token {
    /// Unique, randomly generated token id (`jti`).
    pub id: Uuid,
    /// Issuer (`iss`).
    pub issuer: String,
    /// Opaque subject identifier (`sub`).
    pub subject: Id,
    /// Audience (`aud`).
    pub audience: Audience,
    /// Expiry (`exp`); a token without one never expires by this check.
    pub expiration: Option<i64>,
    /// Not valid before (`nbf`).
    pub not_before: Option<i64>,
    /// Issue time (`iat`).
    pub issued_at: i64,
    /// Open extension claims.
    pub claims: Vec<(String, Value)>,
}

impl Token {
    /// Whether the token is expired at `now`: only a present expiry can
    /// expire it.
    pub open spec fn expired_spec(self, now: i64) -> bool {
        self.expiration is Some && now >= self.expiration->0
    }

    /// Expiry check against a given clock reading.
    pub fn expired_at(&self, now: i64) -> (r: bool)
        ensures
            r == self.expired_spec(now),
    {
        match &self.expiration {
            Some(expiration) => now >= *expiration,
            None => false,
        }
    }

    /// Expiry check against the wall clock.  A token with no expiry is
    /// never expired by this check alone; enforcement beyond this boolean
    /// is the caller's responsibility.
    pub fn expired(&self) -> (r: bool)
        ensures
            self.expiration is None ==> r == false,
    {
        let now: i64 = now_seconds();
        self.expired_at(now)
    }

    /// The audience as a dynamic value: one name, or the list of names.
    pub open spec fn aud_spec(a: Audience) -> ValueV {
        match a {
            Audience::One(s) => ValueV::String(s@),
            Audience::Many(v) => ValueV::Array(
                Seq::new(v@.len(), |i: int| ValueV::String(v@[i]@)),
            ),
        }
    }

    /// An optional timestamp as a dynamic value: absent claims are null.
    pub open spec fn opt_ts(o: Option<i64>) -> ValueV {
        match o {
            Option::Some(t) => ValueV::Number(Number::I64(t)),
            Option::None => ValueV::Null,
        }
    }

    /// The claim set as a dynamic value: the registered claims under
    /// their fixed short names, the open extension claims appended.
    pub open spec fn claims_spec(self) -> ValueV {
        ValueV::Object(
            seq![
                ("jti"@, ValueV::String(hex_of(self.id.0@))),
                ("iss"@, ValueV::String(self.issuer@)),
                ("sub"@, ValueV::String(hex_of(self.subject.0@))),
                ("aud"@, Token::aud_spec(self.audience)),
                ("exp"@, Token::opt_ts(self.expiration)),
                ("nbf"@, Token::opt_ts(self.not_before)),
                ("iat"@, ValueV::Number(Number::I64(self.issued_at))),
            ] + obj_view(self.claims@),
        )
    }

    /// Builds the claim set value.
    #[verifier::loop_isolation(false)]
    pub fn claims_value(&self) -> (r: Value)
        ensures
            r@ == self.claims_spec(),
    {
        let mut entries: Vec<(String, Value)> = Vec::new();
        entries.push((String::from_str("jti"), Value::String(self.id.simple_hex())));
        entries.push((String::from_str("iss"), Value::String(self.issuer.clone())));
        entries.push((String::from_str("sub"), Value::String(self.subject.to_hex())));
        let aud: Value = match &self.audience {
            Audience::One(s) => Value::String(s.clone()),
            Audience::Many(names) => {
                let mut list: Vec<Value> = Vec::new();
                let mut i: usize = 0;
                while i < names.len()
                    invariant
                        i <= names@.len(),
                        list@.len() == i as int,
                        forall|k: int| 0 <= k < i ==> value_view(#[trigger] list@[k])
                            == ValueV::String(names@[k]@),
                    decreases names@.len() - i,
                {
                    list.push(Value::String(names[i].clone()));
                    i += 1;
                }
                proof {
                    crate::value::lemma_arr_view(list@);
                    assert forall|k: int| 0 <= k < names@.len() implies #[trigger]
                        crate::value::arr_view(list@)[k] == ValueV::String(names@[k]@) by {
                        assert(crate::value::arr_view(list@)[k] == value_view(list@[k]));
                    }
                    assert(crate::value::arr_view(list@) =~= Seq::new(
                        names@.len(),
                        |k: int| ValueV::String(names@[k]@),
                    ));
                }
                Value::Array(list)
            },
        };
        entries.push((String::from_str("aud"), aud));
        let exp: Value = match &self.expiration {
            Some(t) => Value::Number(Number::I64(*t)),
            None => Value::Null,
        };
        entries.push((String::from_str("exp"), exp));
        let nbf: Value = match &self.not_before {
            Some(t) => Value::Number(Number::I64(*t)),
            None => Value::Null,
        };
        entries.push((String::from_str("nbf"), nbf));
        entries.push((String::from_str("iat"), Value::Number(Number::I64(self.issued_at))));
        let ghost seven = entries@;
        let ghost registered = seq![
            ("jti"@, ValueV::String(hex_of(self.id.0@))),
            ("iss"@, ValueV::String(self.issuer@)),
            ("sub"@, ValueV::String(hex_of(self.subject.0@))),
            ("aud"@, Token::aud_spec(self.audience)),
            ("exp"@, Token::opt_ts(self.expiration)),
            ("nbf"@, Token::opt_ts(self.not_before)),
            ("iat"@, ValueV::Number(Number::I64(self.issued_at))),
        ];
        proof {
            lemma_obj_view(seven);
            assert(obj_view(seven)[0] == (seven[0].0@, value_view(seven[0].1)));
            assert(obj_view(seven)[1] == (seven[1].0@, value_view(seven[1].1)));
            assert(obj_view(seven)[2] == (seven[2].0@, value_view(seven[2].1)));
            assert(obj_view(seven)[3] == (seven[3].0@, value_view(seven[3].1)));
            assert(obj_view(seven)[4] == (seven[4].0@, value_view(seven[4].1)));
            assert(obj_view(seven)[5] == (seven[5].0@, value_view(seven[5].1)));
            assert(obj_view(seven)[6] == (seven[6].0@, value_view(seven[6].1)));
            assert(obj_view(seven) =~= registered);
        }
        let mut i: usize = 0;
        while i < self.claims.len()
            invariant
                i <= self.claims@.len(),
                entries@.len() == 7 + i as int,
                entries@.take(7) == seven,
                forall|k: int| 0 <= k < i ==> (#[trigger] entries@[7 + k]).0@
                    == self.claims@[k].0@ && value_view(entries@[7 + k].1) == value_view(
                    self.claims@[k].1,
                ),
            decreases self.claims@.len() - i,
        {
            let claim: &(String, Value) = &self.claims[i];
            let ghost before = entries@;
            entries.push((claim.0.clone(), clone_value(&claim.1)));
            proof {
                assert(entries@.take(7) =~= before.take(7));
            }
            i += 1;
        }
        proof {
            lemma_obj_view(entries@);
            lemma_obj_view(seven);
            lemma_obj_view(self.claims@);
            assert forall|k: int| 0 <= k < entries@.len() implies #[trigger] obj_view(
                entries@,
            )[k] == (registered + obj_view(self.claims@))[k] by {
                if k < 7 {
                    assert((registered + obj_view(self.claims@))[k] == registered[k]);
                    assert(entries@.take(7)[k] == entries@[k]);
                    assert(entries@[k] == seven[k]);
                    assert(obj_view(entries@)[k] == (entries@[k].0@, value_view(
                        entries@[k].1,
                    )));
                    assert(obj_view(seven)[k] == (seven[k].0@, value_view(seven[k].1)));
                } else {
                    assert((registered + obj_view(self.claims@))[k] == obj_view(
                        self.claims@,
                    )[k - 7]);
                    assert((#[trigger] entries@[7 + (k - 7)]).0@ == self.claims@[k - 7].0@
                        && value_view(entries@[7 + (k - 7)].1) == value_view(
                        self.claims@[k - 7].1,
                    ));
                    assert(entries@[7 + (k - 7)] == entries@[k]);
                    assert(obj_view(entries@)[k] == (entries@[k].0@, value_view(
                        entries@[k].1,
                    )));
                    assert(obj_view(self.claims@)[k - 7] == (self.claims@[k - 7].0@,
                    value_view(self.claims@[k - 7].1)));
                }
            }
            assert(obj_view(entries@) =~= registered + obj_view(self.claims@));
        }
        Value::Object(entries)
    }

    /// The canonical claim-payload text: the claim set rendered as JSON.
    pub fn payload_json(&self) -> (r: String)
        ensures
            r@ == json_of_value(self.claims_spec()),
    {
        let v: Value = self.claims_value();
        value_to_json(&v)
    }

    /// Signs the claim set against the current key set.  With well-formed
    /// key material the call succeeds; and when the claim payload stays
    /// within the verifier's size cap, the returned token verifies under
    /// the set's verification key and embeds exactly the canonical claim
    /// payload.  (Signing enforces no size limit of its own: a token made
    /// from an oversized claim set is refused by the verifier.)
    pub fn try_sign(&self, keys: &KeySet) -> (r: Result<String, Error>)
        ensures
            keys.verify_key@ == public_key_of(keys.signing_key@) ==> r is Ok,
            r matches Ok(t) ==> (keys.verify_key@ == public_key_of(keys.signing_key@)
                && fits_token_limit(json_of_value(self.claims_spec())) ==> (paseto_wellformed(
                t@,
            ) && paseto_valid(t@, keys.verify_key@) && paseto_payload(t@) == json_of_value(
                self.claims_spec(),
            ))),
    {
        let payload: String = self.payload_json();
        try_sign_payload(payload.as_str(), keys)
    }
}


} // verus!
