//! The user record and its mapping to the flat attribute encoding of the
//! record store.

use vstd::prelude::*;
use crate::attr::{Attr, AttrV, attr_map_view};
use crate::decimal::{int_dec_of, parse_i64, i64_dec, parse_i64_exec};
use crate::store::{Store, lookup, item_get, find_item, put_model};
use crate::store::{lemma_lookup_unique, lemma_lookup_absent};
use crate::token::Id;
use crate::error::Error;

verus! {

/// An email address (its text), tagged with whether it has been verified.
#[derive(Clone, Debug)]
pub enum EmailAddress {
    New(String),
    Verified(String),
}

/// A stored user record.  Timestamps are Unix milliseconds.
#[derive(Clone, Debug)]
pub struct User {
    pub id: Id,
    pub email: EmailAddress,
    pub user_name: String,
    pub first_name: String,
    pub last_name: String,
    pub password: String,
    pub profile_picture: Option<String>,
    pub created_at: i64,
    pub expires: Option<i64>,
}

/// The mathematical shape of a user record.
pub struct UserV {
    pub id: Seq<u8>,
    pub email: Seq<char>,
    pub email_verified: bool,
    pub user_name: Seq<char>,
    pub first_name: Seq<char>,
    pub last_name: Seq<char>,
    pub password: Seq<char>,
    pub profile_picture: Option<Seq<char>>,
    pub created_at: i64,
    pub expires: Option<i64>,
}

impl View for User {
    type V = UserV;

    open spec fn view(&self) -> UserV {
        UserV {
            id: self.id.0@,
            email: match self.email {
                EmailAddress::New(s) => s@,
                EmailAddress::Verified(s) => s@,
            },
            email_verified: self.email is Verified,
            user_name: self.user_name@,
            first_name: self.first_name@,
            last_name: self.last_name@,
            password: self.password@,
            profile_picture: match self.profile_picture {
                Option::Some(s) => Some(s@),
                Option::None => None,
            },
            created_at: self.created_at,
            expires: self.expires,
        }
    }
}

/// An address usable for delivery: it has a nonempty part on each side
/// of an `@`.
pub open spec fn valid_email(s: Seq<char>) -> bool {
    exists|i: int| 0 < i < s.len() - 1 && s[i] == '@'
}

/// Checks the address shape.
pub fn check_email(s: &str) -> (r: bool)
    ensures
        r == valid_email(s@),
{
    let n: usize = s.unicode_len();
    let mut i: usize = 1;
    if n < 3 {
        proof {
            assert(forall|j: int| 0 < j < s@.len() - 1 ==> s@[j] != '@' || j >= s@.len() - 1)
                by {}
        }
        return false;
    }
    while i < n - 1
        invariant
            1 <= i <= n - 1,
            n as int == s@.len(),
            n >= 3,
            forall|j: int| 0 < j < i ==> s@[j] != '@',
        decreases n - i,
    {
        if s.get_char(i) == '@' {
            return true;
        }
        i += 1;
    }
    false
}

/// The text of a string attribute; anything else (a missing field
/// included) falls back to the empty string.
pub open spec fn text_or_default(item: Seq<(Seq<char>, AttrV)>, key: Seq<char>) -> Seq<char> {
    match lookup(item, key) {
        Option::Some(AttrV::S(s)) => s,
        _ => Seq::empty(),
    }
}

/// The flat attribute encoding of a user record.
pub open spec fn user_item_spec(u: UserV) -> Seq<(Seq<char>, AttrV)> {
    let base = if u.email_verified {
        seq![
            ("id"@, AttrV::B(u.id)),
            ("email_verified"@, AttrV::Bool(true)),
            ("email"@, AttrV::S(u.email)),
        ]
    } else {
        seq![("id"@, AttrV::B(u.id)), ("email"@, AttrV::S(u.email))]
    };
    let mid = base + seq![
        ("user_name"@, AttrV::S(u.user_name)),
        ("first_name"@, AttrV::S(u.first_name)),
        ("last_name"@, AttrV::S(u.last_name)),
        ("password"@, AttrV::S(u.password)),
        ("created_at"@, AttrV::N(int_dec_of(u.created_at as int))),
    ];
    let with_pp = match u.profile_picture {
        Option::Some(p) => mid.push(("profile_picture"@, AttrV::S(p))),
        Option::None => mid,
    };
    match u.expires {
        Option::Some(e) => with_pp.push(("expires"@, AttrV::N(int_dec_of(e as int)))),
        Option::None => with_pp,
    }
}

/// The user a stored item decodes to, if it is well-formed: `id`,
/// `email` and `created_at` are required and typed; the name and password
/// fields default to empty text; `email_verified` defaults to false.
pub open spec fn user_of_item(item: Seq<(Seq<char>, AttrV)>) -> Option<UserV> {
    match lookup(item, "id"@) {
        Option::Some(AttrV::B(idb)) => {
            if idb.len() == 12 {
                let verified = match lookup(item, "email_verified"@) {
                    Option::None => Some(false),
                    Option::Some(AttrV::Bool(b)) => Some(b),
                    Option::Some(_) => None,
                };
                match verified {
                    Option::None => None,
                    Option::Some(ev) => match lookup(item, "email"@) {
                        Option::Some(AttrV::S(em)) => {
                            if valid_email(em) {
                                match lookup(item, "created_at"@) {
                                    Option::Some(AttrV::N(cs)) => match parse_i64(cs) {
                                        Option::None => None,
                                        Option::Some(created) => {
                                            let expires = match lookup(item, "expires"@) {
                                                Option::None => Some(
                                                    None::<i64>,
                                                ),
                                                Option::Some(AttrV::N(es)) => match parse_i64(
                                                    es,
                                                ) {
                                                    Option::Some(e) => Some(Some(e)),
                                                    Option::None => None,
                                                },
                                                Option::Some(_) => None,
                                            };
                                            match expires {
                                                Option::None => None,
                                                Option::Some(ex) => Some(
                                                    UserV {
                                                        id: idb,
                                                        email: em,
                                                        email_verified: ev,
                                                        user_name: text_or_default(
                                                            item,
                                                            "user_name"@,
                                                        ),
                                                        first_name: text_or_default(
                                                            item,
                                                            "first_name"@,
                                                        ),
                                                        last_name: text_or_default(
                                                            item,
                                                            "last_name"@,
                                                        ),
                                                        password: text_or_default(
                                                            item,
                                                            "password"@,
                                                        ),
                                                        profile_picture: match lookup(
                                                            item,
                                                            "profile_picture"@,
                                                        ) {
                                                            Option::Some(AttrV::S(p)) => Some(
                                                                p,
                                                            ),
                                                            _ => None,
                                                        },
                                                        created_at: created,
                                                        expires: ex,
                                                    },
                                                ),
                                            }
                                        },
                                    },
                                    _ => None,
                                }
                            } else {
                                None
                            }
                        },
                        _ => None,
                    },
                }
            } else {
                None
            }
        },
        _ => None,
    }
}

impl User {
    /// Encodes the record as a flat attribute map.
    pub fn to_item(&self) -> (r: Vec<(String, Attr)>)
        ensures
            attr_map_view(r@) == user_item_spec(self@),
    {
        let mut out: Vec<(String, Attr)> = Vec::new();
        let id_bytes: Vec<u8> = id_byte_vec(&self.id);
        push_entry(&mut out, "id", Attr::B(id_bytes));
        match &self.email {
            EmailAddress::New(address) => {
                push_entry(&mut out, "email", Attr::S(address.clone()));
            },
            EmailAddress::Verified(address) => {
                push_entry(&mut out, "email_verified", Attr::Bool(true));
                push_entry(&mut out, "email", Attr::S(address.clone()));
            },
        }
        push_entry(&mut out, "user_name", Attr::S(self.user_name.clone()));
        push_entry(&mut out, "first_name", Attr::S(self.first_name.clone()));
        push_entry(&mut out, "last_name", Attr::S(self.last_name.clone()));
        push_entry(&mut out, "password", Attr::S(self.password.clone()));
        push_entry(&mut out, "created_at", Attr::N(i64_dec(self.created_at)));
        match &self.profile_picture {
            Some(picture) => {
                push_entry(&mut out, "profile_picture", Attr::S(picture.clone()));
            },
            None => {},
        }
        match &self.expires {
            Some(expires) => {
                push_entry(&mut out, "expires", Attr::N(i64_dec(*expires)));
            },
            None => {},
        }
        proof {
            assert(attr_map_view(out@) =~= user_item_spec(self@));
        }
        out
    }

    /// Decodes a stored item back into a record; an error marks malformed
    /// stored attributes.
    pub fn from_item(item: &Vec<(String, Attr)>) -> (r: Result<User, String>)
        ensures
            r matches Ok(u) ==> user_of_item(attr_map_view(item@)) == Some(u@),
            r is Err ==> user_of_item(attr_map_view(item@)) is None,
    {
        let id: Id = match item_get(item, "id") {
            Some(Attr::B(bytes)) => {
                if bytes.len() == 12 {
                    let id = Id(
                        [
                            bytes[0],
                            bytes[1],
                            bytes[2],
                            bytes[3],
                            bytes[4],
                            bytes[5],
                            bytes[6],
                            bytes[7],
                            bytes[8],
                            bytes[9],
                            bytes[10],
                            bytes[11],
                        ],
                    );
                    proof {
                        assert(id.0@ =~= bytes@);
                    }
                    id
                } else {
                    return Err(String::from_str("invalid id length"));
                }
            },
            _ => {
                return Err(String::from_str("field id not found"));
            },
        };
        let email_verified: bool = match item_get(item, "email_verified") {
            None => false,
            Some(Attr::Bool(b)) => *b,
            Some(_) => {
                return Err(
                    String::from_str("expected a bool for the email_verified field."),
                );
            },
        };
        let email: EmailAddress = match item_get(item, "email") {
            Some(Attr::S(address)) => {
                if check_email(address.as_str()) {
                    if email_verified {
                        EmailAddress::Verified(address.clone())
                    } else {
                        EmailAddress::New(address.clone())
                    }
                } else {
                    return Err(String::from_str("invalid email address"));
                }
            },
            _ => {
                return Err(String::from_str("could not get the email field"));
            },
        };
        let created_at: i64 = match item_get(item, "created_at") {
            Some(Attr::N(value)) => {
                match parse_i64_exec(value.as_str()) {
                    Some(ms) => ms,
                    None => {
                        return Err(String::from_str("invalid timestamp for created_at"));
                    },
                }
            },
            _ => {
                return Err(String::from_str("expected a number for the field created_at"));
            },
        };
        let expires: Option<i64> = match item_get(item, "expires") {
            None => None,
            Some(Attr::N(value)) => {
                match parse_i64_exec(value.as_str()) {
                    Some(ms) => Some(ms),
                    None => {
                        return Err(String::from_str("invalid timestamp for expires"));
                    },
                }
            },
            Some(_) => {
                return Err(String::from_str("expected a number for the field expires"));
            },
        };
        let user_name: String = text_field(item, "user_name");
        let first_name: String = text_field(item, "first_name");
        let last_name: String = text_field(item, "last_name");
        let password: String = text_field(item, "password");
        let profile_picture: Option<String> = match item_get(item, "profile_picture") {
            Some(Attr::S(value)) => Some(value.clone()),
            _ => None,
        };
        Ok(
            User {
                id,
                email,
                user_name,
                first_name,
                last_name,
                password,
                profile_picture,
                created_at,
                expires,
            },
        )
    }
}

/// The bytes of an identifier, as a vector.
fn id_byte_vec(id: &Id) -> (r: Vec<u8>)
    ensures
        r@ == id.0@,
{
    let mut out: Vec<u8> = Vec::new();
    let mut i: usize = 0;
    while i < 12
        invariant
            i <= 12,
            out@ == id.0@.take(i as int),
        decreases 12 - i,
    {
        out.push(id.0[i]);
        proof {
            assert(out@ =~= id.0@.take(i + 1));
        }
        i += 1;
    }
    proof {
        assert(id.0@.take(12) =~= id.0@);
    }
    out
}

/// Appends one entry to an item under construction.
fn push_entry(out: &mut Vec<(String, Attr)>, key: &str, value: Attr)
    ensures
        attr_map_view(final(out)@) == attr_map_view(old(out)@).push((key@, value@)),
{
    crate::store::item_set(out, String::from_str(key), value)
}

/// Reads a defaulting text field.
fn text_field(item: &Vec<(String, Attr)>, key: &str) -> (r: String)
    ensures
        r@ == text_or_default(attr_map_view(item@), key@),
{
    match item_get(item, key) {
        Some(Attr::S(value)) => value.clone(),
        _ => String::new(),
    }
}

/// Storing a user record and decoding the stored item gives the record
/// back exactly: the two mapping directions are mutual inverses on every
/// record with a 12-byte identifier and a deliverable address.
pub proof fn lemma_user_round_trip(u: UserV)
    requires
        u.id.len() == 12,
        valid_email(u.email),
    ensures
        user_of_item(user_item_spec(u)) == Some(u),
        lookup(user_item_spec(u), "id"@) == Some(AttrV::B(u.id)),
{
    reveal_strlit("id");
    reveal_strlit("email_verified");
    reveal_strlit("email");
    reveal_strlit("user_name");
    reveal_strlit("first_name");
    reveal_strlit("last_name");
    reveal_strlit("password");
    reveal_strlit("created_at");
    reveal_strlit("profile_picture");
    reveal_strlit("expires");
    assert("id"@.len() == 2);
    assert("email_verified"@.len() == 14);
    assert("email"@.len() == 5);
    assert("user_name"@.len() == 9);
    assert("first_name"@.len() == 10);
    assert("last_name"@.len() == 9);
    assert("password"@.len() == 8);
    assert("created_at"@.len() == 10);
    assert("profile_picture"@.len() == 15);
    assert("expires"@.len() == 7);
    assert("user_name"@[0] == 'u');
    assert("last_name"@[0] == 'l');
    assert("first_name"@[0] == 'f');
    assert("created_at"@[0] == 'c');
    let item = user_item_spec(u);
    match (u.email_verified, u.profile_picture, u.expires) {
            (false, Option::None, Option::None) => {
                assert(item =~= seq![
                    ("id"@, AttrV::B(u.id)),
                    ("email"@, AttrV::S(u.email)),
                    ("user_name"@, AttrV::S(u.user_name)),
                    ("first_name"@, AttrV::S(u.first_name)),
                    ("last_name"@, AttrV::S(u.last_name)),
                    ("password"@, AttrV::S(u.password)),
                    ("created_at"@, AttrV::N(int_dec_of(u.created_at as int))),
                ]);
                lemma_lookup_unique(item, 0);
                lemma_lookup_unique(item, 1);
                lemma_lookup_unique(item, 2);
                lemma_lookup_unique(item, 3);
                lemma_lookup_unique(item, 4);
                lemma_lookup_unique(item, 5);
                lemma_lookup_unique(item, 6);
                lemma_lookup_absent(item, "email_verified"@);
                lemma_lookup_absent(item, "profile_picture"@);
                lemma_lookup_absent(item, "expires"@);
            },
            (false, Option::None, Option::Some(e)) => {
                assert(item =~= seq![
                    ("id"@, AttrV::B(u.id)),
                    ("email"@, AttrV::S(u.email)),
                    ("user_name"@, AttrV::S(u.user_name)),
                    ("first_name"@, AttrV::S(u.first_name)),
                    ("last_name"@, AttrV::S(u.last_name)),
                    ("password"@, AttrV::S(u.password)),
                    ("created_at"@, AttrV::N(int_dec_of(u.created_at as int))),
                    ("expires"@, AttrV::N(int_dec_of(e as int))),
                ]);
                lemma_lookup_unique(item, 0);
                lemma_lookup_unique(item, 1);
                lemma_lookup_unique(item, 2);
                lemma_lookup_unique(item, 3);
                lemma_lookup_unique(item, 4);
                lemma_lookup_unique(item, 5);
                lemma_lookup_unique(item, 6);
                lemma_lookup_unique(item, 7);
                lemma_lookup_absent(item, "email_verified"@);
                lemma_lookup_absent(item, "profile_picture"@);
            },
            (false, Option::Some(p), Option::None) => {
                assert(item =~= seq![
                    ("id"@, AttrV::B(u.id)),
                    ("email"@, AttrV::S(u.email)),
                    ("user_name"@, AttrV::S(u.user_name)),
                    ("first_name"@, AttrV::S(u.first_name)),
                    ("last_name"@, AttrV::S(u.last_name)),
                    ("password"@, AttrV::S(u.password)),
                    ("created_at"@, AttrV::N(int_dec_of(u.created_at as int))),
                    ("profile_picture"@, AttrV::S(p)),
                ]);
                lemma_lookup_unique(item, 0);
                lemma_lookup_unique(item, 1);
                lemma_lookup_unique(item, 2);
                lemma_lookup_unique(item, 3);
                lemma_lookup_unique(item, 4);
                lemma_lookup_unique(item, 5);
                lemma_lookup_unique(item, 6);
                lemma_lookup_unique(item, 7);
                lemma_lookup_absent(item, "email_verified"@);
                lemma_lookup_absent(item, "expires"@);
            },
            (false, Option::Some(p), Option::Some(e)) => {
                assert(item =~= seq![
                    ("id"@, AttrV::B(u.id)),
                    ("email"@, AttrV::S(u.email)),
                    ("user_name"@, AttrV::S(u.user_name)),
                    ("first_name"@, AttrV::S(u.first_name)),
                    ("last_name"@, AttrV::S(u.last_name)),
                    ("password"@, AttrV::S(u.password)),
                    ("created_at"@, AttrV::N(int_dec_of(u.created_at as int))),
                    ("profile_picture"@, AttrV::S(p)),
                    ("expires"@, AttrV::N(int_dec_of(e as int))),
                ]);
                lemma_lookup_unique(item, 0);
                lemma_lookup_unique(item, 1);
                lemma_lookup_unique(item, 2);
                lemma_lookup_unique(item, 3);
                lemma_lookup_unique(item, 4);
                lemma_lookup_unique(item, 5);
                lemma_lookup_unique(item, 6);
                lemma_lookup_unique(item, 7);
                lemma_lookup_unique(item, 8);
                lemma_lookup_absent(item, "email_verified"@);
            },
            (true, Option::None, Option::None) => {
                assert(item =~= seq![
                    ("id"@, AttrV::B(u.id)),
                    ("email_verified"@, AttrV::Bool(true)),
                    ("email"@, AttrV::S(u.email)),
                    ("user_name"@, AttrV::S(u.user_name)),
                    ("first_name"@, AttrV::S(u.first_name)),
                    ("last_name"@, AttrV::S(u.last_name)),
                    ("password"@, AttrV::S(u.password)),
                    ("created_at"@, AttrV::N(int_dec_of(u.created_at as int))),
                ]);
                lemma_lookup_unique(item, 0);
                lemma_lookup_unique(item, 1);
                lemma_lookup_unique(item, 2);
                lemma_lookup_unique(item, 3);
                lemma_lookup_unique(item, 4);
                lemma_lookup_unique(item, 5);
                lemma_lookup_unique(item, 6);
                lemma_lookup_unique(item, 7);
                lemma_lookup_absent(item, "profile_picture"@);
                lemma_lookup_absent(item, "expires"@);
            },
            (true, Option::None, Option::Some(e)) => {
                assert(item =~= seq![
                    ("id"@, AttrV::B(u.id)),
                    ("email_verified"@, AttrV::Bool(true)),
                    ("email"@, AttrV::S(u.email)),
                    ("user_name"@, AttrV::S(u.user_name)),
                    ("first_name"@, AttrV::S(u.first_name)),
                    ("last_name"@, AttrV::S(u.last_name)),
                    ("password"@, AttrV::S(u.password)),
                    ("created_at"@, AttrV::N(int_dec_of(u.created_at as int))),
                    ("expires"@, AttrV::N(int_dec_of(e as int))),
                ]);
                lemma_lookup_unique(item, 0);
                lemma_lookup_unique(item, 1);
                lemma_lookup_unique(item, 2);
                lemma_lookup_unique(item, 3);
                lemma_lookup_unique(item, 4);
                lemma_lookup_unique(item, 5);
                lemma_lookup_unique(item, 6);
                lemma_lookup_unique(item, 7);
                lemma_lookup_unique(item, 8);
                lemma_lookup_absent(item, "profile_picture"@);
            },
            (true, Option::Some(p), Option::None) => {
                assert(item =~= seq![
                    ("id"@, AttrV::B(u.id)),
                    ("email_verified"@, AttrV::Bool(true)),
                    ("email"@, AttrV::S(u.email)),
                    ("user_name"@, AttrV::S(u.user_name)),
                    ("first_name"@, AttrV::S(u.first_name)),
                    ("last_name"@, AttrV::S(u.last_name)),
                    ("password"@, AttrV::S(u.password)),
                    ("created_at"@, AttrV::N(int_dec_of(u.created_at as int))),
                    ("profile_picture"@, AttrV::S(p)),
                ]);
                lemma_lookup_unique(item, 0);
                lemma_lookup_unique(item, 1);
                lemma_lookup_unique(item, 2);
                lemma_lookup_unique(item, 3);
                lemma_lookup_unique(item, 4);
                lemma_lookup_unique(item, 5);
                lemma_lookup_unique(item, 6);
                lemma_lookup_unique(item, 7);
                lemma_lookup_unique(item, 8);
                lemma_lookup_absent(item, "expires"@);
            },
            (true, Option::Some(p), Option::Some(e)) => {
                assert(item =~= seq![
                    ("id"@, AttrV::B(u.id)),
                    ("email_verified"@, AttrV::Bool(true)),
                    ("email"@, AttrV::S(u.email)),
                    ("user_name"@, AttrV::S(u.user_name)),
                    ("first_name"@, AttrV::S(u.first_name)),
                    ("last_name"@, AttrV::S(u.last_name)),
                    ("password"@, AttrV::S(u.password)),
                    ("created_at"@, AttrV::N(int_dec_of(u.created_at as int))),
                    ("profile_picture"@, AttrV::S(p)),
                    ("expires"@, AttrV::N(int_dec_of(e as int))),
                ]);
                lemma_lookup_unique(item, 0);
                lemma_lookup_unique(item, 1);
                lemma_lookup_unique(item, 2);
                lemma_lookup_unique(item, 3);
                lemma_lookup_unique(item, 4);
                lemma_lookup_unique(item, 5);
                lemma_lookup_unique(item, 6);
                lemma_lookup_unique(item, 7);
                lemma_lookup_unique(item, 8);
                lemma_lookup_unique(item, 9);
            },
    }
    crate::decimal::lemma_parse_int_dec_of(u.created_at as int);
    match u.expires {
        Option::Some(e) => {
            crate::decimal::lemma_parse_int_dec_of(e as int);
        },
        Option::None => {},
    }
    assert(user_of_item(item) == Some(u));
}

/// Creating a user and reading it back by its identifier yields the same
/// record: the stored item is found again under the id key and decodes to
/// the record that was written.
pub proof fn lemma_create_then_read_user(
    items: Seq<Seq<(Seq<char>, crate::attr::AttrV)>>,
    u: UserV,
)
    requires
        u.id.len() == 12,
        valid_email(u.email),
    ensures
        ({
            let stored = crate::store::put_model(items, "id"@, user_item_spec(u));
            &&& find_item(stored, "id"@, AttrV::B(u.id)) == Some(user_item_spec(u))
            &&& user_of_item(user_item_spec(u)) == Some(u)
        }),
{
    lemma_user_round_trip(u);
    crate::store::lemma_find_after_put(items, "id"@, user_item_spec(u));
}

/// Ensures no user with this unique email is present: the existence
/// pre-check callers run before creating an account.  (Check-then-act:
/// not an atomic guarantee at the store.)
pub fn user_by_email_does_not_exist(store: &Store, email: &str) -> (r: Result<(), Error>)
    ensures
        r is Ok <==> find_item(store@, "email"@, AttrV::S(email@)) is None,
        r is Err ==> r == Err::<(), Error>(Error::UserWithEmailAlreadyExists),
{
    let key: Attr = Attr::S(String::from_str(email));
    if store.item_exists("email", &key) {
        Err(Error::UserWithEmailAlreadyExists)
    } else {
        Ok(())
    }
}

/// Inserts a user record: an unconditional upsert under the `id` key.
pub fn create_user(store: &mut Store, user: &User)
    ensures
        final(store)@ == put_model(old(store)@, "id"@, user_item_spec(user@)),
{
    let item: Vec<(String, Attr)> = user.to_item();
    store.create_item("id", item);
}

/// Applies a partial field update to the user with this id, conditioned
/// on its existence, and decodes the merged record.
pub fn update_user(store: &mut Store, id: &Id, update: &Vec<(String, crate::value::Value)>) -> (
    r: Result<User, Error>)
    ensures
        find_item(old(store)@, "id"@, AttrV::B(id.0@)) is None ==> (r matches Err(e) && e
            is ConditionFailed && final(store)@ == old(store)@),
        find_item(old(store)@, "id"@, AttrV::B(id.0@)) matches Some(it) ==> (final(store)@
            == crate::store::put_model(
            old(store)@,
            "id"@,
            crate::store::merge_model(it, crate::value::obj_view(update@)),
        ) && (match user_of_item(crate::store::merge_model(it, crate::value::obj_view(update@))) {
            Option::Some(uv) => r matches Ok(u) && u@ == uv,
            Option::None => r is Err,
        })),
{
    let id_bytes: Vec<u8> = id_byte_vec(id);
    let key: Attr = Attr::B(id_bytes);
    match store.update_item("id", &key, update) {
        Err(e) => Err(e),
        Ok(merged) => match User::from_item(&merged) {
            Ok(user) => Ok(user),
            Err(msg) => Err(Error::InternalServerError(msg)),
        },
    }
}

/// Deletes the user with this id; succeeds whether or not it existed.
pub fn delete_user(store: &mut Store, id: &Id)
    ensures
        final(store)@ == crate::store::remove_by_key(old(store)@, "id"@, AttrV::B(id.0@)),
{
    let id_bytes: Vec<u8> = id_byte_vec(id);
    let key: Attr = Attr::B(id_bytes);
    store.delete_item("id", &key);
}

} // verus!
