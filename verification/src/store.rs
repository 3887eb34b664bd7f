//! The record store semantics: named attribute maps (items) addressed by
//! a named key attribute, with the exact behaviour the record mapper
//! relies on — unconditional upsert, lookup by primary or secondary key,
//! per-attribute last-writer-wins update conditioned on existence, and
//! unconditional delete.
//!
//! [`Store`] is the in-memory model of one table of the external record
//! store; the mapper's decisions are verified against it, and the thin
//! transport layer reproduces each operation against the real store.

use vstd::prelude::*;
use crate::attr::{Attr, AttrV, attr_map_view, lemma_attr_map_view, attr_eq, clone_attr, str_eq};
use crate::attr::{encode, encode_spec};
use crate::value::{Value, ValueV, obj_view, lemma_obj_view};
use crate::error::Error;

verus! {

/// Either of two alternatives; the mapper uses it to address a record by
/// its primary key (left) or its secondary-index key (right).
#[derive(Clone, Copy, Debug)]
pub enum Either<L, R> {
    Left(L),
    Right(R),
}

/// The value under `key` in an attribute map, the latest entry winning.
pub open spec fn lookup(entries: Seq<(Seq<char>, AttrV)>, key: Seq<char>) -> Option<AttrV>
    decreases entries,
{
    if entries.len() == 0 {
        None
    } else if entries.last().0 == key {
        Some(entries.last().1)
    } else {
        lookup(entries.drop_last(), key)
    }
}

/// Appending an entry shadows exactly its own key.
pub proof fn lemma_lookup_push(
    entries: Seq<(Seq<char>, AttrV)>,
    key: Seq<char>,
    value: AttrV,
    k: Seq<char>,
)
    ensures
        lookup(entries.push((key, value)), k) == (if k == key {
            Some(value)
        } else {
            lookup(entries, k)
        }),
{
    assert(entries.push((key, value)).drop_last() =~= entries);
    assert(entries.push((key, value)).last() == (key, value));
}

/// In an entry list with pairwise distinct keys, lookup finds exactly
/// the entry bearing the key.
pub proof fn lemma_lookup_unique(entries: Seq<(Seq<char>, AttrV)>, i: int)
    requires
        0 <= i < entries.len(),
        forall|a: int, b: int| 0 <= a < b < entries.len() ==> (#[trigger] entries[a]).0 != (
        #[trigger] entries[b]).0,
    ensures
        lookup(entries, entries[i].0) == Some(entries[i].1),
    decreases entries,
{
    if i == entries.len() - 1 {
        assert(entries.last() == entries[i]);
    } else {
        assert(entries.last() == entries[entries.len() - 1]);
        assert(entries.last().0 != entries[i].0);
        assert(forall|a: int| 0 <= a < entries.len() - 1 ==> entries.drop_last()[a]
            == #[trigger] entries[a]);
        lemma_lookup_unique(entries.drop_last(), i);
    }
}

/// A key borne by no entry is not found.
pub proof fn lemma_lookup_absent(entries: Seq<(Seq<char>, AttrV)>, k: Seq<char>)
    requires
        forall|a: int| 0 <= a < entries.len() ==> (#[trigger] entries[a]).0 != k,
    ensures
        lookup(entries, k) is None,
    decreases entries,
{
    if entries.len() > 0 {
        assert(entries.last() == entries[entries.len() - 1]);
        assert(forall|a: int| 0 <= a < entries.len() - 1 ==> entries.drop_last()[a]
            == #[trigger] entries[a]);
        lemma_lookup_absent(entries.drop_last(), k);
    }
}

/// Reads the value under `key` in an item.
#[verifier::loop_isolation(false)]
pub fn item_get<'a>(item: &'a Vec<(String, Attr)>, key: &str) -> (r: Option<&'a Attr>)
    ensures
        r matches Some(a) ==> lookup(attr_map_view(item@), key@) == Some(a@),
        r is None ==> lookup(attr_map_view(item@), key@) is None,
{
    let ghost m = attr_map_view(item@);
    proof {
        lemma_attr_map_view(item@);
        assert(m.take(item@.len() as int) =~= m);
    }
    let mut i: usize = item.len();
    while i > 0
        invariant
            i <= item@.len(),
            lookup(m, key@) == lookup(m.take(i as int), key@),
        decreases i,
    {
        let entry: &(String, Attr) = &item[i - 1];
        proof {
            assert(m.take(i as int).last() == m[i - 1]);
            assert(m[i - 1] == (item@[i - 1].0@, entry.1@));
            assert(m.take(i as int).drop_last() =~= m.take(i - 1));
        }
        if str_eq(entry.0.as_str(), key) {
            return Some(&entry.1);
        }
        i -= 1;
    }
    proof {
        assert(m.take(0) =~= Seq::<(Seq<char>, AttrV)>::empty());
    }
    None
}

/// Writes `value` under `key` in an item (the entry is appended; reads
/// see the latest entry for a key).
pub fn item_set(item: &mut Vec<(String, Attr)>, key: String, value: Attr)
    ensures
        attr_map_view(final(item)@) == attr_map_view(old(item)@).push((key@, value@)),
{
    let ghost k = key@;
    let ghost v = value@;
    let ghost before = item@;
    item.push((key, value));
    proof {
        assert(item@.drop_last() =~= before);
        assert(attr_map_view(item@) == attr_map_view(before).push((k, v)));
    }
}

/// The item found under a named key value, the latest item winning.
pub open spec fn find_item(
    items: Seq<Seq<(Seq<char>, AttrV)>>,
    key_name: Seq<char>,
    key_val: AttrV,
) -> Option<Seq<(Seq<char>, AttrV)>>
    decreases items,
{
    if items.len() == 0 {
        None
    } else if lookup(items.last(), key_name) == Some(key_val) {
        Some(items.last())
    } else {
        find_item(items.drop_last(), key_name, key_val)
    }
}

/// All items except those carrying the given key value.
pub open spec fn remove_by_key(
    items: Seq<Seq<(Seq<char>, AttrV)>>,
    key_name: Seq<char>,
    key_val: AttrV,
) -> Seq<Seq<(Seq<char>, AttrV)>>
    decreases items,
{
    if items.len() == 0 {
        Seq::empty()
    } else {
        let rest = remove_by_key(items.drop_last(), key_name, key_val);
        if lookup(items.last(), key_name) == Some(key_val) {
            rest
        } else {
            rest.push(items.last())
        }
    }
}

/// The store after an unconditional put: any item under the same key
/// value is replaced wholesale.
pub open spec fn put_model(
    items: Seq<Seq<(Seq<char>, AttrV)>>,
    key_name: Seq<char>,
    item: Seq<(Seq<char>, AttrV)>,
) -> Seq<Seq<(Seq<char>, AttrV)>> {
    match lookup(item, key_name) {
        Option::Some(v) => remove_by_key(items, key_name, v).push(item),
        Option::None => items.push(item),
    }
}

/// The merged record after a partial update: each field is re-encoded and
/// written over the existing item, last writer winning per attribute.
pub open spec fn merge_model(
    item: Seq<(Seq<char>, AttrV)>,
    fields: Seq<(Seq<char>, ValueV)>,
) -> Seq<(Seq<char>, AttrV)>
    decreases fields,
{
    if fields.len() == 0 {
        item
    } else {
        merge_model(item, fields.drop_last()).push(
            (fields.last().0, encode_spec(fields.last().1)),
        )
    }
}

/// The in-memory model of one table of the record store.
#[derive(Debug)]
pub struct Store {
    pub items: Vec<Vec<(String, Attr)>>,
}

/// The views of a store's items, in order.
pub open spec fn store_view(items: Seq<Vec<(String, Attr)>>) -> Seq<Seq<(Seq<char>, AttrV)>> {
    Seq::new(items.len(), |i: int| attr_map_view(items[i]@))
}

impl View for Store {
    type V = Seq<Seq<(Seq<char>, AttrV)>>;

    #[verifier::inline]
    open spec fn view(&self) -> Seq<Seq<(Seq<char>, AttrV)>> {
        store_view(self.items@)
    }
}

impl Store {
    /// An empty table.
    pub fn new() -> (r: Store)
        ensures
            r@ == Seq::<Seq<(Seq<char>, AttrV)>>::empty(),
    {
        let r = Store { items: Vec::new() };
        proof {
            assert(store_view(r.items@) =~= Seq::<Seq<(Seq<char>, AttrV)>>::empty());
        }
        r
    }

    /// Whether an item exists under the named key value.  Absence is an
    /// answer, never an error.
    #[verifier::loop_isolation(false)]
    pub fn item_exists(&self, key_name: &str, key_val: &Attr) -> (r: bool)
        ensures
            r == (find_item(self@, key_name@, key_val@) is Some),
    {
        self.find_index(key_name, key_val).is_some()
    }

    /// The index of the found item, scanning like [`find_item`].
    #[verifier::loop_isolation(false)]
    fn find_index(&self, key_name: &str, key_val: &Attr) -> (r: Option<usize>)
        ensures
            r matches Some(ix) ==> ix < self.items@.len() && find_item(
                self@,
                key_name@,
                key_val@,
            ) == Some(attr_map_view(self.items@[ix as int]@)),
            r is None ==> find_item(self@, key_name@, key_val@) is None,
    {
        let ghost s = store_view(self.items@);
        proof {
            assert(s.take(self.items@.len() as int) =~= s);
        }
        let mut i: usize = self.items.len();
        while i > 0
            invariant
                i <= self.items@.len(),
                find_item(s, key_name@, key_val@) == find_item(
                    s.take(i as int),
                    key_name@,
                    key_val@,
                ),
            decreases i,
        {
            proof {
                assert(s.take(i as int).last() == s[i - 1]);
                assert(s.take(i as int).drop_last() =~= s.take(i - 1));
            }
            let matched: bool = match item_get(&self.items[i - 1], key_name) {
                Some(a) => attr_eq(a, key_val),
                None => false,
            };
            if matched {
                return Some(i - 1);
            }
            i -= 1;
        }
        proof {
            assert(s.take(0) =~= Seq::<Seq<(Seq<char>, AttrV)>>::empty());
        }
        None
    }

    /// The found item, copied out; `None` when absent.
    pub fn get_item(&self, key_name: &str, key_val: &Attr) -> (r: Option<Vec<(String, Attr)>>)
        ensures
            r matches Some(it) ==> find_item(self@, key_name@, key_val@) == Some(
                attr_map_view(it@),
            ),
            r is None ==> find_item(self@, key_name@, key_val@) is None,
    {
        match self.find_index(key_name, key_val) {
            None => None,
            Some(ix) => Some(clone_item(&self.items[ix])),
        }
    }

    /// Unconditional put: replaces any item with the same key value —
    /// an upsert, not an insert-if-absent.
    #[verifier::loop_isolation(false)]
    pub fn create_item(&mut self, key_name: &str, item: Vec<(String, Attr)>)
        ensures
            final(self)@ == put_model(old(self)@, key_name@, attr_map_view(item@)),
    {
        let ghost s0 = store_view(old(self).items@);
        let pk: Option<&Attr> = item_get(&item, key_name);
        match pk {
            None => {
                self.items.push(item);
                proof {
                    assert(store_view(self.items@) =~= s0.push(attr_map_view(item@)));
                }
            },
            Some(pk_ref) => {
                let pk_val: Attr = clone_attr(pk_ref);
                let mut kept: Vec<Vec<(String, Attr)>> = Vec::new();
                let mut i: usize = 0;
                while i < self.items.len()
                    invariant
                        i <= self.items@.len(),
                        self.items@ == old(self).items@,
                        pk_val@ == lookup(attr_map_view(item@), key_name@)->0,
                        lookup(attr_map_view(item@), key_name@) is Some,
                        store_view(kept@) == remove_by_key(
                            s0.take(i as int),
                            key_name@,
                            pk_val@,
                        ),
                    decreases self.items@.len() - i,
                {
                    proof {
                        assert(s0.take(i + 1).last() == s0[i as int]);
                        assert(s0.take(i + 1).drop_last() =~= s0.take(i as int));
                    }
                    let matched: bool = match item_get(&self.items[i], key_name) {
                        Some(a) => attr_eq(a, &pk_val),
                        None => false,
                    };
                    if !matched {
                        let copy: Vec<(String, Attr)> = clone_item(&self.items[i]);
                        let ghost kept0 = kept@;
                        kept.push(copy);
                        proof {
                            assert(store_view(kept@) =~= store_view(kept0).push(
                                attr_map_view(self.items@[i as int]@),
                            ));
                        }
                    }
                    i += 1;
                }
                proof {
                    assert(s0.take(self.items@.len() as int) =~= s0);
                }
                kept.push(item);
                self.items = kept;
                proof {
                    assert(store_view(self.items@) =~= remove_by_key(
                        s0,
                        key_name@,
                        pk_val@,
                    ).push(attr_map_view(item@)));
                }
            },
        }
    }

    /// Unconditional delete: succeeds whether or not the item existed.
    #[verifier::loop_isolation(false)]
    pub fn delete_item(&mut self, key_name: &str, pk: &Attr)
        ensures
            final(self)@ == remove_by_key(old(self)@, key_name@, pk@),
    {
        let ghost s0 = store_view(old(self).items@);
        let mut kept: Vec<Vec<(String, Attr)>> = Vec::new();
        let mut i: usize = 0;
        while i < self.items.len()
            invariant
                i <= self.items@.len(),
                self.items@ == old(self).items@,
                store_view(kept@) == remove_by_key(s0.take(i as int), key_name@, pk@),
            decreases self.items@.len() - i,
        {
            proof {
                assert(s0.take(i + 1).last() == s0[i as int]);
                assert(s0.take(i + 1).drop_last() =~= s0.take(i as int));
            }
            let matched: bool = match item_get(&self.items[i], key_name) {
                Some(a) => attr_eq(a, pk),
                None => false,
            };
            if !matched {
                let copy: Vec<(String, Attr)> = clone_item(&self.items[i]);
                let ghost kept0 = kept@;
                kept.push(copy);
                proof {
                    assert(store_view(kept@) =~= store_view(kept0).push(
                        attr_map_view(self.items@[i as int]@),
                    ));
                }
            }
            i += 1;
        }
        proof {
            assert(s0.take(self.items@.len() as int) =~= s0);
        }
        self.items = kept;
    }

    /// Partial update conditioned on existence under the key: when the
    /// item is absent the store is untouched and a condition-failure
    /// comes back; otherwise each field is re-encoded and written over
    /// the item (last writer wins per attribute, not per record), and the
    /// post-update item is returned.
    #[verifier::loop_isolation(false)]
    pub fn update_item(&mut self, key_name: &str, pk: &Attr, update: &Vec<(String, Value)>) -> (
        r: Result<Vec<(String, Attr)>, Error>)
        ensures
            find_item(old(self)@, key_name@, pk@) is None ==> (r == Err::<
                Vec<(String, Attr)>,
                Error,
            >(Error::ConditionFailed) && final(self)@ == old(self)@),
            find_item(old(self)@, key_name@, pk@) matches Some(it) ==> (r matches Ok(m) && {
                &&& attr_map_view(m@) == merge_model(it, obj_view(update@))
                &&& final(self)@ == put_model(
                    old(self)@,
                    key_name@,
                    merge_model(it, obj_view(update@)),
                )
            }),
    {
        let found: Option<Vec<(String, Attr)>> = self.get_item(key_name, pk);
        match found {
            None => Err(Error::ConditionFailed),
            Some(mut merged) => {
                let ghost it = attr_map_view(merged@);
                proof {
                    lemma_obj_view(update@);
                }
                let mut j: usize = 0;
                while j < update.len()
                    invariant
                        j <= update@.len(),
                        attr_map_view(merged@) == merge_model(
                            it,
                            obj_view(update@).take(j as int),
                        ),
                    decreases update@.len() - j,
                {
                    let field: &(String, Value) = &update[j];
                    item_set(&mut merged, field.0.clone(), encode(&field.1));
                    proof {
                        let f = obj_view(update@);
                        assert(f.take(j + 1).last() == f[j as int]);
                        assert(f.take(j + 1).drop_last() =~= f.take(j as int));
                        assert(f[j as int] == (update@[j as int].0@, crate::value::value_view(
                            update@[j as int].1,
                        )));
                    }
                    j += 1;
                }
                proof {
                    assert(obj_view(update@).take(update@.len() as int) =~= obj_view(update@));
                }
                let copy: Vec<(String, Attr)> = clone_item(&merged);
                self.create_item(key_name, copy);
                Ok(merged)
            },
        }
    }
}

impl Store {
    /// Whether a record exists, addressed by its primary key (left) or
    /// its secondary-index key (right).
    pub fn key_exists(&self, pk_name: &str, sk_name: &str, key: Either<&Attr, &Attr>) -> (r: bool)
        ensures
            r == match key {
                Either::Left(pk) => find_item(self@, pk_name@, pk@) is Some,
                Either::Right(sk) => find_item(self@, sk_name@, sk@) is Some,
            },
    {
        match key {
            Either::Left(pk) => self.item_exists(pk_name, pk),
            Either::Right(sk) => self.item_exists(sk_name, sk),
        }
    }

    /// Reads a record, addressed by its primary key (left) or its
    /// secondary-index key (right); absence is an answer, not an error.
    pub fn read(&self, pk_name: &str, sk_name: &str, key: Either<&Attr, &Attr>) -> (r: Option<
        Vec<(String, Attr)>,
    >)
        ensures
            r matches Some(it) ==> (match key {
                Either::Left(pk) => find_item(self@, pk_name@, pk@) == Some(attr_map_view(it@)),
                Either::Right(sk) => find_item(self@, sk_name@, sk@) == Some(
                    attr_map_view(it@),
                ),
            }),
            r is None ==> match key {
                Either::Left(pk) => find_item(self@, pk_name@, pk@) is None,
                Either::Right(sk) => find_item(self@, sk_name@, sk@) is None,
            },
    {
        match key {
            Either::Left(pk) => self.get_item(pk_name, pk),
            Either::Right(sk) => self.get_item(sk_name, sk),
        }
    }
}

/// Latest timestamp the expiry arithmetic accepts, in seconds.
pub const MAX_EXPIRE_TIMESTAMP: i64 = 4102444800000;

/// Longest accepted time-to-live, in minutes.
pub const MAX_EXPIRE_MINUTES: i64 = 52560000;

impl Store {
    /// Writes one attribute over the item under the key, conditioned on
    /// its existence (the same condition-failure as an update).
    pub fn expire_item(&mut self, key_name: &str, pk: &Attr, entry: (String, Value)) -> (r:
        Result<(), Error>)
        ensures
            find_item(old(self)@, key_name@, pk@) is None ==> (r == Err::<(), Error>(
                Error::ConditionFailed,
            ) && final(self)@ == old(self)@),
            find_item(old(self)@, key_name@, pk@) matches Some(it) ==> (r is Ok && final(self)@
                == put_model(
                old(self)@,
                key_name@,
                merge_model(it, seq![(entry.0@, crate::value::value_view(entry.1))]),
            )),
    {
        let ghost key = entry.0@;
        let ghost val = crate::value::value_view(entry.1);
        let mut update: Vec<(String, Value)> = Vec::new();
        update.push(entry);
        proof {
            lemma_obj_view(update@);
            assert(obj_view(update@) =~= seq![(key, val)]);
        }
        match self.update_item(key_name, pk, &update) {
            Err(e) => Err(e),
            Ok(_) => Ok(()),
        }
    }

    /// Sets the well-known TTL attribute to `minutes` from `now`,
    /// conditioned on the record existing.  The store's own reaping
    /// mechanism physically removes the record later; nothing here does.
    pub fn expire(&mut self, key_name: &str, pk: &Attr, minutes: i64, now: i64) -> (r: Result<
        (),
        Error,
    >)
        requires
            0 <= now <= MAX_EXPIRE_TIMESTAMP,
            0 <= minutes <= MAX_EXPIRE_MINUTES,
        ensures
            find_item(old(self)@, key_name@, pk@) is None ==> (r == Err::<(), Error>(
                Error::ConditionFailed,
            ) && final(self)@ == old(self)@),
            find_item(old(self)@, key_name@, pk@) matches Some(it) ==> (r is Ok && final(self)@
                == put_model(
                old(self)@,
                key_name@,
                merge_model(
                    it,
                    seq![
                        (
                            "expires"@,
                            ValueV::Number(
                                crate::number::Number::I64((now + minutes * 60) as i64),
                            ),
                        ),
                    ],
                ),
            )),
    {
        let timestamp: i64 = now + minutes * 60;
        let entry = (
            String::from_str("expires"),
            Value::Number(crate::number::Number::I64(timestamp)),
        );
        self.expire_item(key_name, pk, entry)
    }
}

/// Structural copy of an item; the copy has the same view.
pub fn clone_item(item: &Vec<(String, Attr)>) -> (r: Vec<(String, Attr)>)
    ensures
        attr_map_view(r@) == attr_map_view(item@),
{
    let mut out: Vec<(String, Attr)> = Vec::new();
    let mut i: usize = 0;
    while i < item.len()
        invariant
            i <= item@.len(),
            out@.len() == i as int,
            forall|k: int| 0 <= k < i ==> (#[trigger] out@[k]).0@ == item@[k].0@
                && out@[k].1@ == item@[k].1@,
        decreases item@.len() - i,
    {
        let entry: &(String, Attr) = &item[i];
        out.push((entry.0.clone(), clone_attr(&entry.1)));
        i += 1;
    }
    proof {
        lemma_attr_map_view(out@);
        lemma_attr_map_view(item@);
        assert forall|k: int| 0 <= k < item@.len() implies #[trigger] attr_map_view(out@)[k]
            == attr_map_view(item@)[k] by {
            assert(attr_map_view(out@)[k] == (out@[k].0@, out@[k].1@));
            assert(attr_map_view(item@)[k] == (item@[k].0@, item@[k].1@));
        }
        assert(attr_map_view(out@) =~= attr_map_view(item@));
    }
    out
}

/// A freshly put item is found again under its own key value.
pub proof fn lemma_find_after_put(
    items: Seq<Seq<(Seq<char>, AttrV)>>,
    key_name: Seq<char>,
    item: Seq<(Seq<char>, AttrV)>,
)
    requires
        lookup(item, key_name) is Some,
    ensures
        find_item(put_model(items, key_name, item), key_name, lookup(item, key_name)->0)
            == Some(item),
{
    let v = lookup(item, key_name)->0;
    let s = remove_by_key(items, key_name, v).push(item);
    assert(s.last() == item);
}

/// The value a field holds in an update map, the latest entry winning.
pub open spec fn field_lookup(fields: Seq<(Seq<char>, ValueV)>, k: Seq<char>) -> Option<ValueV>
    decreases fields,
{
    if fields.len() == 0 {
        None
    } else if fields.last().0 == k {
        Some(fields.last().1)
    } else {
        field_lookup(fields.drop_last(), k)
    }
}

/// What the merged record holds under each key: the re-encoded update
/// field when one was written, the stored attribute otherwise.
pub proof fn lemma_merge_lookup(
    item: Seq<(Seq<char>, AttrV)>,
    fields: Seq<(Seq<char>, ValueV)>,
    k: Seq<char>,
)
    ensures
        lookup(merge_model(item, fields), k) == (match field_lookup(fields, k) {
            Option::Some(v) => Some(encode_spec(v)),
            Option::None => lookup(item, k),
        }),
    decreases fields,
{
    if fields.len() > 0 {
        lemma_merge_lookup(item, fields.drop_last(), k);
        lemma_lookup_push(
            merge_model(item, fields.drop_last()),
            fields.last().0,
            encode_spec(fields.last().1),
            k,
        );
    }
}

/// Creating a record and then updating it yields the merged record: the
/// update is applied to exactly the record just written, each updated
/// field re-encoded over it and every other attribute kept.
pub proof fn lemma_create_then_update(
    items: Seq<Seq<(Seq<char>, AttrV)>>,
    key_name: Seq<char>,
    item: Seq<(Seq<char>, AttrV)>,
    fields: Seq<(Seq<char>, ValueV)>,
    k: Seq<char>,
)
    requires
        lookup(item, key_name) is Some,
    ensures
        find_item(put_model(items, key_name, item), key_name, lookup(item, key_name)->0)
            == Some(item),
        lookup(merge_model(item, fields), k) == (match field_lookup(fields, k) {
            Option::Some(v) => Some(encode_spec(v)),
            Option::None => lookup(item, k),
        }),
{
    lemma_find_after_put(items, key_name, item);
    lemma_merge_lookup(item, fields, k);
}

} // verus!
