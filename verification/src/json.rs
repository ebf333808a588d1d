//! JSON values as the client's API sends them, held as plain data.

use vstd::prelude::*;

verus! {

/// A JSON number. Integers are kept exactly; any other number is kept as
/// its text, since nothing here computes with it.
pub enum JsonNumber {
    PosInt(u64),
    NegInt(i64),
    Float(String),
}

/// A JSON value. An object keeps its members in order, each key once.
pub enum Json {
    Null,
    Bool(bool),
    Number(JsonNumber),
    Str(String),
    Array(Vec<Json>),
    Object(Vec<(String, Json)>),
}

/// The value of the first member named `key`.
pub open spec fn member_value(members: Seq<(String, Json)>, key: Seq<char>) -> Option<Json>
    decreases members.len(),
{
    if members.len() == 0 {
        None
    } else if members[0].0@ == key {
        Some(members[0].1)
    } else {
        member_value(members.drop_first(), key)
    }
}

/// The position of the first member named `key`, if any.
pub open spec fn member_index(members: Seq<(String, Json)>, key: Seq<char>) -> Option<int>
    decreases members.len(),
{
    if members.len() == 0 {
        None
    } else if members[0].0@ == key {
        Some(0)
    } else {
        match member_index(members.drop_first(), key) {
            Some(i) => Some(i + 1),
            None => None,
        }
    }
}

/// Whether `s` equals the literal `lit`.
pub fn text_is(s: &String, lit: &str) -> (r: bool)
    ensures
        r == (s@ == lit@),
{
    let t = lit.to_owned();
    *s == t
}

/// The value behind an optional reference.
pub open spec fn deref_opt(o: Option<&Json>) -> Option<Json> {
    match o {
        Some(r) => Some(*r),
        None => None,
    }
}

/// What `member_index` finds: the first member with that key.
pub proof fn lemma_member_index(members: Seq<(String, Json)>, key: Seq<char>)
    ensures
        match member_index(members, key) {
            Some(p) => {
                &&& 0 <= p < members.len()
                &&& members[p].0@ == key
                &&& forall|j: int| 0 <= j < p ==> members[j].0@ != key
                &&& member_value(members, key) == Some(members[p].1)
            },
            None => {
                &&& forall|j: int| 0 <= j < members.len() ==> members[j].0@ != key
                &&& member_value(members, key) is None
            },
        },
    decreases members.len(),
{
    if members.len() > 0 {
        let rest = members.drop_first();
        lemma_member_index(rest, key);
        if members[0].0@ != key {
            match member_index(rest, key) {
                Some(p) => {
                    assert forall|j: int| 0 <= j < p + 1 implies members[j].0@ != key by {
                        if j > 0 {
                            assert(members[j] == rest[j - 1]);
                        }
                    }
                },
                None => {
                    assert forall|j: int| 0 <= j < members.len() implies members[j].0@ != key by {
                        if j > 0 {
                            assert(members[j] == rest[j - 1]);
                        }
                    }
                },
            }
        }
    }
}

/// The first member with key `key` sits at `i`.
pub proof fn lemma_first_member(members: Seq<(String, Json)>, key: Seq<char>, i: int)
    requires
        0 <= i < members.len(),
        members[i].0@ == key,
        forall|j: int| 0 <= j < i ==> members[j].0@ != key,
    ensures
        member_index(members, key) == Some(i),
{
    lemma_member_index(members, key);
}

/// No member has key `key`.
pub proof fn lemma_no_member(members: Seq<(String, Json)>, key: Seq<char>)
    requires
        forall|j: int| 0 <= j < members.len() ==> members[j].0@ != key,
    ensures
        member_index(members, key) is None,
        member_value(members, key) is None,
{
    lemma_member_index(members, key);
    if member_index(members, key) is Some {
        let p = member_index(members, key)->0;
        assert(members[p].0@ == key);
    }
}

/// The members of an object, or none for any other value.
pub open spec fn members_of(j: Json) -> Seq<(String, Json)> {
    match j {
        Json::Object(m) => m@,
        _ => Seq::empty(),
    }
}

/// `new` is `old` with its member `key` set to `value`, as the assignment
/// `old[key] = value` leaves a `serde_json::Value` that is an object or null:
/// an existing member keeps its place, a new one comes last.
pub open spec fn member_set(old: Json, key: Seq<char>, value: Json, new: Json) -> bool {
    let before = members_of(old);
    &&& (old is Object || old is Null)
    &&& new is Object
    &&& match member_index(before, key) {
        Some(p) => members_of(new) == before.update(p, (before[p].0, value)),
        None => {
            &&& members_of(new).len() == before.len() + 1
            &&& members_of(new).drop_last() == before
            &&& members_of(new).last().0@ == key
            &&& members_of(new).last().1 == value
        },
    }
}

/// Law: after setting member `key` to `value`, reading `key` gives `value`
/// and reading any other key gives what it gave before.
pub proof fn law_member_set_then_get(old: Json, key: Seq<char>, value: Json, new: Json, other: Seq<char>)
    requires
        member_set(old, key, value, new),
    ensures
        new.member(key) == Some(value),
        other != key ==> new.member(other) == old.member(other),
{
    let before = members_of(old);
    let after = members_of(new);
    assert(old.member(other) == member_value(before, other));
    assert(new.member(other) == member_value(after, other));
    assert(new.member(key) == member_value(after, key));
    lemma_member_index(before, key);
    lemma_member_index(before, other);
    match member_index(before, key) {
        Some(p) => {
            assert(after[p].0@ == key);
            assert forall|j: int| 0 <= j < p implies after[j].0@ != key by {
                assert(after[j] == before[j]);
            }
            lemma_first_member(after, key, p);
            lemma_member_index(after, key);
            if other != key {
                match member_index(before, other) {
                    Some(q) => {
                        assert(q != p);
                        assert forall|j: int| 0 <= j < q implies after[j].0@ != other by {
                            if j != p {
                                assert(after[j] == before[j]);
                            }
                        }
                        assert(after[q] == before[q]);
                        lemma_first_member(after, other, q);
                        lemma_member_index(after, other);
                    },
                    None => {
                        assert forall|j: int| 0 <= j < after.len() implies after[j].0@ != other by {
                            if j != p {
                                assert(after[j] == before[j]);
                            }
                        }
                        lemma_no_member(after, other);
                    },
                }
            }
        },
        None => {
            let n = before.len() as int;
            assert forall|j: int| 0 <= j < n implies after[j].0@ != key by {
                assert(after[j] == after.drop_last()[j]);
            }
            assert(after[n] == after.last());
            lemma_first_member(after, key, n);
            lemma_member_index(after, key);
            if other != key {
                match member_index(before, other) {
                    Some(q) => {
                        assert forall|j: int| 0 <= j < q implies after[j].0@ != other by {
                            assert(after[j] == after.drop_last()[j]);
                        }
                        assert(after[q] == after.drop_last()[q]);
                        lemma_first_member(after, other, q);
                        lemma_member_index(after, other);
                    },
                    None => {
                        assert forall|j: int| 0 <= j < after.len() implies after[j].0@ != other by {
                            if j < n {
                                assert(after[j] == after.drop_last()[j]);
                            }
                        }
                        lemma_no_member(after, other);
                    },
                }
            }
        },
    }
}

impl Json {
    /// The member `key` of an object; nothing for any other value.
    pub open spec fn member(self, key: Seq<char>) -> Option<Json> {
        match self {
            Json::Object(m) => member_value(m@, key),
            _ => None,
        }
    }

    /// The value as an unsigned 64-bit integer, if it is one.
    pub open spec fn u64_value(self) -> Option<u64> {
        match self {
            Json::Number(JsonNumber::PosInt(n)) => Some(n),
            _ => None,
        }
    }

    /// The value as a signed 64-bit integer, if it is one that fits.
    pub open spec fn i64_value(self) -> Option<i64> {
        match self {
            Json::Number(JsonNumber::PosInt(n)) => if n <= i64::MAX as u64 {
                Some(n as i64)
            } else {
                None
            },
            Json::Number(JsonNumber::NegInt(n)) => Some(n),
            _ => None,
        }
    }

    /// The text of a string value.
    pub open spec fn text(self) -> Option<Seq<char>> {
        match self {
            Json::Str(s) => Some(s@),
            _ => None,
        }
    }

    /// The items of an array value.
    pub open spec fn items(self) -> Option<Seq<Json>> {
        match self {
            Json::Array(a) => Some(a@),
            _ => None,
        }
    }

    /// The value of a boolean.
    pub open spec fn bool_value(self) -> Option<bool> {
        match self {
            Json::Bool(b) => Some(b),
            _ => None,
        }
    }

    /// The member `key` of an object, as `Value::get` finds it.
    pub fn get(&self, key: &str) -> (r: Option<&Json>)
        ensures
            deref_opt(r) == self.member(key@),
    {
        match self {
            Json::Object(members) => {
                let key_text = key.to_owned();
                let mut i: usize = 0;
                assert(members@.skip(0) =~= members@);
                while i < members.len()
                    invariant
                        i <= members@.len(),
                        key_text@ == key@,
                        self.member(key@) == member_value(members@, key@),
                        member_value(members@, key@) == member_value(members@.skip(i as int), key@),
                    decreases members.len() - i,
                {
                    let ghost rest = members@.skip(i as int);
                    assert(rest[0] == members@[i as int]);
                    if members[i].0 == key_text {
                        assert(rest[0].0@ == key@);
                        return Some(&members[i].1);
                    }
                    assert(rest.drop_first() =~= members@.skip(i + 1));
                    i = i + 1;
                }
                assert(members@.skip(i as int) =~= Seq::<(String, Json)>::empty());
                None
            },
            _ => None,
        }
    }

    /// The value as an unsigned 64-bit integer, as `Value::as_u64` gives it.
    pub fn as_u64(&self) -> (r: Option<u64>)
        ensures
            r == self.u64_value(),
    {
        match self {
            Json::Number(JsonNumber::PosInt(n)) => Some(*n),
            _ => None,
        }
    }

    /// The value as a signed 64-bit integer, as `Value::as_i64` gives it.
    pub fn as_i64(&self) -> (r: Option<i64>)
        ensures
            r == self.i64_value(),
    {
        match self {
            Json::Number(JsonNumber::PosInt(n)) => if *n <= i64::MAX as u64 {
                Some(*n as i64)
            } else {
                None
            },
            Json::Number(JsonNumber::NegInt(n)) => Some(*n),
            _ => None,
        }
    }

    /// The text of a string value, as `Value::as_str` gives it.
    pub fn as_str(&self) -> (r: Option<&String>)
        ensures
            r is Some <==> self.text() is Some,
            r matches Some(s) ==> Some(s@) == self.text(),
    {
        match self {
            Json::Str(s) => Some(s),
            _ => None,
        }
    }

    /// The items of an array value, as `Value::as_array` gives them.
    pub fn as_array(&self) -> (r: Option<&Vec<Json>>)
        ensures
            r is Some <==> self.items() is Some,
            r matches Some(a) ==> Some(a@) == self.items(),
    {
        match self {
            Json::Array(a) => Some(a),
            _ => None,
        }
    }

    /// Sets member `key` to `value`, as the assignment `value[key] = v` does
    /// on a `serde_json::Value`: null becomes an object first. `None` for any
    /// other value, where that assignment panics.
    pub fn set_member(self, key: &str, value: Json) -> (r: Option<Json>)
        ensures
            r is Some <==> (self is Object || self is Null),
            r matches Some(new) ==> member_set(self, key@, value, new),
    {
        match self {
            Json::Null => {
                let mut members: Vec<(String, Json)> = Vec::new();
                members.push((key.to_owned(), value));
                proof {
                    lemma_no_member(Seq::<(String, Json)>::empty(), key@);
                    assert(members@.drop_last() =~= Seq::<(String, Json)>::empty());
                }
                Some(Json::Object(members))
            },
            Json::Object(members) => {
                let mut members = members;
                let ghost before = members@;
                let key_text = key.to_owned();
                let mut i: usize = 0;
                while i < members.len()
                    invariant
                        members@ == before,
                        self is Object,
                        members_of(self) == before,
                        i <= members@.len(),
                        key_text@ == key@,
                        forall|j: int| 0 <= j < i ==> members@[j].0@ != key@,
                    decreases members.len() - i,
                {
                    if members[i].0 == key_text {
                        proof {
                            lemma_first_member(before, key@, i as int);
                        }
                        let name = members[i].0.clone();
                        members.set(i, (name, value));
                        return Some(Json::Object(members));
                    }
                    i = i + 1;
                }
                proof {
                    lemma_no_member(before, key@);
                }
                members.push((key_text, value));
                assert(members@.drop_last() =~= before);
                Some(Json::Object(members))
            },
            _ => None,
        }
    }

    /// The value of a boolean, as `Value::as_bool` gives it.
    pub fn as_bool(&self) -> (r: Option<bool>)
        ensures
            r == self.bool_value(),
    {
        match self {
            Json::Bool(b) => Some(*b),
            _ => None,
        }
    }

    /// Takes member `key` out of an object.
    pub fn take_member(self, key: &str) -> (r: Option<Json>)
        ensures
            r == self.member(key@),
    {
        match self {
            Json::Object(members) => {
                let mut members = members;
                let ghost all = members@;
                let key_text = key.to_owned();
                let mut i: usize = 0;
                assert(all.skip(0) =~= all);
                while i < members.len()
                    invariant
                        members@ == all,
                        self.member(key@) == member_value(all, key@),
                        i <= all.len(),
                        key_text@ == key@,
                        member_value(all, key@) == member_value(all.skip(i as int), key@),
                    decreases members.len() - i,
                {
                    let ghost rest = all.skip(i as int);
                    assert(rest[0] == all[i as int]);
                    if members[i].0 == key_text {
                        let (_, value) = members.remove(i);
                        return Some(value);
                    }
                    assert(rest.drop_first() =~= all.skip(i + 1));
                    i = i + 1;
                }
                assert(all.skip(i as int) =~= Seq::<(String, Json)>::empty());
                None
            },
            _ => None,
        }
    }
}

} // verus!
