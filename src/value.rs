use vstd::prelude::*;

verus! {

/// A parsed JSON value.
///
/// A number is kept only as what the schema vocabulary reads from it: its
/// value when it is a non-negative integer that fits in `u64`, else `None`.
/// An object is the sequence of its members in iteration order.
pub enum JsonValue {
    Null,
    Bool(bool),
    Number(Option<u64>),
    Str(String),
    Array(Vec<JsonValue>),
    Object(Vec<(String, JsonValue)>),
}

/// The value of the first member of `members` whose key is `key`.
pub open spec fn lookup(members: Seq<(String, JsonValue)>, key: Seq<char>) -> Option<JsonValue>
    decreases members.len(),
{
    if members.len() == 0 {
        None
    } else if members[0].0@ == key {
        Some(members[0].1)
    } else {
        lookup(members.drop_first(), key)
    }
}

/// The keys of an object's members are distinct, as they are in any
/// object that a JSON parser hands out.
pub open spec fn keys_unique(members: Seq<(String, JsonValue)>) -> bool {
    forall|i: int, j: int| 0 <= i < j < members.len() ==> members[i].0@ != members[j].0@
}

/// With distinct keys, looking up a member's key gives that member's value.
pub proof fn lemma_lookup_finds_member(members: Seq<(String, JsonValue)>, i: int)
    requires
        keys_unique(members),
        0 <= i < members.len(),
    ensures
        lookup(members, members[i].0@) == Some(members[i].1),
    decreases members.len(),
{
    if i > 0 {
        let rest = members.drop_first();
        assert(keys_unique(rest)) by {
            assert forall|a: int, b: int| 0 <= a < b < rest.len() implies rest[a].0@ != rest[b].0@ by {
                assert(rest[a] == members[a + 1] && rest[b] == members[b + 1]);
            }
        }
        lemma_lookup_finds_member(rest, i - 1);
        assert(rest[i - 1] == members[i]);
        assert(members[0].0@ != members[i].0@);
    }
}

/// Whether some member of `members` has the key `key`.
pub open spec fn has_key(members: Seq<(String, JsonValue)>, key: Seq<char>) -> bool {
    exists|i: int| 0 <= i < members.len() && #[trigger] members[i].0@ == key
}

impl JsonValue {
    pub open spec fn spec_get(self, key: Seq<char>) -> Option<JsonValue> {
        match self {
            JsonValue::Object(m) => lookup(m@, key),
            _ => None,
        }
    }

    /// The string held under `key`, when this is an object and that member is a string.
    pub open spec fn spec_get_str(self, key: Seq<char>) -> Option<Seq<char>> {
        match self.spec_get(key) {
            Some(JsonValue::Str(s)) => Some(s@),
            _ => None,
        }
    }

    /// The non-negative integer held under `key`, when there is one.
    pub open spec fn spec_get_u64(self, key: Seq<char>) -> Option<u64> {
        match self.spec_get(key) {
            Some(JsonValue::Number(Some(n))) => Some(n),
            _ => None,
        }
    }

    pub open spec fn is_object(self) -> bool {
        self is Object
    }

    /// Member lookup: the first member under `key`, if this is an object.
    pub fn get(&self, key: &str) -> (r: Option<&JsonValue>)
        ensures
            match r {
                Some(v) => self.spec_get(key@) == Some(*v),
                None => self.spec_get(key@) is None,
            },
    {
        match self {
            JsonValue::Object(m) => {
                let mut i: usize = 0;
                assert(m@.subrange(0, m@.len() as int) =~= m@);
                while i < m.len()
                    invariant
                        0 <= i <= m@.len(),
                        self.spec_get(key@) == lookup(m@, key@),
                        lookup(m@, key@) == lookup(m@.subrange(i as int, m@.len() as int), key@),
                    decreases m@.len() - i,
                {
                    let ghost rest = m@.subrange(i as int, m@.len() as int);
                    assert(rest.drop_first() =~= m@.subrange(i + 1, m@.len() as int));
                    assert(rest[0] == m@[i as int]);
                    if str_eq(m[i].0.as_str(), key) {
                        return Some(&m[i].1);
                    }
                    i = i + 1;
                }
                None
            },
            _ => None,
        }
    }

    /// The string member under `key`.
    pub fn get_str(&self, key: &str) -> (r: Option<&String>)
        ensures
            match r {
                Some(s) => self.spec_get_str(key@) == Some(s@),
                None => self.spec_get_str(key@) is None,
            },
    {
        match self.get(key) {
            Some(JsonValue::Str(s)) => Some(s),
            _ => None,
        }
    }

    /// The non-negative integer member under `key`.
    pub fn get_u64(&self, key: &str) -> (r: Option<u64>)
        ensures
            r == self.spec_get_u64(key@),
    {
        match self.get(key) {
            Some(JsonValue::Number(Some(n))) => Some(*n),
            _ => None,
        }
    }
}

/// Whether two strings hold the same characters.
pub fn str_eq(a: &str, b: &str) -> (r: bool)
    ensures
        r == (a@ == b@),
{
    let n = a.unicode_len();
    if n != b.unicode_len() {
        return false;
    }
    let mut i: usize = 0;
    while i < n
        invariant
            n == a@.len() == b@.len(),
            0 <= i <= n,
            forall|j: int| 0 <= j < i ==> a@[j] == b@[j],
        decreases n - i,
    {
        if a.get_char(i) != b.get_char(i) {
            return false;
        }
        i = i + 1;
    }
    assert(a@ =~= b@);
    true
}

} // verus!
