//! A JSON value held as plain data, with checked field access.
use vstd::prelude::*;

verus! {

/// A JSON value. Numbers keep their decimal text; an object keeps its
/// entries in order.
#[derive(Debug)]
pub enum Json {
    Null,
    Bool(bool),
    Number(String),
    Str(String),
    Array(Vec<Json>),
    Object(Vec<(String, Json)>),
}

/// The fields of experiment records and list documents that are read
/// with a checked type.
#[derive(Clone, Copy, Debug, PartialEq, Eq, Structural)]
pub enum Field {
    Slug,
    AppName,
    Branches,
    FeatureIds,
    Data,
}

/// The type of value a field was expected to hold.
#[derive(Clone, Copy, Debug, PartialEq, Eq, Structural)]
pub enum JsonKind {
    Text,
    Array,
}

/// What went wrong while resolving, preparing or inspecting experiments.
#[derive(Debug)]
pub enum CliError {
    MissingField(Field),
    /// The field is there, but does not hold the kind of value named.
    WrongType(Field, JsonKind),
    SourceUnavailable(String),
    InvalidSource(String),
    ExperimentNotFound(String),
    AppMismatch(String),
    BranchNotFound(String),
    LogsUnavailable,
}

/// The key under which a field is stored.
pub open spec fn key_of(f: Field) -> Seq<char> {
    match f {
        Field::Slug => "slug"@,
        Field::AppName => "appName"@,
        Field::Branches => "branches"@,
        Field::FeatureIds => "featureIds"@,
        Field::Data => "data"@,
    }
}

/// The value of the first entry with the given key.
pub open spec fn lookup(entries: Seq<(String, Json)>, key: Seq<char>) -> Option<Json>
    decreases entries.len(),
{
    if entries.len() == 0 {
        None
    } else if entries[0].0@ == key {
        Some(entries[0].1)
    } else {
        lookup(entries.drop_first(), key)
    }
}

/// The value of a key of an object; nothing for any other value.
pub open spec fn get_field(j: Json, key: Seq<char>) -> Option<Json> {
    match j {
        Json::Object(entries) => lookup(entries@, key),
        _ => None,
    }
}

/// The text of a string field, when it is there and is a string.
pub open spec fn str_field(j: Json, f: Field) -> Option<Seq<char>> {
    match get_field(j, key_of(f)) {
        Some(Json::Str(s)) => Some(s@),
        _ => None,
    }
}

/// The elements of an array field, when it is there and is an array.
pub open spec fn array_field(j: Json, f: Field) -> Option<Seq<Json>> {
    match get_field(j, key_of(f)) {
        Some(Json::Array(items)) => Some(items@),
        _ => None,
    }
}

/// Whether a value is of the given kind.
pub open spec fn has_kind(v: Json, kind: JsonKind) -> bool {
    match kind {
        JsonKind::Text => v is Str,
        JsonKind::Array => v is Array,
    }
}

/// The error that reading a field of the given kind raises, if any.
pub open spec fn field_error(j: Json, f: Field, kind: JsonKind) -> Option<CliError> {
    match get_field(j, key_of(f)) {
        None => Some(CliError::MissingField(f)),
        Some(v) => if has_kind(v, kind) { None } else { Some(CliError::WrongType(f, kind)) },
    }
}

/// `new` is an object like `old` in which `key` holds `v`, and every other key what it held.
pub open spec fn updated(old: Json, new: Json, key: Seq<char>, v: Json) -> bool {
    &&& new is Object
    &&& get_field(new, key) == Some(v)
    &&& forall|k: Seq<char>| k != key ==> get_field(new, k) == #[trigger] get_field(old, k)
}

/// The first entry under a key is what the key finds.
proof fn lemma_lookup_first(s: Seq<(String, Json)>, i: int, key: Seq<char>)
    requires
        0 <= i < s.len(),
        s[i].0@ == key,
        forall|j: int| 0 <= j < i ==> s[j].0@ != key,
    ensures
        lookup(s, key) == Some(s[i].1),
    decreases i,
{
    if i > 0 {
        lemma_lookup_first(s.drop_first(), i - 1, key);
    }
}

/// A key that no entry has finds nothing.
proof fn lemma_lookup_absent(s: Seq<(String, Json)>, key: Seq<char>)
    requires
        forall|j: int| 0 <= j < s.len() ==> s[j].0@ != key,
    ensures
        lookup(s, key) is None,
    decreases s.len(),
{
    if s.len() > 0 {
        lemma_lookup_absent(s.drop_first(), key);
    }
}

/// Setting the first entry under a key changes what that key, and only it, finds.
proof fn lemma_lookup_update(s: Seq<(String, Json)>, i: int, key: String, v: Json)
    requires
        0 <= i < s.len(),
        s[i].0@ == key@,
        forall|j: int| 0 <= j < i ==> s[j].0@ != key@,
    ensures
        forall|k: Seq<char>| #[trigger] lookup(s.update(i, (key, v)), k)
            == if k == key@ { Some(v) } else { lookup(s, k) },
    decreases i,
{
    let t = s.update(i, (key, v));
    if i == 0 {
        assert(t.drop_first() =~= s.drop_first());
    } else {
        lemma_lookup_update(s.drop_first(), i - 1, key, v);
        assert(t.drop_first() =~= s.drop_first().update(i - 1, (key, v)));
    }
    assert forall|k: Seq<char>| #[trigger] lookup(t, k) == if k == key@ { Some(v) } else { lookup(s, k) } by {
        assert(t[0] == if i == 0 { (key, v) } else { s[0] });
        assert(lookup(t, k) == if t[0].0@ == k { Some(t[0].1) } else { lookup(t.drop_first(), k) });
        assert(lookup(s, k) == if s[0].0@ == k { Some(s[0].1) } else { lookup(s.drop_first(), k) });
        if i > 0 {
            assert(lookup(t.drop_first(), k) == lookup(s.drop_first().update(i - 1, (key, v)), k));
        }
    }
}

/// Removing the first entry under a key leaves what every other key finds.
proof fn lemma_lookup_remove(s: Seq<(String, Json)>, i: int, key: Seq<char>)
    requires
        0 <= i < s.len(),
        s[i].0@ == key,
        forall|j: int| 0 <= j < i ==> s[j].0@ != key,
    ensures
        forall|k: Seq<char>| k != key ==> #[trigger] lookup(s.remove(i), k) == lookup(s, k),
    decreases i,
{
    let t = s.remove(i);
    if i == 0 {
        assert(t =~= s.drop_first());
    } else {
        lemma_lookup_remove(s.drop_first(), i - 1, key);
        assert(t.drop_first() =~= s.drop_first().remove(i - 1));
    }
    assert forall|k: Seq<char>| k != key implies #[trigger] lookup(t, k) == lookup(s, k) by {
        assert(lookup(s, k) == if s[0].0@ == k { Some(s[0].1) } else { lookup(s.drop_first(), k) });
        if i > 0 {
            assert(t[0] == s[0]);
            assert(lookup(t, k) == if t[0].0@ == k { Some(t[0].1) } else { lookup(t.drop_first(), k) });
        }
    }
}

/// Adding an entry under a key that no entry has changes only what that key finds.
proof fn lemma_lookup_push(s: Seq<(String, Json)>, key: String, v: Json)
    requires
        forall|j: int| 0 <= j < s.len() ==> s[j].0@ != key@,
    ensures
        forall|k: Seq<char>| #[trigger] lookup(s.push((key, v)), k)
            == if k == key@ { Some(v) } else { lookup(s, k) },
    decreases s.len(),
{
    let t = s.push((key, v));
    if s.len() > 0 {
        lemma_lookup_push(s.drop_first(), key, v);
        assert(t.drop_first() =~= s.drop_first().push((key, v)));
    }
    assert forall|k: Seq<char>| #[trigger] lookup(t, k) == if k == key@ { Some(v) } else { lookup(s, k) } by {
        assert(lookup(t, k) == if t[0].0@ == k { Some(t[0].1) } else { lookup(t.drop_first(), k) });
        if s.len() == 0 {
            assert(t[0] == (key, v));
            assert(t.drop_first().len() == 0);
            assert(lookup(t.drop_first(), k) is None);
        } else {
            assert(t[0] == s[0]);
            assert(lookup(s, k) == if s[0].0@ == k { Some(s[0].1) } else { lookup(s.drop_first(), k) });
            assert(lookup(t.drop_first(), k) == lookup(s.drop_first().push((key, v)), k));
        }
    }
}

impl Field {
    /// The key under which this field is stored.
    pub fn key(self) -> (r: String)
        ensures
            r@ == key_of(self),
    {
        match self {
            Field::Slug => String::from_str("slug"),
            Field::AppName => String::from_str("appName"),
            Field::Branches => String::from_str("branches"),
            Field::FeatureIds => String::from_str("featureIds"),
            Field::Data => String::from_str("data"),
        }
    }
}

impl Json {
    /// The value stored under `key`, when this is an object that has it.
    pub fn get(&self, key: &String) -> (r: Option<&Json>)
        ensures
            get_field(*self, key@) == match r {
                Some(v) => Some(*v),
                None => None::<Json>,
            },
    {
        match self {
            Json::Object(entries) => {
                let mut i: usize = 0;
                assert(entries@.subrange(0, entries@.len() as int) =~= entries@);
                while i < entries.len()
                    invariant
                        i <= entries.len(),
                        get_field(*self, key@) == lookup(entries@, key@),
                        lookup(entries@, key@) == lookup(entries@.subrange(i as int, entries@.len() as int), key@),
                    decreases entries.len() - i,
                {
                    let ghost rest = entries@.subrange(i as int, entries@.len() as int);
                    assert(rest.drop_first() =~= entries@.subrange(i + 1, entries@.len() as int));
                    assert(rest[0] == entries@[i as int]);
                    if entries[i].0 == *key {
                        assert(lookup(rest, key@) == Some(rest[0].1));
                        return Some(&entries[i].1);
                    }
                    i = i + 1;
                }
                None
            },
            _ => None,
        }
    }

    /// The text of a string field; an error when it is missing or not a string.
    pub fn get_str(&self, f: Field) -> (r: Result<&String, CliError>)
        ensures
            match r {
                Ok(s) => str_field(*self, f) == Some(s@),
                Err(e) => str_field(*self, f) is None && field_error(*self, f, JsonKind::Text) == Some(e),
            },
            field_error(*self, f, JsonKind::Text) is None <==> r is Ok,
    {
        match self.get(&f.key()) {
            None => Err(CliError::MissingField(f)),
            Some(Json::Str(s)) => Ok(s),
            Some(_) => Err(CliError::WrongType(f, JsonKind::Text)),
        }
    }

    /// The elements of an array field; an error when it is missing or not an array.
    pub fn get_array(&self, f: Field) -> (r: Result<&Vec<Json>, CliError>)
        ensures
            match r {
                Ok(items) => array_field(*self, f) == Some(items@),
                Err(e) => array_field(*self, f) is None && field_error(*self, f, JsonKind::Array) == Some(e),
            },
            field_error(*self, f, JsonKind::Array) is None <==> r is Ok,
    {
        match self.get(&f.key()) {
            None => Err(CliError::MissingField(f)),
            Some(Json::Array(items)) => Ok(items),
            Some(_) => Err(CliError::WrongType(f, JsonKind::Array)),
        }
    }

    /// Takes out the value under `key`, leaving the other entries in order.
    pub fn take_field(self, key: &String) -> (r: (Json, Option<Json>))
        ensures
            r.1 == get_field(self, key@),
            r.0 is Object,
            forall|k: Seq<char>| k != key@ ==> get_field(r.0, k) == #[trigger] get_field(self, k),
    {
        let ghost old = self;
        let mut entries = match self {
            Json::Object(entries) => entries,
            _ => Vec::new(),
        };
        let ghost start = entries@;
        let mut i: usize = 0;
        while i < entries.len() && !(entries[i].0 == *key)
            invariant
                i <= entries.len(),
                entries@ == start,
                forall|j: int| 0 <= j < i ==> start[j].0@ != key@,
            decreases entries.len() - i,
        {
            i = i + 1;
        }
        if i < entries.len() {
            proof {
                lemma_lookup_first(start, i as int, key@);
                lemma_lookup_remove(start, i as int, key@);
            }
            let (_, v) = entries.remove(i);
            (Json::Object(entries), Some(v))
        } else {
            proof { lemma_lookup_absent(start, key@); }
            (Json::Object(entries), None)
        }
    }

    /// This object with `key` set to `v`: an entry already under `key` is
    /// replaced in place, else one is added at the end. A value that is not
    /// an object becomes an object of that one entry.
    pub fn with_field(self, key: String, v: Json) -> (r: Json)
        ensures
            updated(self, r, key@, v),
    {
        let mut entries = match self {
            Json::Object(entries) => entries,
            _ => Vec::new(),
        };
        let ghost start = entries@;
        let mut i: usize = 0;
        while i < entries.len() && !(entries[i].0 == key)
            invariant
                i <= entries.len(),
                entries@ == start,
                forall|j: int| 0 <= j < i ==> start[j].0@ != key@,
            decreases entries.len() - i,
        {
            i = i + 1;
        }
        if i < entries.len() {
            proof { lemma_lookup_update(start, i as int, key, v); }
            entries.remove(i);
            entries.insert(i, (key, v));
            assert(entries@ == start.update(i as int, (key, v)));
        } else {
            proof { lemma_lookup_push(start, key, v); }
            entries.push((key, v));
        }
        Json::Object(entries)
    }
}

} // verus!
