//! The document model: a tree of tables, arrays and scalars.
use vstd::prelude::*;

verus! {

/// A value of the document.
pub enum Value {
    Str(String),
    Int(i64),
    Bool(bool),
    /// A scalar that the library does not interpret (a float, a date), kept in
    /// its encoded form.
    Other(String),
    Array(Vec<Value>),
    Table(Vec<Entry>),
}

/// One key of a table with its value.
pub struct Entry {
    pub key: String,
    pub value: Value,
}

/// `v` is the string `s`.
pub open spec fn is_str(v: Value, s: Seq<char>) -> bool {
    v is Str && v->Str_0@ == s
}

/// Some element of `s` is the string `k`.
pub open spec fn has_str(s: Seq<Value>, k: Seq<char>) -> bool {
    exists|i: int| 0 <= i < s.len() && #[trigger] is_str(s[i], k)
}

/// What a table holds under `k`: the value of the first entry with that key.
pub open spec fn lookup(s: Seq<Entry>, k: Seq<char>) -> Option<Value>
    decreases s.len(),
{
    if s.len() == 0 {
        None
    } else if s[0].key@ == k {
        Some(s[0].value)
    } else {
        lookup(s.drop_first(), k)
    }
}

/// `i` is the first position of key `k` in `s`.
pub open spec fn is_first(s: Seq<Entry>, k: Seq<char>, i: int) -> bool {
    &&& 0 <= i < s.len()
    &&& s[i].key@ == k
    &&& forall|j: int| 0 <= j < i ==> s[j].key@ != k
}

/// No entry of `s` has key `k`.
pub open spec fn absent(s: Seq<Entry>, k: Seq<char>) -> bool {
    forall|j: int| 0 <= j < s.len() ==> s[j].key@ != k
}

/// No two entries of `s` have the same key.
pub open spec fn keys_unique(s: Seq<Entry>) -> bool {
    forall|i: int, j: int| 0 <= i < j < s.len() ==> #[trigger] s[i].key@ != #[trigger] s[j].key@
}

/// The two tables hold the same value under every key but `k`, and `b` has
/// no repeated key where `a` has none.
pub open spec fn same_except(a: Seq<Entry>, b: Seq<Entry>, k: Seq<char>) -> bool {
    &&& forall|x: Seq<char>| x != k ==> #[trigger] lookup(a, x) == lookup(b, x)
    &&& keys_unique(a) ==> keys_unique(b)
}

/// Appending an entry with a new key keeps the keys unique.
pub proof fn lemma_unique_push(s: Seq<Entry>, e: Entry)
    requires
        keys_unique(s),
        absent(s, e.key@),
    ensures
        keys_unique(s.push(e)),
{
    assert forall|i: int, j: int| 0 <= i < j < s.push(e).len() implies #[trigger] s.push(e)[i].key@ != #[trigger] s.push(e)[j].key@ by {
        if j == s.len() {
            assert(s.push(e)[i] == s[i]);
        } else {
            assert(s.push(e)[i] == s[i]);
            assert(s.push(e)[j] == s[j]);
        }
    }
}

/// The table that `s` holds under `k`, if it holds a table there.
pub open spec fn sub_table(s: Seq<Entry>, k: Seq<char>) -> Option<Seq<Entry>> {
    match lookup(s, k) {
        Some(Value::Table(t)) => Some(t@),
        _ => None,
    }
}

pub proof fn lemma_lookup_first(s: Seq<Entry>, k: Seq<char>, i: int)
    requires
        is_first(s, k, i),
    ensures
        lookup(s, k) == Some(s[i].value),
    decreases s.len(),
{
    if i > 0 {
        assert(s[0].key@ != k);
        lemma_lookup_first(s.drop_first(), k, i - 1);
    }
}

pub proof fn lemma_lookup_absent(s: Seq<Entry>, k: Seq<char>)
    requires
        absent(s, k),
    ensures
        lookup(s, k) is None,
    decreases s.len(),
{
    if s.len() > 0 {
        lemma_lookup_absent(s.drop_first(), k);
    }
}

/// Replacing the value at the first position of a key changes the lookup of that key only.
pub proof fn lemma_lookup_update(s: Seq<Entry>, i: int, e: Entry, x: Seq<char>)
    requires
        is_first(s, e.key@, i),
    ensures
        lookup(s.update(i, e), x) == if x == e.key@ {
            Some(e.value)
        } else {
            lookup(s, x)
        },
    decreases s.len(),
{
    let t = s.update(i, e);
    if i == 0 {
        assert(t.drop_first() =~= s.drop_first());
    } else {
        assert(t.drop_first() =~= s.drop_first().update(i - 1, e));
        lemma_lookup_update(s.drop_first(), i - 1, e, x);
    }
}

/// Appending an entry with a new key changes the lookup of that key only.
pub proof fn lemma_lookup_push(s: Seq<Entry>, e: Entry, x: Seq<char>)
    requires
        absent(s, e.key@),
    ensures
        lookup(s.push(e), x) == if x == e.key@ {
            Some(e.value)
        } else {
            lookup(s, x)
        },
    decreases s.len(),
{
    let t = s.push(e);
    if s.len() == 0 {
        assert(t.drop_first() =~= Seq::<Entry>::empty());
        assert(lookup(t.drop_first(), x) is None);
        assert(lookup(s, x) is None);
    } else {
        assert(t[0] == s[0]);
        assert(t.drop_first() =~= s.drop_first().push(e));
        lemma_lookup_push(s.drop_first(), e, x);
    }
}

/// Whether two strings hold the same characters.
pub fn str_eq(a: &str, b: &str) -> (r: bool)
    ensures
        r == (a@ == b@),
{
    let n = a.unicode_len();
    if n != b.unicode_len() {
        return false;
    }
    let mut i: usize = 0;
    while i < n
        invariant
            n == a@.len(),
            n == b@.len(),
            0 <= i <= n,
            forall|j: int| 0 <= j < i ==> a@[j] == b@[j],
        decreases n - i,
    {
        if a.get_char(i) != b.get_char(i) {
            return false;
        }
        i = i + 1;
    }
    assert(a@ =~= b@);
    true
}

/// Whether `v` is the string `s`.
pub fn value_is_str(v: &Value, s: &str) -> (r: bool)
    ensures
        r == is_str(*v, s@),
{
    match v {
        Value::Str(x) => str_eq(x.as_str(), s),
        _ => false,
    }
}

/// The first position of key `k` in `entries`, if any.
pub fn find_key(entries: &Vec<Entry>, k: &str) -> (r: Option<usize>)
    ensures
        match r {
            Some(i) => is_first(entries@, k@, i as int) && lookup(entries@, k@) == Some(entries@[i as int].value),
            None => absent(entries@, k@) && lookup(entries@, k@) is None,
        },
{
    let mut i: usize = 0;
    while i < entries.len()
        invariant
            0 <= i <= entries@.len(),
            forall|j: int| 0 <= j < i ==> entries@[j].key@ != k@,
        decreases entries@.len() - i,
    {
        if str_eq(entries[i].key.as_str(), k) {
            proof {
                lemma_lookup_first(entries@, k@, i as int);
            }
            return Some(i);
        }
        i = i + 1;
    }
    proof {
        lemma_lookup_absent(entries@, k@);
    }
    None
}

} // verus!

verus! {

/// The table that `s` holds under `k`; empty when `k` is absent.
pub open spec fn table_at(s: Seq<Entry>, k: Seq<char>) -> Seq<Entry> {
    match lookup(s, k) {
        Some(Value::Table(t)) => t@,
        _ => Seq::empty(),
    }
}

/// `k` is absent from `s` or holds a table.
pub open spec fn table_ok(s: Seq<Entry>, k: Seq<char>) -> bool {
    lookup(s, k) is None || lookup(s, k)->Some_0 is Table
}

/// `new` is `old` where the table under `k` (an empty one when `k` was
/// absent) has been edited as `inner` says, and nothing else changed.
pub open spec fn edited_in(
    old: Seq<Entry>,
    new: Seq<Entry>,
    k: Seq<char>,
    inner: spec_fn(Seq<Entry>, Seq<Entry>) -> bool,
) -> bool {
    &&& same_except(old, new, k)
    &&& sub_table(new, k) is Some
    &&& inner(table_at(old, k), sub_table(new, k)->Some_0)
}

/// Puts `v` in place of the value at position `i` and hands back the value
/// that stood there.
pub fn replace_value(entries: &mut Vec<Entry>, i: usize, v: Value) -> (r: Value)
    requires
        i < old(entries)@.len(),
    ensures
        final(entries)@ == old(entries)@.update(i as int, Entry { key: old(entries)@[i as int].key, value: v }),
        r == old(entries)@[i as int].value,
        keys_unique(old(entries)@) ==> keys_unique(final(entries)@),
        is_first(old(entries)@, old(entries)@[i as int].key@, i as int) ==> forall|x: Seq<char>|
            #[trigger] lookup(final(entries)@, x) == if x == old(entries)@[i as int].key@ {
                Some(v)
            } else {
                lookup(old(entries)@, x)
            },
{
    let ghost e0 = entries@;
    let Entry { key, value } = entries.remove(i);
    entries.insert(i, Entry { key, value: v });
    assert(final(entries)@ =~= e0.update(i as int, Entry { key: e0[i as int].key, value: v }));
    proof {
        if is_first(e0, e0[i as int].key@, i as int) {
            assert forall|x: Seq<char>| true implies #[trigger] lookup(entries@, x) == if x == e0[i as int].key@ {
                Some(v)
            } else {
                lookup(e0, x)
            } by {
                lemma_lookup_update(e0, i as int, entries@[i as int], x);
            }
        }
    }
    value
}

/// Takes the table under `k` out of `entries`, leaving a placeholder at its
/// first position; an absent `k` is first added, and yields an empty table.
/// Nothing changes when `k` holds something other than a table.
pub fn take_table(entries: &mut Vec<Entry>, k: &str) -> (r: Option<(usize, Vec<Entry>)>)
    ensures
        match r {
            Some((i, t)) => {
                &&& table_ok(old(entries)@, k@)
                &&& is_first(final(entries)@, k@, i as int)
                &&& same_except(old(entries)@, final(entries)@, k@)
                &&& t@ == table_at(old(entries)@, k@)
            },
            None => {
                &&& !table_ok(old(entries)@, k@)
                &&& final(entries)@ == old(entries)@
            },
        },
{
    match find_key(entries, k) {
        Some(i) => {
            if matches!(entries[i].value, Value::Table(_)) {
                let v = replace_value(entries, i, Value::Bool(false));
                match v {
                    Value::Table(t) => Some((i, t)),
                    _ => None,
                }
            } else {
                None
            }
        },
        None => {
            let ghost e0 = entries@;
            let key = k.to_owned();
            entries.push(Entry { key, value: Value::Bool(false) });
            proof {
                assert forall|x: Seq<char>| x != k@ implies #[trigger] lookup(e0, x) == lookup(entries@, x) by {
                    lemma_lookup_push(e0, entries@.last(), x);
                }
            }
            let i = entries.len() - 1;
            Some((i, Vec::new()))
        },
    }
}

/// Puts the table `t` back at position `i`, the first position of its key.
pub fn put_table(entries: &mut Vec<Entry>, i: usize, t: Vec<Entry>)
    requires
        i < old(entries)@.len(),
        is_first(old(entries)@, old(entries)@[i as int].key@, i as int),
    ensures
        same_except(old(entries)@, final(entries)@, old(entries)@[i as int].key@),
        sub_table(final(entries)@, old(entries)@[i as int].key@) == Some(t@),
        lookup(final(entries)@, old(entries)@[i as int].key@) == Some(Value::Table(t)),
{
    let _ = replace_value(entries, i, Value::Table(t));
}

} // verus!

verus! {

/// Appending an entry changes the lookup of its key only where the key was absent.
pub proof fn lemma_lookup_push_any(s: Seq<Entry>, e: Entry, x: Seq<char>)
    ensures
        lookup(s.push(e), x) == if lookup(s, x) is Some {
            lookup(s, x)
        } else if e.key@ == x {
            Some(e.value)
        } else {
            None::<Value>
        },
    decreases s.len(),
{
    let t = s.push(e);
    if s.len() == 0 {
        assert(t.drop_first() =~= Seq::<Entry>::empty());
        assert(lookup(t.drop_first(), x) is None);
        assert(lookup(s, x) is None);
    } else {
        assert(t[0] == s[0]);
        assert(t.drop_first() =~= s.drop_first().push(e));
        lemma_lookup_push_any(s.drop_first(), e, x);
    }
}

} // verus!
