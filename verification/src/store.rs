//! The in-memory store: a flat mapping from key to stored value, last write
//! wins, with the one alternate-key fallback the identifier class gets on a
//! lookup miss.

use vstd::map::*;
use vstd::prelude::*;
use vstd::string::StrSliceExecFns;
use vstd::string::StringExecFns;

verus! {

/// No two entries share a key.
pub open spec fn unique_keys(entries: Seq<(String, String)>) -> bool {
    forall|i: int, j: int|
        0 <= i < j < entries.len() ==> (#[trigger] entries[i].0@) != (#[trigger] entries[j].0@)
}

/// The mapping an entry sequence denotes, later entries winning.
pub open spec fn map_of(entries: Seq<(String, String)>) -> Map<Seq<char>, Seq<char>>
    decreases entries.len(),
{
    if entries.len() == 0 {
        Map::empty()
    } else {
        map_of(entries.drop_last()).insert(entries.last().0@, entries.last().1@)
    }
}

/// A key is in the denoted mapping exactly when some entry holds it.
proof fn lemma_map_of_dom(entries: Seq<(String, String)>, k: Seq<char>)
    ensures
        map_of(entries).dom().contains(k) <==> exists|i: int|
            0 <= i < entries.len() && (#[trigger] entries[i].0@) == k,
    decreases entries.len(),
{
    if entries.len() > 0 {
        lemma_map_of_dom(entries.drop_last(), k);
        let dl = entries.drop_last();
        if map_of(entries).dom().contains(k) {
            if entries.last().0@ == k {
                assert(entries[entries.len() - 1].0@ == k);
            } else {
                let i = choose|i: int| 0 <= i < dl.len() && (#[trigger] dl[i].0@) == k;
                assert(entries[i].0@ == k);
            }
        }
        if exists|i: int| 0 <= i < entries.len() && (#[trigger] entries[i].0@) == k {
            let i = choose|i: int| 0 <= i < entries.len() && (#[trigger] entries[i].0@) == k;
            if i < entries.len() - 1 {
                assert(dl[i].0@ == k);
            }
        }
    }
}

/// Under unique keys, the entry at `i` gives the denoted value of its key.
proof fn lemma_map_of_get(entries: Seq<(String, String)>, i: int)
    requires
        unique_keys(entries),
        0 <= i < entries.len(),
    ensures
        map_of(entries).dom().contains(entries[i].0@),
        map_of(entries)[entries[i].0@] == entries[i].1@,
    decreases entries.len(),
{
    let dl = entries.drop_last();
    if i == entries.len() - 1 {
    } else {
        assert(dl[i] == entries[i]);
        lemma_map_of_get(dl, i);
        assert(entries[i].0@ != entries.last().0@);
    }
}

/// Under unique keys, replacing the value at `i` denotes an insert of the
/// new value under that entry's key.
proof fn lemma_map_of_update(entries: Seq<(String, String)>, i: int, p: (String, String))
    requires
        unique_keys(entries),
        0 <= i < entries.len(),
        p.0@ == entries[i].0@,
    ensures
        map_of(entries.update(i, p)) == map_of(entries).insert(p.0@, p.1@),
    decreases entries.len(),
{
    let u = entries.update(i, p);
    let dl = entries.drop_last();
    if i == entries.len() - 1 {
        assert(u.drop_last() =~= dl);
        assert(u.last() == p);
        assert(map_of(u) == map_of(dl).insert(p.0@, p.1@));
        assert(map_of(dl).insert(entries.last().0@, entries.last().1@).insert(p.0@, p.1@)
            =~= map_of(dl).insert(p.0@, p.1@));
    } else {
        assert(u.drop_last() =~= dl.update(i, p));
        assert(u.last() == entries.last());
        assert(dl[i] == entries[i]);
        lemma_map_of_update(dl, i, p);
        assert(entries[i].0@ != entries.last().0@);
        assert(map_of(dl).insert(p.0@, p.1@).insert(entries.last().0@, entries.last().1@)
            =~= map_of(dl).insert(entries.last().0@, entries.last().1@).insert(p.0@, p.1@));
    }
}

/// Character-by-character string equality.
fn str_eq(a: &str, b: &str) -> (r: bool)
    ensures
        r == (a@ == b@),
{
    let n = a.unicode_len();
    if n != b.unicode_len() {
        return false;
    }
    let mut i: usize = 0;
    while i < n
        invariant
            n == a@.len(),
            n == b@.len(),
            i <= n,
            forall|j: int| 0 <= j < i ==> #[trigger] a@[j] == b@[j],
        decreases n - i,
    {
        if a.get_char(i) != b.get_char(i) {
            return false;
        }
        i += 1;
    }
    proof {
        assert(a@ =~= b@);
    }
    true
}

/// The in-memory store. Keys are unique; a successful add overwrites.
pub struct Store {
    entries: Vec<(String, String)>,
}

impl View for Store {
    type V = Map<Seq<char>, Seq<char>>;

    closed spec fn view(&self) -> Map<Seq<char>, Seq<char>> {
        map_of(self.entries@)
    }
}

/// The fallback key class: a key that begins with `id` but lacks the
/// underscore of the reserved identifier prefix.
pub open spec fn fallback_applies(key: Seq<char>) -> bool {
    key.len() >= 2 && key[0] == 'i' && key[1] == 'd' && !(key.len() >= 3 && key[2] == '_')
}

/// The alternate form tried for such a key: the separator put back in.
pub open spec fn alt_key(key: Seq<char>) -> Seq<char> {
    seq!['i', 'd', '_'] + key.subrange(2, key.len() as int)
}

/// What a lookup must return: the key's own value on a hit; on a miss, the
/// alternate form's value if the fallback class applies and it is present;
/// nothing otherwise.
pub open spec fn lookup_spec(m: Map<Seq<char>, Seq<char>>, key: Seq<char>) -> Option<
    (Seq<char>, Seq<char>),
> {
    if m.dom().contains(key) {
        Some((key, m[key]))
    } else if fallback_applies(key) && m.dom().contains(alt_key(key)) {
        Some((alt_key(key), m[alt_key(key)]))
    } else {
        None
    }
}

impl Store {
    /// All entry keys are distinct.
    pub closed spec fn wf(self) -> bool {
        unique_keys(self.entries@)
    }

    /// An empty store.
    pub fn new() -> (r: Store)
        ensures
            r.wf(),
            r@ == Map::<Seq<char>, Seq<char>>::empty(),
    {
        Store { entries: Vec::new() }
    }

    /// Stores `value` under `key`, overwriting any previous value.
    pub fn insert(&mut self, key: &str, value: String)
        requires
            old(self).wf(),
        ensures
            final(self).wf(),
            final(self)@ == old(self)@.insert(key@, value@),
    {
        let n = self.entries.len();
        let mut i: usize = 0;
        while i < n
            invariant
                *self == *old(self),
                n == self.entries@.len(),
                i <= n,
                old(self).wf(),
                forall|j: int| 0 <= j < i ==> (#[trigger] self.entries@[j].0@) != key@,
            decreases n - i,
        {
            if str_eq(self.entries[i].0.as_str(), key) {
                let k = self.entries[i].0.clone();
                self.entries.set(i, (k, value));
                proof {
                    lemma_map_of_update(
                        old(self).entries@,
                        i as int,
                        (old(self).entries@[i as int].0, value),
                    );
                    assert(self.entries@ =~= old(self).entries@.update(
                        i as int,
                        (old(self).entries@[i as int].0, value),
                    ));
                }
                return;
            }
            i += 1;
        }
        self.entries.push((key.to_owned(), value));
        proof {
            assert(self.entries@.drop_last() =~= old(self).entries@);
            assert(self.entries@.last().0@ == key@);
            assert(self.wf());
        }
    }

    /// The stored value under exactly `key`, if any.
    pub fn get(&self, key: &str) -> (r: Option<String>)
        requires
            self.wf(),
        ensures
            r is Some <==> self@.dom().contains(key@),
            r is Some ==> r.unwrap()@ == self@[key@],
    {
        let n = self.entries.len();
        let mut i: usize = 0;
        while i < n
            invariant
                self.wf(),
                n == self.entries@.len(),
                i <= n,
                forall|j: int| 0 <= j < i ==> (#[trigger] self.entries@[j].0@) != key@,
            decreases n - i,
        {
            if str_eq(self.entries[i].0.as_str(), key) {
                proof {
                    lemma_map_of_get(self.entries@, i as int);
                }
                return Some(self.entries[i].1.clone());
            }
            i += 1;
        }
        proof {
            lemma_map_of_dom(self.entries@, key@);
        }
        None
    }

    /// Looks `key` up, trying the identifier-class alternate form on a
    /// miss; returns the key that matched together with its stored value.
    pub fn get_with_fallback(&self, key: &str) -> (r: Option<(String, String)>)
        requires
            self.wf(),
        ensures
            match r {
                Some(p) => lookup_spec(self@, key@) == Some((p.0@, p.1@)),
                None => lookup_spec(self@, key@) is None,
            },
    {
        match self.get(key) {
            Some(v) => {
                return Some((key.to_owned(), v));
            },
            None => {},
        }
        let n = key.unicode_len();
        if n >= 2 && key.get_char(0) == 'i' && key.get_char(1) == 'd' && !(n >= 3 && key.get_char(2)
            == '_') {
            let mut alt = String::from_str("id_");
            alt.append(key.substring_char(2, n));
            proof {
                reveal_strlit("id_");
                assert(alt@ =~= alt_key(key@));
            }
            match self.get(alt.as_str()) {
                Some(v) => {
                    return Some((alt, v));
                },
                None => {
                    return None;
                },
            }
        }
        None
    }
}

} // verus!
