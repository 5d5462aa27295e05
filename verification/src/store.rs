use vstd::prelude::*;

verus! {

/// The raw byte-key/byte-value store a storage slot sits on, seen as a
/// finite map from key bytes to value bytes.
///
/// `inv` is whatever well-formedness the implementation keeps between
/// calls; every operation preserves it.
pub trait RawStore: Sized {
    /// The implementation's well-formedness.
    spec fn inv(&self) -> bool;

    /// The entries the store holds.
    spec fn contents(&self) -> Map<Seq<u8>, Seq<u8>>;

    /// Whether any entry sits under `key`.
    fn contains(&self, key: &[u8]) -> (r: bool)
        requires
            self.inv(),
        ensures
            r == self.contents().contains_key(key@),
    ;

    /// The bytes under `key`, if any.
    fn get_raw(&self, key: &[u8]) -> (r: Option<Vec<u8>>)
        requires
            self.inv(),
        ensures
            match r {
                Some(v) => self.contents().contains_key(key@) && v@ == self.contents()[key@],
                None => !self.contents().contains_key(key@),
            },
    ;

    /// Store `value` under `key`, replacing any entry already there.
    fn put_raw(&mut self, key: &[u8], value: &[u8])
        requires
            old(self).inv(),
        ensures
            final(self).inv(),
            final(self).contents() == old(self).contents().insert(key@, value@),
    ;

    /// Delete the entry under `key`; deleting an absent entry is a no-op.
    fn kill(&mut self, key: &[u8])
        requires
            old(self).inv(),
        ensures
            final(self).inv(),
            final(self).contents() == old(self).contents().remove(key@),
    ;
}

/// An in-memory store: a list of key/value pairs with pairwise distinct
/// keys.
pub struct MemStore {
    entries: Vec<(Vec<u8>, Vec<u8>)>,
}

/// The map an entry list stands for, later entries winning.
pub closed spec fn entry_map(s: Seq<(Vec<u8>, Vec<u8>)>) -> Map<Seq<u8>, Seq<u8>>
    decreases s.len(),
{
    if s.len() == 0 {
        Map::empty()
    } else {
        entry_map(s.drop_last()).insert(s.last().0@, s.last().1@)
    }
}

/// A key is in the map of an entry list exactly when some entry carries it.
proof fn lemma_entry_map_dom(s: Seq<(Vec<u8>, Vec<u8>)>, k: Seq<u8>)
    ensures
        entry_map(s).contains_key(k) <==> exists|i: int| 0 <= i < s.len() && s[i].0@ == k,
    decreases s.len(),
{
    if s.len() > 0 {
        lemma_entry_map_dom(s.drop_last(), k);
        if entry_map(s).contains_key(k) && s.last().0@ != k {
            let i = choose|i: int| 0 <= i < s.drop_last().len() && s.drop_last()[i].0@ == k;
            assert(s[i].0@ == k);
        }
        if exists|i: int| 0 <= i < s.len() && s[i].0@ == k {
            let i = choose|i: int| 0 <= i < s.len() && s[i].0@ == k;
            if i < s.len() - 1 {
                assert(s.drop_last()[i].0@ == k);
            }
        }
    }
}

/// With distinct keys, the map of an entry list reads each entry back.
proof fn lemma_entry_map_at(s: Seq<(Vec<u8>, Vec<u8>)>, i: int)
    requires
        0 <= i < s.len(),
        forall|j: int, l: int| 0 <= j < l < s.len() ==> s[j].0@ != s[l].0@,
    ensures
        entry_map(s).contains_key(s[i].0@),
        entry_map(s)[s[i].0@] == s[i].1@,
    decreases s.len(),
{
    if i == s.len() - 1 {
        assert(entry_map(s) == entry_map(s.drop_last()).insert(s.last().0@, s.last().1@));
    } else {
        lemma_entry_map_at(s.drop_last(), i);
        assert(s.drop_last()[i] == s[i]);
        assert(s.last().0@ != s[i].0@);
    }
}

/// Removing the entry that carries `k` removes `k` from the map.
proof fn lemma_entry_map_remove(s: Seq<(Vec<u8>, Vec<u8>)>, i: int)
    requires
        0 <= i < s.len(),
        forall|j: int, l: int| 0 <= j < l < s.len() ==> s[j].0@ != s[l].0@,
    ensures
        entry_map(s.remove(i)) == entry_map(s).remove(s[i].0@),
    decreases s.len(),
{
    let k = s[i].0@;
    if i == s.len() - 1 {
        assert(s.remove(i) =~= s.drop_last());
        lemma_entry_map_dom(s.drop_last(), k);
        assert(!entry_map(s.drop_last()).contains_key(k));
        assert(entry_map(s.drop_last()) =~= entry_map(s).remove(k));
    } else {
        lemma_entry_map_remove(s.drop_last(), i);
        assert(s.remove(i).drop_last() =~= s.drop_last().remove(i));
        assert(s.remove(i).last() == s.last());
        assert(entry_map(s.remove(i)) == entry_map(s.drop_last().remove(i)).insert(
            s.last().0@,
            s.last().1@,
        ));
        assert(s.last().0@ != k);
        assert(entry_map(s.drop_last()).remove(k).insert(s.last().0@, s.last().1@) =~= entry_map(
            s.drop_last(),
        ).insert(s.last().0@, s.last().1@).remove(k));
    }
}

impl MemStore {
    /// An empty store.
    pub fn new() -> (r: Self)
        ensures
            r.inv(),
            r.contents() == Map::<Seq<u8>, Seq<u8>>::empty(),
    {
        MemStore { entries: Vec::new() }
    }

    /// The index of the entry carrying `key`, if any.
    fn find(&self, key: &[u8]) -> (r: Option<usize>)
        ensures
            match r {
                Some(i) => i < self.entries@.len() && self.entries@[i as int].0@ == key@,
                None => forall|j: int| 0 <= j < self.entries@.len() ==> self.entries@[j].0@ != key@,
            },
    {
        let n = self.entries.len();
        let mut i: usize = 0;
        while i < n
            invariant
                n == self.entries@.len(),
                i <= n,
                forall|j: int| 0 <= j < i ==> self.entries@[j].0@ != key@,
            decreases n - i,
        {
            if bytes_eq(self.entries[i].0.as_slice(), key) {
                return Some(i);
            }
            i = i + 1;
        }
        None
    }
}

/// Whether two byte runs hold the same bytes.
pub fn bytes_eq(a: &[u8], b: &[u8]) -> (r: bool)
    ensures
        r == (a@ == b@),
{
    if a.len() != b.len() {
        assert(a@ != b@);
        return false;
    }
    let n = a.len();
    let mut i: usize = 0;
    while i < n
        invariant
            n == a@.len() == b@.len(),
            i <= n,
            forall|j: int| 0 <= j < i ==> a@[j] == b@[j],
        decreases n - i,
    {
        if a[i] != b[i] {
            return false;
        }
        i = i + 1;
    }
    assert(a@ =~= b@);
    true
}

impl RawStore for MemStore {
    closed spec fn inv(&self) -> bool {
        forall|j: int, l: int|
            0 <= j < l < self.entries@.len() ==> self.entries@[j].0@ != self.entries@[l].0@
    }

    closed spec fn contents(&self) -> Map<Seq<u8>, Seq<u8>> {
        entry_map(self.entries@)
    }

    fn contains(&self, key: &[u8]) -> (r: bool) {
        proof {
            lemma_entry_map_dom(self.entries@, key@);
        }
        match self.find(key) {
            Some(_) => true,
            None => false,
        }
    }

    fn get_raw(&self, key: &[u8]) -> (r: Option<Vec<u8>>) {
        proof {
            lemma_entry_map_dom(self.entries@, key@);
        }
        match self.find(key) {
            Some(i) => {
                proof {
                    lemma_entry_map_at(self.entries@, i as int);
                }
                Some(vstd::slice::slice_to_vec(self.entries[i].1.as_slice()))
            },
            None => None,
        }
    }

    fn put_raw(&mut self, key: &[u8], value: &[u8]) {
        self.kill(key);
        proof {
            lemma_entry_map_dom(self.entries@, key@);
        }
        let ghost mid = self.entries@;
        let pair = (vstd::slice::slice_to_vec(key), vstd::slice::slice_to_vec(value));
        self.entries.push(pair);
        proof {
            let s = self.entries@;
            assert(s.drop_last() =~= mid);
            assert(entry_map(s) == entry_map(mid).insert(key@, value@));
            assert(entry_map(mid).insert(key@, value@) =~= old(self).contents().insert(
                key@,
                value@,
            ));
            assert forall|j: int, l: int| 0 <= j < l < s.len() implies s[j].0@ != s[l].0@ by {
                if l < s.len() - 1 {
                    assert(s[j] == mid[j] && s[l] == mid[l]);
                } else {
                    assert(s[j] == mid[j]);
                    assert(mid[j].0@ != key@);
                }
            }
        }
    }

    fn kill(&mut self, key: &[u8]) {
        proof {
            lemma_entry_map_dom(self.entries@, key@);
        }
        match self.find(key) {
            Some(i) => {
                let ghost s = self.entries@;
                proof {
                    lemma_entry_map_remove(s, i as int);
                }
                self.entries.remove(i);
                proof {
                    assert(self.entries@ == s.remove(i as int));
                    assert forall|j: int, l: int|
                        0 <= j < l < self.entries@.len() implies self.entries@[j].0@
                        != self.entries@[l].0@ by {
                        let jj = if j < i { j } else { j + 1 };
                        let ll = if l < i { l } else { l + 1 };
                        assert(self.entries@[j] == s[jj]);
                        assert(self.entries@[l] == s[ll]);
                    }
                }
            },
            None => {
                proof {
                    assert(entry_map(self.entries@).remove(key@) =~= entry_map(self.entries@));
                }
            },
        }
    }
}

} // verus!
