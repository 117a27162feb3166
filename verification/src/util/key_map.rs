//! A finite map with keys compared by their views.
use crate::driver::manifest::spec::ConfValue;
use vstd::prelude::*;

verus! {

/// Keys of a `KeyMap`: equality is decided on views, and keys are ordered
/// by a strict total order on views.
pub trait MapKey: View + Sized {
    /// Whether the key `a` comes before the key `b`.
    spec fn spec_lt(a: Self::V, b: Self::V) -> bool;

    /// `spec_lt` is a strict total order.
    proof fn lemma_lt_order(a: Self::V, b: Self::V, c: Self::V)
        ensures
            !Self::spec_lt(a, a),
            Self::spec_lt(a, b) && Self::spec_lt(b, c) ==> Self::spec_lt(a, c),
            a != b ==> Self::spec_lt(a, b) || Self::spec_lt(b, a),
    ;

    /// Whether the two keys have the same view.
    fn key_eq(&self, other: &Self) -> (r: bool)
        ensures
            r == (self@ == other@),
    ;

    /// Whether this key comes before the other.
    fn key_lt(&self, other: &Self) -> (r: bool)
        ensures
            r == Self::spec_lt(self@, other@),
    ;

    /// A copy of the key.
    fn key_clone(&self) -> (r: Self)
        ensures
            r@ == self@,
    ;
}

/// Lexicographic order on sequences of numbers: at the first place where
/// they differ the smaller number comes first, and a proper prefix comes
/// before the longer sequence.
pub open spec fn lex_lt(a: Seq<int>, b: Seq<int>) -> bool
    decreases a.len(),
{
    if a.len() == 0 {
        b.len() > 0
    } else if b.len() == 0 {
        false
    } else if a[0] != b[0] {
        a[0] < b[0]
    } else {
        lex_lt(a.drop_first(), b.drop_first())
    }
}

/// `lex_lt` is a strict total order.
pub proof fn lemma_lex_order(a: Seq<int>, b: Seq<int>, c: Seq<int>)
    ensures
        !lex_lt(a, a),
        lex_lt(a, b) && lex_lt(b, c) ==> lex_lt(a, c),
        a != b ==> lex_lt(a, b) || lex_lt(b, a),
    decreases a.len(),
{
    if a.len() > 0 {
        lemma_lex_order(a.drop_first(), b.drop_first(), c.drop_first());
        if b.len() > 0 && a[0] == b[0] && a.drop_first() == b.drop_first() {
            assert(a =~= b) by {
                assert forall|i: int| 0 <= i < a.len() implies a[i] == b[i] by {
                    if i > 0 {
                        assert(a[i] == a.drop_first()[i - 1]);
                        assert(b[i] == b.drop_first()[i - 1]);
                    }
                }
            }
        }
    } else if b.len() == 0 {
        assert(a =~= b);
    }
}

/// The code points of a text.
pub open spec fn char_codes(s: Seq<char>) -> Seq<int> {
    s.map_values(|c: char| c as int)
}

/// The values of a byte string.
pub open spec fn byte_values(s: Seq<u8>) -> Seq<int> {
    s.map_values(|b: u8| b as int)
}

/// Different texts have different code points.
pub proof fn lemma_char_codes_injective(a: Seq<char>, b: Seq<char>)
    ensures
        char_codes(a) == char_codes(b) ==> a == b,
{
    if char_codes(a) == char_codes(b) {
        assert(a.len() == char_codes(a).len());
        assert forall|i: int| 0 <= i < a.len() implies a[i] == b[i] by {
            assert(char_codes(a)[i] == char_codes(b)[i]);
        }
        assert(a =~= b);
    }
}

/// Different byte strings have different values.
pub proof fn lemma_byte_values_injective(a: Seq<u8>, b: Seq<u8>)
    ensures
        byte_values(a) == byte_values(b) ==> a == b,
{
    if byte_values(a) == byte_values(b) {
        assert(a.len() == byte_values(a).len());
        assert forall|i: int| 0 <= i < a.len() implies a[i] == b[i] by {
            assert(byte_values(a)[i] == byte_values(b)[i]);
        }
        assert(a =~= b);
    }
}

/// Whether the text `a` comes before the text `b` (by code points, which is
/// the order of `str`).
pub fn str_lt(a: &str, b: &str) -> (r: bool)
    ensures
        r == lex_lt(char_codes(a@), char_codes(b@)),
{
    let la = a.unicode_len();
    let lb = b.unicode_len();
    let ghost ca = char_codes(a@);
    let ghost cb = char_codes(b@);
    let mut k: usize = 0;
    assert(ca.skip(0) =~= ca && cb.skip(0) =~= cb);
    while k < la && k < lb
        invariant
            ca == char_codes(a@),
            cb == char_codes(b@),
            la == a@.len(),
            lb == b@.len(),
            k <= la,
            k <= lb,
            lex_lt(ca, cb) == lex_lt(ca.skip(k as int), cb.skip(k as int)),
        decreases la - k,
    {
        let x = a.get_char(k);
        let y = b.get_char(k);
        assert(ca.skip(k as int)[0] == x as int && cb.skip(k as int)[0] == y as int);
        if x != y {
            return (x as u32) < (y as u32);
        }
        assert(ca.skip(k as int).drop_first() =~= ca.skip(k + 1));
        assert(cb.skip(k as int).drop_first() =~= cb.skip(k + 1));
        k = k + 1;
    }
    k < lb
}

/// Whether the byte string `a` comes before the byte string `b`.
pub fn bytes_lt(a: &[u8], b: &[u8]) -> (r: bool)
    ensures
        r == lex_lt(byte_values(a@), byte_values(b@)),
{
    let ghost ca = byte_values(a@);
    let ghost cb = byte_values(b@);
    let mut k: usize = 0;
    assert(ca.skip(0) =~= ca && cb.skip(0) =~= cb);
    while k < a.len() && k < b.len()
        invariant
            ca == byte_values(a@),
            cb == byte_values(b@),
            k <= a@.len(),
            k <= b@.len(),
            lex_lt(ca, cb) == lex_lt(ca.skip(k as int), cb.skip(k as int)),
        decreases a@.len() - k,
    {
        let x = a[k];
        let y = b[k];
        assert(ca.skip(k as int)[0] == x as int && cb.skip(k as int)[0] == y as int);
        if x != y {
            return x < y;
        }
        assert(ca.skip(k as int).drop_first() =~= ca.skip(k + 1));
        assert(cb.skip(k as int).drop_first() =~= cb.skip(k + 1));
        k = k + 1;
    }
    k < b.len()
}

impl MapKey for String {
    open spec fn spec_lt(a: Seq<char>, b: Seq<char>) -> bool {
        lex_lt(char_codes(a), char_codes(b))
    }

    proof fn lemma_lt_order(a: Seq<char>, b: Seq<char>, c: Seq<char>) {
        lemma_lex_order(char_codes(a), char_codes(b), char_codes(c));
        lemma_char_codes_injective(a, b);
    }

    fn key_eq(&self, other: &Self) -> (r: bool) {
        *self == *other
    }

    fn key_lt(&self, other: &Self) -> (r: bool) {
        str_lt(self.as_str(), other.as_str())
    }

    fn key_clone(&self) -> (r: Self) {
        self.clone()
    }
}

/// Whether no two entries have keys with the same view.
pub open spec fn keys_distinct<K: View, V>(s: Seq<(K, V)>) -> bool {
    forall|i: int, j: int| 0 <= i < j < s.len() ==> s[i].0@ != s[j].0@
}

/// Whether the keys of the entries go up strictly, in the order of the keys.
pub open spec fn keys_ascending<K: MapKey, V>(s: Seq<(K, V)>) -> bool {
    forall|i: int, j: int| 0 <= i < j < s.len() ==> K::spec_lt(s[i].0@, s[j].0@)
}

/// The map that a list of entries stands for (later entries win).
pub open spec fn entries_map<K: View, V>(s: Seq<(K, V)>) -> Map<K::V, V>
    decreases s.len(),
{
    if s.len() == 0 {
        Map::empty()
    } else {
        entries_map(s.drop_last()).insert(s.last().0@, s.last().1)
    }
}

/// With distinct keys, the map holds exactly the entries' keys, each with
/// the value of its entry.
pub proof fn lemma_entries_map<K: View, V>(s: Seq<(K, V)>)
    requires
        keys_distinct(s),
    ensures
        forall|k: K::V| #[trigger]
            entries_map(s).contains_key(k) <==> exists|i: int| 0 <= i < s.len() && s[i].0@ == k,
        forall|i: int|
            0 <= i < s.len() ==> #[trigger] entries_map(s).contains_key(s[i].0@)
                && entries_map(s)[s[i].0@] == s[i].1,
    decreases s.len(),
{
    if s.len() > 0 {
        let n = s.len() - 1;
        let t = s.drop_last();
        assert(keys_distinct(t));
        lemma_entries_map(t);
        assert(s.last() == s[n]);
        assert forall|i: int| 0 <= i < n implies t[i] == s[i] by {}
        assert forall|k: K::V| #[trigger]
            entries_map(s).contains_key(k) <==> exists|i: int| 0 <= i < s.len() && s[i].0@ == k by {
            if entries_map(s).contains_key(k) {
                if k == s[n].0@ {
                    assert(0 <= n < s.len() && s[n].0@ == k);
                } else {
                    assert(entries_map(t).contains_key(k));
                    let i = choose|i: int| 0 <= i < t.len() && t[i].0@ == k;
                    assert(t[i] == s[i]);
                    assert(0 <= i < s.len() && s[i].0@ == k);
                }
            }
            if exists|i: int| 0 <= i < s.len() && s[i].0@ == k {
                let i = choose|i: int| 0 <= i < s.len() && s[i].0@ == k;
                if i < n {
                    assert(t[i] == s[i]);
                    assert(entries_map(t).contains_key(t[i].0@));
                }
            }
        }
        assert forall|i: int| 0 <= i < s.len() implies #[trigger] entries_map(s).contains_key(
            s[i].0@,
        ) && entries_map(s)[s[i].0@] == s[i].1 by {
            if i < n {
                assert(t[i] == s[i]);
                assert(entries_map(t).contains_key(t[i].0@));
                assert(s[i].0@ != s[n].0@);
            }
        }
    }
}

/// The union of two maps of option values: shared keys hold the merged value.
pub open spec fn map_merge<KV, V: ConfValue>(a: Map<KV, V>, b: Map<KV, V>) -> Map<KV, V> {
    Map::new(
        |k: KV| a.contains_key(k) || b.contains_key(k),
        |k: KV|
            if a.contains_key(k) && b.contains_key(k) {
                a[k].spec_merge(b[k])
            } else if a.contains_key(k) {
                a[k]
            } else {
                b[k]
            },
    )
}

/// What `a` asks for beyond `b`: shared keys hold the difference of the
/// values and are dropped where it is the default.
pub open spec fn map_diff<KV, V: ConfValue>(a: Map<KV, V>, b: Map<KV, V>) -> Map<KV, V> {
    Map::new(
        |k: KV|
            a.contains_key(k) && !(b.contains_key(k) && a[k].spec_diff(b[k]).spec_is_default()),
        |k: KV|
            if b.contains_key(k) {
                a[k].spec_diff(b[k])
            } else {
                a[k]
            },
    )
}

/// Whether the values of shared keys may be combined.
pub open spec fn map_compatible<KV, V: ConfValue>(a: Map<KV, V>, b: Map<KV, V>) -> bool {
    forall|k: KV|
        a.contains_key(k) && b.contains_key(k) ==> #[trigger] a[k].spec_compatible(b[k])
}

/// Whether every value carries no identity.
pub open spec fn map_keyless<KV, V: ConfValue>(a: Map<KV, V>) -> bool {
    forall|k: KV| a.contains_key(k) ==> #[trigger] a[k].spec_keyless()
}

/// A finite map from keys to values, kept as a list of entries whose keys
/// are pairwise distinct.
#[derive(Debug)]
pub struct KeyMap<K: MapKey, V> {
    entries: Vec<(K, V)>,
}

impl<K: MapKey, V> View for KeyMap<K, V> {
    type V = Map<K::V, V>;

    closed spec fn view(&self) -> Map<K::V, V> {
        entries_map(self.entries@)
    }
}

impl<K: MapKey, V> KeyMap<K, V> {
    #[verifier::type_invariant]
    closed spec fn inv(self) -> bool {
        keys_distinct(self.entries@) && keys_ascending(self.entries@)
    }
}

impl<K: MapKey, V> KeyMap<K, V> {
    /// The empty map.
    pub fn new() -> (r: Self)
        ensures
            r@ == Map::<K::V, V>::empty(),
            r.spec_entries() == Seq::<(K, V)>::empty(),
    {
        KeyMap { entries: Vec::new() }
    }

    /// The number of keys.
    pub fn len(&self) -> (r: usize)
        ensures
            r == self@.len(),
    {
        proof {
            use_type_invariant(self);
            lemma_entries_map(self.entries@);
            lemma_len(self.entries@);
        }
        self.entries.len()
    }

    /// Whether the map is empty.
    pub fn is_empty(&self) -> (r: bool)
        ensures
            r == (self@ == Map::<K::V, V>::empty()),
    {
        proof {
            use_type_invariant(self);
            lemma_entries_map(self.entries@);
            if self.entries@.len() > 0 {
                assert(self@.contains_key(self.entries@[0].0@));
            } else {
                assert(self@ =~= Map::<K::V, V>::empty());
            }
        }
        self.entries.len() == 0
    }

    fn find(&self, k: &K) -> (r: Option<usize>)
        ensures
            match r {
                Some(i) => i < self.entries@.len() && self.entries@[i as int].0@ == k@,
                None => !self@.contains_key(k@),
            },
    {
        proof {
            use_type_invariant(self);
            lemma_entries_map(self.entries@);
        }
        let mut i: usize = 0;
        while i < self.entries.len()
            invariant
                0 <= i <= self.entries@.len(),
                forall|j: int| 0 <= j < i ==> self.entries@[j].0@ != k@,
            decreases self.entries@.len() - i,
        {
            if self.entries[i].0.key_eq(k) {
                return Some(i);
            }
            i = i + 1;
        }
        None
    }

    /// The value of a key, if present.
    pub fn get(&self, k: &K) -> (r: Option<&V>)
        ensures
            match r {
                Some(v) => self@.contains_key(k@) && self@[k@] == *v,
                None => !self@.contains_key(k@),
            },
    {
        proof {
            use_type_invariant(self);
            lemma_entries_map(self.entries@);
        }
        match self.find(k) {
            Some(i) => {
                assert(entries_map(self.entries@).contains_key(self.entries@[i as int].0@));
                Some(&self.entries[i].1)
            },
            None => None,
        }
    }

    /// Removes a key, giving back its value.
    pub fn remove(&mut self, k: &K) -> (r: Option<V>)
        ensures
            final(self)@ == old(self)@.remove(k@),
            match r {
                Some(v) => old(self)@.contains_key(k@) && old(self)@[k@] == v,
                None => !old(self)@.contains_key(k@),
            },
    {
        proof {
            use_type_invariant(&*self);
            lemma_entries_map(self.entries@);
        }
        match self.find(k) {
            Some(i) => {
                let ghost s = self.entries@;
                let mut entries: Vec<(K, V)> = Vec::new();
                std::mem::swap(&mut entries, &mut self.entries);
                let (_, v) = entries.remove(i);
                proof {
                    assert(v == s[i as int].1);
                    assert(entries_map(s).contains_key(s[i as int].0@));
                    assert(old(self)@[k@] == v);
                    let t = entries@;
                    assert(t =~= s.remove(i as int));
                    assert(keys_distinct(t));
                    lemma_remove_ascending(s, i as int);
                }
                self.entries = entries;
                proof {
                    let t = self.entries@;
                    assert(t =~= s.remove(i as int));
                    assert(keys_distinct(t));
                    lemma_entries_map(t);
                    assert(self@ =~= old(self)@.remove(k@)) by {
                        assert forall|key: K::V| #[trigger] self@.contains_key(key) implies old(
                            self,
                        )@.remove(k@).contains_key(key) && self@[key] == old(self)@.remove(k@)[key] by {
                            let j = choose|j: int| 0 <= j < t.len() && t[j].0@ == key;
                            let j2 = if j < i { j } else { j + 1 };
                            assert(t[j] == s[j2]);
                            assert(entries_map(s).contains_key(s[j2].0@));
                            assert(entries_map(s)[s[j2].0@] == s[j2].1);
                            assert(entries_map(t)[t[j].0@] == t[j].1);
                            assert(s[j2].0@ != s[i as int].0@);
                        }
                        assert forall|key: K::V| #[trigger] old(self)@.remove(k@).contains_key(
                            key,
                        ) implies self@.contains_key(key) by {
                            let j = choose|j: int| 0 <= j < s.len() && s[j].0@ == key;
                            if j < i {
                                assert(t[j] == s[j]);
                            } else {
                                assert(t[j - 1] == s[j]);
                            }
                        }
                    }
                }
                Some(v)
            },
            None => {
                assert(self@ =~= old(self)@.remove(k@));
                None
            },
        }
    }

    /// Sets the value of a key; the entries stay in ascending key order.
    pub fn insert(&mut self, k: K, v: V)
        ensures
            final(self)@ == old(self)@.insert(k@, v),
    {
        let _ = self.remove(&k);
        proof {
            use_type_invariant(&*self);
            lemma_entries_map(self.entries@);
        }
        let ghost s = self.entries@;
        let mut entries: Vec<(K, V)> = Vec::new();
        std::mem::swap(&mut entries, &mut self.entries);
        let mut pos: usize = 0;
        while pos < entries.len() && !k.key_lt(&entries[pos].0)
            invariant
                entries@ == s,
                pos <= s.len(),
                forall|j: int| 0 <= j < pos ==> !K::spec_lt(k@, #[trigger] s[j].0@),
            decreases s.len() - pos,
        {
            pos = pos + 1;
        }
        proof {
            assert forall|j: int| 0 <= j < pos implies K::spec_lt(#[trigger] s[j].0@, k@) by {
                K::lemma_lt_order(s[j].0@, k@, k@);
                assert(entries_map(s).contains_key(s[j].0@));
            }
        }
        entries.insert(pos, (k, v));
        proof {
            let e = entries@;
            assert(e =~= s.insert(pos as int, (k, v)));
            assert forall|i: int, j: int| 0 <= i < j < e.len() implies K::spec_lt(e[i].0@, e[j].0@) by {
                if i < pos && j < pos {
                    assert(e[i] == s[i] && e[j] == s[j]);
                } else if i < pos && j == pos {
                    assert(e[i] == s[i]);
                } else if i < pos {
                    assert(e[i] == s[i] && e[j] == s[j - 1]);
                    K::lemma_lt_order(s[i].0@, s[pos as int].0@, s[j - 1].0@);
                    if j - 1 > pos {
                        assert(K::spec_lt(s[pos as int].0@, s[j - 1].0@));
                    }
                } else if i == pos {
                    assert(e[j] == s[j - 1]);
                    K::lemma_lt_order(k@, s[pos as int].0@, s[j - 1].0@);
                    K::lemma_lt_order(k@, s[j - 1].0@, k@);
                    assert(entries_map(s).contains_key(s[j - 1].0@));
                    if j - 1 > pos {
                        assert(K::spec_lt(s[pos as int].0@, s[j - 1].0@));
                    }
                } else {
                    assert(e[i] == s[i - 1] && e[j] == s[j - 1]);
                }
            }
            assert forall|i: int, j: int| 0 <= i < j < e.len() implies e[i].0@ != e[j].0@ by {
                K::lemma_lt_order(e[i].0@, e[j].0@, e[j].0@);
            }
            lemma_entries_map(e);
            assert(!entries_map(s).contains_key(k@));
            assert(entries_map(e) =~= entries_map(s).insert(k@, v)) by {
                assert forall|key: K::V| #[trigger] entries_map(e).contains_key(key) <==> entries_map(
                    s,
                ).insert(k@, v).contains_key(key) by {
                    if entries_map(e).contains_key(key) {
                        let j = choose|j: int| 0 <= j < e.len() && e[j].0@ == key;
                        if j < pos {
                            assert(e[j] == s[j]);
                        } else if j > pos {
                            assert(e[j] == s[j - 1]);
                        }
                    }
                    if entries_map(s).contains_key(key) {
                        let j = choose|j: int| 0 <= j < s.len() && s[j].0@ == key;
                        if j < pos {
                            assert(e[j] == s[j]);
                        } else {
                            assert(e[j + 1] == s[j]);
                        }
                    }
                    if key == k@ {
                        assert(e[pos as int].0@ == k@);
                    }
                }
                assert forall|key: K::V| #[trigger] entries_map(e).contains_key(key) implies entries_map(
                    e,
                )[key] == entries_map(s).insert(k@, v)[key] by {
                    let j = choose|j: int| 0 <= j < e.len() && e[j].0@ == key;
                    if j < pos {
                        assert(e[j] == s[j]);
                        assert(entries_map(s).contains_key(s[j].0@));
                    } else if j > pos {
                        assert(e[j] == s[j - 1]);
                        assert(entries_map(s).contains_key(s[j - 1].0@));
                    }
                }
            }
        }
        self.entries = entries;
    }
}

/// Removing an entry keeps the keys ascending.
proof fn lemma_remove_ascending<K: MapKey, V>(s: Seq<(K, V)>, i: int)
    requires
        keys_ascending(s),
        0 <= i < s.len(),
    ensures
        keys_ascending(s.remove(i)),
{
    let t = s.remove(i);
    assert forall|x: int, y: int| 0 <= x < y < t.len() implies K::spec_lt(t[x].0@, t[y].0@) by {
        let x2 = if x < i { x } else { x + 1 };
        let y2 = if y < i { y } else { y + 1 };
        assert(t[x] == s[x2] && t[y] == s[y2]);
    }
}

/// The number of keys of a map of distinct entries.
proof fn lemma_len<K: View, V>(s: Seq<(K, V)>)
    requires
        keys_distinct(s),
    ensures
        entries_map(s).len() == s.len(),
        entries_map(s).dom().finite(),
    decreases s.len(),
{
    if s.len() > 0 {
        let t = s.drop_last();
        assert(keys_distinct(t));
        lemma_len(t);
        lemma_entries_map(t);
        assert(!entries_map(t).contains_key(s.last().0@)) by {
            if entries_map(t).contains_key(s.last().0@) {
                let i = choose|i: int| 0 <= i < t.len() && t[i].0@ == s.last().0@;
                assert(s[i].0@ == s[s.len() - 1].0@);
            }
        }
    }
}


/// One more entry of a list of distinct entries extends its map by that entry.
proof fn lemma_take_step<K: View, V>(s: Seq<(K, V)>, i: int)
    requires
        keys_distinct(s),
        0 <= i < s.len(),
    ensures
        entries_map(s.take(i + 1)) == entries_map(s.take(i)).insert(s[i].0@, s[i].1),
        !entries_map(s.take(i)).contains_key(s[i].0@),
        keys_distinct(s.take(i)),
{
    assert(s.take(i + 1).drop_last() =~= s.take(i));
    assert(s.take(i + 1).last() == s[i]);
    let t = s.take(i);
    assert(keys_distinct(t));
    lemma_entries_map(t);
    if entries_map(t).contains_key(s[i].0@) {
        let j = choose|j: int| 0 <= j < t.len() && t[j].0@ == s[i].0@;
        assert(t[j] == s[j]);
    }
}

proof fn lemma_merge_step<KV, V: ConfValue>(a: Map<KV, V>, b: Map<KV, V>, k: KV, v: V)
    requires
        !b.contains_key(k),
    ensures
        map_merge(a, b.insert(k, v)) =~= map_merge(a, b).insert(
            k,
            if a.contains_key(k) {
                a[k].spec_merge(v)
            } else {
                v
            },
        ),
{
}

proof fn lemma_diff_step<KV, V: ConfValue>(a: Map<KV, V>, b: Map<KV, V>, k: KV, v: V)
    requires
        !a.contains_key(k),
    ensures
        map_diff(a.insert(k, v), b) =~= (if b.contains_key(k) && v.spec_diff(
            b[k],
        ).spec_is_default() {
            map_diff(a, b)
        } else {
            map_diff(a, b).insert(
                k,
                if b.contains_key(k) {
                    v.spec_diff(b[k])
                } else {
                    v
                },
            )
        }),
{
}

impl<K: MapKey, V: ConfValue> KeyMap<K, V> {
    /// Merges every entry of `other` into `self`.
    pub fn merge(&mut self, other: Self)
        ensures
            final(self)@ == map_merge(old(self)@, other@),
    {
        proof {
            use_type_invariant(&other);
        }
        let KeyMap { entries: mut rest } = other;
        let ghost os = rest@;
        let ghost a = self@;
        let ghost mut i: int = 0;
        proof {
            assert(os.take(0) =~= Seq::<(K, V)>::empty());
            assert(map_merge(a, Map::<K::V, V>::empty()) =~= a);
            assert(os.skip(0) =~= os);
        }
        while rest.len() > 0
            invariant
                0 <= i <= os.len(),
                rest@ == os.skip(i),
                keys_distinct(os),
                self@ == map_merge(a, entries_map(os.take(i))),
            decreases rest@.len(),
        {
            let (k, v) = rest.remove(0);
            proof {
                assert(os[i] == (k, v));
                lemma_take_step(os, i);
                lemma_merge_step(a, entries_map(os.take(i)), k@, v);
            }
            match self.remove(&k) {
                Some(cur) => {
                    let mut m = cur;
                    m.merge(v);
                    self.insert(k, m);
                },
                None => {
                    self.insert(k, v);
                },
            }
            proof {
                assert(self@ =~= map_merge(a, entries_map(os.take(i + 1))));
                assert(rest@ =~= os.skip(i + 1));
                i = i + 1;
            }
        }
        proof {
            assert(os.take(i) =~= os);
        }
    }

    /// Replaces `self` with what it asks for beyond `other`.
    pub fn diff(&mut self, other: &Self)
        ensures
            final(self)@ == map_diff(old(self)@, other@),
    {
        proof {
            use_type_invariant(&*self);
        }
        let mut rest: Vec<(K, V)> = Vec::new();
        std::mem::swap(&mut rest, &mut self.entries);
        let ghost os = rest@;
        let ghost b = other@;
        let mut kept: Vec<(K, V)> = Vec::new();
        let ghost mut i: int = 0;
        proof {
            assert(os.take(0) =~= Seq::<(K, V)>::empty());
            assert(map_diff(Map::<K::V, V>::empty(), b) =~= Map::<K::V, V>::empty());
            assert(os.skip(0) =~= os);
        }
        while rest.len() > 0
            invariant
                0 <= i <= os.len(),
                rest@ == os.skip(i),
                keys_distinct(os),
                keys_distinct(kept@),
                keys_ascending(os),
                keys_ascending(kept@),
                forall|x: int, m: int|
                    0 <= x < kept@.len() && i <= m < os.len() ==> K::spec_lt(
                        #[trigger] kept@[x].0@,
                        #[trigger] os[m].0@,
                    ),
                other@ == b,
                entries_map(kept@) == map_diff(entries_map(os.take(i)), b),
            decreases rest@.len(),
        {
            let (k, v) = rest.remove(0);
            let ghost before = kept@;
            proof {
                assert(os[i] == (k, v));
                lemma_take_step(os, i);
                lemma_diff_step(entries_map(os.take(i)), b, k@, v);
                lemma_entries_map(before);
                assert forall|j: int| 0 <= j < before.len() implies before[j].0@ != k@ by {
                    assert(entries_map(before).contains_key(before[j].0@));
                }
            }
            let mut w = v;
            match other.get(&k) {
                Some(o) => {
                    w.diff(o);
                    if !w.is_default() {
                        kept.push((k, w));
                    }
                },
                None => {
                    kept.push((k, w));
                },
            }
            proof {
                if kept@.len() > before.len() {
                    assert(kept@.drop_last() =~= before);
                }
                assert(keys_distinct(kept@)) by {
                    assert forall|x: int, y: int| 0 <= x < y < kept@.len() implies kept@[x].0@
                        != kept@[y].0@ by {
                        assert(kept@[x] == before[x]);
                        if y < before.len() {
                            assert(kept@[y] == before[y]);
                        }
                    }
                }
                assert(keys_ascending(kept@)) by {
                    assert forall|x: int, y: int| 0 <= x < y < kept@.len() implies K::spec_lt(
                        kept@[x].0@,
                        kept@[y].0@,
                    ) by {
                        assert(kept@[x] == before[x]);
                        if y < before.len() {
                            assert(kept@[y] == before[y]);
                        } else {
                            assert(kept@[y].0@ == os[i].0@);
                        }
                    }
                }
                assert forall|x: int, m: int|
                    0 <= x < kept@.len() && i + 1 <= m < os.len() implies K::spec_lt(
                    #[trigger] kept@[x].0@,
                    #[trigger] os[m].0@,
                ) by {
                    if x < before.len() {
                        assert(kept@[x] == before[x]);
                    } else {
                        assert(kept@[x].0@ == os[i].0@);
                    }
                }
                assert(entries_map(kept@) =~= map_diff(entries_map(os.take(i + 1)), b));
                assert(rest@ =~= os.skip(i + 1));
                i = i + 1;
            }
        }
        proof {
            assert(os.take(i) =~= os);
        }
        self.entries = kept;
    }

    /// Whether the map is empty (the default of a map).
    pub fn is_default(&self) -> (r: bool)
        ensures
            r == (self@ == Map::<K::V, V>::empty()),
    {
        self.is_empty()
    }
}


/// Two entry lists with the same key views and values stand for the same map.
proof fn lemma_same_entries<K: View, V>(s: Seq<(K, V)>, t: Seq<(K, V)>)
    requires
        s.len() == t.len(),
        forall|i: int| 0 <= i < s.len() ==> s[i].0@ == t[i].0@ && s[i].1 == t[i].1,
    ensures
        entries_map(s) == entries_map(t),
    decreases s.len(),
{
    if s.len() > 0 {
        lemma_same_entries(s.drop_last(), t.drop_last());
    }
}

impl<K: MapKey, V> KeyMap<K, V> {
    /// The entries in their stored order.
    pub closed spec fn spec_entries(self) -> Seq<(K, V)> {
        self.entries@
    }

    /// The map holds the entries, key by key.
    pub proof fn lemma_view_entries(self)
        ensures
            self@ == entries_map(self.spec_entries()),
    {
    }

    /// Whether the stored entries are those of the map, one per key, in
    /// ascending key order (which they always are).
    pub open spec fn in_key_order(self) -> bool {
        &&& keys_distinct(self.spec_entries())
        &&& keys_ascending(self.spec_entries())
        &&& entries_map(self.spec_entries()) == self@
    }
}

impl<K: MapKey, V> KeyMap<K, V> {
    /// The entries in their stored order.
    pub fn entries(&self) -> (r: &Vec<(K, V)>)
        ensures
            r@ == self.spec_entries(),
            keys_distinct(r@),
            keys_ascending(r@),
            entries_map(r@) == self@,
            self.in_key_order(),
    {
        proof {
            use_type_invariant(self);
        }
        &self.entries
    }
}

impl<K: MapKey, V: Copy> KeyMap<K, V> {
    /// A copy of the map.
    pub fn clone_map(&self) -> (r: Self)
        ensures
            r@ == self@,
    {
        proof {
            use_type_invariant(self);
        }
        let mut out: Vec<(K, V)> = Vec::new();
        let mut i: usize = 0;
        while i < self.entries.len()
            invariant
                0 <= i <= self.entries@.len(),
                out@.len() == i,
                keys_distinct(self.entries@),
                forall|j: int|
                    0 <= j < i ==> out@[j].0@ == self.entries@[j].0@ && out@[j].1
                        == self.entries@[j].1,
            decreases self.entries@.len() - i,
        {
            let k = self.entries[i].0.key_clone();
            let v = self.entries[i].1;
            out.push((k, v));
            i = i + 1;
        }
        proof {
            assert(keys_distinct(out@)) by {
                assert forall|x: int, y: int| 0 <= x < y < out@.len() implies out@[x].0@
                    != out@[y].0@ by {
                    assert(self.entries@[x].0@ != self.entries@[y].0@);
                }
            }
            assert(keys_ascending(out@)) by {
                assert forall|x: int, y: int| 0 <= x < y < out@.len() implies K::spec_lt(
                    out@[x].0@,
                    out@[y].0@,
                ) by {
                    assert(K::spec_lt(self.entries@[x].0@, self.entries@[y].0@));
                }
            }
            lemma_same_entries(out@, self.entries@);
        }
        KeyMap { entries: out }
    }
}

/// Merging maps is commutative where shared keys hold compatible values.
pub proof fn lemma_map_merge_commutative<KV, V: ConfValue>(a: Map<KV, V>, b: Map<KV, V>)
    requires
        map_compatible(a, b),
    ensures
        map_merge(a, b) == map_merge(b, a),
{
    assert forall|k: KV| a.contains_key(k) && b.contains_key(k) implies #[trigger] a[k].spec_merge(
        b[k],
    ) == b[k].spec_merge(a[k]) by {
        V::lemma_merge_commutative(a[k], b[k]);
    }
    assert(map_merge(a, b) =~= map_merge(b, a));
}

/// Merging maps is associative.
pub proof fn lemma_map_merge_associative<KV, V: ConfValue>(
    a: Map<KV, V>,
    b: Map<KV, V>,
    c: Map<KV, V>,
)
    ensures
        map_merge(map_merge(a, b), c) == map_merge(a, map_merge(b, c)),
{
    assert forall|k: KV|
        a.contains_key(k) && b.contains_key(k) && c.contains_key(k) implies #[trigger] a[k].spec_merge(
        b[k],
    ).spec_merge(c[k]) == a[k].spec_merge(b[k].spec_merge(c[k])) by {
        V::lemma_merge_associative(a[k], b[k], c[k]);
    }
    assert(map_merge(map_merge(a, b), c) =~= map_merge(a, map_merge(b, c)));
}

/// Merging a map with itself leaves it unchanged.
pub proof fn lemma_map_merge_idempotent<KV, V: ConfValue>(a: Map<KV, V>)
    ensures
        map_merge(a, a) == a,
{
    assert forall|k: KV| a.contains_key(k) implies #[trigger] a[k].spec_merge(a[k]) == a[k] by {
        V::lemma_merge_idempotent(a[k]);
    }
    assert(map_merge(a, a) =~= a);
}

/// The empty map is neutral for merging.
pub proof fn lemma_map_merge_empty<KV, V: ConfValue>(b: Map<KV, V>)
    ensures
        map_merge(Map::empty(), b) == b,
{
    assert(map_merge(Map::empty(), b) =~= b);
}

/// Merging the difference back gives the union.
pub proof fn lemma_map_diff_merge<KV, V: ConfValue>(a: Map<KV, V>, b: Map<KV, V>)
    requires
        map_compatible(a, b),
    ensures
        map_merge(map_diff(a, b), b) == map_merge(a, b),
{
    assert forall|k: KV| a.contains_key(k) && b.contains_key(k) implies #[trigger] map_merge(
        map_diff(a, b),
        b,
    )[k] == map_merge(a, b)[k] by {
        if a[k].spec_diff(b[k]).spec_is_default() {
            V::lemma_diff_default(a[k], b[k]);
        } else {
            V::lemma_diff_merge(a[k], b[k]);
        }
    }
    assert(map_merge(map_diff(a, b), b) =~= map_merge(a, b));
}

/// A map without identities diffed against itself is empty.
pub proof fn lemma_map_diff_self<KV, V: ConfValue>(a: Map<KV, V>)
    requires
        map_keyless(a),
    ensures
        map_diff(a, a) == Map::<KV, V>::empty(),
{
    assert forall|k: KV| a.contains_key(k) implies #[trigger] a[k].spec_diff(
        a[k],
    ).spec_is_default() by {
        V::lemma_diff_self(a[k]);
    }
    assert(map_diff(a, a) =~= Map::<KV, V>::empty());
}


/// A finite set of keys compared by their views.
#[derive(Debug)]
pub struct KeySet<K: MapKey> {
    map: KeyMap<K, ()>,
}

impl<K: MapKey> View for KeySet<K> {
    type V = Set<K::V>;

    closed spec fn view(&self) -> Set<K::V> {
        self.map@.dom()
    }
}

impl<K: MapKey> KeySet<K> {
    /// The empty set.
    pub fn new() -> (r: Self)
        ensures
            r@ == Set::<K::V>::empty(),
    {
        let r = KeySet { map: KeyMap::new() };
        assert(r@ =~= Set::<K::V>::empty());
        r
    }

    /// A copy of the set.
    pub fn duplicate(&self) -> (r: Self)
        ensures
            r@ == self@,
    {
        KeySet { map: self.map.clone_map() }
    }

    /// Whether the set holds a key.
    pub fn contains(&self, k: &K) -> (r: bool)
        ensures
            r == self@.contains(k@),
    {
        self.map.get(k).is_some()
    }

    /// Adds a key.
    pub fn insert(&mut self, k: K)
        ensures
            final(self)@ == old(self)@.insert(k@),
    {
        self.map.insert(k, ());
        assert(self@ =~= old(self)@.insert(k@));
    }

    /// Removes a key.
    pub fn remove(&mut self, k: &K)
        ensures
            final(self)@ == old(self)@.remove(k@),
    {
        let _ = self.map.remove(k);
        assert(self@ =~= old(self)@.remove(k@));
    }

    /// The keys, each once.
    pub fn keys(&self) -> (r: Vec<K>)
        ensures
            r@.map_values(|k: K| k@).to_set() == self@,
            r@.map_values(|k: K| k@).no_duplicates(),
    {
        let entries = self.map.entries();
        proof {
            lemma_entries_map(entries@);
        }
        let mut out: Vec<K> = Vec::new();
        let mut i: usize = 0;
        while i < entries.len()
            invariant
                0 <= i <= entries@.len(),
                keys_distinct(entries@),
                out@.len() == i,
                forall|j: int| 0 <= j < i ==> #[trigger] out@[j]@ == entries@[j].0@,
            decreases entries@.len() - i,
        {
            out.push(entries[i].0.key_clone());
            i = i + 1;
        }
        proof {
            let v = out@.map_values(|k: K| k@);
            assert forall|x: K::V| #[trigger] v.to_set().contains(x) == self@.contains(x) by {
                if v.to_set().contains(x) {
                    let j = choose|j: int| 0 <= j < v.len() && v[j] == x;
                    assert(entries_map(entries@).contains_key(entries@[j].0@));
                }
                if self@.contains(x) {
                    let j = choose|j: int| 0 <= j < entries@.len() && entries@[j].0@ == x;
                    assert(v[j] == x);
                }
            }
            assert(v.to_set() =~= self@);
            assert forall|a: int, b: int| 0 <= a < v.len() && 0 <= b < v.len() && a != b implies v[a] != v[b] by {
                if a < b {
                    assert(entries@[a].0@ != entries@[b].0@);
                } else {
                    assert(entries@[b].0@ != entries@[a].0@);
                }
            }
        }
        out
    }
}

} // verus!
