//! Key-value metadata tags of a task, and the limits they must respect.

use vstd::prelude::*;
use vstd::string::*;
use crate::store::error::StoreError;
use crate::text::format_with_u64;

verus! {

/// Maximum length of a tag key in bytes.
pub const MAX_TAG_KEY_LEN: usize = 64;

/// Maximum length of a tag value in bytes.
pub const MAX_TAG_VALUE_LEN: usize = 256;

/// Maximum number of tags per task.
pub const MAX_TAGS_PER_TASK: usize = 32;

/// The (key, value) texts of a list of tag entries.
pub open spec fn entries_view(e: Seq<(String, String)>) -> Seq<(Seq<char>, Seq<char>)> {
    e.map_values(|p: (String, String)| (p.0@, p.1@))
}

/// The map a list of entries denotes (a later entry wins over an earlier one
/// with the same key).
pub open spec fn entries_map(s: Seq<(Seq<char>, Seq<char>)>) -> Map<Seq<char>, Seq<char>>
    decreases s.len(),
{
    if s.len() == 0 {
        Map::empty()
    } else {
        entries_map(s.drop_last()).insert(s.last().0, s.last().1)
    }
}

/// No key occurs twice.
pub open spec fn distinct_keys(s: Seq<(Seq<char>, Seq<char>)>) -> bool {
    forall|i: int, j: int| 0 <= i < j < s.len() ==> #[trigger] s[i].0 != #[trigger] s[j].0
}

pub proof fn lemma_entries_map_domain(s: Seq<(Seq<char>, Seq<char>)>, k: Seq<char>)
    ensures
        entries_map(s).contains_key(k) <==> exists|i: int| 0 <= i < s.len() && #[trigger] s[i].0 == k,
    decreases s.len(),
{
    if s.len() > 0 {
        lemma_entries_map_domain(s.drop_last(), k);
        if entries_map(s.drop_last()).contains_key(k) {
            let i = choose|i: int| 0 <= i < s.drop_last().len() && #[trigger] s.drop_last()[i].0 == k;
            assert(s[i].0 == k);
        }
        if exists|i: int| 0 <= i < s.len() && #[trigger] s[i].0 == k {
            let i = choose|i: int| 0 <= i < s.len() && #[trigger] s[i].0 == k;
            if i < s.len() - 1 {
                assert(s.drop_last()[i].0 == k);
            }
        }
    }
}

pub proof fn lemma_entries_map_value(s: Seq<(Seq<char>, Seq<char>)>, i: int)
    requires
        distinct_keys(s),
        0 <= i < s.len(),
    ensures
        entries_map(s).contains_key(s[i].0),
        entries_map(s)[s[i].0] == s[i].1,
    decreases s.len(),
{
    if i < s.len() - 1 {
        let d = s.drop_last();
        assert(d[i] == s[i]);
        assert(distinct_keys(d)) by {
            assert forall|a: int, b: int| 0 <= a < b < d.len() implies #[trigger] d[a].0 != #[trigger] d[b].0 by {
                assert(d[a] == s[a] && d[b] == s[b]);
            }
        }
        lemma_entries_map_value(d, i);
        assert(s[i].0 != s[s.len() - 1].0);
    }
}

/// Metadata tags: a map from key to value, kept as a list of entries in
/// which no key occurs twice.
#[derive(Debug)]
pub struct TagMap {
    entries: Vec<(String, String)>,
}

impl View for TagMap {
    type V = Map<Seq<char>, Seq<char>>;

    closed spec fn view(&self) -> Map<Seq<char>, Seq<char>> {
        entries_map(entries_view(self.entries@))
    }
}

impl TagMap {
    #[verifier::type_invariant]
    closed spec fn keys_distinct(self) -> bool {
        distinct_keys(entries_view(self.entries@))
    }

    /// The entries in their stored order.
    pub closed spec fn entry_seq(self) -> Seq<(Seq<char>, Seq<char>)> {
        entries_view(self.entries@)
    }

    /// The entries denote the map, and no key occurs twice among them.
    proof fn lemma_entries(self)
        requires
            distinct_keys(self.entry_seq()),
        ensures
            distinct_keys(self.entry_seq()),
            self@ == entries_map(self.entry_seq()),
            self.entry_seq().len() == self@.len(),
            forall|k: Seq<char>| self@.contains_key(k) <==> exists|i: int|
                0 <= i < self.entry_seq().len() && #[trigger] self.entry_seq()[i].0 == k,
            forall|i: int|
                0 <= i < self.entry_seq().len() ==> self@.contains_key(#[trigger] self.entry_seq()[i].0)
                    && self@[self.entry_seq()[i].0] == self.entry_seq()[i].1,
    {
        let s = self.entry_seq();
        assert forall|k: Seq<char>| self@.contains_key(k) <==> exists|i: int|
            0 <= i < s.len() && #[trigger] s[i].0 == k by {
            lemma_entries_map_domain(s, k);
        }
        assert forall|i: int| 0 <= i < s.len() implies self@.contains_key(#[trigger] s[i].0)
            && self@[s[i].0] == s[i].1 by {
            lemma_entries_map_value(s, i);
        }
        lemma_entries_len(s);
    }

    /// An empty set of tags.
    pub fn new() -> (t: TagMap)
        ensures
            t@ == Map::<Seq<char>, Seq<char>>::empty(),
            t.entry_seq().len() == 0,
    {
        let t = TagMap { entries: Vec::new() };
        proof {
            assert(entries_view(t.entries@) =~= Seq::<(Seq<char>, Seq<char>)>::empty());
        }
        t
    }

    /// Number of tags.
    pub fn len(&self) -> (n: usize)
        ensures
            n == self@.len(),
            n == self.entry_seq().len(),
    {
        proof {
            use_type_invariant(self);
            self.lemma_entries();
        }
        self.entries.len()
    }

    /// Whether there are no tags.
    pub fn is_empty(&self) -> (b: bool)
        ensures
            b == (self@.len() == 0),
            b == (self@ == Map::<Seq<char>, Seq<char>>::empty()),
    {
        proof {
            use_type_invariant(self);
            self.lemma_entries();
            if self.entry_seq().len() == 0 {
                assert(self@ =~= Map::<Seq<char>, Seq<char>>::empty());
            } else {
                assert(self@.contains_key(self.entry_seq()[0].0));
            }
        }
        self.entries.len() == 0
    }

    fn find(&self, key: &str) -> (r: Option<usize>)
        ensures
            match r {
                Some(i) => i < self.entry_seq().len() && self.entry_seq()[i as int].0 == key@,
                None => forall|i: int| 0 <= i < self.entry_seq().len() ==> #[trigger] self.entry_seq()[i].0 != key@,
            },
    {
        let mut i: usize = 0;
        while i < self.entries.len()
            invariant
                i <= self.entries@.len(),
                forall|j: int| 0 <= j < i ==> #[trigger] entries_view(self.entries@)[j].0 != key@,
            decreases self.entries@.len() - i,
        {
            if crate::text::str_eq(self.entries[i].0.as_str(), key) {
                return Some(i);
            }
            i = i + 1;
        }
        None
    }

    /// The value of `key`, if present.
    pub fn get(&self, key: &str) -> (r: Option<&String>)
        ensures
            match r {
                Some(v) => self@.contains_key(key@) && self@[key@] == v@,
                None => !self@.contains_key(key@),
            },
    {
        proof {
            use_type_invariant(self);
            self.lemma_entries();
        }
        match self.find(key) {
            Some(i) => Some(&self.entries[i].1),
            None => None,
        }
    }

    /// Whether `key` is present.
    pub fn contains_key(&self, key: &str) -> (b: bool)
        ensures
            b == self@.contains_key(key@),
    {
        proof {
            use_type_invariant(self);
        }
        proof {
            use_type_invariant(self);
            self.lemma_entries();
        }
        self.find(key).is_some()
    }

    /// Set `key` to `value`, replacing any previous value.
    pub fn insert(&mut self, key: String, value: String)
        ensures
            final(self)@ == old(self)@.insert(key@, value@),
    {
        proof {
            use_type_invariant(&*self);
            self.lemma_entries();
        }
        let ghost old_s = self.entry_seq();
        let ghost old_map = self@;
        match self.find(key.as_str()) {
            Some(i) => {
                let ghost new_s = old_s.update(i as int, (key@, value@));
                let mut entries: Vec<(String, String)> = Vec::new();
                std::mem::swap(&mut entries, &mut self.entries);
                entries.set(i, (key, value));
                proof {
                    assert(entries_view(entries@) =~= new_s);
                    assert(distinct_keys(new_s)) by {
                        assert forall|a: int, b: int| 0 <= a < b < new_s.len() implies #[trigger] new_s[a].0
                            != #[trigger] new_s[b].0 by {
                            assert(old_s[a].0 != old_s[b].0);
                        }
                    }
                }
                self.entries = entries;
                proof {
                    assert(self.entry_seq() =~= new_s);
                    assert(distinct_keys(new_s)) by {
                        assert forall|a: int, b: int| 0 <= a < b < new_s.len() implies #[trigger] new_s[a].0
                            != #[trigger] new_s[b].0 by {
                            assert(old_s[a].0 != old_s[b].0);
                        }
                    }
                    lemma_entries_extensional(new_s, old_map.insert(old_s[i as int].0, value@), old_s, i as int);
                }
            },
            None => {
                let ghost new_s = old_s.push((key@, value@));
                let mut entries: Vec<(String, String)> = Vec::new();
                std::mem::swap(&mut entries, &mut self.entries);
                entries.push((key, value));
                proof {
                    assert(entries_view(entries@) =~= new_s);
                    assert(distinct_keys(new_s)) by {
                        assert forall|a: int, b: int| 0 <= a < b < new_s.len() implies #[trigger] new_s[a].0
                            != #[trigger] new_s[b].0 by {
                            if b < old_s.len() {
                                assert(old_s[a].0 != old_s[b].0);
                            } else {
                                assert(old_s[a].0 != key@);
                            }
                        }
                    }
                }
                self.entries = entries;
                proof {
                    assert(self.entry_seq() =~= new_s);
                    assert(distinct_keys(new_s)) by {
                        assert forall|a: int, b: int| 0 <= a < b < new_s.len() implies #[trigger] new_s[a].0
                            != #[trigger] new_s[b].0 by {
                            if b < old_s.len() {
                                assert(old_s[a].0 != old_s[b].0);
                            } else {
                                assert(old_s[a].0 != key@);
                            }
                        }
                    }
                    assert(entries_map(new_s) == entries_map(old_s).insert(key@, value@)) by {
                        assert(new_s.drop_last() =~= old_s);
                    }
                }
            },
        }
    }

    /// Set `key` to `value` only if `key` is absent.
    pub fn insert_if_absent(&mut self, key: String, value: String)
        ensures
            old(self)@.contains_key(key@) ==> final(self)@ == old(self)@,
            !old(self)@.contains_key(key@) ==> final(self)@ == old(self)@.insert(key@, value@),
    {
        if !self.contains_key(key.as_str()) {
            self.insert(key, value);
        }
    }

    /// The map denoted by the first `n` stored entries.
    pub closed spec fn entry_seq_map_prefix(self, n: int) -> Map<Seq<char>, Seq<char>> {
        entries_map(self.entry_seq().take(n))
    }

    /// Taking one more stored entry adds it to the prefix map.
    pub proof fn lemma_prefix_step(self, n: int)
        requires
            0 <= n < self.entry_seq().len(),
            forall|j: int| 0 <= j < n ==> #[trigger] self.entry_seq()[j].0 != self.entry_seq()[n].0,
        ensures
            !self.entry_seq_map_prefix(n).contains_key(self.entry_seq()[n].0),
            self.entry_seq_map_prefix(n + 1) == self.entry_seq_map_prefix(n).insert(
                self.entry_seq()[n].0,
                self.entry_seq()[n].1,
            ),
    {
        assert(self.entry_seq().take(n + 1).drop_last() =~= self.entry_seq().take(n));
        let t = self.entry_seq().take(n);
        lemma_entries_map_domain(t, self.entry_seq()[n].0);
        if t.len() > 0 && exists|j: int| 0 <= j < t.len() && #[trigger] t[j].0 == self.entry_seq()[n].0 {
            let j = choose|j: int| 0 <= j < t.len() && #[trigger] t[j].0 == self.entry_seq()[n].0;
            assert(self.entry_seq()[j].0 == t[j].0);
        }
    }

    /// The empty prefix denotes the empty map; the full prefix the whole map.
    pub proof fn lemma_prefix_full(self)
        ensures
            self.entry_seq_map_prefix(0) == Map::<Seq<char>, Seq<char>>::empty(),
            self.entry_seq_map_prefix(self.entry_seq().len() as int) == self@,
    {
        assert(self.entry_seq().take(0) =~= Seq::<(Seq<char>, Seq<char>)>::empty());
        assert(self.entry_seq().take(self.entry_seq().len() as int) =~= self.entry_seq());
    }

    /// A copy of these tags.
    pub fn duplicate(&self) -> (t: TagMap)
        ensures
            t@ == self@,
            t.entry_seq() == self.entry_seq(),
    {
        proof {
            use_type_invariant(self);
        }
        let mut entries: Vec<(String, String)> = Vec::new();
        let mut i: usize = 0;
        while i < self.entries.len()
            invariant
                i <= self.entries@.len(),
                entries@ == self.entries@.take(i as int),
            decreases self.entries@.len() - i,
        {
            let k = self.entries[i].0.clone();
            let v = self.entries[i].1.clone();
            entries.push((k, v));
            proof {
                assert(entries@ =~= self.entries@.take(i as int + 1));
            }
            i = i + 1;
        }
        proof {
            assert(self.entries@.take(self.entries@.len() as int) =~= self.entries@);
        }
        TagMap { entries }
    }

    /// The entry at `i` in stored order.
    pub fn entry_at(&self, i: usize) -> (r: (&String, &String))
        requires
            i < self.entry_seq().len(),
        ensures
            (r.0@, r.1@) == self.entry_seq()[i as int],
            forall|j: int| 0 <= j < i ==> #[trigger] self.entry_seq()[j].0 != self.entry_seq()[i as int].0,
    {
        proof {
            use_type_invariant(self);
        }
        (&self.entries[i].0, &self.entries[i].1)
    }
}

proof fn lemma_entries_len(s: Seq<(Seq<char>, Seq<char>)>)
    requires
        distinct_keys(s),
    ensures
        entries_map(s).len() == s.len(),
        entries_map(s).dom().finite(),
    decreases s.len(),
{
    if s.len() > 0 {
        let d = s.drop_last();
        assert(distinct_keys(d)) by {
            assert forall|a: int, b: int| 0 <= a < b < d.len() implies #[trigger] d[a].0 != #[trigger] d[b].0 by {
                assert(d[a] == s[a] && d[b] == s[b]);
            }
        }
        lemma_entries_len(d);
        lemma_entries_map_domain(d, s.last().0);
        if entries_map(d).contains_key(s.last().0) {
            let i = choose|i: int| 0 <= i < d.len() && #[trigger] d[i].0 == s.last().0;
            assert(s[i].0 == s[s.len() - 1].0);
        }
    }
}

proof fn lemma_entries_extensional(
    new_s: Seq<(Seq<char>, Seq<char>)>,
    target: Map<Seq<char>, Seq<char>>,
    old_s: Seq<(Seq<char>, Seq<char>)>,
    i: int,
)
    requires
        distinct_keys(old_s),
        distinct_keys(new_s),
        0 <= i < old_s.len(),
        new_s == old_s.update(i, (old_s[i].0, new_s[i].1)),
        target == entries_map(old_s).insert(old_s[i].0, new_s[i].1),
    ensures
        entries_map(new_s) == target,
{
    assert forall|k: Seq<char>| entries_map(new_s).contains_key(k) <==> target.contains_key(k) by {
        lemma_entries_map_domain(new_s, k);
        lemma_entries_map_domain(old_s, k);
        if exists|j: int| 0 <= j < old_s.len() && #[trigger] old_s[j].0 == k {
            let j = choose|j: int| 0 <= j < old_s.len() && #[trigger] old_s[j].0 == k;
            assert(new_s[j].0 == k);
        }
        if exists|j: int| 0 <= j < new_s.len() && #[trigger] new_s[j].0 == k {
            let j = choose|j: int| 0 <= j < new_s.len() && #[trigger] new_s[j].0 == k;
            assert(old_s[j].0 == k);
        }
    }
    assert forall|k: Seq<char>| entries_map(new_s).contains_key(k) implies entries_map(new_s)[k] == target[k] by {
        lemma_entries_map_domain(new_s, k);
        let j = choose|j: int| 0 <= j < new_s.len() && #[trigger] new_s[j].0 == k;
        lemma_entries_map_value(new_s, j);
        if j != i {
            assert(old_s[j] == new_s[j]);
            lemma_entries_map_value(old_s, j);
        }
    }
    assert(entries_map(new_s) =~= target);
}

/// What a read gives back of a write: after `insert(key, value)`, `get(key)`
/// returns `value`, and every other key reads as before.
pub proof fn lemma_insert_then_get(before: TagMap, after: TagMap, key: Seq<char>, value: Seq<char>)
    requires
        after@ == before@.insert(key, value),
    ensures
        after@.contains_key(key),
        after@[key] == value,
        forall|k: Seq<char>|
            k != key ==> (#[trigger] after@.contains_key(k) == before@.contains_key(k) && (after@.contains_key(
                k,
            ) ==> after@[k] == before@[k])),
{
}

/// Byte length of a text in UTF-8.
pub open spec fn utf8_len(t: Seq<char>) -> nat {
    vstd::utf8::encode_utf8(t).len()
}

/// The first entry (in stored order) whose key or value is too long, if any.
pub open spec fn first_oversized(s: Seq<(Seq<char>, Seq<char>)>, i: int) -> bool {
    &&& 0 <= i < s.len()
    &&& (utf8_len(s[i].0) > MAX_TAG_KEY_LEN || utf8_len(s[i].1) > MAX_TAG_VALUE_LEN)
    &&& forall|k: int| 0 <= k < i ==> utf8_len(#[trigger] s[k].0) <= MAX_TAG_KEY_LEN && utf8_len(s[k].1)
        <= MAX_TAG_VALUE_LEN
}

/// The message for an oversized entry: the key is checked before the value.
pub open spec fn oversized_message(key: Seq<char>, value: Seq<char>) -> Seq<char> {
    if utf8_len(key) > MAX_TAG_KEY_LEN {
        "tag key too long: "@ + crate::text::decimal(utf8_len(key) as int) + " > 64"@
    } else {
        "tag value too long: "@ + crate::text::decimal(utf8_len(value) as int) + " > 256"@
    }
}

/// The error message for a set of tags, if it breaks a limit: too many tags
/// first, then the first entry (in stored order) whose key or value is too
/// long.
pub open spec fn tags_error(tags: TagMap) -> Option<Seq<char>> {
    let s = tags.entry_seq();
    if tags@.len() > MAX_TAGS_PER_TASK {
        Some("too many tags: "@ + crate::text::decimal(tags@.len() as int) + " > 32"@)
    } else if exists|i: int| first_oversized(s, i) {
        let i = choose|i: int| first_oversized(s, i);
        Some(oversized_message(s[i].0, s[i].1))
    } else {
        None
    }
}

/// The first oversized entry is unique.
proof fn lemma_first_oversized_unique(s: Seq<(Seq<char>, Seq<char>)>, i: int, j: int)
    requires
        first_oversized(s, i),
        first_oversized(s, j),
    ensures
        i == j,
{
    if i < j {
        assert(utf8_len(s[i].0) <= MAX_TAG_KEY_LEN && utf8_len(s[i].1) <= MAX_TAG_VALUE_LEN);
    } else if j < i {
        assert(utf8_len(s[j].0) <= MAX_TAG_KEY_LEN && utf8_len(s[j].1) <= MAX_TAG_VALUE_LEN);
    }
}

/// Where some entry is too long, a first such entry exists.
pub proof fn lemma_first_oversized_exists(s: Seq<(Seq<char>, Seq<char>)>, bad: int)
    requires
        0 <= bad < s.len(),
        !(utf8_len(s[bad].0) <= MAX_TAG_KEY_LEN && utf8_len(s[bad].1) <= MAX_TAG_VALUE_LEN),
    ensures
        exists|i: int| first_oversized(s, i),
    decreases bad,
{
    if forall|k: int| 0 <= k < bad ==> utf8_len(#[trigger] s[k].0) <= MAX_TAG_KEY_LEN && utf8_len(s[k].1)
        <= MAX_TAG_VALUE_LEN {
        assert(first_oversized(s, bad));
    } else {
        let k = choose|k: int|
            0 <= k < bad && !(utf8_len(#[trigger] s[k].0) <= MAX_TAG_KEY_LEN && utf8_len(s[k].1)
                <= MAX_TAG_VALUE_LEN);
        lemma_first_oversized_exists(s, k);
    }
}

/// Validate tag limits: at most 32 tags, keys of at most 64 bytes and values
/// of at most 256 bytes. Entries are checked in stored order; the first
/// violation is reported.
pub fn validate_tags(tags: &TagMap) -> (r: Result<(), StoreError>)
    ensures
        tags@.len() > MAX_TAGS_PER_TASK ==> (r matches Err(StoreError::InvalidTag(m)) && m@ == "too many tags: "@
            + crate::text::decimal(tags@.len() as int) + " > 32"@),
        tags@.len() <= MAX_TAGS_PER_TASK ==> {
            let s = tags.entry_seq();
            &&& forall|i: int| first_oversized(s, i) ==> (r matches Err(StoreError::InvalidTag(m)) && m@
                == oversized_message(s[i].0, s[i].1))
            &&& (forall|k: int| 0 <= k < s.len() ==> utf8_len(#[trigger] s[k].0) <= MAX_TAG_KEY_LEN
                && utf8_len(s[k].1) <= MAX_TAG_VALUE_LEN) ==> r is Ok
        },
        match tags_error(*tags) {
            Some(m) => r matches Err(StoreError::InvalidTag(x)) && x@ == m,
            None => r is Ok,
        },
{
    let n = tags.len();
    if n > MAX_TAGS_PER_TASK {
        return Err(StoreError::InvalidTag(format_with_u64("too many tags: ", n as u64, " > 32")));
    }
    let mut i: usize = 0;
    while i < n
        invariant
            n == tags.entry_seq().len(),
            n == tags@.len(),
            i <= n,
            n <= MAX_TAGS_PER_TASK,
            forall|k: int| 0 <= k < i ==> utf8_len(#[trigger] tags.entry_seq()[k].0) <= MAX_TAG_KEY_LEN
                && utf8_len(tags.entry_seq()[k].1) <= MAX_TAG_VALUE_LEN,
        decreases n - i,
    {
        let (k, v) = tags.entry_at(i);
        let klen = k.as_str().as_bytes().len();
        let vlen = v.as_str().as_bytes().len();
        assert(utf8_len(tags.entry_seq()[i as int].0) == klen);
        assert(utf8_len(tags.entry_seq()[i as int].1) == vlen);
        proof {
            if klen > MAX_TAG_KEY_LEN || vlen > MAX_TAG_VALUE_LEN {
                let es = tags.entry_seq();
                assert(first_oversized(es, i as int));
                let j = choose|j: int| first_oversized(es, j);
                lemma_first_oversized_unique(es, i as int, j);
            }
        }
        if klen > MAX_TAG_KEY_LEN {
            return Err(StoreError::InvalidTag(format_with_u64("tag key too long: ", klen as u64, " > 64")));
        }
        if vlen > MAX_TAG_VALUE_LEN {
            return Err(
                StoreError::InvalidTag(format_with_u64("tag value too long: ", vlen as u64, " > 256")),
            );
        }
        proof {
            assert forall|k: int| 0 <= k < i + 1 implies utf8_len(#[trigger] tags.entry_seq()[k].0)
                <= MAX_TAG_KEY_LEN && utf8_len(tags.entry_seq()[k].1) <= MAX_TAG_VALUE_LEN by {
                if k < i {
                } else {
                    assert(k == i);
                }
            }
        }
        i = i + 1;
    }
    proof {
        let es = tags.entry_seq();
        if exists|j: int| first_oversized(es, j) {
            let j = choose|j: int| first_oversized(es, j);
            assert(utf8_len(es[j].0) <= MAX_TAG_KEY_LEN && utf8_len(es[j].1) <= MAX_TAG_VALUE_LEN);
        }
    }
    Ok(())
}

impl Clone for TagMap {
    fn clone(&self) -> (t: TagMap)
        ensures
            t@ == self@,
    {
        self.duplicate()
    }
}

} // verus!
