//! A bounded cache from text keys to textures. Entries age by a clock that
//! the caller reads: an entry that has not been used for the time to live
//! is never returned, and when the cache is full the entry used longest ago
//! makes room.

use vstd::prelude::*;
use vstd::string::*;
use crate::text::same_text;

verus! {

/// Capacity of a cache made by [`IconCache::new`].
pub const DEFAULT_MAX_SIZE: usize = 100;

/// Time to live of a cache made by [`IconCache::new`], in milliseconds:
/// five minutes.
pub const DEFAULT_TTL_MILLIS: u64 = 300_000;

/// One cache entry as contracts speak of it.
pub struct EntryView<T> {
    pub key: Seq<char>,
    pub value: T,
    /// Clock reading at the last insertion or hit.
    pub last_used: nat,
}

/// Time since the last use; zero where the clock reads less than the stamp.
pub open spec fn age(last_used: nat, now: nat) -> nat {
    if now >= last_used {
        (now - last_used) as nat
    } else {
        0
    }
}

/// An entry is expired once its age has reached the time to live.
pub open spec fn is_expired(last_used: nat, now: nat, ttl: nat) -> bool {
    age(last_used, now) >= ttl
}

/// The predicate "not expired at `now`".
pub open spec fn fresh_at<T>(now: nat, ttl: nat) -> spec_fn(EntryView<T>) -> bool {
    |e: EntryView<T>| !is_expired(e.last_used, now, ttl)
}

/// `i` is where `key` first occurs in `s`.
pub open spec fn is_position<T>(s: Seq<EntryView<T>>, key: Seq<char>, i: int) -> bool {
    &&& 0 <= i < s.len()
    &&& s[i].key == key
    &&& forall|j: int| 0 <= j < i ==> (#[trigger] s[j]).key != key
}

/// Some entry of `s` has the key `key`.
pub open spec fn holds_key<T>(s: Seq<EntryView<T>>, key: Seq<char>) -> bool {
    exists|i: int| is_position(s, key, i)
}

/// Where `key` first occurs in `s`; meaningful where `s` holds the key.
pub open spec fn position<T>(s: Seq<EntryView<T>>, key: Seq<char>) -> int {
    choose|i: int| is_position(s, key, i)
}

/// No key occurs twice.
pub open spec fn distinct_keys<T>(s: Seq<EntryView<T>>) -> bool {
    forall|i: int, j: int|
        #![trigger s[i], s[j]]
        0 <= i < j < s.len() ==> s[i].key != s[j].key
}

/// `i` is where the entry used longest ago stands: no entry has an earlier
/// stamp, and every entry before it has a later one.
pub open spec fn is_oldest<T>(s: Seq<EntryView<T>>, i: int) -> bool {
    &&& 0 <= i < s.len()
    &&& forall|j: int| 0 <= j < s.len() ==> s[i].last_used <= (#[trigger] s[j]).last_used
    &&& forall|j: int| 0 <= j < i ==> s[i].last_used < (#[trigger] s[j]).last_used
}

/// Where the entry used longest ago stands; of several with the same stamp,
/// the first. Meaningful where `s` is not empty.
pub open spec fn oldest<T>(s: Seq<EntryView<T>>) -> int {
    choose|i: int| is_oldest(s, i)
}

/// The entries that are not expired at `now`, in their order.
pub open spec fn after_cleanup<T>(s: Seq<EntryView<T>>, now: nat, ttl: nat) -> Seq<EntryView<T>> {
    s.filter(fresh_at(now, ttl))
}

/// The entries without the one used longest ago.
pub open spec fn after_remove_oldest<T>(s: Seq<EntryView<T>>) -> Seq<EntryView<T>> {
    if s.len() == 0 {
        s
    } else {
        s.remove(oldest(s))
    }
}

/// The entries with `key` bound to `value` and stamped `now`: in place
/// where the key is held, at the end where it is not.
pub open spec fn with_entry<T>(s: Seq<EntryView<T>>, key: Seq<char>, value: T, now: nat) -> Seq<
    EntryView<T>,
> {
    let entry = EntryView { key, value, last_used: now };
    if holds_key(s, key) {
        s.update(position(s, key), entry)
    } else {
        s.push(entry)
    }
}

/// The entries after an insertion at `now` into a cache of capacity
/// `max_size`: expired entries leave first; if the cache is then still
/// full, the entry used longest ago leaves; then the key is bound.
pub open spec fn after_insert<T>(
    s: Seq<EntryView<T>>,
    key: Seq<char>,
    value: T,
    now: nat,
    max_size: nat,
    ttl: nat,
) -> Seq<EntryView<T>> {
    let swept = after_cleanup(s, now, ttl);
    let room = if swept.len() >= max_size {
        after_remove_oldest(swept)
    } else {
        swept
    };
    with_entry(room, key, value, now)
}

/// What a lookup of `key` at `now` answers: the value of the entry with
/// that key, unless there is none or it is expired.
pub open spec fn lookup<T>(s: Seq<EntryView<T>>, key: Seq<char>, now: nat, ttl: nat) -> Option<T> {
    if holds_key(s, key) && !is_expired(s[position(s, key)].last_used, now, ttl) {
        Some(s[position(s, key)].value)
    } else {
        None
    }
}

/// The entries after a lookup of `key` at `now`: a hit stamps the entry, an
/// expired entry leaves, anything else changes nothing.
pub open spec fn after_get<T>(s: Seq<EntryView<T>>, key: Seq<char>, now: nat, ttl: nat) -> Seq<
    EntryView<T>,
> {
    if !holds_key(s, key) {
        s
    } else {
        let i = position(s, key);
        if is_expired(s[i].last_used, now, ttl) {
            s.remove(i)
        } else {
            s.update(i, EntryView { key: s[i].key, value: s[i].value, last_used: now })
        }
    }
}

/// The first occurrence of a key is unique.
pub proof fn lemma_position_unique<T>(s: Seq<EntryView<T>>, key: Seq<char>, i: int)
    requires
        is_position(s, key, i),
    ensures
        holds_key(s, key),
        position(s, key) == i,
{
    let p = position(s, key);
    assert(is_position(s, key, p));
    if p < i {
        assert(s[p].key != key);
    } else if i < p {
        assert(s[i].key != key);
    }
}

/// The place of the entry used longest ago is unique.
pub proof fn lemma_oldest_unique<T>(s: Seq<EntryView<T>>, i: int)
    requires
        is_oldest(s, i),
    ensures
        oldest(s) == i,
{
    let p = oldest(s);
    assert(is_oldest(s, p));
    if p < i {
        assert(s[i].last_used < s[p].last_used);
        assert(s[p].last_used <= s[i].last_used);
    } else if i < p {
        assert(s[p].last_used < s[i].last_used);
        assert(s[i].last_used <= s[p].last_used);
    }
}

/// One stored entry.
struct CacheEntry<T> {
    key: String,
    value: T,
    last_used: u64,
}

impl<T> View for CacheEntry<T> {
    type V = EntryView<T>;

    closed spec fn view(&self) -> EntryView<T> {
        EntryView { key: self.key@, value: self.value, last_used: self.last_used as nat }
    }
}

/// The cache. Its view is the sequence of its entries, oldest insertion
/// first. The entries stand in a vector, in that order, and no key occurs
/// twice: so it is fixed which of two entries with the same stamp makes
/// room first.
pub struct IconCache<T> {
    entries: Vec<CacheEntry<T>>,
    max_size: usize,
    ttl: u64,
}

impl<T> View for IconCache<T> {
    type V = Seq<EntryView<T>>;

    closed spec fn view(&self) -> Seq<EntryView<T>> {
        self.entries@.map_values(|e: CacheEntry<T>| e@)
    }
}

impl<T> IconCache<T> {
    /// The capacity.
    pub closed spec fn capacity(&self) -> nat {
        self.max_size as nat
    }

    /// The time to live, in ticks of the caller's clock.
    pub closed spec fn time_to_live(&self) -> nat {
        self.ttl as nat
    }

    /// No key occurs twice, and the cache holds no more entries than its
    /// capacity, or one where the capacity is zero.
    pub open spec fn wf(&self) -> bool {
        &&& distinct_keys(self@)
        &&& self@.len() <= self.capacity() || self@.len() <= 1
    }

    /// An empty cache for 100 entries that live five minutes, on a clock
    /// that counts milliseconds.
    pub fn new() -> (cache: Self)
        ensures
            cache.wf(),
            cache@ == Seq::<EntryView<T>>::empty(),
            cache.capacity() == DEFAULT_MAX_SIZE,
            cache.time_to_live() == DEFAULT_TTL_MILLIS,
    {
        Self::with_limits(DEFAULT_MAX_SIZE, DEFAULT_TTL_MILLIS)
    }

    /// An empty cache for `max_size` entries that live `ttl` ticks.
    pub fn with_limits(max_size: usize, ttl: u64) -> (cache: Self)
        ensures
            cache.wf(),
            cache@ == Seq::<EntryView<T>>::empty(),
            cache.capacity() == max_size,
            cache.time_to_live() == ttl,
    {
        let cache = IconCache { entries: Vec::new(), max_size, ttl };
        assert(cache@ =~= Seq::<EntryView<T>>::empty());
        cache
    }

    /// Number of entries, expired ones included.
    pub fn len(&self) -> (n: usize)
        ensures
            n == self@.len(),
    {
        self.entries.len()
    }

    /// Finds the entry with the key `key`.
    fn find(&self, key: &str) -> (found: Option<usize>)
        ensures
            match found {
                Some(i) => is_position(self@, key@, i as int),
                None => !holds_key(self@, key@),
            },
    {
        let mut i: usize = 0;
        while i < self.entries.len()
            invariant
                i <= self.entries@.len(),
                forall|j: int| 0 <= j < i ==> (#[trigger] self@[j]).key != key@,
            decreases self.entries@.len() - i,
        {
            if same_text(self.entries[i].key.as_str(), key) {
                return Some(i);
            }
            i += 1;
        }
        None
    }

    /// Tells whether an entry stamped `last_used` is expired at `now`.
    fn expired(&self, last_used: u64, now: u64) -> (gone: bool)
        ensures
            gone == is_expired(last_used as nat, now as nat, self.time_to_live()),
    {
        now.saturating_sub(last_used) >= self.ttl
    }

    /// Drops every entry that is expired at `now`.
    pub fn cleanup_expired(&mut self, now: u64)
        requires
            old(self).wf(),
        ensures
            final(self).wf(),
            final(self)@ == after_cleanup(old(self)@, now as nat, old(self).time_to_live()),
            final(self)@.len() <= old(self)@.len(),
            final(self).capacity() == old(self).capacity(),
            final(self).time_to_live() == old(self).time_to_live(),
    {
        let ghost before = self@;
        let ghost fresh = fresh_at::<T>(now as nat, self.time_to_live());
        let mut stored: Vec<CacheEntry<T>> = Vec::new();
        std::mem::swap(&mut self.entries, &mut stored);
        proof {
            assert(self@ =~= Seq::<EntryView<T>>::empty());
            assert(before.take(0) =~= Seq::<EntryView<T>>::empty());
            reveal(Seq::filter);
            assert(self@ =~= before.take(0).filter(fresh));
        }
        let ghost stored_entries = stored@;
        for entry in it: stored
            invariant
                it.seq() == stored_entries,
                before == stored_entries.map_values(|e: CacheEntry<T>| e@),
                distinct_keys(before),
                fresh == fresh_at::<T>(now as nat, self.time_to_live()),
                self.max_size == old(self).max_size,
                self.ttl == old(self).ttl,
                self@ == before.take(it.index() as int).filter(fresh),
                distinct_keys(self@),
                forall|a: int|
                    0 <= a < self@.len() ==> key_within(
                        before,
                        it.index() as int,
                        (#[trigger] self@[a]).key,
                    ),
        {
            let ghost i = it.index() as int;
            let ghost kept = self@;
            proof {
                assert(before[i] == entry@);
                assert(before.take(i + 1) =~= before.take(i).push(entry@));
                before.take(i).lemma_filter_push(entry@, fresh);
            }
            if !self.expired(entry.last_used, now) {
                self.entries.push(entry);
                proof {
                    assert(self@ =~= kept.push(entry@));
                    assert forall|a: int, b: int|
                        #![trigger self@[a], self@[b]]
                        0 <= a < b < self@.len() implies self@[a].key != self@[b].key by {
                        if b == kept.len() {
                            assert(key_within(before, i, kept[a].key));
                            let j = choose|j: int|
                                0 <= j < i && (#[trigger] before[j]).key == kept[a].key;
                            assert(before[j].key != before[i].key);
                        } else {
                            assert(self@[a] == kept[a] && self@[b] == kept[b]);
                        }
                    }
                    assert forall|a: int| 0 <= a < self@.len() implies key_within(
                        before,
                        i + 1,
                        (#[trigger] self@[a]).key,
                    ) by {
                        if a == kept.len() {
                            assert(before[i].key == self@[a].key);
                        } else {
                            assert(key_within(before, i, kept[a].key));
                            let j = choose|j: int|
                                0 <= j < i && (#[trigger] before[j]).key == kept[a].key;
                            assert(before[j].key == self@[a].key);
                        }
                    }
                }
            } else {
                proof {
                    assert forall|a: int| 0 <= a < self@.len() implies key_within(
                        before,
                        i + 1,
                        (#[trigger] self@[a]).key,
                    ) by {
                        assert(key_within(before, i, kept[a].key));
                        let j = choose|j: int|
                            0 <= j < i && (#[trigger] before[j]).key == kept[a].key;
                        assert(before[j].key == self@[a].key);
                    }
                }
            }
        }
        proof {
            assert(before.take(before.len() as int) =~= before);
            before.lemma_filter_len(fresh);
        }
    }

    /// Drops the entry used longest ago; of several with the same stamp,
    /// the one inserted first. An empty cache stays empty.
    pub fn remove_oldest(&mut self)
        requires
            old(self).wf(),
        ensures
            final(self).wf(),
            final(self)@ == after_remove_oldest(old(self)@),
            old(self)@.len() > 0 ==> final(self)@.len() == old(self)@.len() - 1,
            final(self).capacity() == old(self).capacity(),
            final(self).time_to_live() == old(self).time_to_live(),
    {
        if self.entries.len() == 0 {
            return ;
        }
        let mut best: usize = 0;
        let mut i: usize = 1;
        while i < self.entries.len()
            invariant
                0 <= best < i <= self.entries@.len(),
                forall|j: int|
                    0 <= j < i ==> self@[best as int].last_used <= (#[trigger] self@[j]).last_used,
                forall|j: int|
                    0 <= j < best ==> self@[best as int].last_used < (#[trigger] self@[j]).last_used,
            decreases self.entries@.len() - i,
        {
            if self.entries[i].last_used < self.entries[best].last_used {
                best = i;
            }
            i += 1;
        }
        proof {
            lemma_oldest_unique(self@, best as int);
            lemma_remove_keeps_distinct(self@, best as int);
        }
        let ghost before = self@;
        self.entries.remove(best);
        assert(self@ =~= before.remove(best as int));
    }

    /// Looks `key` up at `now`. A hit returns the value and stamps the
    /// entry; an expired entry is dropped and counts as absent.
    pub fn get(&mut self, key: &str, now: u64) -> (hit: Option<&T>)
        requires
            old(self).wf(),
        ensures
            final(self).wf(),
            match hit {
                Some(value) => lookup(old(self)@, key@, now as nat, old(self).time_to_live())
                    == Some(*value),
                None => lookup(old(self)@, key@, now as nat, old(self).time_to_live()) is None,
            },
            final(self)@ == after_get(old(self)@, key@, now as nat, old(self).time_to_live()),
            final(self).capacity() == old(self).capacity(),
            final(self).time_to_live() == old(self).time_to_live(),
    {
        let ghost before = self@;
        match self.find(key) {
            None => None,
            Some(i) => {
                proof {
                    lemma_position_unique(before, key@, i as int);
                }
                if self.expired(self.entries[i].last_used, now) {
                    proof {
                        lemma_remove_keeps_distinct(before, i as int);
                    }
                    self.entries.remove(i);
                    assert(self@ =~= before.remove(i as int));
                    None
                } else {
                    let mut entry = self.entries.remove(i);
                    entry.last_used = now;
                    self.entries.insert(i, entry);
                    proof {
                        assert(self@ =~= before.update(
                            i as int,
                            EntryView {
                                key: before[i as int].key,
                                value: before[i as int].value,
                                last_used: now as nat,
                            },
                        ));
                        lemma_update_keeps_distinct(before, i as int, self@[i as int]);
                    }
                    Some(&self.entries[i].value)
                }
            },
        }
    }

    /// Binds `key` to `value` at `now`. Expired entries leave first; if the
    /// cache is then still full, the entry used longest ago leaves.
    pub fn insert(&mut self, key: String, value: T, now: u64)
        requires
            old(self).wf(),
        ensures
            final(self).wf(),
            final(self)@ == after_insert(
                old(self)@,
                key@,
                value,
                now as nat,
                old(self).capacity(),
                old(self).time_to_live(),
            ),
            final(self).capacity() == old(self).capacity(),
            final(self).time_to_live() == old(self).time_to_live(),
    {
        self.cleanup_expired(now);
        if self.entries.len() >= self.max_size {
            self.remove_oldest();
        }
        let ghost room = self@;
        let found = self.find(key.as_str());
        let entry = CacheEntry { key, value, last_used: now };
        match found {
            Some(i) => {
                proof {
                    lemma_position_unique(room, entry@.key, i as int);
                    lemma_update_keeps_distinct(room, i as int, entry@);
                }
                self.entries.remove(i);
                self.entries.insert(i, entry);
                assert(self@ =~= room.update(i as int, entry@));
            },
            None => {
                self.entries.push(entry);
                proof {
                    assert(self@ =~= room.push(entry@));
                    assert forall|a: int, b: int|
                        #![trigger self@[a], self@[b]]
                        0 <= a < b < self@.len() implies self@[a].key != self@[b].key by {
                        if b == room.len() {
                            if room[a].key == entry@.key {
                                lemma_first_position(room, entry@.key, a);
                            }
                        } else {
                            assert(self@[a] == room[a] && self@[b] == room[b]);
                        }
                    }
                }
            },
        }
    }

    /// Tells whether `key` is held and not expired at `now`. Changes
    /// nothing: the entry is neither stamped nor dropped.
    pub fn contains_key(&self, key: &str, now: u64) -> (held: bool)
        requires
            self.wf(),
        ensures
            held == lookup(self@, key@, now as nat, self.time_to_live()) is Some,
    {
        match self.find(key) {
            Some(i) => {
                proof {
                    lemma_position_unique(self@, key@, i as int);
                }
                !self.expired(self.entries[i].last_used, now)
            },
            None => false,
        }
    }
}

/// One of the first `bound` entries of `s` has the key `key`.
spec fn key_within<T>(s: Seq<EntryView<T>>, bound: int, key: Seq<char>) -> bool {
    exists|j: int| 0 <= j < bound && (#[trigger] s[j]).key == key
}

/// A sequence that has the key somewhere holds it.
proof fn lemma_first_position<T>(s: Seq<EntryView<T>>, key: Seq<char>, at: int)
    requires
        0 <= at < s.len(),
        s[at].key == key,
    ensures
        holds_key(s, key),
    decreases at,
{
    if exists|j: int| 0 <= j < at && (#[trigger] s[j]).key == key {
        let j = choose|j: int| 0 <= j < at && (#[trigger] s[j]).key == key;
        lemma_first_position(s, key, j);
    } else {
        assert(is_position(s, key, at));
    }
}

/// Taking an entry out leaves the keys distinct.
proof fn lemma_remove_keeps_distinct<T>(s: Seq<EntryView<T>>, i: int)
    requires
        distinct_keys(s),
        0 <= i < s.len(),
    ensures
        distinct_keys(s.remove(i)),
{
    let r = s.remove(i);
    assert forall|a: int, b: int| #![trigger r[a], r[b]] 0 <= a < b < r.len() implies r[a].key
        != r[b].key by {
        let a0 = if a < i {
            a
        } else {
            a + 1
        };
        let b0 = if b < i {
            b
        } else {
            b + 1
        };
        assert(r[a] == s[a0] && r[b] == s[b0]);
    }
}

/// Replacing an entry by one with the same key leaves the keys distinct.
proof fn lemma_update_keeps_distinct<T>(s: Seq<EntryView<T>>, i: int, entry: EntryView<T>)
    requires
        distinct_keys(s),
        0 <= i < s.len(),
        entry.key == s[i].key,
    ensures
        distinct_keys(s.update(i, entry)),
{
    let r = s.update(i, entry);
    assert forall|a: int, b: int| #![trigger r[a], r[b]] 0 <= a < b < r.len() implies r[a].key
        != r[b].key by {
        assert(r[a].key == s[a].key && r[b].key == s[b].key);
    }
}

/// The entries after the keys `keys` were inserted into `s` one after the
/// other, `keys[i]` with the value `values[i]` at the time `times[i]`.
pub open spec fn after_inserts<T>(
    s: Seq<EntryView<T>>,
    keys: Seq<Seq<char>>,
    values: Seq<T>,
    times: Seq<nat>,
    max_size: nat,
    ttl: nat,
) -> Seq<EntryView<T>>
    decreases keys.len(),
{
    if keys.len() == 0 {
        s
    } else {
        after_insert(
            after_inserts(
                s,
                keys.drop_last(),
                values.drop_last(),
                times.drop_last(),
                max_size,
                ttl,
            ),
            keys.last(),
            values.last(),
            times.last(),
            max_size,
            ttl,
        )
    }
}

/// The entries `keys[i]`, `values[i]`, `times[i]` for `i` from `from` up to
/// `to`, in that order.
pub open spec fn entries_between<T>(
    keys: Seq<Seq<char>>,
    values: Seq<T>,
    times: Seq<nat>,
    from: int,
    to: int,
) -> Seq<EntryView<T>> {
    Seq::new(
        (to - from) as nat,
        |i: int|
            EntryView {
                key: keys[from + i],
                value: values[from + i],
                last_used: times[from + i],
            },
    )
}

/// An entry whose age has reached the time to live is never a hit,
/// whatever else happened to the cache, and a lookup takes it out.
pub proof fn lemma_expired_is_absent<T>(s: Seq<EntryView<T>>, key: Seq<char>, now: nat, ttl: nat)
    requires
        distinct_keys(s),
        holds_key(s, key) ==> age(s[position(s, key)].last_used, now) >= ttl,
    ensures
        lookup(s, key, now, ttl) is None,
        !holds_key(after_get(s, key, now, ttl), key),
{
    if holds_key(s, key) {
        let i = position(s, key);
        assert(is_position(s, key, i));
        let r = s.remove(i);
        if holds_key(r, key) {
            let j = position(r, key);
            assert(is_position(r, key, j));
            let j0 = if j < i {
                j
            } else {
                j + 1
            };
            assert(r[j] == s[j0]);
            if j0 < i {
                assert(s[j0].key != s[i].key);
            } else {
                assert(s[i].key != s[j0].key);
            }
        }
    }
}

/// Where nothing is expired, cleaning up changes nothing.
proof fn lemma_cleanup_keeps_fresh<T>(s: Seq<EntryView<T>>, now: nat, ttl: nat)
    requires
        forall|i: int| 0 <= i < s.len() ==> !is_expired((#[trigger] s[i]).last_used, now, ttl),
    ensures
        after_cleanup(s, now, ttl) == s,
    decreases s.len(),
{
    reveal(Seq::filter);
    if s.len() > 0 {
        let front = s.drop_last();
        assert forall|i: int| 0 <= i < front.len() implies !is_expired(
            (#[trigger] front[i]).last_used,
            now,
            ttl,
        ) by {
            assert(front[i] == s[i]);
        }
        lemma_cleanup_keeps_fresh(front, now, ttl);
        assert(fresh_at::<T>(now, ttl)(s.last()));
        assert(front.push(s.last()) =~= s);
    }
}

/// While a cache that started empty is not yet full, and nothing expires,
/// it holds what was inserted, in the order of insertion.
proof fn lemma_fill<T>(
    keys: Seq<Seq<char>>,
    values: Seq<T>,
    times: Seq<nat>,
    max_size: nat,
    ttl: nat,
    n: int,
)
    requires
        0 <= n <= max_size,
        n <= keys.len(),
        values.len() == keys.len(),
        times.len() == keys.len(),
        forall|i: int, j: int| 0 <= i < j < keys.len() ==> keys[i] != keys[j],
        forall|i: int, j: int| 0 <= i < j < times.len() ==> times[i] <= times[j],
        forall|i: int| 0 <= i < times.len() ==> (#[trigger] times[i]) - times[0] < ttl,
    ensures
        after_inserts(
            Seq::<EntryView<T>>::empty(),
            keys.take(n),
            values.take(n),
            times.take(n),
            max_size,
            ttl,
        ) == entries_between(keys, values, times, 0, n),
    decreases n,
{
    let empty = Seq::<EntryView<T>>::empty();
    if n == 0 {
        assert(entries_between(keys, values, times, 0, 0) =~= empty);
    } else {
        lemma_fill(keys, values, times, max_size, ttl, n - 1);
        assert(keys.take(n).drop_last() =~= keys.take(n - 1));
        assert(values.take(n).drop_last() =~= values.take(n - 1));
        assert(times.take(n).drop_last() =~= times.take(n - 1));
        let held = entries_between(keys, values, times, 0, n - 1);
        let now = times[n - 1];
        assert forall|i: int| 0 <= i < held.len() implies !is_expired(
            (#[trigger] held[i]).last_used,
            now,
            ttl,
        ) by {
            assert(times[0] <= times[i] || i == 0);
        }
        lemma_cleanup_keeps_fresh(held, now, ttl);
        if holds_key(held, keys[n - 1]) {
            let p = position(held, keys[n - 1]);
            assert(is_position(held, keys[n - 1], p));
            assert(keys[p] != keys[n - 1]);
        }
        assert(held.push(EntryView { key: keys[n - 1], value: values[n - 1], last_used: now })
            =~= entries_between(keys, values, times, 0, n));
    }
}

/// A cache of capacity `capacity`, at least one, that started empty and
/// received `capacity + 1` different keys, at times that never went back
/// and within one time to live, holds exactly the last `capacity` of them,
/// in the order of insertion: the first one, used longest ago, is gone.
pub proof fn lemma_overflow_evicts_oldest<T>(
    keys: Seq<Seq<char>>,
    values: Seq<T>,
    times: Seq<nat>,
    capacity: nat,
    ttl: nat,
)
    requires
        capacity >= 1,
        keys.len() == capacity + 1,
        values.len() == keys.len(),
        times.len() == keys.len(),
        forall|i: int, j: int| 0 <= i < j < keys.len() ==> keys[i] != keys[j],
        forall|i: int, j: int| 0 <= i < j < times.len() ==> times[i] <= times[j],
        times.last() - times[0] < ttl,
    ensures
        after_inserts(Seq::<EntryView<T>>::empty(), keys, values, times, capacity, ttl)
            == entries_between(keys, values, times, 1, capacity as int + 1),
        after_inserts(Seq::<EntryView<T>>::empty(), keys, values, times, capacity, ttl).len()
            == capacity,
        !holds_key(
            after_inserts(Seq::<EntryView<T>>::empty(), keys, values, times, capacity, ttl),
            keys[0],
        ),
{
    let n = capacity as int;
    assert forall|i: int| 0 <= i < times.len() implies (#[trigger] times[i]) - times[0] < ttl by {
        assert(times[i] <= times[n] || i == n);
    }
    lemma_fill(keys, values, times, capacity, ttl, n);
    assert(keys.drop_last() =~= keys.take(n));
    assert(values.drop_last() =~= values.take(n));
    assert(times.drop_last() =~= times.take(n));
    let held = entries_between(keys, values, times, 0, n);
    let now = times[n];
    assert forall|i: int| 0 <= i < held.len() implies !is_expired(
        (#[trigger] held[i]).last_used,
        now,
        ttl,
    ) by {
        assert(times[0] <= times[i] || i == 0);
    }
    lemma_cleanup_keeps_fresh(held, now, ttl);
    assert(is_oldest(held, 0)) by {
        assert forall|j: int| 0 <= j < held.len() implies held[0].last_used <= (
        #[trigger] held[j]).last_used by {
            assert(times[0] <= times[j] || j == 0);
        }
    }
    lemma_oldest_unique(held, 0);
    let room = held.remove(0);
    assert(room =~= entries_between(keys, values, times, 1, n));
    if holds_key(room, keys[n]) {
        let p = position(room, keys[n]);
        assert(is_position(room, keys[n], p));
        assert(keys[p + 1] != keys[n]);
    }
    let last = room.push(EntryView { key: keys[n], value: values[n], last_used: now });
    assert(last =~= entries_between(keys, values, times, 1, n + 1));
    if holds_key(last, keys[0]) {
        let p = position(last, keys[0]);
        assert(is_position(last, keys[0], p));
        assert(keys[0] != keys[p + 1]);
    }
}

} // verus!
