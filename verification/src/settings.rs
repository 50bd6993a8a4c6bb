//! Shared preferences synchronised between the two computers. Each setting has
//! its own logical clock, so offline edits to different settings never
//! overwrite one another and concurrent edits of one setting converge.
use crate::topology::NodeId;
use vstd::prelude::*;

verus! {

pub const LAYOUT: u8 = 0;
pub const HYSTERESIS: u8 = 1;
pub const AUTO_RECONNECT: u8 = 2;
pub const MAC_PROFILE: u8 = 3;
pub const WINDOWS_PROFILE: u8 = 9;

/// One shared setting. The value is carried as the bit pattern of the
/// floating-point number the user chose; merging never looks at it.
#[derive(Debug, Clone, Copy, PartialEq, Eq, Structural)]
pub struct SettingEntry {
    pub key: u8,
    pub revision: u64,
    pub author: NodeId,
    pub value_bits: u64,
}

/// Whether `a` is a later edit than `b`: a higher revision wins, and equal
/// revisions resolve deterministically towards the smaller author.
pub open spec fn supersedes(a: SettingEntry, b: SettingEntry) -> bool {
    a.revision > b.revision || (a.revision == b.revision && a.author.0 < b.author.0)
}

/// The index of the first entry with `key`, or -1.
pub open spec fn first_with_key(s: Seq<SettingEntry>, key: u8) -> int
    decreases s.len(),
{
    if s.len() == 0 {
        -1
    } else if s[0].key == key {
        0
    } else {
        let rest = first_with_key(s.drop_first(), key);
        if rest < 0 {
            -1
        } else {
            rest + 1
        }
    }
}

/// Merging one received entry into the local list: it replaces the local
/// entry of its key when it supersedes it, and is appended when the key is new.
pub open spec fn merge_one(local: Seq<SettingEntry>, entry: SettingEntry) -> Seq<SettingEntry> {
    let i = first_with_key(local, entry.key);
    if i < 0 {
        local.push(entry)
    } else if supersedes(entry, local[i]) {
        local.update(i, entry)
    } else {
        local
    }
}

/// Merging received entries one after another, in the order received.
pub open spec fn merge_all(local: Seq<SettingEntry>, remote: Seq<SettingEntry>) -> Seq<SettingEntry>
    decreases remote.len(),
{
    if remote.len() == 0 {
        local
    } else {
        merge_one(merge_all(local, remote.drop_last()), remote.last())
    }
}

/// Inserting `e` into a list ordered by key, after every entry whose key is
/// not greater (a stable insertion).
pub open spec fn insert_by_key(s: Seq<SettingEntry>, e: SettingEntry) -> Seq<SettingEntry>
    decreases s.len(),
{
    if s.len() == 0 {
        seq![e]
    } else if s.last().key <= e.key {
        s.push(e)
    } else {
        insert_by_key(s.drop_last(), e).push(s.last())
    }
}

/// The stable ordering of a list by key.
pub open spec fn sort_by_key(s: Seq<SettingEntry>) -> Seq<SettingEntry>
    decreases s.len(),
{
    if s.len() == 0 {
        s
    } else {
        insert_by_key(sort_by_key(s.drop_last()), s.last())
    }
}

/// The result of merging received entries into local ones.
pub open spec fn spec_merge_entries(local: Seq<SettingEntry>, remote: Seq<SettingEntry>) -> Seq<
    SettingEntry,
> {
    sort_by_key(merge_all(local, remote))
}

pub open spec fn sorted_by_key(s: Seq<SettingEntry>) -> bool {
    forall|i: int, j: int| 0 <= i < j < s.len() ==> s[i].key <= s[j].key
}

proof fn lemma_first_with_key(s: Seq<SettingEntry>, key: u8)
    ensures
        -1 <= first_with_key(s, key) < s.len(),
        first_with_key(s, key) >= 0 ==> s[first_with_key(s, key)].key == key,
        forall|j: int|
            0 <= j < s.len() && (first_with_key(s, key) < 0 || j < first_with_key(s, key))
                ==> s[j].key != key,
    decreases s.len(),
{
    if s.len() > 0 && s[0].key != key {
        lemma_first_with_key(s.drop_first(), key);
        assert forall|j: int|
            0 <= j < s.len() && (first_with_key(s, key) < 0 || j < first_with_key(
                s,
                key,
            )) implies s[j].key != key by {
            if j > 0 {
                assert(s[j] == s.drop_first()[j - 1]);
            }
        }
    }
}

fn find_key(s: &Vec<SettingEntry>, key: u8) -> (index: Option<usize>)
    ensures
        match index {
            Some(i) => i as int == first_with_key(s@, key),
            None => first_with_key(s@, key) < 0,
        },
{
    proof {
        lemma_first_with_key(s@, key);
    }
    let mut i: usize = 0;
    while i < s.len()
        invariant
            i <= s@.len(),
            forall|j: int| 0 <= j < i ==> s@[j].key != key,
            -1 <= first_with_key(s@, key) < s@.len(),
            first_with_key(s@, key) >= 0 ==> s@[first_with_key(s@, key)].key == key,
            forall|j: int|
                0 <= j < s@.len() && (first_with_key(s@, key) < 0 || j < first_with_key(s@, key))
                    ==> s@[j].key != key,
        decreases s@.len() - i,
    {
        if s[i].key == key {
            return Some(i);
        }
        i = i + 1;
    }
    None
}

proof fn lemma_insert_by_key(s: Seq<SettingEntry>, e: SettingEntry, p: int)
    requires
        sorted_by_key(s),
        0 <= p <= s.len(),
        forall|j: int| 0 <= j < p ==> s[j].key <= e.key,
        forall|j: int| p <= j < s.len() ==> s[j].key > e.key,
    ensures
        insert_by_key(s, e) == s.insert(p, e),
        sorted_by_key(s.insert(p, e)),
    decreases s.len(),
{
    if s.len() == 0 {
        assert(s.insert(p, e) =~= seq![e]);
    } else if s.last().key <= e.key {
        assert(p == s.len());
        assert(s.insert(p, e) =~= s.push(e));
    } else {
        assert(p < s.len());
        lemma_insert_by_key(s.drop_last(), e, p);
        assert(s.insert(p, e) =~= s.drop_last().insert(p, e).push(s.last()));
    }
}

fn insert_sorted(v: &mut Vec<SettingEntry>, e: SettingEntry)
    requires
        sorted_by_key(old(v)@),
    ensures
        final(v)@ == insert_by_key(old(v)@, e),
        sorted_by_key(final(v)@),
{
    let mut p = v.len();
    while p > 0 && v[p - 1].key > e.key
        invariant
            p <= v@.len(),
            forall|j: int| p <= j < v@.len() ==> v@[j].key > e.key,
        decreases p,
    {
        p = p - 1;
    }
    proof {
        if p > 0 {
            assert(v@[p - 1].key <= e.key);
            assert forall|j: int| 0 <= j < p implies v@[j].key <= e.key by {
                assert(v@[j].key <= v@[p - 1].key);
            }
        }
        lemma_insert_by_key(v@, e, p as int);
    }
    v.insert(p, e);
}

/// Orders a list by key, keeping the order of entries with equal keys.
pub fn sort_entries(entries: Vec<SettingEntry>) -> (sorted: Vec<SettingEntry>)
    ensures
        sorted@ == sort_by_key(entries@),
        sorted_by_key(sorted@),
{
    let mut sorted: Vec<SettingEntry> = Vec::new();
    let mut i: usize = 0;
    while i < entries.len()
        invariant
            i <= entries@.len(),
            sorted@ == sort_by_key(entries@.subrange(0, i as int)),
            sorted_by_key(sorted@),
        decreases entries@.len() - i,
    {
        proof {
            let next = entries@.subrange(0, i + 1);
            assert(next.drop_last() =~= entries@.subrange(0, i as int));
        }
        insert_sorted(&mut sorted, entries[i]);
        i = i + 1;
    }
    assert(entries@.subrange(0, entries@.len() as int) =~= entries@);
    sorted
}

/// Merges entries received from the peer into the local ones. Equal logical
/// time resolves deterministically; different keys always merge independently.
pub fn merge_entries(local: &mut Vec<SettingEntry>, remote: &[SettingEntry])
    ensures
        final(local)@ == spec_merge_entries(old(local)@, remote@),
{
    let mut i: usize = 0;
    while i < remote.len()
        invariant
            i <= remote@.len(),
            local@ == merge_all(old(local)@, remote@.subrange(0, i as int)),
        decreases remote@.len() - i,
    {
        let entry = remote[i];
        proof {
            let next = remote@.subrange(0, i + 1);
            assert(next.drop_last() =~= remote@.subrange(0, i as int));
            assert(next.last() == entry);
        }
        proof {
            lemma_first_with_key(local@, entry.key);
        }
        match find_key(local, entry.key) {
            Some(index) => {
                let current = local[index];
                if entry.revision > current.revision || (entry.revision == current.revision
                    && entry.author.0 < current.author.0) {
                    local.set(index, entry);
                }
            },
            None => {
                local.push(entry);
            },
        }
        i = i + 1;
    }
    assert(remote@.subrange(0, remote@.len() as int) =~= remote@);
    let mut merged: Vec<SettingEntry> = Vec::new();
    std::mem::swap(&mut merged, local);
    *local = sort_entries(merged);
}

/// No two entries share a key.
pub open spec fn unique_keys(s: Seq<SettingEntry>) -> bool {
    forall|i: int, j: int| 0 <= i < j < s.len() ==> s[i].key != s[j].key
}

/// The entry a list holds for `key` (the first one), if any.
pub open spec fn entry_for(s: Seq<SettingEntry>, key: u8) -> Option<SettingEntry> {
    let i = first_with_key(s, key);
    if i < 0 {
        None
    } else {
        Some(s[i])
    }
}

/// The entry that survives when a local and a received entry meet.
pub open spec fn combine(local: Option<SettingEntry>, remote: Option<SettingEntry>) -> Option<
    SettingEntry,
> {
    match (local, remote) {
        (None, r) => r,
        (l, None) => l,
        (Some(l), Some(r)) => if supersedes(r, l) {
            Some(r)
        } else {
            Some(l)
        },
    }
}

/// Two lists never disagree about an edit: entries with the same key,
/// revision and author are the same entry.
pub open spec fn consistent(a: Seq<SettingEntry>, b: Seq<SettingEntry>) -> bool {
    forall|i: int, j: int|
        0 <= i < a.len() && 0 <= j < b.len() && a[i].key == b[j].key && a[i].revision
            == b[j].revision && a[i].author == b[j].author ==> a[i] == b[j]
}

proof fn lemma_first_with_key_push(s: Seq<SettingEntry>, e: SettingEntry, key: u8)
    ensures
        first_with_key(s.push(e), key) == if first_with_key(s, key) >= 0 {
            first_with_key(s, key)
        } else if e.key == key {
            s.len() as int
        } else {
            -1
        },
    decreases s.len(),
{
    if s.len() == 0 {
        assert(s.push(e).drop_first() =~= Seq::<SettingEntry>::empty());
        assert(s.push(e)[0] == e);
        reveal_with_fuel(first_with_key, 2);
    } else {
        assert(s.push(e)[0] == s[0]);
        assert(s.push(e).drop_first() =~= s.drop_first().push(e));
        lemma_first_with_key_push(s.drop_first(), e, key);
        assert(s.drop_first().len() == s.len() - 1);
    }
}

proof fn lemma_first_with_key_same_keys(s: Seq<SettingEntry>, t: Seq<SettingEntry>, key: u8)
    requires
        s.len() == t.len(),
        forall|i: int| 0 <= i < s.len() ==> s[i].key == t[i].key,
    ensures
        first_with_key(s, key) == first_with_key(t, key),
    decreases s.len(),
{
    if s.len() > 0 {
        lemma_first_with_key_same_keys(s.drop_first(), t.drop_first(), key);
    }
}

/// In a list with unique keys, the entry for a key is the one element with
/// that key.
proof fn lemma_entry_for_unique(s: Seq<SettingEntry>, x: SettingEntry)
    requires
        unique_keys(s),
    ensures
        entry_for(s, x.key) == Some(x) <==> s.contains(x),
{
    lemma_first_with_key(s, x.key);
    if s.contains(x) {
        let j = choose|j: int| 0 <= j < s.len() && s[j] == x;
        let i = first_with_key(s, x.key);
        assert(i >= 0);
        assert(i == j);
    }
}

proof fn lemma_merge_one(local: Seq<SettingEntry>, e: SettingEntry, key: u8)
    requires
        unique_keys(local),
    ensures
        unique_keys(merge_one(local, e)),
        entry_for(merge_one(local, e), key) == if key == e.key {
            combine(entry_for(local, key), Some(e))
        } else {
            entry_for(local, key)
        },
{
    lemma_first_with_key(local, e.key);
    lemma_first_with_key(local, key);
    let i = first_with_key(local, e.key);
    if i < 0 {
        lemma_first_with_key_push(local, e, key);
        assert forall|a: int, b: int|
            0 <= a < b < local.push(e).len() implies local.push(e)[a].key != local.push(
            e,
        )[b].key by {
            if b == local.len() {
                assert(local[a].key != e.key);
            }
        }
    } else if supersedes(e, local[i]) {
        let u = local.update(i, e);
        lemma_first_with_key_same_keys(local, u, key);
        assert(unique_keys(u)) by {
            assert forall|a: int, b: int| 0 <= a < b < u.len() implies u[a].key != u[b].key by {
                assert(u[a].key == local[a].key && u[b].key == local[b].key);
            }
        }
    }
}

proof fn lemma_merge_all(local: Seq<SettingEntry>, remote: Seq<SettingEntry>, key: u8)
    requires
        unique_keys(local),
        unique_keys(remote),
    ensures
        unique_keys(merge_all(local, remote)),
        entry_for(merge_all(local, remote), key) == combine(
            entry_for(local, key),
            entry_for(remote, key),
        ),
    decreases remote.len(),
{
    if remote.len() == 0 {
        lemma_first_with_key(remote, key);
        match entry_for(local, key) {
            Some(_) => {},
            None => {},
        }
    } else {
        let front = remote.drop_last();
        let last = remote.last();
        assert(unique_keys(front));
        lemma_merge_all(local, front, key);
        lemma_merge_all(local, front, last.key);
        lemma_merge_one(merge_all(local, front), last, key);
        assert(remote =~= front.push(last));
        lemma_first_with_key_push(front, last, key);
        lemma_first_with_key(front, key);
        lemma_first_with_key(front, last.key);
        if key == last.key {
            assert(first_with_key(front, key) < 0) by {
                if first_with_key(front, key) >= 0 {
                    let j = first_with_key(front, key);
                    assert(remote[j].key == remote[remote.len() - 1].key);
                }
            }
        }
    }
}

proof fn lemma_insert_by_key_props(s: Seq<SettingEntry>, e: SettingEntry)
    ensures
        insert_by_key(s, e).len() == s.len() + 1,
        forall|x: SettingEntry|
            #![trigger insert_by_key(s, e).contains(x)]
            #![trigger s.contains(x)]
            insert_by_key(s, e).contains(x) <==> (s.contains(x) || x == e),
        sorted_by_key(s) ==> sorted_by_key(insert_by_key(s, e)),
        unique_keys(s) && (forall|j: int| 0 <= j < s.len() ==> s[j].key != e.key) ==> unique_keys(
            insert_by_key(s, e),
        ),
    decreases s.len(),
{
    if s.len() == 0 {
        assert(insert_by_key(s, e) =~= seq![e]);
        assert forall|x: SettingEntry| insert_by_key(s, e).contains(x) <==> (s.contains(x) || x == e) by {
            if x == e {
                assert(insert_by_key(s, e)[0] == x);
            }
        }
    } else if s.last().key <= e.key {
        assert(insert_by_key(s, e) == s.push(e));
        assert forall|x: SettingEntry| s.push(e).contains(x) <==> (s.contains(x) || x == e) by {
            if s.push(e).contains(x) {
                let j = choose|j: int| 0 <= j < s.push(e).len() && s.push(e)[j] == x;
                if j < s.len() {
                    assert(s[j] == x);
                }
            }
            if s.contains(x) {
                let j = choose|j: int| 0 <= j < s.len() && s[j] == x;
                assert(s.push(e)[j] == x);
            }
            if x == e {
                assert(s.push(e)[s.len() as int] == x);
            }
        }
        if sorted_by_key(s) {
            assert forall|i: int, j: int| 0 <= i < j < s.push(e).len() implies s.push(e)[i].key
                <= s.push(e)[j].key by {
                if j == s.len() {
                    assert(s[i].key <= s[s.len() - 1].key);
                }
            }
        }
    } else {
        let front = s.drop_last();
        let last = s.last();
        lemma_insert_by_key_props(front, e);
        let r = insert_by_key(front, e);
        assert(s =~= front.push(last));
        assert(insert_by_key(s, e) == r.push(last));
        assert forall|x: SettingEntry| r.push(last).contains(x) <==> (s.contains(x) || x == e) by {
            if r.push(last).contains(x) {
                let j = choose|j: int| 0 <= j < r.push(last).len() && r.push(last)[j] == x;
                if j < r.len() {
                    assert(r[j] == x);
                    assert(r.contains(x));
                    if front.contains(x) {
                        let k = choose|k: int| 0 <= k < front.len() && front[k] == x;
                        assert(s[k] == x);
                    }
                } else {
                    assert(s[s.len() - 1] == x);
                }
            }
            if s.contains(x) {
                let j = choose|j: int| 0 <= j < s.len() && s[j] == x;
                if j < front.len() {
                    assert(front[j] == x);
                    assert(r.contains(x));
                    let k = choose|k: int| 0 <= k < r.len() && r[k] == x;
                    assert(r.push(last)[k] == x);
                } else {
                    assert(r.push(last)[r.len() as int] == x);
                }
            }
            if x == e {
                assert(r.contains(x));
                let k = choose|k: int| 0 <= k < r.len() && r[k] == x;
                assert(r.push(last)[k] == x);
            }
        }
        if sorted_by_key(s) {
            assert(sorted_by_key(front));
            assert forall|i: int, j: int| 0 <= i < j < r.push(last).len() implies r.push(last)[i].key
                <= r.push(last)[j].key by {
                if j == r.len() {
                    let y = r[i];
                    assert(r.contains(y));
                    if front.contains(y) {
                        let k = choose|k: int| 0 <= k < front.len() && front[k] == y;
                        assert(s[k].key <= s[s.len() - 1].key);
                    }
                }
            }
        }
        if unique_keys(s) && (forall|j: int| 0 <= j < s.len() ==> s[j].key != e.key) {
            assert(unique_keys(front));
            assert forall|i: int, j: int| 0 <= i < j < r.push(last).len() implies r.push(last)[i].key
                != r.push(last)[j].key by {
                if j == r.len() {
                    let y = r[i];
                    assert(r.contains(y));
                    if front.contains(y) {
                        let k = choose|k: int| 0 <= k < front.len() && front[k] == y;
                        assert(s[k].key != s[s.len() - 1].key);
                    } else {
                        assert(s[s.len() - 1].key != e.key);
                    }
                }
            }
        }
    }
}

proof fn lemma_sort_props(s: Seq<SettingEntry>)
    ensures
        sort_by_key(s).len() == s.len(),
        forall|x: SettingEntry|
            #![trigger sort_by_key(s).contains(x)]
            #![trigger s.contains(x)]
            sort_by_key(s).contains(x) <==> s.contains(x),
        sorted_by_key(sort_by_key(s)),
        unique_keys(s) ==> unique_keys(sort_by_key(s)),
    decreases s.len(),
{
    if s.len() > 0 {
        let front = s.drop_last();
        let last = s.last();
        lemma_sort_props(front);
        lemma_insert_by_key_props(sort_by_key(front), last);
        assert(s =~= front.push(last));
        assert forall|x: SettingEntry| sort_by_key(s).contains(x) <==> s.contains(x) by {
            if s.contains(x) {
                let j = choose|j: int| 0 <= j < s.len() && s[j] == x;
                if j < front.len() {
                    assert(front[j] == x);
                }
            }
            if front.contains(x) {
                let j = choose|j: int| 0 <= j < front.len() && front[j] == x;
                assert(s[j] == x);
            }
        }
        if unique_keys(s) {
            assert(unique_keys(front));
            let sf = sort_by_key(front);
            assert forall|j: int| 0 <= j < sf.len() implies sf[j].key != last.key by {
                assert(sf.contains(sf[j]));
                assert(front.contains(sf[j]));
                let k = choose|k: int| 0 <= k < front.len() && front[k] == sf[j];
                assert(s[k].key != s[s.len() - 1].key);
            }
        }
    }
}

/// Two lists ordered by strictly increasing key that hold the same entries are
/// the same list.
proof fn lemma_strictly_sorted_equal(s: Seq<SettingEntry>, t: Seq<SettingEntry>)
    requires
        sorted_by_key(s),
        sorted_by_key(t),
        unique_keys(s),
        unique_keys(t),
        forall|x: SettingEntry| s.contains(x) <==> t.contains(x),
    ensures
        s == t,
    decreases s.len() + t.len(),
{
    if s.len() == 0 {
        if t.len() > 0 {
            assert(t.contains(t[0]));
        }
        assert(s =~= t);
    } else if t.len() == 0 {
        assert(s.contains(s[0]));
    } else {
        assert(s.contains(s[0]));
        assert(t.contains(t[0]));
        let i = choose|i: int| 0 <= i < t.len() && t[i] == s[0];
        let j = choose|j: int| 0 <= j < s.len() && s[j] == t[0];
        assert(s[0].key <= s[j].key);
        assert(t[0].key <= t[i].key);
        assert(i == 0) by {
            if i != 0 {
                assert(t[0].key != t[i].key);
            }
        }
        let s1 = s.drop_first();
        let t1 = t.drop_first();
        assert forall|x: SettingEntry| s1.contains(x) <==> t1.contains(x) by {
            if s1.contains(x) {
                let a = choose|a: int| 0 <= a < s1.len() && s1[a] == x;
                assert(s[a + 1] == x);
                assert(s.contains(x));
                let b = choose|b: int| 0 <= b < t.len() && t[b] == x;
                assert(b != 0) by {
                    if b == 0 {
                        assert(s[0].key != s[a + 1].key);
                    }
                }
                assert(t1[b - 1] == x);
            }
            if t1.contains(x) {
                let a = choose|a: int| 0 <= a < t1.len() && t1[a] == x;
                assert(t[a + 1] == x);
                assert(t.contains(x));
                let b = choose|b: int| 0 <= b < s.len() && s[b] == x;
                assert(b != 0) by {
                    if b == 0 {
                        assert(t[0].key != t[a + 1].key);
                    }
                }
                assert(s1[b - 1] == x);
            }
        }
        lemma_strictly_sorted_equal(s1, t1);
        assert(s =~= seq![s[0]] + s1);
        assert(t =~= seq![t[0]] + t1);
    }
}

/// Two unique-key lists with the same entry for every key hold the same entries.
proof fn lemma_same_entries(s: Seq<SettingEntry>, t: Seq<SettingEntry>)
    requires
        unique_keys(s),
        unique_keys(t),
        forall|k: u8| entry_for(s, k) == entry_for(t, k),
    ensures
        forall|x: SettingEntry| s.contains(x) <==> t.contains(x),
{
    assert forall|x: SettingEntry| s.contains(x) <==> t.contains(x) by {
        lemma_entry_for_unique(s, x);
        lemma_entry_for_unique(t, x);
        assert(entry_for(s, x.key) == entry_for(t, x.key));
    }
}

/// Merging lists whose keys are unique yields a list ordered by strictly
/// increasing key whose entry for every key is the later of the local and
/// received entries: no edit to any setting is lost.
pub proof fn law_merge_keeps_the_latest_edit_of_every_key(
    local: Seq<SettingEntry>,
    remote: Seq<SettingEntry>,
    key: u8,
)
    requires
        unique_keys(local),
        unique_keys(remote),
    ensures
        sorted_by_key(spec_merge_entries(local, remote)),
        unique_keys(spec_merge_entries(local, remote)),
        entry_for(spec_merge_entries(local, remote), key) == combine(
            entry_for(local, key),
            entry_for(remote, key),
        ),
{
    let merged = merge_all(local, remote);
    lemma_merge_all(local, remote, key);
    lemma_sort_props(merged);
    let sorted = sort_by_key(merged);
    lemma_first_with_key(merged, key);
    lemma_first_with_key(sorted, key);
    match entry_for(merged, key) {
        Some(x) => {
            lemma_entry_for_unique(merged, x);
            lemma_entry_for_unique(sorted, x);
        },
        None => {
            if entry_for(sorted, key) is Some {
                let y = entry_for(sorted, key)->0;
                lemma_entry_for_unique(sorted, y);
                lemma_entry_for_unique(merged, y);
            }
        },
    }
}

proof fn lemma_merge_entry_all_keys(local: Seq<SettingEntry>, remote: Seq<SettingEntry>)
    requires
        unique_keys(local),
        unique_keys(remote),
    ensures
        sorted_by_key(spec_merge_entries(local, remote)),
        unique_keys(spec_merge_entries(local, remote)),
        forall|k: u8|
            entry_for(spec_merge_entries(local, remote), k) == combine(
                entry_for(local, k),
                entry_for(remote, k),
            ),
{
    law_merge_keeps_the_latest_edit_of_every_key(local, remote, 0);
    assert forall|k: u8|
        entry_for(spec_merge_entries(local, remote), k) == combine(
            entry_for(local, k),
            entry_for(remote, k),
        ) by {
        law_merge_keeps_the_latest_edit_of_every_key(local, remote, k);
    }
}

/// The two computers converge: merging the peer's entries into ours gives the
/// same list as the peer merging ours into its own, whenever the two lists
/// never disagree about one edit.
pub proof fn law_merge_converges(a: Seq<SettingEntry>, b: Seq<SettingEntry>)
    requires
        unique_keys(a),
        unique_keys(b),
        consistent(a, b),
    ensures
        spec_merge_entries(a, b) == spec_merge_entries(b, a),
{
    lemma_merge_entry_all_keys(a, b);
    lemma_merge_entry_all_keys(b, a);
    assert forall|k: u8|
        entry_for(spec_merge_entries(a, b), k) == entry_for(spec_merge_entries(b, a), k) by {
        lemma_first_with_key(a, k);
        lemma_first_with_key(b, k);
        if entry_for(a, k) is Some && entry_for(b, k) is Some {
            let x = entry_for(a, k)->0;
            let y = entry_for(b, k)->0;
            if !supersedes(x, y) && !supersedes(y, x) {
                assert(x == y);
            }
        }
    }
    lemma_same_entries(spec_merge_entries(a, b), spec_merge_entries(b, a));
    lemma_strictly_sorted_equal(spec_merge_entries(a, b), spec_merge_entries(b, a));
}

/// Receiving the same entries again changes nothing.
pub proof fn law_merge_idempotent(a: Seq<SettingEntry>, b: Seq<SettingEntry>)
    requires
        unique_keys(a),
        unique_keys(b),
    ensures
        spec_merge_entries(spec_merge_entries(a, b), b) == spec_merge_entries(a, b),
{
    let m = spec_merge_entries(a, b);
    lemma_merge_entry_all_keys(a, b);
    lemma_merge_entry_all_keys(m, b);
    let mm = spec_merge_entries(m, b);
    assert forall|k: u8| entry_for(mm, k) == entry_for(m, k) by {
        if entry_for(a, k) is Some && entry_for(b, k) is Some {
            let x = entry_for(a, k)->0;
            let y = entry_for(b, k)->0;
            assert(!supersedes(y, y));
        }
    }
    lemma_same_entries(mm, m);
    lemma_strictly_sorted_equal(mm, m);
}

/// A replayed entry that is not later than the entry already held for its key
/// cannot undo a merged edit.
pub proof fn law_stale_replay_changes_nothing(m: Seq<SettingEntry>, stale: Seq<SettingEntry>)
    requires
        sorted_by_key(m),
        unique_keys(m),
        unique_keys(stale),
        forall|j: int|
            0 <= j < stale.len() ==> (entry_for(m, #[trigger] stale[j].key) matches Some(c)
                && !supersedes(stale[j], c)),
    ensures
        spec_merge_entries(m, stale) == m,
{
    lemma_merge_entry_all_keys(m, stale);
    let mm = spec_merge_entries(m, stale);
    assert forall|k: u8| entry_for(mm, k) == entry_for(m, k) by {
        lemma_first_with_key(stale, k);
        if entry_for(stale, k) is Some {
            let j = first_with_key(stale, k);
            assert(stale[j].key == k);
        }
    }
    lemma_same_entries(mm, m);
    lemma_strictly_sorted_equal(mm, m);
}

/// The name under which a node is stored: its ID in 32 lower-case hex digits.
pub fn node_name(node: NodeId) -> (name: String)
    ensures
        name@ == crate::text::spec_hex(node.0 as nat, 32),
{
    crate::text::hex(node.0, 32)
}

/// The value of a hexadecimal digit, if `c` is one (either case).
pub open spec fn hex_value(c: char) -> Option<nat> {
    if '0' <= c && c <= '9' {
        Some(((c as int) - 48) as nat)
    } else if 'a' <= c && c <= 'f' {
        Some(((c as int) - 87) as nat)
    } else if 'A' <= c && c <= 'F' {
        Some(((c as int) - 55) as nat)
    } else {
        None
    }
}

/// Whether every character is a hexadecimal digit.
pub open spec fn all_hex(digits: Seq<char>) -> bool {
    forall|i: int| 0 <= i < digits.len() ==> #[trigger] hex_value(digits[i]) is Some
}

/// The number written by hexadecimal digits.
pub open spec fn hex_number(digits: Seq<char>) -> nat
    decreases digits.len(),
{
    if digits.len() == 0 {
        0
    } else {
        hex_number(digits.drop_last()) * 16 + hex_value(digits.last()).unwrap()
    }
}

/// The digits `u128::from_str_radix(text, 16)` reads: an optional leading `+`
/// and the rest.
pub open spec fn hex_digits_of(text: Seq<char>) -> Seq<char> {
    if text.len() > 0 && text[0] == '+' {
        text.drop_first()
    } else {
        text
    }
}

/// The node a stored name stands for: `u128::from_str_radix(name, 16)`, which
/// takes an optional `+`, then at least one hexadecimal digit, and fails when
/// the number does not fit.
pub open spec fn spec_parse_node_name(text: Seq<char>) -> Option<u128> {
    let digits = hex_digits_of(text);
    if digits.len() == 0 || !all_hex(digits) || hex_number(digits) > u128::MAX {
        None
    } else {
        Some(hex_number(digits) as u128)
    }
}

fn hex_digit_value(c: char) -> (value: Option<u8>)
    ensures
        match hex_value(c) {
            Some(v) => value == Some(v as u8),
            None => value is None,
        },
{
    if '0' <= c && c <= '9' {
        Some((c as u32 - 48) as u8)
    } else if 'a' <= c && c <= 'f' {
        Some((c as u32 - 87) as u8)
    } else if 'A' <= c && c <= 'F' {
        Some((c as u32 - 55) as u8)
    } else {
        None
    }
}

proof fn lemma_hex_number_grows(digits: Seq<char>, i: int)
    requires
        0 <= i <= digits.len(),
        all_hex(digits),
    ensures
        hex_number(digits.subrange(0, i)) <= hex_number(digits),
    decreases digits.len() - i,
{
    if i < digits.len() {
        lemma_hex_number_grows(digits, i + 1);
        assert(digits.subrange(0, i + 1).drop_last() =~= digits.subrange(0, i));
        assert(hex_value(digits[i]) is Some);
    } else {
        assert(digits.subrange(0, i) =~= digits);
    }
}

/// Reads the node ID from its stored name.
pub fn parse_node_name(text: &str) -> (node: Option<u128>)
    ensures
        node == spec_parse_node_name(text@),
{
    let chars = crate::text::text_chars(text);
    let mut i: usize = 0;
    if chars.len() > 0 && chars[0] == '+' {
        i = 1;
    }
    let first = i;
    let ghost digits = hex_digits_of(text@);
    assert(digits =~= chars@.subrange(first as int, chars@.len() as int));
    if first == chars.len() {
        return None;
    }
    let mut value: u128 = 0;
    while i < chars.len()
        invariant
            chars@ == text@,
            first <= i <= chars@.len(),
            digits == hex_digits_of(text@),
            digits == chars@.subrange(first as int, chars@.len() as int),
            all_hex(digits.subrange(0, i - first)),
            value as nat == hex_number(digits.subrange(0, i - first)),
        decreases chars@.len() - i,
    {
        let ghost prefix = digits.subrange(0, i + 1 - first);
        assert(prefix.drop_last() =~= digits.subrange(0, i - first));
        assert(prefix.last() == chars@[i as int]);
        assert(digits[i - first] == chars@[i as int]);
        let c = chars[i];
        let digit = hex_digit_value(c);
        if digit.is_none() {
            assert(hex_value(digits[i - first]) is None);
            assert(!all_hex(digits));
            return None;
        }
        let d = digit.unwrap();
        assert(all_hex(prefix)) by {
            assert forall|k: int| 0 <= k < prefix.len() implies #[trigger] hex_value(prefix[k]) is Some by {
                if k < prefix.len() - 1 {
                    assert(prefix[k] == digits.subrange(0, i - first)[k]);
                }
            }
        }
        if value > 0x0fff_ffff_ffff_ffff_ffff_ffff_ffff_ffff {
            proof {
                assert(hex_number(prefix) == hex_number(prefix.drop_last()) * 16 + d);
                assert(value * 16 + d > u128::MAX) by (nonlinear_arith)
                    requires
                        value > 0x0fff_ffff_ffff_ffff_ffff_ffff_ffff_ffffu128,
                ;
                assert(hex_number(prefix) > u128::MAX);
                let ghost rest_ok = all_hex(digits);
                if rest_ok {
                    lemma_hex_number_grows(digits, i + 1 - first);
                }
            }
            return None;
        }
        value = value * 16 + d as u128;
        i = i + 1;
    }
    assert(digits.subrange(0, chars@.len() - first) =~= digits);
    Some(value)
}

/// The stored form of one shared setting before it is checked: the author as
/// stored text, and whether the value is valid for the key.
#[derive(Debug, Clone)]
pub struct StoredSetting {
    pub key: u8,
    pub revision: u64,
    pub author: String,
    pub value_bits: u64,
    pub value_valid: bool,
}

/// The entries a stored list decodes to, or why it does not: at most `count`
/// settings, each by one of the two computers, each key once, ordered by key.
pub open spec fn spec_decode_settings(
    stored: Seq<StoredSetting>,
    local: u128,
    peer: u128,
    count: nat,
) -> Result<Seq<SettingEntry>, Seq<char>> {
    if stored.len() > count {
        Err("too many shared settings"@)
    } else {
        match decode_each(stored, local, peer) {
            Err(m) => Err(m),
            Ok(entries) => Ok(sort_by_key(entries)),
        }
    }
}

/// Checks the stored settings front to back.
pub open spec fn decode_each(stored: Seq<StoredSetting>, local: u128, peer: u128) -> Result<
    Seq<SettingEntry>,
    Seq<char>,
>
    decreases stored.len(),
{
    if stored.len() == 0 {
        Ok(Seq::empty())
    } else {
        match decode_each(stored.drop_last(), local, peer) {
            Err(m) => Err(m),
            Ok(front) => {
                let item = stored.last();
                match spec_parse_node_name(item.author@) {
                    None => Err("invalid settings author"@),
                    Some(author) => if !item.value_valid || (author != local && author != peer)
                        || (exists|j: int| 0 <= j < front.len() && #[trigger] front[j].key
                        == item.key) {
                        Err("invalid shared setting"@)
                    } else {
                        Ok(
                            front.push(
                                SettingEntry {
                                    key: item.key,
                                    revision: item.revision,
                                    author: NodeId(author),
                                    value_bits: item.value_bits,
                                },
                            ),
                        )
                    },
                }
            },
        }
    }
}

proof fn lemma_decode_error_stays(stored: Seq<StoredSetting>, k: int, local: u128, peer: u128)
    requires
        0 <= k <= stored.len(),
        decode_each(stored.subrange(0, k), local, peer) is Err,
    ensures
        decode_each(stored, local, peer) == decode_each(stored.subrange(0, k), local, peer),
    decreases stored.len() - k,
{
    if k < stored.len() {
        let next = stored.subrange(0, k + 1);
        assert(next.drop_last() =~= stored.subrange(0, k));
        lemma_decode_error_stays(stored, k + 1, local, peer);
    } else {
        assert(stored.subrange(0, k) =~= stored);
    }
}

/// Decodes stored settings: no more than `count`, each by `local` or `peer`,
/// with a valid value and a key not seen before; ordered by key.
pub fn decode_settings(
    stored: &[StoredSetting],
    local: NodeId,
    peer: NodeId,
    count: usize,
) -> (entries: Result<Vec<SettingEntry>, String>)
    ensures
        match spec_decode_settings(stored@, local.0, peer.0, count as nat) {
            Ok(v) => entries matches Ok(e) && e@ == v,
            Err(m) => entries matches Err(e) && e@ == m,
        },
{
    if stored.len() > count {
        return Err("too many shared settings".to_owned());
    }
    let mut result: Vec<SettingEntry> = Vec::new();
    let mut i: usize = 0;
    while i < stored.len()
        invariant
            i <= stored@.len(),
            stored@.len() <= count,
            decode_each(stored@.subrange(0, i as int), local.0, peer.0) == Ok::<
                Seq<SettingEntry>,
                Seq<char>,
            >(result@),
        decreases stored@.len() - i,
    {
        let item = &stored[i];
        let ghost prefix = stored@.subrange(0, i + 1);
        assert(prefix.drop_last() =~= stored@.subrange(0, i as int));
        assert(prefix.last() == *item);
        let author = match parse_node_name(item.author.as_str()) {
            Some(author) => author,
            None => {
                proof {
                    lemma_decode_error_stays(stored@, i + 1, local.0, peer.0);
                }
                return Err("invalid settings author".to_owned());
            },
        };
        let mut seen = false;
        let mut j: usize = 0;
        while j < result.len()
            invariant
                j <= result@.len(),
                seen == exists|k: int| 0 <= k < j && #[trigger] result@[k].key == item.key,
            decreases result@.len() - j,
        {
            if result[j].key == item.key {
                seen = true;
            }
            j = j + 1;
        }
        if !item.value_valid || (author != local.0 && author != peer.0) || seen {
            proof {
                lemma_decode_error_stays(stored@, i + 1, local.0, peer.0);
            }
            return Err("invalid shared setting".to_owned());
        }
        result.push(
            SettingEntry {
                key: item.key,
                revision: item.revision,
                author: NodeId(author),
                value_bits: item.value_bits,
            },
        );
        i = i + 1;
    }
    assert(stored@.subrange(0, stored@.len() as int) =~= stored@);
    Ok(sort_entries(result))
}

/// The largest revision in a list, or 0.
pub open spec fn max_revision(entries: Seq<SettingEntry>) -> u64
    decreases entries.len(),
{
    if entries.len() == 0 {
        0
    } else {
        let front = max_revision(entries.drop_last());
        if entries.last().revision > front {
            entries.last().revision
        } else {
            front
        }
    }
}

/// Whether an entry is for another key than `key`.
pub open spec fn other_key(key: u8) -> spec_fn(SettingEntry) -> bool {
    |e: SettingEntry| e.key != key
}

/// The list after the edit of `key` to `value_bits`: the old entry of the key
/// is dropped and the new one appended.
pub open spec fn with_edit(entries: Seq<SettingEntry>, edit: SettingEntry) -> Seq<SettingEntry> {
    entries.filter(other_key(edit.key)).push(edit)
}

/// The list after a batch of edits, all at one revision.
pub open spec fn with_edits(
    entries: Seq<SettingEntry>,
    changes: Seq<(u8, u64)>,
    revision: u64,
    author: NodeId,
) -> Seq<SettingEntry>
    decreases changes.len(),
{
    if changes.len() == 0 {
        entries
    } else {
        let (key, value_bits) = changes.last();
        with_edit(
            with_edits(entries, changes.drop_last(), revision, author),
            SettingEntry { key, revision, author, value_bits },
        )
    }
}

proof fn lemma_max_revision(entries: Seq<SettingEntry>)
    ensures
        forall|i: int| 0 <= i < entries.len() ==> entries[i].revision <= max_revision(entries),
    decreases entries.len(),
{
    if entries.len() > 0 {
        lemma_max_revision(entries.drop_last());
        assert forall|i: int| 0 <= i < entries.len() implies entries[i].revision <= max_revision(
            entries,
        ) by {
            if i < entries.len() - 1 {
                assert(entries[i] == entries.drop_last()[i]);
            }
        }
    }
}

fn largest_revision(entries: &Vec<SettingEntry>) -> (largest: u64)
    ensures
        largest == max_revision(entries@),
{
    let mut largest: u64 = 0;
    let mut i: usize = 0;
    while i < entries.len()
        invariant
            i <= entries@.len(),
            largest == max_revision(entries@.subrange(0, i as int)),
        decreases entries@.len() - i,
    {
        assert(entries@.subrange(0, i + 1).drop_last() =~= entries@.subrange(0, i as int));
        if entries[i].revision > largest {
            largest = entries[i].revision;
        }
        i = i + 1;
    }
    assert(entries@.subrange(0, entries@.len() as int) =~= entries@);
    largest
}

fn remove_key(entries: &mut Vec<SettingEntry>, key: u8)
    ensures
        final(entries)@ == old(entries)@.filter(other_key(key)),
{
    let mut kept: Vec<SettingEntry> = Vec::new();
    let mut i: usize = 0;
    while i < entries.len()
        invariant
            i <= entries@.len(),
            kept@ == entries@.subrange(0, i as int).filter(other_key(key)),
        decreases entries@.len() - i,
    {
        let e = entries[i];
        proof {
            let next = entries@.subrange(0, i + 1);
            assert(next =~= entries@.subrange(0, i as int).push(e));
            entries@.subrange(0, i as int).lemma_filter_push(e, other_key(key));
        }
        if e.key != key {
            kept.push(e);
        }
        i = i + 1;
    }
    assert(entries@.subrange(0, entries@.len() as int) =~= entries@);
    *entries = kept;
}

/// Applies edits made on this computer: every edited key gets one new entry,
/// authored here, at one revision above every revision held; the list stays
/// ordered by key. Fails, changing nothing, when the revision would overflow.
pub fn apply_edits(
    entries: &mut Vec<SettingEntry>,
    changes: &[(u8, u64)],
    author: NodeId,
) -> (applied: Result<(), String>)
    ensures
        max_revision(old(entries)@) == u64::MAX ==> (applied matches Err(e) && e@
            == "shared settings revision overflow"@ && final(entries)@ == old(entries)@),
        max_revision(old(entries)@) < u64::MAX ==> applied is Ok && final(entries)@ == sort_by_key(
            with_edits(old(entries)@, changes@, (max_revision(old(entries)@) + 1) as u64, author),
        ),
{
    let largest = largest_revision(entries);
    if largest == u64::MAX {
        return Err("shared settings revision overflow".to_owned());
    }
    let revision = largest + 1;
    let ghost initial = entries@;
    let mut i: usize = 0;
    while i < changes.len()
        invariant
            i <= changes@.len(),
            entries@ == with_edits(initial, changes@.subrange(0, i as int), revision, author),
        decreases changes@.len() - i,
    {
        let (key, value_bits) = changes[i];
        assert(changes@.subrange(0, i + 1).drop_last() =~= changes@.subrange(0, i as int));
        remove_key(entries, key);
        entries.push(SettingEntry { key, revision, author, value_bits });
        i = i + 1;
    }
    assert(changes@.subrange(0, changes@.len() as int) =~= changes@);
    let mut edited: Vec<SettingEntry> = Vec::new();
    std::mem::swap(&mut edited, entries);
    *entries = sort_entries(edited);
    Ok(())
}

/// An edit made here is later than everything held before it, so it wins the
/// merge on both computers.
pub proof fn law_edit_supersedes_held_entries(
    entries: Seq<SettingEntry>,
    held: SettingEntry,
    edit: SettingEntry,
)
    requires
        entries.contains(held),
        max_revision(entries) < u64::MAX,
        edit.revision == max_revision(entries) + 1,
    ensures
        supersedes(edit, held),
{
    lemma_max_revision(entries);
}


/// Whether held entries still wait for the peer's acknowledgement: they
/// differ from the entries it acknowledged.
pub fn is_pending(entries: &[SettingEntry], acknowledged: &[SettingEntry]) -> (pending: bool)
    ensures
        pending == (entries@ != acknowledged@),
{
    if entries.len() != acknowledged.len() {
        return true;
    }
    let mut i: usize = 0;
    while i < entries.len()
        invariant
            i <= entries@.len(),
            entries@.len() == acknowledged@.len(),
            forall|j: int| 0 <= j < i ==> entries@[j] == acknowledged@[j],
        decreases entries@.len() - i,
    {
        if entries[i] != acknowledged[i] {
            return true;
        }
        i = i + 1;
    }
    assert(entries@ =~= acknowledged@);
    false
}

/// An acknowledgement of what was held before an edit cannot mark the edit as
/// synchronised: after a non-empty edit, the held entries differ from those
/// held before it.
pub proof fn law_edit_stays_pending_until_acknowledged(
    entries: Seq<SettingEntry>,
    changes: Seq<(u8, u64)>,
    author: NodeId,
)
    requires
        max_revision(entries) < u64::MAX,
        changes.len() > 0,
    ensures
        sort_by_key(with_edits(entries, changes, (max_revision(entries) + 1) as u64, author))
            != entries,
{
    let revision = (max_revision(entries) + 1) as u64;
    let edited = with_edits(entries, changes, revision, author);
    let (key, value_bits) = changes.last();
    let last = SettingEntry { key, revision, author, value_bits };
    let before = with_edits(entries, changes.drop_last(), revision, author);
    assert(edited == before.filter(other_key(key)).push(last));
    assert(edited[edited.len() - 1] == last);
    assert(edited.contains(last));
    lemma_sort_props(edited);
    assert(sort_by_key(edited).contains(last));
    lemma_max_revision(entries);
    if entries.contains(last) {
        let j = choose|j: int| 0 <= j < entries.len() && entries[j] == last;
        assert(entries[j].revision <= max_revision(entries));
    }
}

} // verus!
