//! The change detector: decides, from one scan of the watched directory,
//! whether any entry's change signature differs from the one recorded in the
//! detector's private cache.
//!
//! The caller enumerates the directory (one level, not recursive) and hands
//! each entry in as a name with a change signature: the file's modification
//! time in whole seconds where the platform gives one, otherwise its size in
//! bytes. A signature seen for the first time is adopted as the baseline
//! without signaling a change; a differing signature signals a change,
//! updates the cache, and ends the scan for that cycle (entries after it are
//! left for the next cycle).

use vstd::prelude::*;

use crate::bytes::clone_bytes;
use crate::config::Config;

verus! {

/// One scanned directory entry: the file's name within the directory and its
/// change signature.
pub struct DirEntry {
    pub name: Vec<u8>,
    pub signature: u64,
}

/// One cached record: a file name and the signature last recorded for it.
struct CacheEntry {
    name: Vec<u8>,
    signature: u64,
}

/// The detector's cache of change signatures, one per file name, abstractly
/// a map from file name to signature. It is the private working state of the
/// file-change monitor; no other monitor reads or writes it.
pub struct SignatureCache {
    entries: Vec<CacheEntry>,
}

impl View for SignatureCache {
    type V = Map<Seq<u8>, u64>;

    closed spec fn view(&self) -> Map<Seq<u8>, u64> {
        Map::new(
            |n: Seq<u8>|
                exists|i: int|
                    0 <= i < self.entries@.len() && self.entries@[i].name@ == n,
            |n: Seq<u8>|
                self.entries@[choose|i: int|
                    0 <= i < self.entries@.len() && self.entries@[i].name@ == n].signature,
        )
    }
}

impl SignatureCache {
    /// Each file name occurs at most once among the cached records.
    pub closed spec fn wf(self) -> bool {
        forall|i: int, j: int|
            0 <= i < j < self.entries@.len() ==> self.entries@[i].name@ != self.entries@[j].name@
    }
}

/// A record's name determines its index in a well-formed cache.
proof fn lemma_unique_index(c: SignatureCache, i: int, j: int)
    requires
        c.wf(),
        0 <= i < c.entries@.len(),
        0 <= j < c.entries@.len(),
        c.entries@[i].name@ == c.entries@[j].name@,
    ensures
        i == j,
{
    if i < j {
        assert(c.entries@[i].name@ != c.entries@[j].name@);
    } else if j < i {
        assert(c.entries@[j].name@ != c.entries@[i].name@);
    }
}

/// The view of a well-formed cache holds exactly the recorded names, each
/// mapped to the signature recorded beside it.
proof fn lemma_view_at(c: SignatureCache, i: int)
    requires
        c.wf(),
        0 <= i < c.entries@.len(),
    ensures
        c@.contains_key(c.entries@[i].name@),
        c@[c.entries@[i].name@] == c.entries@[i].signature,
{
    let n = c.entries@[i].name@;
    assert(c@.contains_key(n));
    let j = choose|k: int| 0 <= k < c.entries@.len() && c.entries@[k].name@ == n;
    lemma_unique_index(c, i, j);
}

impl SignatureCache {
    /// An empty cache: every file is still unseen.
    pub fn new() -> (c: SignatureCache)
        ensures
            c.wf(),
            c@ == Map::<Seq<u8>, u64>::empty(),
    {
        let c = SignatureCache { entries: Vec::new() };
        proof {
            assert(c@ =~= Map::<Seq<u8>, u64>::empty());
        }
        c
    }

    /// The index of the record for `name`, if one exists.
    fn find(&self, name: &Vec<u8>) -> (r: Option<usize>)
        ensures
            match r {
                Some(i) => i < self.entries@.len() && self.entries@[i as int].name@ == name@,
                None => forall|i: int|
                    0 <= i < self.entries@.len() ==> self.entries@[i].name@ != name@,
            },
    {
        let mut i: usize = 0;
        while i < self.entries.len()
            invariant
                i <= self.entries@.len(),
                forall|k: int| 0 <= k < i ==> self.entries@[k].name@ != name@,
            decreases self.entries@.len() - i,
        {
            if crate::bytes::bytes_eq(&self.entries[i].name, name) {
                return Some(i);
            }
            i = i + 1;
        }
        None
    }

    /// The signature recorded for `name`, if the file has been seen before.
    pub fn get(&self, name: &Vec<u8>) -> (r: Option<u64>)
        requires
            self.wf(),
        ensures
            match r {
                Some(v) => self@.contains_key(name@) && v == self@[name@],
                None => !self@.contains_key(name@),
            },
    {
        match self.find(name) {
            Some(i) => {
                let v = self.entries[i].signature;
                proof {
                    lemma_view_at(*self, i as int);
                }
                Some(v)
            },
            None => {
                proof {
                    assert(!self@.contains_key(name@));
                }
                None
            },
        }
    }

    /// Record `signature` for `name`, replacing any earlier record.
    pub fn set(&mut self, name: &Vec<u8>, signature: u64)
        requires
            old(self).wf(),
        ensures
            final(self).wf(),
            final(self)@ == old(self)@.insert(name@, signature),
    {
        match self.find(name) {
            Some(i) => {
                self.entries[i] = CacheEntry { name: clone_bytes(name), signature };
                proof {
                    lemma_view_update(*old(self), *self, i as int, name@, signature);
                }
            },
            None => {
                self.entries.push(CacheEntry { name: clone_bytes(name), signature });
                proof {
                    lemma_view_push(*old(self), *self, name@, signature);
                }
            },
        }
    }
}

/// Replacing one record's signature, keeping its name, turns the view into
/// an insert of the new signature under that name.
proof fn lemma_view_update(
    pre: SignatureCache,
    post: SignatureCache,
    i: int,
    name: Seq<u8>,
    signature: u64,
)
    requires
        pre.wf(),
        0 <= i < pre.entries@.len(),
        pre.entries@[i].name@ == name,
        post.entries@.len() == pre.entries@.len(),
        forall|k: int| 0 <= k < pre.entries@.len() && k != i ==> post.entries@[k] == pre.entries@[k],
        post.entries@[i].name@ == name,
        post.entries@[i].signature == signature,
    ensures
        post.wf(),
        post@ == pre@.insert(name, signature),
{
    assert forall|k: int| 0 <= k < pre.entries@.len() implies post.entries@[k].name@
        == pre.entries@[k].name@ by {
    }
    assert(post.wf());
    assert forall|n: Seq<u8>| post@.contains_key(n) == pre@.insert(name, signature).contains_key(
        n,
    ) by {
        assert(pre@.contains_key(name)) by {
            lemma_view_at(pre, i);
        }
    }
    assert forall|n: Seq<u8>| post@.contains_key(n) implies post@[n] == pre@.insert(
        name,
        signature,
    )[n] by {
        let j = choose|k: int| 0 <= k < post.entries@.len() && post.entries@[k].name@ == n;
        lemma_view_at(post, j);
        if n == name {
            lemma_unique_index(post, i, j);
        } else {
            lemma_view_at(pre, j);
        }
    }
    assert(post@ =~= pre@.insert(name, signature));
}

/// Appending a record for an unseen name turns the view into an insert of
/// its signature under that name.
proof fn lemma_view_push(pre: SignatureCache, post: SignatureCache, name: Seq<u8>, signature: u64)
    requires
        pre.wf(),
        forall|k: int| 0 <= k < pre.entries@.len() ==> pre.entries@[k].name@ != name,
        post.entries@.len() == pre.entries@.len() + 1,
        forall|k: int| 0 <= k < pre.entries@.len() ==> post.entries@[k] == pre.entries@[k],
        post.entries@[pre.entries@.len() as int].name@ == name,
        post.entries@[pre.entries@.len() as int].signature == signature,
    ensures
        post.wf(),
        post@ == pre@.insert(name, signature),
{
    let last = pre.entries@.len() as int;
    assert forall|i: int, j: int| 0 <= i < j < post.entries@.len() implies post.entries@[i].name@
        != post.entries@[j].name@ by {
        if j < last {
            assert(pre.entries@[i].name@ != pre.entries@[j].name@);
        }
    }
    assert forall|n: Seq<u8>| post@.contains_key(n) implies post@[n] == pre@.insert(
        name,
        signature,
    )[n] by {
        let j = choose|k: int| 0 <= k < post.entries@.len() && post.entries@[k].name@ == n;
        lemma_view_at(post, j);
        if n == name {
            lemma_unique_index(post, last, j);
        } else {
            lemma_view_at(pre, j);
        }
    }
    assert(post@ =~= pre@.insert(name, signature));
}

/// What one scan returns and what it leaves in the cache, walking the
/// entries in order: the first entry whose recorded signature differs stops
/// the scan with `true` after its record is updated; an unseen entry is
/// adopted silently; a scan that finds no difference returns `false`.
pub open spec fn scan_spec(s: Seq<DirEntry>, m: Map<Seq<u8>, u64>) -> (bool, Map<Seq<u8>, u64>)
    decreases s.len(),
{
    if s.len() == 0 {
        (false, m)
    } else {
        let e = s[0];
        if m.contains_key(e.name@) {
            if m[e.name@] != e.signature {
                (true, m.insert(e.name@, e.signature))
            } else {
                scan_spec(s.skip(1), m)
            }
        } else {
            scan_spec(s.skip(1), m.insert(e.name@, e.signature))
        }
    }
}

impl Config {
    /// One cycle of the change detector: compare each scanned entry against
    /// the cache, stopping at the first difference. Returns whether a change
    /// was detected; the file-change monitor then stops and restarts the
    /// managed process.
    pub fn check_file_changes(entries: &Vec<DirEntry>, cache: &mut SignatureCache) -> (changed:
        bool)
        requires
            old(cache).wf(),
        ensures
            final(cache).wf(),
            (changed, final(cache)@) == scan_spec(entries@, old(cache)@),
    {
        let ghost m0 = cache@;
        let mut changed = false;
        let mut idx: usize = 0;
        proof {
            assert(entries@.skip(0) =~= entries@);
        }
        while idx < entries.len() && !changed
            invariant
                idx <= entries@.len(),
                cache.wf(),
                if changed {
                    scan_spec(entries@, m0) == (true, cache@)
                } else {
                    scan_spec(entries@, m0) == scan_spec(entries@.skip(idx as int), cache@)
                },
            decreases entries@.len() - idx,
        {
            proof {
                assert(entries@.skip(idx as int)[0] == entries@[idx as int]);
                assert(entries@.skip(idx as int).skip(1) =~= entries@.skip(idx as int + 1));
            }
            let e = &entries[idx];
            match cache.get(&e.name) {
                Some(recorded) => {
                    if recorded != e.signature {
                        cache.set(&e.name, e.signature);
                        changed = true;
                    }
                },
                None => {
                    cache.set(&e.name, e.signature);
                },
            }
            idx = idx + 1;
        }
        proof {
            if !changed {
                assert(entries@.skip(idx as int) =~= Seq::<DirEntry>::empty());
            }
        }
        changed
    }
}

/// No two scanned entries share a name: directory entries are distinct files.
pub open spec fn distinct_names(s: Seq<DirEntry>) -> bool {
    forall|i: int, j: int| 0 <= i < j < s.len() ==> s[i].name@ != s[j].name@
}

/// The cache agrees with every scanned entry: nothing has changed.
pub open spec fn settled(s: Seq<DirEntry>, m: Map<Seq<u8>, u64>) -> bool {
    forall|i: int|
        #![trigger s[i]]
        0 <= i < s.len() ==> m.contains_key(s[i].name@) && m[s[i].name@] == s[i].signature
}

/// A scan over a settled cache finds nothing and changes nothing.
proof fn lemma_scan_settled(s: Seq<DirEntry>, m: Map<Seq<u8>, u64>)
    requires
        settled(s, m),
    ensures
        scan_spec(s, m) == (false, m),
    decreases s.len(),
{
    if s.len() > 0 {
        assert(m.contains_key(s[0].name@) && m[s[0].name@] == s[0].signature);
        assert forall|i: int|
            #![trigger s.skip(1)[i]]
            0 <= i < s.skip(1).len() implies m.contains_key(s.skip(1)[i].name@)
            && m[s.skip(1)[i].name@] == s.skip(1)[i].signature by {
            assert(s.skip(1)[i] == s[i + 1]);
            assert(m.contains_key(s[i + 1].name@) && m[s[i + 1].name@] == s[i + 1].signature);
        }
        lemma_scan_settled(s.skip(1), m);
    }
}

/// A scan touches only names that occur among its entries.
proof fn lemma_scan_frame(s: Seq<DirEntry>, m: Map<Seq<u8>, u64>, n: Seq<u8>)
    requires
        forall|i: int| 0 <= i < s.len() ==> s[i].name@ != n,
    ensures
        scan_spec(s, m).1.contains_key(n) == m.contains_key(n),
        m.contains_key(n) ==> scan_spec(s, m).1[n] == m[n],
    decreases s.len(),
{
    if s.len() > 0 {
        let e = s[0];
        assert forall|i: int| 0 <= i < s.skip(1).len() implies s.skip(1)[i].name@ != n by {
            assert(s.skip(1)[i] == s[i + 1]);
        }
        if m.contains_key(e.name@) {
            if m[e.name@] == e.signature {
                lemma_scan_frame(s.skip(1), m, n);
            }
        } else {
            lemma_scan_frame(s.skip(1), m.insert(e.name@, e.signature), n);
        }
    }
}

/// A scan that reports no change leaves the cache settled over its entries.
proof fn lemma_scan_no_change_settles(s: Seq<DirEntry>, m: Map<Seq<u8>, u64>)
    requires
        distinct_names(s),
        !scan_spec(s, m).0,
    ensures
        settled(s, scan_spec(s, m).1),
    decreases s.len(),
{
    if s.len() > 0 {
        let e = s[0];
        let m1 = scan_spec(s, m).1;
        assert forall|i: int, j: int| 0 <= i < j < s.skip(1).len() implies s.skip(1)[i].name@
            != s.skip(1)[j].name@ by {
            assert(s.skip(1)[i] == s[i + 1] && s.skip(1)[j] == s[j + 1]);
        }
        assert forall|i: int| 0 <= i < s.skip(1).len() implies s.skip(1)[i].name@ != e.name@ by {
            assert(s.skip(1)[i] == s[i + 1]);
        }
        let m_next = if m.contains_key(e.name@) {
            m
        } else {
            m.insert(e.name@, e.signature)
        };
        assert(scan_spec(s, m) == scan_spec(s.skip(1), m_next));
        lemma_scan_no_change_settles(s.skip(1), m_next);
        lemma_scan_frame(s.skip(1), m_next, e.name@);
        assert(m1.contains_key(e.name@) && m1[e.name@] == e.signature);
        assert forall|i: int|
            #![trigger s[i]]
            0 <= i < s.len() implies m1.contains_key(s[i].name@) && m1[s[i].name@]
            == s[i].signature by {
            if i > 0 {
                assert(s.skip(1)[i - 1] == s[i]);
                assert(m1.contains_key(s.skip(1)[i - 1].name@) && m1[s.skip(1)[i - 1].name@]
                    == s.skip(1)[i - 1].signature);
            }
        }
    }
}

/// A scan whose prefix matches the cache and whose entry `k` differs stops
/// at `k`: it reports a change and records exactly that one new signature.
proof fn lemma_scan_hits_change(s: Seq<DirEntry>, m: Map<Seq<u8>, u64>, k: int)
    requires
        0 <= k < s.len(),
        forall|i: int|
            0 <= i < k ==> #[trigger] m.contains_key(s[i].name@) && m[s[i].name@]
                == s[i].signature,
        m.contains_key(s[k].name@),
        m[s[k].name@] != s[k].signature,
    ensures
        scan_spec(s, m) == (true, m.insert(s[k].name@, s[k].signature)),
    decreases k,
{
    if k > 0 {
        assert(m.contains_key(s[0].name@) && m[s[0].name@] == s[0].signature);
        assert forall|i: int|
            #![trigger s.skip(1)[i]]
            0 <= i < k - 1 implies m.contains_key(s.skip(1)[i].name@)
            && m[s.skip(1)[i].name@] == s.skip(1)[i].signature by {
            assert(s.skip(1)[i] == s[i + 1]);
            assert(m.contains_key(s[i + 1].name@) && m[s[i + 1].name@] == s[i + 1].signature);
        }
        assert(s.skip(1)[k - 1] == s[k]);
        lemma_scan_hits_change(s.skip(1), m, k - 1);
    }
}

/// Rescanning unchanged entries: when a scan reports no change, scanning the
/// same entries again reports no change and leaves the cache exactly as it
/// was.
pub proof fn lemma_rescan_unchanged(s: Seq<DirEntry>, m: Map<Seq<u8>, u64>)
    requires
        distinct_names(s),
        !scan_spec(s, m).0,
    ensures
        scan_spec(s, scan_spec(s, m).1) == (false, scan_spec(s, m).1),
{
    lemma_scan_no_change_settles(s, m);
    lemma_scan_settled(s, scan_spec(s, m).1);
}

/// One real change is reported exactly once: over a settled cache, a scan of
/// entries that differ only in one entry's signature reports a change and
/// records the new signature; the scan after it reports no change and leaves
/// the cache as it is, until the next real change.
pub proof fn lemma_single_change(
    s: Seq<DirEntry>,
    s2: Seq<DirEntry>,
    m: Map<Seq<u8>, u64>,
    k: int,
)
    requires
        distinct_names(s),
        settled(s, m),
        0 <= k < s.len(),
        s2.len() == s.len(),
        forall|i: int| 0 <= i < s.len() && i != k ==> s2[i] == s[i],
        s2[k].name@ == s[k].name@,
        s2[k].signature != s[k].signature,
    ensures
        scan_spec(s2, m) == (true, m.insert(s2[k].name@, s2[k].signature)),
        scan_spec(s2, scan_spec(s2, m).1) == (false, scan_spec(s2, m).1),
{
    assert forall|i: int| #![trigger s2[i]] 0 <= i < s2.len() implies s2[i].name@ == s[i].name@ by {
    }
    assert forall|i: int|
        #![trigger s2[i]]
        0 <= i < k implies m.contains_key(s2[i].name@) && m[s2[i].name@] == s2[i].signature by {
        assert(m.contains_key(s[i].name@) && m[s[i].name@] == s[i].signature);
    }
    assert(m.contains_key(s[k].name@) && m[s[k].name@] == s[k].signature);
    lemma_scan_hits_change(s2, m, k);
    let m2 = m.insert(s2[k].name@, s2[k].signature);
    assert forall|i: int|
        #![trigger s2[i]]
        0 <= i < s2.len() implies m2.contains_key(s2[i].name@) && m2[s2[i].name@]
        == s2[i].signature by {
        if i != k {
            assert(s2[i].name@ != s2[k].name@) by {
                if i < k {
                    assert(s[i].name@ != s[k].name@);
                } else {
                    assert(s[k].name@ != s[i].name@);
                }
            }
            assert(m.contains_key(s[i].name@) && m[s[i].name@] == s[i].signature);
        }
    }
    lemma_scan_settled(s2, m2);
}

} // verus!
