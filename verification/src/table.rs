//! Small per-pid tables of timestamped paths, kept as vectors whose keys
//! never repeat, and seen from outside as finite maps.
use vstd::prelude::*;

verus! {

/// Nanoseconds per millisecond.
pub const NS_PER_MS: u64 = 1_000_000;

/// Nanoseconds from `then` to `now`, zero when `then` is later.
pub open spec fn elapsed(now: u64, then: u64) -> u64 {
    now.saturating_sub(then)
}

/// A timestamp taken at `then` is still within `window` nanoseconds of
/// `now`.
pub open spec fn within(now: u64, then: u64, window: u64) -> bool {
    elapsed(now, then) <= window
}

/// One remembered path of one process, with when it was seen.
pub struct PathEntry {
    pub pid: u32,
    pub path: String,
    pub ktime_ns: u64,
}

// ---------------------------------------------------------------------------
// Entry sequences seen as maps
// ---------------------------------------------------------------------------

/// The map that `s` stands for when each entry is filed under `key` with
/// value `val`.
pub open spec fn entry_map<K, V>(
    s: Seq<PathEntry>,
    key: spec_fn(PathEntry) -> K,
    val: spec_fn(PathEntry) -> V,
) -> Map<K, V> {
    Map::new(
        |k: K| exists|i: int| 0 <= i < s.len() && key(s[i]) == k,
        |k: K| val(s[choose|i: int| 0 <= i < s.len() && key(s[i]) == k]),
    )
}

/// No two entries of `s` share a key.
pub open spec fn keys_unique<K>(s: Seq<PathEntry>, key: spec_fn(PathEntry) -> K) -> bool {
    forall|i: int, j: int|
        0 <= i < s.len() && 0 <= j < s.len() && i != j ==> key(s[i]) != key(s[j])
}

/// `m` with only the entries whose timestamp (`stamp` of the value) is
/// within `window` of `now`.
pub open spec fn recent_by<K, V>(m: Map<K, V>, stamp: spec_fn(V) -> u64, now: u64, window: u64) -> Map<
    K,
    V,
> {
    Map::new(|k: K| m.contains_key(k) && within(now, stamp(m[k]), window), |k: K| m[k])
}

/// `kept` holds, newest position first, exactly the entries of `s` seen
/// within `window` of `now`; `origin[a]` is where `kept[a]` stood in `s`.
pub open spec fn kept_recent(s: Seq<PathEntry>, kept: Seq<PathEntry>, origin: Seq<int>, now: u64, window: u64) -> bool {
    &&& origin.len() == kept.len()
    &&& forall|a: int| 0 <= a < kept.len() ==> 0 <= #[trigger] origin[a] < s.len() && kept[a] == s[origin[a]]
    &&& forall|a: int, b: int| 0 <= a < b < kept.len() ==> origin[a] > origin[b]
    &&& forall|j: int|
        0 <= j < s.len() ==> (within(now, s[j].ktime_ns, window) <==> exists|a: int|
            0 <= a < kept.len() && origin[a] == j)
}

proof fn lemma_entry_map_at<K, V>(s: Seq<PathEntry>, key: spec_fn(PathEntry) -> K, val: spec_fn(PathEntry) -> V, i: int)
    requires
        keys_unique(s, key),
        0 <= i < s.len(),
    ensures
        entry_map(s, key, val).contains_key(key(s[i])),
        entry_map(s, key, val)[key(s[i])] == val(s[i]),
{
    let k = key(s[i]);
    assert(entry_map(s, key, val).dom().contains(k));
    let j = choose|j: int| 0 <= j < s.len() && key(s[j]) == k;
    assert(j == i);
}

/// Overwriting the entry at `i` with one of the same key sets that key.
proof fn lemma_entry_map_update<K, V>(
    s: Seq<PathEntry>,
    key: spec_fn(PathEntry) -> K,
    val: spec_fn(PathEntry) -> V,
    i: int,
    e: PathEntry,
)
    requires
        keys_unique(s, key),
        0 <= i < s.len(),
        key(e) == key(s[i]),
    ensures
        keys_unique(s.update(i, e), key),
        entry_map(s.update(i, e), key, val) == entry_map(s, key, val).insert(key(e), val(e)),
{
    let t = s.update(i, e);
    assert forall|a: int, b: int| 0 <= a < t.len() && 0 <= b < t.len() && a != b implies key(t[a]) != key(t[b]) by {
        assert(key(t[a]) == key(s[a]));
        assert(key(t[b]) == key(s[b]));
    }
    let m = entry_map(s, key, val).insert(key(e), val(e));
    assert forall|k| entry_map(t, key, val).dom().contains(k) <==> m.dom().contains(k) by {
        if entry_map(s, key, val).dom().contains(k) {
            let j = choose|j: int| 0 <= j < s.len() && key(s[j]) == k;
            assert(key(t[j]) == k);
        }
        if k == key(e) {
            assert(key(t[i]) == k);
        }
        if entry_map(t, key, val).dom().contains(k) {
            let j = choose|j: int| 0 <= j < t.len() && key(t[j]) == k;
            if j != i {
                assert(key(s[j]) == k);
            }
        }
    }
    assert forall|k| #[trigger] entry_map(t, key, val).dom().contains(k) implies entry_map(t, key, val)[k] == m[k] by {
        let j = choose|j: int| 0 <= j < t.len() && key(t[j]) == k;
        lemma_entry_map_at(t, key, val, j);
        if j != i {
            lemma_entry_map_at(s, key, val, j);
        }
    }
    assert(entry_map(t, key, val) =~= m);
}

/// Appending an entry under a new key adds that key.
proof fn lemma_entry_map_push<K, V>(
    s: Seq<PathEntry>,
    key: spec_fn(PathEntry) -> K,
    val: spec_fn(PathEntry) -> V,
    e: PathEntry,
)
    requires
        keys_unique(s, key),
        forall|i: int| 0 <= i < s.len() ==> key(s[i]) != key(e),
    ensures
        keys_unique(s.push(e), key),
        entry_map(s.push(e), key, val) == entry_map(s, key, val).insert(key(e), val(e)),
{
    let t = s.push(e);
    assert forall|a: int, b: int| 0 <= a < t.len() && 0 <= b < t.len() && a != b implies key(t[a]) != key(t[b]) by {
        if a < s.len() {
            assert(t[a] == s[a]);
        }
        if b < s.len() {
            assert(t[b] == s[b]);
        }
    }
    let m = entry_map(s, key, val).insert(key(e), val(e));
    assert forall|k| entry_map(t, key, val).dom().contains(k) <==> m.dom().contains(k) by {
        if entry_map(s, key, val).dom().contains(k) {
            let j = choose|j: int| 0 <= j < s.len() && key(s[j]) == k;
            assert(key(t[j]) == k);
        }
        if k == key(e) {
            assert(key(t[t.len() - 1]) == k);
        }
        if entry_map(t, key, val).dom().contains(k) {
            let j = choose|j: int| 0 <= j < t.len() && key(t[j]) == k;
            if j < s.len() {
                assert(key(s[j]) == k);
            }
        }
    }
    assert forall|k| #[trigger] entry_map(t, key, val).dom().contains(k) implies entry_map(t, key, val)[k] == m[k] by {
        let j = choose|j: int| 0 <= j < t.len() && key(t[j]) == k;
        lemma_entry_map_at(t, key, val, j);
        if j < s.len() {
            assert(t[j] == s[j]);
            lemma_entry_map_at(s, key, val, j);
        }
    }
    assert(entry_map(t, key, val) =~= m);
}

/// Taking out the entry at `i` takes out its key.
proof fn lemma_entry_map_remove<K, V>(
    s: Seq<PathEntry>,
    key: spec_fn(PathEntry) -> K,
    val: spec_fn(PathEntry) -> V,
    i: int,
)
    requires
        keys_unique(s, key),
        0 <= i < s.len(),
    ensures
        keys_unique(s.remove(i), key),
        entry_map(s.remove(i), key, val) == entry_map(s, key, val).remove(key(s[i])),
{
    let t = s.remove(i);
    assert forall|a: int, b: int| 0 <= a < t.len() && 0 <= b < t.len() && a != b implies key(t[a]) != key(t[b]) by {
        let oa = if a < i { a } else { a + 1 };
        let ob = if b < i { b } else { b + 1 };
        assert(t[a] == s[oa]);
        assert(t[b] == s[ob]);
    }
    let target = key(s[i]);
    let m = entry_map(s, key, val).remove(target);
    assert forall|k| entry_map(t, key, val).dom().contains(k) <==> m.dom().contains(k) by {
        if entry_map(t, key, val).dom().contains(k) {
            let j = choose|j: int| 0 <= j < t.len() && key(t[j]) == k;
            let oj = if j < i { j } else { j + 1 };
            assert(t[j] == s[oj]);
        }
        if entry_map(s, key, val).dom().contains(k) && k != target {
            let j = choose|j: int| 0 <= j < s.len() && key(s[j]) == k;
            let nj = if j < i { j } else { j - 1 };
            assert(t[nj] == s[j]);
        }
    }
    assert forall|k| #[trigger] entry_map(t, key, val).dom().contains(k) implies entry_map(t, key, val)[k] == m[k] by {
        let j = choose|j: int| 0 <= j < t.len() && key(t[j]) == k;
        let oj = if j < i { j } else { j + 1 };
        assert(t[j] == s[oj]);
        lemma_entry_map_at(t, key, val, j);
        lemma_entry_map_at(s, key, val, oj);
    }
    assert(entry_map(t, key, val) =~= m);
}

/// Keeping the recent entries keeps exactly the recent keys.
proof fn lemma_entry_map_retain<K, V>(
    s: Seq<PathEntry>,
    kept: Seq<PathEntry>,
    origin: Seq<int>,
    key: spec_fn(PathEntry) -> K,
    val: spec_fn(PathEntry) -> V,
    stamp: spec_fn(V) -> u64,
    now: u64,
    window: u64,
)
    requires
        keys_unique(s, key),
        kept_recent(s, kept, origin, now, window),
        forall|e: PathEntry| #[trigger] stamp(val(e)) == e.ktime_ns,
    ensures
        keys_unique(kept, key),
        entry_map(kept, key, val) == recent_by(entry_map(s, key, val), stamp, now, window),
{
    assert forall|a: int, b: int|
        0 <= a < kept.len() && 0 <= b < kept.len() && a != b implies key(kept[a]) != key(kept[b]) by {
        assert(origin[a] != origin[b]);
    }
    let target = recent_by(entry_map(s, key, val), stamp, now, window);
    assert forall|k| entry_map(kept, key, val).dom().contains(k) <==> target.dom().contains(k) by {
        if entry_map(kept, key, val).dom().contains(k) {
            let a = choose|a: int| 0 <= a < kept.len() && key(kept[a]) == k;
            let j = origin[a];
            lemma_entry_map_at(s, key, val, j);
            assert(stamp(val(s[j])) == s[j].ktime_ns);
        }
        if target.dom().contains(k) {
            let j = choose|j: int| 0 <= j < s.len() && key(s[j]) == k;
            lemma_entry_map_at(s, key, val, j);
            assert(stamp(val(s[j])) == s[j].ktime_ns);
            let a = choose|a: int| 0 <= a < kept.len() && origin[a] == j;
            assert(key(kept[a]) == k);
        }
    }
    assert forall|k| #[trigger] entry_map(kept, key, val).dom().contains(k) implies entry_map(kept, key, val)[k]
        == target[k] by {
        let a = choose|a: int| 0 <= a < kept.len() && key(kept[a]) == k;
        lemma_entry_map_at(kept, key, val, a);
        lemma_entry_map_at(s, key, val, origin[a]);
    }
    assert(entry_map(kept, key, val) =~= target);
}

/// The entries of `v` seen within `window_ns` of `now_ns`.
fn keep_recent(v: Vec<PathEntry>, now_ns: u64, window_ns: u64) -> (kept: Vec<PathEntry>)
    ensures
        exists|origin: Seq<int>| kept_recent(v@, kept@, origin, now_ns, window_ns),
{
    let ghost old_s = v@;
    let mut v = v;
    let mut kept: Vec<PathEntry> = Vec::new();
    let ghost mut origin: Seq<int> = Seq::empty();
    while v.len() > 0
        invariant
            v@ == old_s.take(v@.len() as int),
            v@.len() <= old_s.len(),
            origin.len() == kept@.len(),
            forall|a: int| 0 <= a < kept@.len() ==> v@.len() <= #[trigger] origin[a] < old_s.len()
                && kept@[a] == old_s[origin[a]],
            forall|a: int, b: int| 0 <= a < b < kept@.len() ==> origin[a] > origin[b],
            forall|j: int|
                v@.len() <= j < old_s.len() ==> (within(now_ns, old_s[j].ktime_ns, window_ns)
                    <==> exists|a: int| 0 <= a < kept@.len() && origin[a] == j),
        decreases v@.len(),
    {
        let ghost before = v@.len() as int;
        let ghost o0 = origin;
        let ghost n0 = kept@.len() as int;
        let e = v.pop().unwrap();
        if now_ns.saturating_sub(e.ktime_ns) <= window_ns {
            kept.push(e);
            proof {
                origin = origin.push(before - 1);
            }
        }
        proof {
            assert(v@ =~= old_s.take(v@.len() as int));
            assert(e == old_s[before - 1]);
            assert forall|a: int| 0 <= a < n0 implies origin[a] == o0[a] by {}
            assert forall|j: int|
                v@.len() <= j < old_s.len() implies (within(now_ns, old_s[j].ktime_ns, window_ns)
                    <==> exists|a: int| 0 <= a < kept@.len() && origin[a] == j) by {
                if j == before - 1 {
                    if within(now_ns, old_s[j].ktime_ns, window_ns) {
                        assert(origin[kept@.len() - 1] == j);
                    } else {
                        assert forall|a: int| 0 <= a < kept@.len() implies origin[a] != j by {
                            assert(o0[a] >= before);
                        }
                    }
                } else {
                    if within(now_ns, old_s[j].ktime_ns, window_ns) {
                        let a = choose|a: int| 0 <= a < n0 && o0[a] == j;
                        assert(origin[a] == j);
                    }
                    if exists|a: int| 0 <= a < kept@.len() && origin[a] == j {
                        let a = choose|a: int| 0 <= a < kept@.len() && origin[a] == j;
                        if a < n0 {
                            assert(o0[a] == j);
                        }
                    }
                }
            }
        }
    }
    assert(kept_recent(old_s, kept@, origin, now_ns, window_ns));
    kept
}

// ---------------------------------------------------------------------------
// Keyed by (pid, path)
// ---------------------------------------------------------------------------

/// Key of an entry in a [`WriteTable`].
pub open spec fn write_key(e: PathEntry) -> (u32, Seq<char>) {
    (e.pid, e.path@)
}

/// How a [`WriteTable`] files its entries: by process and path.
pub open spec fn write_keys() -> spec_fn(PathEntry) -> (u32, Seq<char>) {
    |e: PathEntry| write_key(e)
}

/// What a [`WriteTable`] keeps of an entry: its time.
pub open spec fn write_times() -> spec_fn(PathEntry) -> u64 {
    |e: PathEntry| e.ktime_ns
}

/// `m` with only the entries seen within `window` of `now`.
pub open spec fn recent_writes(m: Map<(u32, Seq<char>), u64>, now: u64, window: u64) -> Map<
    (u32, Seq<char>),
    u64,
> {
    Map::new(
        |k: (u32, Seq<char>)| m.contains_key(k) && within(now, m[k], window),
        |k: (u32, Seq<char>)| m[k],
    )
}

/// Timestamps of recently written paths, by process and path.
pub struct WriteTable {
    entries: Vec<PathEntry>,
}

impl View for WriteTable {
    type V = Map<(u32, Seq<char>), u64>;

    closed spec fn view(&self) -> Map<(u32, Seq<char>), u64> {
        entry_map(self.entries@, write_keys(), write_times())
    }
}

impl WriteTable {
    #[verifier::type_invariant]
    closed spec fn keys_distinct(self) -> bool {
        keys_unique(self.entries@, write_keys())
    }

    /// An empty table.
    pub fn new() -> (r: WriteTable)
        ensures
            r@ == Map::<(u32, Seq<char>), u64>::empty(),
    {
        let r = WriteTable { entries: Vec::new() };
        assert(r@ =~= Map::<(u32, Seq<char>), u64>::empty());
        r
    }

    /// Index of the entry for `(pid, path)`, if any.
    fn find(entries: &Vec<PathEntry>, pid: u32, path: &String) -> (r: Option<usize>)
        ensures
            match r {
                Some(i) => i < entries@.len() && write_key(entries@[i as int]) == (pid, path@),
                None => forall|i: int|
                    0 <= i < entries@.len() ==> write_key(entries@[i]) != (pid, path@),
            },
    {
        let mut i: usize = 0;
        while i < entries.len()
            invariant
                i <= entries@.len(),
                forall|k: int| 0 <= k < i ==> write_key(entries@[k]) != (pid, path@),
            decreases entries@.len() - i,
        {
            if entries[i].pid == pid && entries[i].path == *path {
                return Some(i);
            }
            i = i + 1;
        }
        None
    }

    /// Records that `(pid, path)` was seen at `ktime_ns`, replacing any
    /// earlier time for the same key.
    pub fn insert(&mut self, pid: u32, path: String, ktime_ns: u64)
        ensures
            final(self)@ == old(self)@.insert((pid, path@), ktime_ns),
    {
        proof {
            use_type_invariant(&*self);
        }
        let ghost old_s = self.entries@;
        let mut v: Vec<PathEntry> = Vec::new();
        std::mem::swap(&mut v, &mut self.entries);
        let key_path = path.clone();
        let found = Self::find(&v, pid, &key_path);
        let e = PathEntry { pid, path, ktime_ns };
        proof {
            assert(write_keys()(e) == (pid, path@));
            assert(write_times()(e) == ktime_ns);
        }
        match found {
            Some(i) => {
                proof {
                    lemma_entry_map_update(old_s, write_keys(), write_times(), i as int, e);
                }
                v.set(i, e);
            },
            None => {
                proof {
                    lemma_entry_map_push(old_s, write_keys(), write_times(), e);
                }
                v.push(e);
            },
        }
        self.entries = v;
    }

    /// Takes out the entry for `(pid, path)`, returning its time.
    pub fn remove(&mut self, pid: u32, path: &String) -> (r: Option<u64>)
        ensures
            r == old(self)@.get((pid, path@)),
            final(self)@ == old(self)@.remove((pid, path@)),
    {
        proof {
            use_type_invariant(&*self);
        }
        let ghost old_s = self.entries@;
        let mut v: Vec<PathEntry> = Vec::new();
        std::mem::swap(&mut v, &mut self.entries);
        let r = match Self::find(&v, pid, path) {
            Some(i) => {
                proof {
                    lemma_entry_map_at(old_s, write_keys(), write_times(), i as int);
                    lemma_entry_map_remove(old_s, write_keys(), write_times(), i as int);
                }
                let e = v.remove(i);
                Some(e.ktime_ns)
            },
            None => {
                assert(entry_map(old_s, write_keys(), write_times()) =~= entry_map(
                    old_s,
                    write_keys(),
                    write_times(),
                ).remove((pid, path@)));
                None
            },
        };
        self.entries = v;
        r
    }

    /// Drops every entry older than `window_ns` at time `now_ns`.
    pub fn retain_recent(&mut self, now_ns: u64, window_ns: u64)
        ensures
            final(self)@ == recent_writes(old(self)@, now_ns, window_ns),
    {
        proof {
            use_type_invariant(&*self);
        }
        let ghost old_s = self.entries@;
        let mut v: Vec<PathEntry> = Vec::new();
        std::mem::swap(&mut v, &mut self.entries);
        let kept = keep_recent(v, now_ns, window_ns);
        proof {
            let origin = choose|origin: Seq<int>| kept_recent(old_s, kept@, origin, now_ns, window_ns);
            let stamp = |t: u64| t;
            assert forall|e: PathEntry| #[trigger] stamp(write_times()(e)) == e.ktime_ns by {}
            lemma_entry_map_retain(old_s, kept@, origin, write_keys(), write_times(), stamp, now_ns, window_ns);
            let m = entry_map(old_s, write_keys(), write_times());
            assert(recent_writes(m, now_ns, window_ns) =~= recent_by(m, stamp, now_ns, window_ns));
        }
        self.entries = kept;
    }
}

// ---------------------------------------------------------------------------
// Keyed by pid
// ---------------------------------------------------------------------------

/// Value of an entry in a [`PidTable`].
pub open spec fn pid_value(e: PathEntry) -> (Seq<char>, u64) {
    (e.path@, e.ktime_ns)
}

/// How a [`PidTable`] files its entries: by process.
pub open spec fn pid_keys() -> spec_fn(PathEntry) -> u32 {
    |e: PathEntry| e.pid
}

/// What a [`PidTable`] keeps of an entry: its path and time.
pub open spec fn pid_values() -> spec_fn(PathEntry) -> (Seq<char>, u64) {
    |e: PathEntry| pid_value(e)
}

/// `m` with only the entries seen within `window` of `now`.
pub open spec fn recent_paths(m: Map<u32, (Seq<char>, u64)>, now: u64, window: u64) -> Map<
    u32,
    (Seq<char>, u64),
> {
    Map::new(|k: u32| m.contains_key(k) && within(now, m[k].1, window), |k: u32| m[k])
}

/// A path and a timestamp per process.
pub struct PidTable {
    entries: Vec<PathEntry>,
}

impl View for PidTable {
    type V = Map<u32, (Seq<char>, u64)>;

    closed spec fn view(&self) -> Map<u32, (Seq<char>, u64)> {
        entry_map(self.entries@, pid_keys(), pid_values())
    }
}

impl PidTable {
    #[verifier::type_invariant]
    closed spec fn keys_distinct(self) -> bool {
        keys_unique(self.entries@, pid_keys())
    }

    /// An empty table.
    pub fn new() -> (r: PidTable)
        ensures
            r@ == Map::<u32, (Seq<char>, u64)>::empty(),
    {
        let r = PidTable { entries: Vec::new() };
        assert(r@ =~= Map::<u32, (Seq<char>, u64)>::empty());
        r
    }

    /// Index of the entry for `pid`, if any.
    fn find(entries: &Vec<PathEntry>, pid: u32) -> (r: Option<usize>)
        ensures
            match r {
                Some(i) => i < entries@.len() && entries@[i as int].pid == pid,
                None => forall|i: int| 0 <= i < entries@.len() ==> entries@[i].pid != pid,
            },
    {
        let mut i: usize = 0;
        while i < entries.len()
            invariant
                i <= entries@.len(),
                forall|k: int| 0 <= k < i ==> entries@[k].pid != pid,
            decreases entries@.len() - i,
        {
            if entries[i].pid == pid {
                return Some(i);
            }
            i = i + 1;
        }
        None
    }

    /// The path recorded for `pid`, if any.
    pub fn path_of(&self, pid: u32) -> (r: Option<&String>)
        ensures
            match r {
                Some(p) => self@.contains_key(pid) && self@[pid].0 == p@,
                None => !self@.contains_key(pid),
            },
    {
        proof {
            use_type_invariant(self);
        }
        match Self::find(&self.entries, pid) {
            Some(i) => {
                proof {
                    lemma_entry_map_at(self.entries@, pid_keys(), pid_values(), i as int);
                }
                Some(&self.entries[i].path)
            },
            None => None,
        }
    }

    /// Records `path` and `ktime_ns` for `pid`, replacing what was there.
    pub fn insert(&mut self, pid: u32, path: String, ktime_ns: u64)
        ensures
            final(self)@ == old(self)@.insert(pid, (path@, ktime_ns)),
    {
        proof {
            use_type_invariant(&*self);
        }
        let ghost old_s = self.entries@;
        let mut v: Vec<PathEntry> = Vec::new();
        std::mem::swap(&mut v, &mut self.entries);
        let found = Self::find(&v, pid);
        let e = PathEntry { pid, path, ktime_ns };
        proof {
            assert(pid_keys()(e) == pid);
            assert(pid_values()(e) == (path@, ktime_ns));
        }
        match found {
            Some(i) => {
                proof {
                    lemma_entry_map_update(old_s, pid_keys(), pid_values(), i as int, e);
                }
                v.set(i, e);
            },
            None => {
                proof {
                    lemma_entry_map_push(old_s, pid_keys(), pid_values(), e);
                }
                v.push(e);
            },
        }
        self.entries = v;
    }

    /// Takes out the entry for `pid`, returning its path and time.
    pub fn remove(&mut self, pid: u32) -> (r: Option<(String, u64)>)
        ensures
            match r {
                Some((p, t)) => old(self)@.contains_key(pid) && old(self)@[pid] == (p@, t),
                None => !old(self)@.contains_key(pid),
            },
            final(self)@ == old(self)@.remove(pid),
    {
        proof {
            use_type_invariant(&*self);
        }
        let ghost old_s = self.entries@;
        let mut v: Vec<PathEntry> = Vec::new();
        std::mem::swap(&mut v, &mut self.entries);
        let r = match Self::find(&v, pid) {
            Some(i) => {
                proof {
                    lemma_entry_map_at(old_s, pid_keys(), pid_values(), i as int);
                    lemma_entry_map_remove(old_s, pid_keys(), pid_values(), i as int);
                }
                let e = v.remove(i);
                Some((e.path, e.ktime_ns))
            },
            None => {
                assert(entry_map(old_s, pid_keys(), pid_values()) =~= entry_map(
                    old_s,
                    pid_keys(),
                    pid_values(),
                ).remove(pid));
                None
            },
        };
        self.entries = v;
        r
    }

    /// Drops every entry older than `window_ns` at time `now_ns`.
    pub fn retain_recent(&mut self, now_ns: u64, window_ns: u64)
        ensures
            final(self)@ == recent_paths(old(self)@, now_ns, window_ns),
    {
        proof {
            use_type_invariant(&*self);
        }
        let ghost old_s = self.entries@;
        let mut v: Vec<PathEntry> = Vec::new();
        std::mem::swap(&mut v, &mut self.entries);
        let kept = keep_recent(v, now_ns, window_ns);
        proof {
            let origin = choose|origin: Seq<int>| kept_recent(old_s, kept@, origin, now_ns, window_ns);
            let stamp = |t: (Seq<char>, u64)| t.1;
            assert forall|e: PathEntry| #[trigger] stamp(pid_values()(e)) == e.ktime_ns by {}
            lemma_entry_map_retain(old_s, kept@, origin, pid_keys(), pid_values(), stamp, now_ns, window_ns);
            let m = entry_map(old_s, pid_keys(), pid_values());
            assert(recent_paths(m, now_ns, window_ns) =~= recent_by(m, stamp, now_ns, window_ns));
        }
        self.entries = kept;
    }
}

} // verus!
