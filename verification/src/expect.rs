//! Predictions that a reader holds about keys, pending confirmation.
//!
//! A [`Predictions`] value is a finite map from keys to [`ExpectedStatus`],
//! kept as a list of entries in which no key occurs twice. The list keeps the
//! order in which the keys were first recorded.

use vstd::prelude::*;

verus! {

/// An unresolved belief about a key.
#[derive(Debug, PartialEq, Eq)]
pub enum ExpectedStatus {
    /// The store held `value`, written at `step`, when the key was last read.
    Existed { value: Vec<u8>, step: usize },
    /// The store held nothing when the key was last read.
    Deleted,
}

/// What an [`ExpectedStatus`] stands for.
pub ghost enum StatusView {
    Existed { value: Seq<u8>, step: usize },
    Deleted,
}

impl View for ExpectedStatus {
    type V = StatusView;

    open spec fn view(&self) -> StatusView {
        match *self {
            ExpectedStatus::Existed { value, step } => StatusView::Existed { value: value@, step },
            ExpectedStatus::Deleted => StatusView::Deleted,
        }
    }
}

impl Clone for ExpectedStatus {
    fn clone(&self) -> (c: Self)
        ensures
            c@ == self@,
    {
        match self {
            ExpectedStatus::Existed { value, step } => ExpectedStatus::Existed {
                value: value.clone(),
                step: *step,
            },
            ExpectedStatus::Deleted => ExpectedStatus::Deleted,
        }
    }
}

/// A key with the prediction recorded for it.
#[derive(Debug, PartialEq, Eq)]
pub struct Pending {
    pub key: Vec<u8>,
    pub status: ExpectedStatus,
}

/// What a [`Pending`] stands for.
pub ghost struct PendingView {
    pub key: Seq<u8>,
    pub status: StatusView,
}

impl View for Pending {
    type V = PendingView;

    open spec fn view(&self) -> PendingView {
        PendingView { key: self.key@, status: self.status@ }
    }
}

/// Whether `entries` holds `key` at position `i`.
pub open spec fn holds_at(entries: Seq<Pending>, key: Seq<u8>, i: int) -> bool {
    0 <= i < entries.len() && entries[i].key@ == key
}

/// No key occurs twice in `entries`.
pub open spec fn distinct_keys(entries: Seq<Pending>) -> bool {
    forall|i: int, j: int|
        0 <= i < j < entries.len() ==> (#[trigger] entries[i]).key@ != (#[trigger] entries[j]).key@
}

/// The map that a list of entries with distinct keys stands for.
pub open spec fn map_of(entries: Seq<Pending>) -> Map<Seq<u8>, StatusView> {
    Map::new(
        |key: Seq<u8>| exists|i: int| holds_at(entries, key, i),
        |key: Seq<u8>| entries[choose|i: int| holds_at(entries, key, i)].status@,
    )
}

/// Each entry of a list with distinct keys is what the map holds for its key.
pub proof fn lemma_map_of_entry(entries: Seq<Pending>, i: int)
    requires
        distinct_keys(entries),
        0 <= i < entries.len(),
    ensures
        map_of(entries).contains_key(entries[i].key@),
        map_of(entries)[entries[i].key@] == entries[i].status@,
{
    let key = entries[i].key@;
    assert(holds_at(entries, key, i));
    let j = choose|j: int| holds_at(entries, key, j);
    assert(i == j) by {
        if i < j {
            assert(entries[i].key@ != entries[j].key@);
        } else if j < i {
            assert(entries[j].key@ != entries[i].key@);
        }
    }
}

/// Appending an entry under a new key inserts it into the map.
proof fn lemma_map_of_push(entries: Seq<Pending>, e: Pending)
    requires
        distinct_keys(entries),
        forall|i: int| !holds_at(entries, e.key@, i),
    ensures
        distinct_keys(entries.push(e)),
        map_of(entries.push(e)) == map_of(entries).insert(e.key@, e.status@),
{
    let after = entries.push(e);
    assert forall|i: int, j: int| 0 <= i < j < after.len() implies (#[trigger] after[i]).key@ != (
    #[trigger] after[j]).key@ by {
        if j < entries.len() {
            assert(entries[i].key@ != entries[j].key@);
        } else {
            assert(!holds_at(entries, e.key@, i));
        }
    }
    let want = map_of(entries).insert(e.key@, e.status@);
    assert forall|key: Seq<u8>| map_of(after).contains_key(key) <==> want.contains_key(key) by {
        if map_of(after).contains_key(key) {
            let i = choose|i: int| holds_at(after, key, i);
            if i < entries.len() {
                assert(holds_at(entries, key, i));
            }
        }
        if want.contains_key(key) {
            if key == e.key@ {
                assert(holds_at(after, key, entries.len() as int));
            } else {
                let i = choose|i: int| holds_at(entries, key, i);
                assert(holds_at(after, key, i));
            }
        }
    }
    assert forall|key: Seq<u8>| map_of(after).contains_key(key) implies map_of(after)[key]
        == want[key] by {
        let i = choose|i: int| holds_at(after, key, i);
        lemma_map_of_entry(after, i);
        if i < entries.len() {
            lemma_map_of_entry(entries, i);
        }
    }
    assert(map_of(after) =~= want);
}

/// Replacing the entry of a key replaces what the map holds for it.
proof fn lemma_map_of_update(entries: Seq<Pending>, i: int, e: Pending)
    requires
        distinct_keys(entries),
        0 <= i < entries.len(),
        entries[i].key@ == e.key@,
    ensures
        distinct_keys(entries.update(i, e)),
        map_of(entries.update(i, e)) == map_of(entries).insert(e.key@, e.status@),
{
    let after = entries.update(i, e);
    assert forall|a: int, b: int| 0 <= a < b < after.len() implies (#[trigger] after[a]).key@ != (
    #[trigger] after[b]).key@ by {
        assert(entries[a].key@ != entries[b].key@);
    }
    let want = map_of(entries).insert(e.key@, e.status@);
    assert forall|key: Seq<u8>| map_of(after).contains_key(key) <==> want.contains_key(key) by {
        if map_of(after).contains_key(key) {
            let j = choose|j: int| holds_at(after, key, j);
            assert(holds_at(entries, key, j));
        }
        if want.contains_key(key) {
            if key == e.key@ {
                assert(holds_at(after, key, i));
            } else {
                let j = choose|j: int| holds_at(entries, key, j);
                assert(holds_at(after, key, j));
            }
        }
    }
    assert forall|key: Seq<u8>| map_of(after).contains_key(key) implies map_of(after)[key]
        == want[key] by {
        let j = choose|j: int| holds_at(after, key, j);
        lemma_map_of_entry(after, j);
        lemma_map_of_entry(entries, j);
    }
    assert(map_of(after) =~= want);
}

/// Dropping an entry removes its key from the map.
proof fn lemma_map_of_remove(entries: Seq<Pending>, i: int)
    requires
        distinct_keys(entries),
        0 <= i < entries.len(),
    ensures
        distinct_keys(entries.remove(i)),
        map_of(entries.remove(i)) == map_of(entries).remove(entries[i].key@),
{
    let after = entries.remove(i);
    let gone = entries[i].key@;
    assert forall|a: int| 0 <= a < after.len() implies #[trigger] after[a] == entries[if a < i {
        a
    } else {
        a + 1
    }] by {}
    assert forall|a: int, b: int| 0 <= a < b < after.len() implies (#[trigger] after[a]).key@ != (
    #[trigger] after[b]).key@ by {
        let a0 = if a < i { a } else { a + 1 };
        let b0 = if b < i { b } else { b + 1 };
        assert(entries[a0].key@ != entries[b0].key@);
    }
    let want = map_of(entries).remove(gone);
    assert forall|key: Seq<u8>| map_of(after).contains_key(key) <==> want.contains_key(key) by {
        if map_of(after).contains_key(key) {
            let a = choose|a: int| holds_at(after, key, a);
            let a0 = if a < i { a } else { a + 1 };
            assert(holds_at(entries, key, a0));
            if a0 < i {
                assert(entries[a0].key@ != entries[i].key@);
            } else {
                assert(entries[i].key@ != entries[a0].key@);
            }
        }
        if want.contains_key(key) {
            let j = choose|j: int| holds_at(entries, key, j);
            assert(j != i);
            let a = if j < i { j } else { j - 1 };
            assert(holds_at(after, key, a));
        }
    }
    assert forall|key: Seq<u8>| map_of(after).contains_key(key) implies map_of(after)[key]
        == want[key] by {
        let a = choose|a: int| holds_at(after, key, a);
        let a0 = if a < i { a } else { a + 1 };
        lemma_map_of_entry(after, a);
        lemma_map_of_entry(entries, a0);
    }
    assert(map_of(after) =~= want);
}

/// Two lists whose entries stand for the same keys and predictions, place by
/// place, stand for the same map.
proof fn lemma_map_of_same_views(a: Seq<Pending>, b: Seq<Pending>)
    requires
        a.len() == b.len(),
        forall|i: int| 0 <= i < a.len() ==> (#[trigger] a[i])@ == b[i]@,
        distinct_keys(b),
    ensures
        distinct_keys(a),
        map_of(a) == map_of(b),
{
    assert forall|i: int, j: int| 0 <= i < j < a.len() implies (#[trigger] a[i]).key@ != (
    #[trigger] a[j]).key@ by {
        assert(a[i]@ == b[i]@);
        assert(a[j]@ == b[j]@);
        assert(b[i].key@ != b[j].key@);
    }
    assert forall|key: Seq<u8>| map_of(a).contains_key(key) <==> map_of(b).contains_key(key) by {
        if map_of(a).contains_key(key) {
            let i = choose|i: int| holds_at(a, key, i);
            assert(a[i]@ == b[i]@);
            assert(holds_at(b, key, i));
        }
        if map_of(b).contains_key(key) {
            let i = choose|i: int| holds_at(b, key, i);
            assert(a[i]@ == b[i]@);
            assert(holds_at(a, key, i));
        }
    }
    assert forall|key: Seq<u8>| map_of(a).contains_key(key) implies map_of(a)[key] == map_of(
        b,
    )[key] by {
        let i = choose|i: int| holds_at(a, key, i);
        assert(a[i]@ == b[i]@);
        lemma_map_of_entry(a, i);
        lemma_map_of_entry(b, i);
    }
    assert(map_of(a) =~= map_of(b));
}

/// A list with distinct keys stands for a finite map with one key for each
/// entry.
pub proof fn lemma_map_of_len(entries: Seq<Pending>)
    requires
        distinct_keys(entries),
    ensures
        map_of(entries).dom().finite(),
        map_of(entries).len() == entries.len(),
    decreases entries.len(),
{
    if entries.len() == 0 {
        assert(map_of(entries).dom() =~= Set::<Seq<u8>>::empty());
    } else {
        let front = entries.drop_last();
        let last = entries.last();
        assert(distinct_keys(front)) by {
            assert forall|i: int, j: int| 0 <= i < j < front.len() implies (
            #[trigger] front[i]).key@ != (#[trigger] front[j]).key@ by {
                assert(entries[i].key@ != entries[j].key@);
            }
        }
        assert forall|i: int| !holds_at(front, last.key@, i) by {
            if holds_at(front, last.key@, i) {
                assert(entries[i].key@ != entries[entries.len() - 1].key@);
            }
        }
        lemma_map_of_len(front);
        lemma_map_of_push(front, last);
        assert(front.push(last) =~= entries);
        assert(!map_of(front).dom().contains(last.key@)) by {
            if map_of(front).dom().contains(last.key@) {
                let i = choose|i: int| holds_at(front, last.key@, i);
                assert(!holds_at(front, last.key@, i));
            }
        }
        assert(map_of(entries).dom() =~= map_of(front).dom().insert(last.key@));
    }
}

/// The predictions of one tracker: a finite map from keys to statuses.
pub struct Predictions {
    entries: Vec<Pending>,
}

impl View for Predictions {
    type V = Map<Seq<u8>, StatusView>;

    closed spec fn view(&self) -> Map<Seq<u8>, StatusView> {
        map_of(self.entries@)
    }
}

impl Predictions {
    /// No key is held twice.
    pub closed spec fn wf(&self) -> bool {
        distinct_keys(self.entries@)
    }

    pub fn new() -> (p: Self)
        ensures
            p.wf(),
            p@ == Map::<Seq<u8>, StatusView>::empty(),
    {
        let p = Predictions { entries: Vec::new() };
        assert(p@ =~= Map::<Seq<u8>, StatusView>::empty());
        p
    }

    fn find(&self, key: &Vec<u8>) -> (r: Option<usize>)
        ensures
            match r {
                Some(i) => holds_at(self.entries@, key@, i as int),
                None => forall|i: int| !holds_at(self.entries@, key@, i),
            },
    {
        let mut i: usize = 0;
        while i < self.entries.len()
            invariant
                i <= self.entries@.len(),
                forall|j: int| 0 <= j < i ==> !holds_at(self.entries@, key@, j),
            decreases self.entries@.len() - i,
        {
            let same = self.entries[i].key == *key;
            proof {
                if same {
                    assert(self.entries@[i as int].key@ =~= key@);
                }
            }
            if same {
                return Some(i);
            }
            i = i + 1;
        }
        None
    }

    /// The prediction recorded for `key`, if there is one.
    pub fn get(&self, key: &Vec<u8>) -> (r: Option<&ExpectedStatus>)
        requires
            self.wf(),
        ensures
            match r {
                Some(status) => self@.contains_key(key@) && status@ == self@[key@],
                None => !self@.contains_key(key@),
            },
    {
        match self.find(key) {
            Some(i) => {
                proof {
                    lemma_map_of_entry(self.entries@, i as int);
                }
                Some(&self.entries[i].status)
            },
            None => None,
        }
    }

    /// Records `status` for `key`, in place of what was recorded before.
    pub fn insert(&mut self, key: Vec<u8>, status: ExpectedStatus)
        requires
            old(self).wf(),
        ensures
            final(self).wf(),
            final(self)@ == old(self)@.insert(key@, status@),
    {
        let found = self.find(&key);
        let entry = Pending { key, status };
        match found {
            Some(i) => {
                proof {
                    lemma_map_of_update(self.entries@, i as int, entry);
                }
                self.entries.set(i, entry);
            },
            None => {
                proof {
                    lemma_map_of_push(self.entries@, entry);
                }
                self.entries.push(entry);
            },
        }
    }

    /// Drops what is recorded for `key`, if anything.
    pub fn remove(&mut self, key: &Vec<u8>)
        requires
            old(self).wf(),
        ensures
            final(self).wf(),
            final(self)@ == old(self)@.remove(key@),
    {
        match self.find(key) {
            Some(i) => {
                proof {
                    lemma_map_of_remove(self.entries@, i as int);
                }
                let _ = self.entries.remove(i);
            },
            None => {
                assert(self@ =~= self@.remove(key@));
            },
        }
    }

    pub fn is_empty(&self) -> (b: bool)
        requires
            self.wf(),
        ensures
            b == (self@ == Map::<Seq<u8>, StatusView>::empty()),
            b == (self@.len() == 0),
    {
        proof {
            lemma_map_of_len(self.entries@);
            if self.entries@.len() == 0 {
                assert(self@ =~= Map::<Seq<u8>, StatusView>::empty());
            } else {
                lemma_map_of_entry(self.entries@, 0);
            }
        }
        self.entries.len() == 0
    }

    /// Number of keys with a prediction.
    pub fn len(&self) -> (n: usize)
        requires
            self.wf(),
        ensures
            n == self@.len(),
            n == 0 <==> self@ == Map::<Seq<u8>, StatusView>::empty(),
    {
        proof {
            lemma_map_of_len(self.entries@);
            if self.entries@.len() == 0 {
                assert(self@ =~= Map::<Seq<u8>, StatusView>::empty());
            } else {
                lemma_map_of_entry(self.entries@, 0);
            }
        }
        self.entries.len()
    }

    /// A copy of every entry, in the order in which the keys were first
    /// recorded: each key once, with its prediction.
    pub fn pending(&self) -> (out: Vec<Pending>)
        requires
            self.wf(),
        ensures
            distinct_keys(out@),
            map_of(out@) == self@,
            out@.len() == self@.len(),
    {
        let mut out: Vec<Pending> = Vec::new();
        let mut i: usize = 0;
        while i < self.entries.len()
            invariant
                i <= self.entries@.len(),
                out@.len() == i,
                forall|j: int| 0 <= j < i ==> (#[trigger] out@[j])@ == self.entries@[j]@,
            decreases self.entries@.len() - i,
        {
            let e = &self.entries[i];
            out.push(Pending { key: e.key.clone(), status: e.status.clone() });
            i = i + 1;
        }
        proof {
            lemma_map_of_same_views(out@, self.entries@);
            lemma_map_of_len(self.entries@);
        }
        out
    }
}

} // verus!
