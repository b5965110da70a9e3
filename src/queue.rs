use vstd::prelude::*;
use crate::fault::Fault;
use crate::library::texts;

verus! {

/// One queued track: its place in the play order and the path of its file.
pub struct Entry {
    pub position: u64,
    pub path: String,
}

impl View for Entry {
    type V = (u64, Seq<char>);

    open spec fn view(&self) -> (u64, Seq<char>) {
        (self.position, self.path@)
    }
}

/// The abstract queue: entries as (position, path) pairs in play order.
pub open spec fn entries_view(v: Seq<Entry>) -> Seq<(u64, Seq<char>)> {
    v.map_values(|e: Entry| e@)
}

/// Positions strictly increase along the queue, so they are unique and the
/// first entry holds the smallest one.
pub open spec fn positions_increasing(s: Seq<(u64, Seq<char>)>) -> bool {
    forall|i: int, j: int| 0 <= i < j < s.len() ==> s[i].0 < s[j].0
}

/// The paths of a queue, in play order.
pub open spec fn paths_of(s: Seq<(u64, Seq<char>)>) -> Seq<Seq<char>> {
    s.map_values(|e: (u64, Seq<char>)| e.1)
}

/// The entry that plays next: the one with the smallest position.
pub open spec fn head(s: Seq<(u64, Seq<char>)>) -> Option<(u64, Seq<char>)> {
    if s.len() == 0 {
        None
    } else {
        Some(s[0])
    }
}

/// Whether some entry of the queue sits at `p`.
pub open spec fn holds_position(s: Seq<(u64, Seq<char>)>, p: u64) -> bool {
    exists|k: int| 0 <= k < s.len() && s[k].0 == p
}

/// The queue once the entry at position `p` is deleted; unchanged when no
/// entry sits there.
pub open spec fn removed(s: Seq<(u64, Seq<char>)>, p: u64) -> Seq<(u64, Seq<char>)> {
    if holds_position(s, p) {
        s.remove(choose|k: int| 0 <= k < s.len() && s[k].0 == p)
    } else {
        s
    }
}

/// The queue built from paths in play order: the i-th path at position i.
pub open spec fn population(paths: Seq<Seq<char>>) -> Seq<(u64, Seq<char>)> {
    Seq::new(paths.len(), |i: int| (i as u64, paths[i]))
}

/// `s` holds the paths of `songs`, each as often as there, at positions
/// 0..n-1 in play order.
pub open spec fn is_shuffle_of(s: Seq<(u64, Seq<char>)>, songs: Seq<Seq<char>>) -> bool {
    &&& s.len() == songs.len()
    &&& forall|i: int| 0 <= i < s.len() ==> #[trigger] s[i].0 == i
    &&& paths_of(s).to_multiset() == songs.to_multiset()
}

/// Relies on rand's SliceRandom::shuffle, driven by rand::thread_rng: it
/// permutes the slice in place (a series of swaps), so the same paths remain.
#[verifier::external_body]
fn shuffle_songs(songs: &mut Vec<String>)
    ensures
        final(songs)@.len() == old(songs)@.len(),
        texts(final(songs)@).to_multiset() == texts(old(songs)@).to_multiset(),
{
    rand::seq::SliceRandom::shuffle(songs.as_mut_slice(), &mut rand::thread_rng());
}

/// The play queue: entries ordered by strictly increasing position.
pub struct TrackQueue {
    entries: Vec<Entry>,
}

impl View for TrackQueue {
    type V = Seq<(u64, Seq<char>)>;

    closed spec fn view(&self) -> Seq<(u64, Seq<char>)> {
        entries_view(self.entries@)
    }
}

impl TrackQueue {
    /// Well-formed: positions strictly increase along the queue.
    pub open spec fn wf(&self) -> bool {
        positions_increasing(self@)
    }

    /// An empty queue.
    pub fn new() -> (r: TrackQueue)
        ensures
            r@ == Seq::<(u64, Seq<char>)>::empty(),
            r.wf(),
    {
        let r = TrackQueue { entries: Vec::new() };
        assert(r@ =~= Seq::<(u64, Seq<char>)>::empty());
        r
    }

    /// The number of queued entries.
    pub fn len(&self) -> (r: usize)
        ensures
            r == self@.len(),
    {
        self.entries.len()
    }

    /// The queued entries, in play order.
    pub fn entries(&self) -> (r: &Vec<Entry>)
        ensures
            entries_view(r@) == self@,
    {
        &self.entries
    }

    /// Rebuilds a queue from stored rows, which must come in strictly
    /// increasing position order; anything else means the store is damaged.
    pub fn from_rows(rows: Vec<Entry>) -> (r: Result<TrackQueue, Fault>)
        ensures
            r is Ok <==> positions_increasing(entries_view(rows@)),
            r matches Ok(q) ==> q@ == entries_view(rows@) && q.wf(),
            r matches Err(f) ==> f == Fault::Storage,
    {
        let ghost rv = entries_view(rows@);
        let mut i: usize = 1;
        while i < rows.len()
            invariant
                1 <= i,
                rv == entries_view(rows@),
                rows@.len() == 0 || i <= rows@.len(),
                forall|a: int, b: int| 0 <= a < b < i && b < rv.len() ==> rv[a].0 < rv[b].0,
            decreases rows@.len() - i,
        {
            if rows[i - 1].position >= rows[i].position {
                assert(rv[i - 1].0 >= rv[i as int].0);
                return Err(Fault::Storage);
            }
            assert forall|a: int, b: int| 0 <= a < b < i + 1 && b < rv.len() implies rv[a].0
                < rv[b].0 by {
                if b == i && a < i - 1 {
                    assert(rv[a].0 < rv[i - 1].0);
                }
            }
            i = i + 1;
        }
        Ok(TrackQueue { entries: rows })
    }

    /// The entry that plays next, left in the queue; `None` when the queue is
    /// empty and must be populated first.
    pub fn next_track(&self) -> (r: Option<Entry>)
        ensures
            r is None <==> self@.len() == 0,
            r matches Some(e) ==> head(self@) == Some(e@),
    {
        if self.entries.len() == 0 {
            None
        } else {
            let first = &self.entries[0];
            Some(Entry { position: first.position, path: first.path.clone() })
        }
    }

    /// Replaces the queue by `shuffled`, taken as the play order: the i-th
    /// path at position i. Returns the first entry, or the library-empty fault
    /// (queue unchanged) when there is no path.
    pub fn load_shuffled(&mut self, shuffled: Vec<String>) -> (r: Result<Entry, Fault>)
        requires
            old(self).wf(),
        ensures
            r is Err <==> shuffled@.len() == 0,
            r matches Err(f) ==> f == Fault::LibraryEmpty && final(self)@ == old(self)@,
            r matches Ok(e) ==> final(self)@ == population(texts(shuffled@)) && head(
                final(self)@,
            ) == Some(e@),
            final(self).wf(),
    {
        if shuffled.len() == 0 {
            return Err(Fault::LibraryEmpty);
        }
        let ghost target = population(texts(shuffled@));
        let mut entries: Vec<Entry> = Vec::new();
        let mut i: usize = 0;
        while i < shuffled.len()
            invariant
                i <= shuffled@.len(),
                target == population(texts(shuffled@)),
                entries_view(entries@) == target.take(i as int),
            decreases shuffled@.len() - i,
        {
            let ghost before = entries@;
            entries.push(Entry { position: i as u64, path: shuffled[i].clone() });
            assert(entries_view(entries@) =~= entries_view(before).push(target[i as int]));
            assert(target.take(i + 1) =~= target.take(i as int).push(target[i as int]));
            i = i + 1;
        }
        assert(target.take(i as int) =~= target);
        assert(positions_increasing(target));
        let first = Entry { position: entries[0].position, path: entries[0].path.clone() };
        self.entries = entries;
        Ok(first)
    }

    /// Shuffles the playable files that a library scan collected, uniformly
    /// at random, and loads them as the new queue, positions 0..n-1 in
    /// shuffled order. Returns the first entry, or the library-empty fault (queue
    /// unchanged) when `songs` is empty.
    pub fn populate(&mut self, songs: Vec<String>) -> (r: Result<Entry, Fault>)
        requires
            old(self).wf(),
        ensures
            r is Err <==> songs@.len() == 0,
            r matches Err(f) ==> f == Fault::LibraryEmpty && final(self)@ == old(self)@,
            r matches Ok(e) ==> is_shuffle_of(final(self)@, texts(songs@)) && head(final(self)@)
                == Some(e@),
            final(self).wf(),
    {
        let mut songs = songs;
        shuffle_songs(&mut songs);
        let n = songs.len();
        let r = self.load_shuffled(songs);
        proof {
            if r is Ok {
                assert(paths_of(self@) =~= texts(songs@));
                assert forall|i: int| 0 <= i < self@.len() implies #[trigger] self@[i].0 == i by {
                    assert(self@[i] == population(texts(songs@))[i]);
                    assert(i < n);
                }
            }
        }
        r
    }

    /// Deletes the entry at `position`, if there is one; every other entry
    /// stays, in order.
    pub fn remove(&mut self, position: u64)
        requires
            old(self).wf(),
        ensures
            final(self)@ == removed(old(self)@, position),
            final(self).wf(),
    {
        let ghost s = self@;
        assert(positions_increasing(s));
        let mut k: usize = 0;
        while k < self.entries.len()
            invariant
                s == self@,
                s == old(self)@,
                k <= s.len(),
                forall|j: int| 0 <= j < k ==> s[j].0 != position,
                positions_increasing(s),
            decreases s.len() - k,
        {
            assert(s[k as int] == self.entries@[k as int]@);
            if self.entries[k].position == position {
                proof {
                    let c = choose|c: int| 0 <= c < s.len() && s[c].0 == position;
                    assert(holds_position(s, position));
                    assert(c == k) by {
                        if c < k {
                            assert(s[c].0 < s[k as int].0);
                        } else if c > k {
                            assert(s[k as int].0 < s[c].0);
                        }
                    }
                    assert(removed(s, position) == s.remove(k as int));
                }
                self.entries.remove(k);
                assert(self@ =~= s.remove(k as int));
                return;
            }
            k = k + 1;
        }
    }
}

} // verus!

verus! {

/// The paths handed out by `n` cycles of taking the head of the queue and
/// then deleting its position.
pub open spec fn dequeued(s: Seq<(u64, Seq<char>)>, n: nat) -> Seq<Seq<char>>
    decreases n,
{
    if n == 0 || s.len() == 0 {
        Seq::empty()
    } else {
        seq![s[0].1] + dequeued(removed(s, s[0].0), (n - 1) as nat)
    }
}

/// The queue left after `n` such cycles.
pub open spec fn after_cycles(s: Seq<(u64, Seq<char>)>, n: nat) -> Seq<(u64, Seq<char>)>
    decreases n,
{
    if n == 0 || s.len() == 0 {
        s
    } else {
        after_cycles(removed(s, s[0].0), (n - 1) as nat)
    }
}

/// Deleting a position removes at most the one entry there: every entry at
/// another position stays, order is kept, and deleting it again (or deleting
/// a position that holds nothing) changes nothing.
pub proof fn lemma_remove_idempotent(s: Seq<(u64, Seq<char>)>, p: u64)
    requires
        positions_increasing(s),
    ensures
        removed(removed(s, p), p) == removed(s, p),
        !holds_position(s, p) ==> removed(s, p) == s,
        holds_position(s, p) ==> removed(s, p).len() == s.len() - 1,
        !holds_position(removed(s, p), p),
        positions_increasing(removed(s, p)),
        forall|i: int| 0 <= i < s.len() && s[i].0 != p ==> removed(s, p).contains(#[trigger] s[i]),
{
    if holds_position(s, p) {
        let k = choose|k: int| 0 <= k < s.len() && s[k].0 == p;
        let r = s.remove(k);
        assert forall|i: int| 0 <= i < s.len() && s[i].0 != p implies r.contains(#[trigger] s[i]) by {
            if i < k {
                assert(r[i] == s[i]);
            } else {
                assert(i != k);
                assert(r[i - 1] == s[i]);
            }
        }
        assert(!holds_position(r, p)) by {
            if holds_position(r, p) {
                let j = choose|j: int| 0 <= j < r.len() && r[j].0 == p;
                if j < k {
                    assert(s[j].0 < s[k].0);
                } else {
                    assert(r[j] == s[j + 1]);
                    assert(s[k].0 < s[j + 1].0);
                }
            }
        }
        assert forall|a: int, b: int| 0 <= a < b < r.len() implies r[a].0 < r[b].0 by {
            let sa = if a < k { a } else { a + 1 };
            let sb = if b < k { b } else { b + 1 };
            assert(r[a] == s[sa] && r[b] == s[sb]);
        }
    }
}

/// Taking the head and deleting its position leaves exactly the rest of the
/// queue, still in increasing position order.
pub proof fn lemma_dequeue_head(s: Seq<(u64, Seq<char>)>)
    requires
        positions_increasing(s),
        s.len() > 0,
    ensures
        removed(s, s[0].0) == s.drop_first(),
        positions_increasing(s.drop_first()),
{
    let p = s[0].0;
    assert(holds_position(s, p));
    let k = choose|k: int| 0 <= k < s.len() && s[k].0 == p;
    if k > 0 {
        assert(s[0].0 < s[k].0);
    }
    assert(s.remove(0) =~= s.drop_first());
}

/// Repeated cycles of taking the head and deleting its position hand out
/// every entry exactly once, in position order, and then leave the queue
/// empty.
pub proof fn lemma_drain_in_order(s: Seq<(u64, Seq<char>)>)
    requires
        positions_increasing(s),
    ensures
        dequeued(s, s.len()) == paths_of(s),
        after_cycles(s, s.len()).len() == 0,
    decreases s.len(),
{
    if s.len() > 0 {
        lemma_dequeue_head(s);
        lemma_drain_in_order(s.drop_first());
        assert(paths_of(s) =~= seq![s[0].1] + paths_of(s.drop_first()));
    }
}

/// A population of n paths holds exactly n entries at positions 0..n-1 in
/// strictly increasing order; draining it hands out every path exactly
/// once, in the shuffled order, before the queue is empty.
pub proof fn lemma_population_drains(paths: Seq<Seq<char>>)
    requires
        paths.len() <= u64::MAX,
    ensures
        population(paths).len() == paths.len(),
        positions_increasing(population(paths)),
        forall|i: int| 0 <= i < paths.len() ==> #[trigger] population(paths)[i].0 == i,
        paths_of(population(paths)) == paths,
        dequeued(population(paths), paths.len()) == paths,
        after_cycles(population(paths), paths.len()).len() == 0,
{
    let s = population(paths);
    assert(paths_of(s) =~= paths);
    lemma_drain_in_order(s);
}

/// A freshly populated queue (as `populate` leaves it) has positions in
/// strictly increasing order, and draining it hands out each collected path
/// exactly as often as it was collected, in the queue's order, before the
/// queue is empty.
pub proof fn lemma_populated_queue_drains(s: Seq<(u64, Seq<char>)>, songs: Seq<Seq<char>>)
    requires
        is_shuffle_of(s, songs),
    ensures
        positions_increasing(s),
        dequeued(s, s.len()) == paths_of(s),
        dequeued(s, s.len()).to_multiset() == songs.to_multiset(),
        after_cycles(s, s.len()).len() == 0,
{
    assert forall|i: int, j: int| 0 <= i < j < s.len() implies s[i].0 < s[j].0 by {
        assert(s[i].0 == i && s[j].0 == j);
    }
    lemma_drain_in_order(s);
}

/// An empty queue has no next track, so it must be populated; once populated
/// from a non-empty library its next track is the first shuffled path, at
/// position 0, and asking again without a removal gives that same entry.
pub proof fn lemma_repopulation(s: Seq<(u64, Seq<char>)>, paths: Seq<Seq<char>>)
    requires
        s.len() == 0,
        0 < paths.len() <= u64::MAX,
    ensures
        head(s) is None,
        head(population(paths)) == Some((0u64, paths[0])),
        paths.contains(paths[0]),
{
}

} // verus!
