use vstd::prelude::*;

verus! {

/// One observation: a derived value, the reference price it was computed
/// against, and the number of samples that went into it.
#[derive(Clone, Copy, Debug, PartialEq, Eq, Structural)]
pub struct Datapoint {
    pub observed_at: i64,
    pub derived_value: u64,
    pub reference_price: u64,
    pub sample_count: u32,
}

/// The identity of a stored datapoint: its place in the order of insertion.
#[derive(Clone, Copy, Debug, PartialEq, Eq, Structural)]
pub struct DatapointId(pub usize);

/// The test for `start <= observed_at <= end`.
pub open spec fn in_window(start: i64, end: i64) -> spec_fn(Datapoint) -> bool {
    |d: Datapoint| start <= d.observed_at <= end
}

/// The test for `observed_at == at`.
pub open spec fn observed(at: i64) -> spec_fn(Datapoint) -> bool {
    |d: Datapoint| d.observed_at == at
}

/// Puts `entry` into a timeline behind every entry that is not later than it.
pub open spec fn insert_by_time(timeline: Seq<Datapoint>, entry: Datapoint) -> Seq<Datapoint>
    decreases timeline.len(),
{
    if timeline.len() == 0 || timeline.last().observed_at <= entry.observed_at {
        timeline.push(entry)
    } else {
        insert_by_time(timeline.drop_last(), entry).push(timeline.last())
    }
}

/// The entries of a log in the order of their times; entries of the same
/// time keep the order in which they were inserted.
pub open spec fn timeline(log: Seq<Datapoint>) -> Seq<Datapoint>
    decreases log.len(),
{
    if log.len() == 0 {
        Seq::empty()
    } else {
        insert_by_time(timeline(log.drop_last()), log.last())
    }
}

/// Every entry of the log that was observed within `[start, end]`, in the
/// order of the timeline.
pub open spec fn window(log: Seq<Datapoint>, start: i64, end: i64) -> Seq<Datapoint> {
    timeline(log).filter(in_window(start, end))
}

/// The entry of the greatest time, and of these the one inserted last.
pub open spec fn latest(log: Seq<Datapoint>) -> Option<Datapoint> {
    if log.len() == 0 {
        None
    } else {
        Some(timeline(log).last())
    }
}

/// A sequence in which no entry is later than one behind it.
pub open spec fn is_time_ordered(s: Seq<Datapoint>) -> bool {
    forall|i: int, j: int| 0 <= i <= j < s.len() ==> s[i].observed_at <= s[j].observed_at
}

/// Where `insert_by_time` puts an entry: behind the last one that is not
/// later than it.
pub proof fn lemma_insert_position(timeline: Seq<Datapoint>, entry: Datapoint, position: int)
    requires
        0 <= position <= timeline.len(),
        forall|j: int|
            position <= j < timeline.len() ==> timeline[j].observed_at > entry.observed_at,
        position > 0 ==> timeline[position - 1].observed_at <= entry.observed_at,
    ensures
        insert_by_time(timeline, entry) == timeline.insert(position, entry),
    decreases timeline.len(),
{
    if position == timeline.len() {
        assert(timeline.insert(position, entry) =~= timeline.push(entry));
    } else {
        let front = timeline.drop_last();
        lemma_insert_position(front, entry, position);
        assert(front.insert(position, entry).push(timeline.last()) =~= timeline.insert(
            position,
            entry,
        ));
    }
}

/// Inserting keeps a timeline ordered, makes it one longer, and adds the new
/// entry to what it holds and nothing else.
pub proof fn lemma_insert_by_time(timeline: Seq<Datapoint>, entry: Datapoint)
    requires
        is_time_ordered(timeline),
    ensures
        is_time_ordered(insert_by_time(timeline, entry)),
        insert_by_time(timeline, entry).len() == timeline.len() + 1,
        insert_by_time(timeline, entry).to_multiset() == timeline.to_multiset().insert(entry),
    decreases timeline.len(),
{
    broadcast use vstd::seq_lib::to_multiset_build;

    if timeline.len() == 0 || timeline.last().observed_at <= entry.observed_at {
    } else {
        let front = timeline.drop_last();
        let last = timeline.last();
        assert(is_time_ordered(front)) by {
            assert forall|i: int, j: int| 0 <= i <= j < front.len() implies front[i].observed_at
                <= front[j].observed_at by {
                assert(front[i] == timeline[i] && front[j] == timeline[j]);
            }
        }
        lemma_insert_by_time(front, entry);
        let inner = insert_by_time(front, entry);
        let whole = inner.push(last);
        assert(timeline =~= front.push(last));
        assert(inner.to_multiset().insert(last) =~= front.to_multiset().insert(last).insert(
            entry,
        ));
        assert forall|i: int, j: int| 0 <= i <= j < whole.len() implies whole[i].observed_at
            <= whole[j].observed_at by {
            if j == whole.len() - 1 && i < j {
                // every entry of `inner` is `entry` or an entry of `front`
                assert(inner.to_multiset().count(inner[i]) > 0) by {
                    inner.to_multiset_ensures();
                    assert(inner.contains(inner[i]));
                }
                if inner[i] != entry {
                    assert(front.to_multiset().count(inner[i]) > 0);
                    front.to_multiset_ensures();
                    assert(front.contains(inner[i]));
                    let k = choose|k: int| 0 <= k < front.len() && front[k] == inner[i];
                    assert(timeline[k].observed_at <= timeline[timeline.len() - 1].observed_at);
                }
            }
        }
    }
}

/// The timeline is ordered by time, is as long as the log, and holds the
/// entries of the log, each as often as the log does.
pub proof fn lemma_timeline_orders_the_log(log: Seq<Datapoint>)
    ensures
        is_time_ordered(timeline(log)),
        timeline(log).len() == log.len(),
        timeline(log).to_multiset() == log.to_multiset(),
    decreases log.len(),
{
    broadcast use vstd::seq_lib::to_multiset_build;

    if log.len() == 0 {
        assert(log =~= Seq::empty());
    } else {
        lemma_timeline_orders_the_log(log.drop_last());
        lemma_insert_by_time(timeline(log.drop_last()), log.last());
        assert(log =~= log.drop_last().push(log.last()));
    }
}

/// Inserting does not disturb the entries of any one time: among them the
/// new entry comes last.
pub proof fn lemma_insert_keeps_ties(timeline: Seq<Datapoint>, entry: Datapoint, at: i64)
    ensures
        insert_by_time(timeline, entry).filter(observed(at)) == if entry.observed_at == at {
            timeline.filter(observed(at)).push(entry)
        } else {
            timeline.filter(observed(at))
        },
    decreases timeline.len(),
{
    broadcast use Seq::lemma_filter_push;

    if timeline.len() == 0 || timeline.last().observed_at <= entry.observed_at {
    } else {
        let front = timeline.drop_last();
        lemma_insert_keeps_ties(front, entry, at);
        assert(timeline =~= front.push(timeline.last()));
    }
}

/// Entries of the same time stand in the timeline in the order of their
/// insertion.
pub proof fn lemma_timeline_keeps_ties(log: Seq<Datapoint>, at: i64)
    ensures
        timeline(log).filter(observed(at)) == log.filter(observed(at)),
    decreases log.len(),
{
    broadcast use Seq::lemma_filter_push;

    if log.len() == 0 {
        assert(log =~= Seq::empty());
    } else {
        lemma_timeline_keeps_ties(log.drop_last(), at);
        lemma_insert_keeps_ties(timeline(log.drop_last()), log.last(), at);
        assert(log =~= log.drop_last().push(log.last()));
    }
}

/// An entry that was just appended is found by asking for its own time,
/// behind the entries of that time that were there before; and it is the
/// whole answer where the log held none of that time.
pub proof fn lemma_append_then_query(log: Seq<Datapoint>, entry: Datapoint)
    ensures
        window(log.push(entry), entry.observed_at, entry.observed_at) == window(
            log,
            entry.observed_at,
            entry.observed_at,
        ).push(entry),
        window(log.push(entry), entry.observed_at, entry.observed_at).contains(entry),
        (forall|i: int| 0 <= i < log.len() ==> log[i].observed_at != entry.observed_at) ==> window(
            log.push(entry),
            entry.observed_at,
            entry.observed_at,
        ) == seq![entry],
{
    let at = entry.observed_at;
    let grown = log.push(entry);
    assert(in_window(at, at) =~= observed(at));
    lemma_timeline_keeps_ties(log, at);
    lemma_timeline_keeps_ties(grown, at);
    log.lemma_filter_push(entry, observed(at));
    let found = window(grown, at, at);
    assert(found == window(log, at, at).push(entry));
    assert(found[found.len() - 1] == entry);
    if forall|i: int| 0 <= i < log.len() ==> log[i].observed_at != entry.observed_at {
        lemma_window_holds_what_is_in_reach(log, at, at);
        assert(window(log, at, at).push(entry) =~= seq![entry]);
    }
}

/// A window holds the entries of the log that lie in it and no others; so
/// one that no entry of the log lies in is empty.
pub proof fn lemma_window_holds_what_is_in_reach(log: Seq<Datapoint>, start: i64, end: i64)
    ensures
        forall|d: Datapoint|
            window(log, start, end).contains(d) <==> log.contains(d) && start <= d.observed_at
                <= end,
        is_time_ordered(window(log, start, end)),
        (forall|i: int|
            0 <= i < log.len() ==> !(start <= (#[trigger] log[i]).observed_at && log[i].observed_at
                <= end)) ==> window(
            log,
            start,
            end,
        ) == Seq::<Datapoint>::empty(),
{
    let line = timeline(log);
    let found = window(log, start, end);
    lemma_timeline_orders_the_log(log);
    line.to_multiset_ensures();
    log.to_multiset_ensures();
    lemma_filter_keeps_order(line, in_window(start, end));
    assert forall|d: Datapoint| found.contains(d) <==> log.contains(d) && start <= d.observed_at
        <= end by {
        if found.contains(d) {
            let i = choose|i: int| 0 <= i < found.len() && found[i] == d;
            line.lemma_filter_pred(in_window(start, end), i);
            line.lemma_filter_contains_rev(in_window(start, end), d);
            assert(line.to_multiset().count(d) > 0);
        }
        if log.contains(d) && start <= d.observed_at <= end {
            assert(line.to_multiset().count(d) > 0);
            assert(line.contains(d));
            let i = choose|i: int| 0 <= i < line.len() && line[i] == d;
            line.lemma_filter_contains(in_window(start, end), i);
        }
    }
    if forall|i: int|
        0 <= i < log.len() ==> !(start <= (#[trigger] log[i]).observed_at && log[i].observed_at
            <= end) {
        if found.len() > 0 {
            assert(found.contains(found[0]));
            let i = choose|i: int| 0 <= i < log.len() && log[i] == found[0];
            assert(false);
        }
        assert(found =~= Seq::<Datapoint>::empty());
    }
}

/// Filtering an ordered sequence leaves it ordered.
pub proof fn lemma_filter_keeps_order(s: Seq<Datapoint>, pred: spec_fn(Datapoint) -> bool)
    requires
        is_time_ordered(s),
    ensures
        is_time_ordered(s.filter(pred)),
    decreases s.len(),
{
    reveal(Seq::filter);
    if s.len() > 0 {
        let front = s.drop_last();
        assert(is_time_ordered(front)) by {
            assert forall|i: int, j: int| 0 <= i <= j < front.len() implies front[i].observed_at
                <= front[j].observed_at by {
                assert(front[i] == s[i] && front[j] == s[j]);
            }
        }
        lemma_filter_keeps_order(front, pred);
        let kept = front.filter(pred);
        if pred(s.last()) {
            let whole = kept.push(s.last());
            assert forall|i: int, j: int| 0 <= i <= j < whole.len() implies whole[i].observed_at
                <= whole[j].observed_at by {
                if i < j && j == whole.len() - 1 {
                    front.lemma_filter_contains_rev(pred, kept[i]);
                    let k = choose|k: int| 0 <= k < front.len() && front[k] == kept[i];
                    assert(s[k].observed_at <= s[s.len() - 1].observed_at);
                }
            }
        }
    }
}

/// The latest entry is an entry of the log, none is later than it, and of
/// the entries of its time it is the one that was inserted last.
pub proof fn lemma_latest_is_greatest(log: Seq<Datapoint>)
    requires
        log.len() > 0,
    ensures
        latest(log) is Some,
        log.contains(latest(log)->0),
        forall|i: int| 0 <= i < log.len() ==> log[i].observed_at <= latest(log)->0.observed_at,
        log.filter(observed(latest(log)->0.observed_at)).len() > 0,
        latest(log)->0 == log.filter(observed(latest(log)->0.observed_at)).last(),
{
    let line = timeline(log);
    let top = line.last();
    let at = top.observed_at;
    lemma_timeline_orders_the_log(log);
    line.to_multiset_ensures();
    log.to_multiset_ensures();
    assert(line.contains(top)) by {
        assert(line[line.len() - 1] == top);
    }
    assert(log.to_multiset().count(top) > 0);
    assert forall|i: int| 0 <= i < log.len() implies log[i].observed_at <= at by {
        assert(log.contains(log[i]));
        assert(line.to_multiset().count(log[i]) > 0);
        let k = choose|k: int| 0 <= k < line.len() && line[k] == log[i];
        assert(line[k].observed_at <= line[line.len() - 1].observed_at);
    }
    lemma_timeline_keeps_ties(log, at);
    assert(line =~= line.drop_last().push(top));
    line.drop_last().lemma_filter_push(top, observed(at));
}

/// An append-only store of datapoints. An entry is never changed or removed
/// once it is in; it is found again by its identity, by its time, or as the
/// latest of all.
pub struct DatapointLedger {
    /// The entries in the order of their insertion.
    entries: Vec<Datapoint>,
    /// The same entries in the order of their times.
    by_time: Vec<Datapoint>,
}

impl View for DatapointLedger {
    type V = Seq<Datapoint>;

    /// The log: every entry ever appended, in the order of insertion.
    closed spec fn view(&self) -> Seq<Datapoint> {
        self.entries@
    }
}

impl DatapointLedger {
    #[verifier::type_invariant]
    spec fn index_follows_log(self) -> bool {
        self.by_time@ == timeline(self.entries@)
    }

    /// A ledger that holds nothing.
    pub fn new() -> (ledger: DatapointLedger)
        ensures
            ledger@ == Seq::<Datapoint>::empty(),
    {
        DatapointLedger { entries: Vec::new(), by_time: Vec::new() }
    }

    /// The number of entries.
    pub fn len(&self) -> (len: usize)
        ensures
            len == self@.len(),
    {
        self.entries.len()
    }

    /// Stores `entry` and hands out its identity. The log grows by this one
    /// entry at its end; what it held before stays as it was.
    pub fn append(&mut self, entry: Datapoint) -> (id: DatapointId)
        ensures
            final(self)@ == old(self)@.push(entry),
            id.0 == old(self)@.len(),
    {
        proof {
            use_type_invariant(&*self);
        }
        let mut taken = DatapointLedger::new();
        std::mem::swap(self, &mut taken);
        let DatapointLedger { mut entries, mut by_time } = taken;
        let id = entries.len();
        let mut position: usize = by_time.len();
        while position > 0 && by_time[position - 1].observed_at > entry.observed_at
            invariant
                position <= by_time.len(),
                forall|j: int|
                    position <= j < by_time.len() ==> by_time[j].observed_at > entry.observed_at,
            decreases position,
        {
            position = position - 1;
        }
        proof {
            lemma_insert_position(by_time@, entry, position as int);
            assert(entries@.push(entry).drop_last() =~= entries@);
        }
        entries.push(entry);
        by_time.insert(position, entry);
        *self = DatapointLedger { entries, by_time };
        DatapointId(id)
    }

    /// The entry of the given identity, where there is one.
    pub fn get(&self, id: DatapointId) -> (entry: Option<Datapoint>)
        ensures
            id.0 < self@.len() ==> entry == Some(self@[id.0 as int]),
            id.0 >= self@.len() ==> entry is None,
    {
        if id.0 < self.entries.len() {
            Some(self.entries[id.0])
        } else {
            None
        }
    }

    /// Every entry that was observed within `[start, end]`, both ends
    /// included, ordered by time; entries of the same time come in the order
    /// of their insertion. The answer is made anew on every call.
    pub fn query_range(&self, start: i64, end: i64) -> (found: Vec<Datapoint>)
        ensures
            found@ == window(self@, start, end),
    {
        proof {
            use_type_invariant(self);
        }
        let mut found: Vec<Datapoint> = Vec::new();
        let mut i: usize = 0;
        proof {
            reveal(Seq::filter);
            assert(self.by_time@.take(0) =~= Seq::empty());
        }
        while i < self.by_time.len()
            invariant
                i <= self.by_time.len(),
                found@ == self.by_time@.take(i as int).filter(in_window(start, end)),
            decreases self.by_time.len() - i,
        {
            let entry = self.by_time[i];
            proof {
                assert(self.by_time@.take(i + 1) =~= self.by_time@.take(i as int).push(entry));
                self.by_time@.take(i as int).lemma_filter_push(entry, in_window(start, end));
            }
            if start <= entry.observed_at && entry.observed_at <= end {
                found.push(entry);
            }
            i = i + 1;
        }
        proof {
            assert(self.by_time@.take(i as int) =~= self.by_time@);
        }
        found
    }

    /// The entry of the greatest time; of several with that time, the one
    /// inserted last. Nothing where the ledger is empty.
    pub fn get_latest(&self) -> (entry: Option<Datapoint>)
        ensures
            entry == latest(self@),
    {
        proof {
            use_type_invariant(self);
            lemma_timeline_orders_the_log(self.entries@);
        }
        let n = self.by_time.len();
        if n == 0 {
            None
        } else {
            Some(self.by_time[n - 1])
        }
    }
}

} // verus!
