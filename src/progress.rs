use vstd::prelude::*;

verus! {

/// Position of a bar whose stage is complete: progress is kept in tenths of
/// a percent.
pub const BASIS: u64 = 1000;

/// One progress report of a native stage, already scaled to basis units.
#[derive(Clone, Copy, Debug, PartialEq, Eq, Structural)]
pub enum Advance {
    /// The stage reports that it is finished.
    Finished,
    /// The stage moved forward by this many basis units.
    Units(u64),
}

/// A live bar: the stage it belongs to and how far that stage has come.
pub struct Bar {
    pub name: String,
    pub position: u64,
}

/// What the display has to do after an event: the bar at `index` is set to
/// `position`, after it was created (labelled with the stage name) when
/// `created` holds.
#[derive(Clone, Copy, Debug, PartialEq, Eq, Structural)]
pub struct BarUpdate {
    pub index: usize,
    pub position: u64,
    pub created: bool,
}

/// The registry of live bars, one per stage name, in order of creation.
pub struct ProgressRegistry {
    bars: Vec<Bar>,
}

/// Index of the bar named `name`, or -1 when there is none.
pub open spec fn index_of(bars: Seq<(Seq<char>, u64)>, name: Seq<char>) -> int
    decreases bars.len(),
{
    if bars.len() == 0 {
        -1
    } else if bars.last().0 == name {
        bars.len() - 1
    } else {
        index_of(bars.drop_last(), name)
    }
}

/// Position of a bar on its first event: the reported units, limited to the
/// basis. A completion signal that comes first leaves the bar at 0.
pub open spec fn first_position(advance: Advance) -> u64 {
    match advance {
        Advance::Finished => 0,
        Advance::Units(u) => if u >= BASIS {
            BASIS
        } else {
            u
        },
    }
}

/// Position of a bar at `current` after a further event.
pub open spec fn next_position(current: u64, advance: Advance) -> u64 {
    match advance {
        Advance::Finished => BASIS,
        Advance::Units(u) => if current + u >= BASIS {
            BASIS
        } else {
            (current + u) as u64
        },
    }
}

/// The registry after one event.
pub open spec fn apply_event(bars: Seq<(Seq<char>, u64)>, name: Seq<char>, advance: Advance) -> Seq<
    (Seq<char>, u64),
> {
    let i = index_of(bars, name);
    if i >= 0 {
        bars.update(i, (name, next_position(bars[i].1, advance)))
    } else {
        bars.push((name, first_position(advance)))
    }
}

/// The registry after a sequence of events, in order.
pub open spec fn apply_events(bars: Seq<(Seq<char>, u64)>, events: Seq<(Seq<char>, Advance)>) -> Seq<
    (Seq<char>, u64),
>
    decreases events.len(),
{
    if events.len() == 0 {
        bars
    } else {
        let before = apply_events(bars, events.drop_last());
        apply_event(before, events.last().0, events.last().1)
    }
}

/// Sum of the units reported for `name`.
pub open spec fn units_for(events: Seq<(Seq<char>, Advance)>, name: Seq<char>) -> int
    decreases events.len(),
{
    if events.len() == 0 {
        0
    } else {
        units_for(events.drop_last(), name) + if events.last().0 == name {
            match events.last().1 {
                Advance::Units(u) => u as int,
                Advance::Finished => 0,
            }
        } else {
            0
        }
    }
}

/// Whether an event for `name` occurs.
pub open spec fn mentions(events: Seq<(Seq<char>, Advance)>, name: Seq<char>) -> bool {
    exists|k: int| 0 <= k < events.len() && #[trigger] events[k].0 == name
}

/// Whether no event is a completion signal.
pub open spec fn no_sentinel(events: Seq<(Seq<char>, Advance)>) -> bool {
    forall|k: int| 0 <= k < events.len() ==> #[trigger] events[k].1 != Advance::Finished
}

/// Names are distinct and no position exceeds the basis.
pub open spec fn registry_wf(bars: Seq<(Seq<char>, u64)>) -> bool {
    &&& forall|i: int, j: int| 0 <= i < j < bars.len() ==> bars[i].0 != bars[j].0
    &&& forall|i: int| 0 <= i < bars.len() ==> #[trigger] bars[i].1 <= BASIS
}

pub proof fn lemma_index_of(bars: Seq<(Seq<char>, u64)>, name: Seq<char>)
    ensures
        -1 <= index_of(bars, name) < bars.len(),
        index_of(bars, name) >= 0 ==> bars[index_of(bars, name)].0 == name,
        index_of(bars, name) < 0 ==> forall|i: int| 0 <= i < bars.len() ==> bars[i].0 != name,
    decreases bars.len(),
{
    if bars.len() > 0 && bars.last().0 != name {
        lemma_index_of(bars.drop_last(), name);
        if index_of(bars, name) < 0 {
            assert forall|i: int| 0 <= i < bars.len() implies bars[i].0 != name by {
                if i < bars.len() - 1 {
                    assert(bars[i] == bars.drop_last()[i]);
                }
            }
        }
    }
}

pub proof fn lemma_apply_event_wf(bars: Seq<(Seq<char>, u64)>, name: Seq<char>, advance: Advance)
    requires
        registry_wf(bars),
    ensures
        registry_wf(apply_event(bars, name, advance)),
{
    lemma_index_of(bars, name);
}

/// `u` limited to the basis.
pub open spec fn clamped(u: int) -> int {
    if u >= BASIS {
        BASIS as int
    } else {
        u
    }
}

proof fn lemma_index_of_at(bars: Seq<(Seq<char>, u64)>, name: Seq<char>, i: int)
    requires
        0 <= i < bars.len(),
        bars[i].0 == name,
        forall|j: int| i < j < bars.len() ==> bars[j].0 != name,
    ensures
        index_of(bars, name) == i,
    decreases bars.len(),
{
    if bars.last().0 != name {
        assert forall|j: int| i < j < bars.drop_last().len() implies bars.drop_last()[j].0
            != name by {
            assert(bars.drop_last()[j] == bars[j]);
        }
        lemma_index_of_at(bars.drop_last(), name, i);
    }
}

proof fn lemma_index_of_update(
    bars: Seq<(Seq<char>, u64)>,
    j: int,
    e: (Seq<char>, u64),
    name: Seq<char>,
)
    requires
        0 <= j < bars.len(),
        bars[j].0 != name,
        e.0 != name,
    ensures
        index_of(bars.update(j, e), name) == index_of(bars, name),
    decreases bars.len(),
{
    let u = bars.update(j, e);
    if j == bars.len() - 1 {
        assert(u.drop_last() =~= bars.drop_last());
    } else if bars.last().0 != name {
        assert(u.drop_last() =~= bars.drop_last().update(j, e));
        lemma_index_of_update(bars.drop_last(), j, e, name);
    }
}

proof fn lemma_apply_event_other(
    bars: Seq<(Seq<char>, u64)>,
    other: Seq<char>,
    advance: Advance,
    name: Seq<char>,
)
    requires
        other != name,
    ensures
        index_of(apply_event(bars, other, advance), name) == index_of(bars, name),
        index_of(bars, name) >= 0 ==> apply_event(bars, other, advance)[index_of(bars, name)]
            == bars[index_of(bars, name)],
{
    lemma_index_of(bars, name);
    lemma_index_of(bars, other);
    let i = index_of(bars, other);
    if i >= 0 {
        lemma_index_of_update(bars, i, (other, next_position(bars[i].1, advance)), name);
    } else {
        assert(bars.push((other, first_position(advance))).drop_last() =~= bars);
    }
}

proof fn lemma_units_unmentioned(events: Seq<(Seq<char>, Advance)>, name: Seq<char>)
    requires
        !mentions(events, name),
    ensures
        units_for(events, name) == 0,
    decreases events.len(),
{
    if events.len() > 0 {
        let prev = events.drop_last();
        if mentions(prev, name) {
            let k = choose|k: int| 0 <= k < prev.len() && #[trigger] prev[k].0 == name;
            assert(events[k] == prev[k]);
        }
        assert(events[events.len() - 1] == events.last());
        lemma_units_unmentioned(prev, name);
    }
}

proof fn lemma_accumulate(events: Seq<(Seq<char>, Advance)>, name: Seq<char>)
    requires
        no_sentinel(events),
    ensures
        mentions(events, name) ==> {
            let bars = apply_events(seq![], events);
            &&& index_of(bars, name) >= 0
            &&& bars[index_of(bars, name)].1 == clamped(units_for(events, name))
        },
        !mentions(events, name) ==> index_of(apply_events(seq![], events), name) < 0,
    decreases events.len(),
{
    if events.len() == 0 {
        return;
    }
    let prev = events.drop_last();
    let last = events.last();
    assert(no_sentinel(prev)) by {
        assert forall|k: int| 0 <= k < prev.len() implies #[trigger] prev[k].1
            != Advance::Finished by {
            assert(prev[k] == events[k]);
        }
    }
    assert(events[events.len() - 1] == last);
    lemma_accumulate(prev, name);
    let bars = apply_events(seq![], prev);
    lemma_index_of(bars, name);
    assert(mentions(events, name) <==> (mentions(prev, name) || last.0 == name)) by {
        if mentions(events, name) && last.0 != name {
            let k = choose|k: int| 0 <= k < events.len() && #[trigger] events[k].0 == name;
            assert(prev[k] == events[k]);
        }
        if mentions(prev, name) {
            let k = choose|k: int| 0 <= k < prev.len() && #[trigger] prev[k].0 == name;
            assert(prev[k] == events[k]);
        }
    }
    if last.0 == name {
        match last.1 {
            Advance::Units(u) => {
                if index_of(bars, name) >= 0 {
                    let i = index_of(bars, name);
                    let after = apply_event(bars, name, last.1);
                    lemma_index_of_first(bars, name);
                    lemma_index_of_at(after, name, i);
                } else {
                    lemma_units_unmentioned(prev, name);
                    let after = bars.push((name, first_position(last.1)));
                    assert(after.drop_last() =~= bars);
                    assert(index_of(after, name) == bars.len());
                }
            },
            Advance::Finished => {},
        }
    } else {
        lemma_apply_event_other(bars, last.0, last.1, name);
    }
}

/// Recording one more event extends the history: a registry that stood at
/// `apply_events(start, events)` stands, after `record(name, advance)`, at
/// the registry of the longer history.
pub proof fn lemma_apply_events_push(
    start: Seq<(Seq<char>, u64)>,
    events: Seq<(Seq<char>, Advance)>,
    name: Seq<char>,
    advance: Advance,
)
    ensures
        apply_events(start, events.push((name, advance))) == apply_event(
            apply_events(start, events),
            name,
            advance,
        ),
{
    assert(events.push((name, advance)).drop_last() =~= events);
}

/// Without completion signals, the bar of a stage that reported at least
/// once stands at the sum of its reported units, limited to the basis.
pub proof fn lemma_position_is_sum(events: Seq<(Seq<char>, Advance)>, name: Seq<char>)
    requires
        no_sentinel(events),
        mentions(events, name),
    ensures
        index_of(apply_events(seq![], events), name) >= 0,
        apply_events(seq![], events)[index_of(apply_events(seq![], events), name)].1 == clamped(
            units_for(events, name),
        ),
{
    lemma_accumulate(events, name);
}

/// A completion signal for a stage that has a bar puts that bar at the
/// basis, whatever its position was.
pub proof fn lemma_sentinel_completes(bars: Seq<(Seq<char>, u64)>, name: Seq<char>)
    requires
        index_of(bars, name) >= 0,
    ensures
        index_of(apply_event(bars, name, Advance::Finished), name) == index_of(bars, name),
        apply_event(bars, name, Advance::Finished)[index_of(bars, name)].1 == BASIS,
{
    lemma_index_of(bars, name);
    let i = index_of(bars, name);
    let after = apply_event(bars, name, Advance::Finished);
    lemma_index_of_first(bars, name);
    lemma_index_of_at(after, name, i);
}

proof fn lemma_index_of_first(bars: Seq<(Seq<char>, u64)>, name: Seq<char>)
    ensures
        forall|j: int| index_of(bars, name) < j < bars.len() ==> bars[j].0 != name,
    decreases bars.len(),
{
    lemma_index_of(bars, name);
    if bars.len() > 0 && bars.last().0 != name {
        lemma_index_of_first(bars.drop_last(), name);
        assert forall|j: int| index_of(bars, name) < j < bars.len() implies bars[j].0 != name by {
            if j < bars.len() - 1 {
                assert(bars[j] == bars.drop_last()[j]);
            }
        }
    }
}

/// After a file's run the registry is empty, so the events of the next run
/// build exactly the bars that they would build in a fresh registry, whatever
/// the earlier runs did.
pub proof fn lemma_reset_forgets_history(
    finished: ProgressRegistry,
    fresh: ProgressRegistry,
    events: Seq<(Seq<char>, Advance)>,
)
    requires
        finished.view() == Seq::<(Seq<char>, u64)>::empty(),
        fresh.view() == Seq::<(Seq<char>, u64)>::empty(),
    ensures
        apply_events(finished.view(), events) == apply_events(fresh.view(), events),
{
}

impl ProgressRegistry {
    pub closed spec fn view(&self) -> Seq<(Seq<char>, u64)> {
        self.bars@.map_values(|b: Bar| (b.name@, b.position))
    }

    /// Names are distinct and no position exceeds the basis.
    pub open spec fn wf(&self) -> bool {
        registry_wf(self.view())
    }

    /// An empty registry.
    pub fn new() -> (r: Self)
        ensures
            r.view() == Seq::<(Seq<char>, u64)>::empty(),
            r.wf(),
    {
        let r = ProgressRegistry { bars: Vec::new() };
        assert(r.view() =~= Seq::<(Seq<char>, u64)>::empty());
        r
    }

    /// Number of live bars.
    pub fn len(&self) -> (r: usize)
        ensures
            r == self.view().len(),
    {
        self.bars.len()
    }

    /// Position of the bar for `name`, if one is live.
    pub fn position_of(&self, name: &str) -> (r: Option<u64>)
        ensures
            index_of(self.view(), name@) >= 0 ==> r == Some(
                self.view()[index_of(self.view(), name@)].1,
            ),
            index_of(self.view(), name@) < 0 ==> r.is_none(),
    {
        proof {
            lemma_index_of(self.view(), name@);
        }
        match self.find(name) {
            Some(i) => Some(self.bars[i].position),
            None => None,
        }
    }

    fn find(&self, name: &str) -> (r: Option<usize>)
        ensures
            match r {
                Some(i) => i == index_of(self.view(), name@),
                None => index_of(self.view(), name@) == -1,
            },
    {
        let key = String::from_str(name);
        let n = self.bars.len();
        let mut i: usize = n;
        assert(self.view().subrange(0, n as int) =~= self.view());
        while i > 0
            invariant
                i <= n,
                n == self.bars@.len(),
                key@ == name@,
                index_of(self.view(), name@) == index_of(self.view().subrange(0, i as int), name@),
            decreases i,
        {
            assert(self.view().subrange(0, i as int).drop_last() =~= self.view().subrange(
                0,
                i - 1,
            ));
            if self.bars[i - 1].name == key {
                return Some(i - 1);
            }
            i = i - 1;
        }
        None
    }

    /// Records one event of stage `name`. A stage seen for the first time
    /// gets a new bar at the end of the registry, set to the reported units;
    /// a known stage moves forward by the reported units, or jumps to the
    /// basis on a completion signal. No position exceeds the basis.
    pub fn record(&mut self, name: &str, advance: Advance) -> (r: BarUpdate)
        requires
            old(self).wf(),
        ensures
            final(self).wf(),
            final(self).view() == apply_event(old(self).view(), name@, advance),
            r.created == (index_of(old(self).view(), name@) < 0),
            r.index < final(self).view().len(),
            final(self).view()[r.index as int] == (name@, r.position),
            r.created ==> r.index == old(self).view().len(),
            !r.created ==> r.index == index_of(old(self).view(), name@),
    {
        proof {
            lemma_index_of(self.view(), name@);
            lemma_apply_event_wf(self.view(), name@, advance);
        }
        match self.find(name) {
            Some(i) => {
                let current = self.bars[i].position;
                let position = match advance {
                    Advance::Finished => BASIS,
                    Advance::Units(u) => if u >= BASIS - current {
                        BASIS
                    } else {
                        current + u
                    },
                };
                let name_copy = self.bars[i].name.clone();
                self.bars.set(i, Bar { name: name_copy, position });
                assert(self.view() =~= apply_event(old(self).view(), name@, advance));
                BarUpdate { index: i, position, created: false }
            },
            None => {
                let position = match advance {
                    Advance::Finished => 0,
                    Advance::Units(u) => if u >= BASIS {
                        BASIS
                    } else {
                        u
                    },
                };
                let index = self.bars.len();
                self.bars.push(Bar { name: String::from_str(name), position });
                assert(self.view() =~= apply_event(old(self).view(), name@, advance));
                BarUpdate { index, position, created: true }
            },
        }
    }

    /// Ends a file's run: every live bar is dropped. Returns how many there
    /// were, so that the display can finish as many.
    pub fn finish_file(&mut self) -> (r: usize)
        ensures
            r == old(self).view().len(),
            final(self).view() == Seq::<(Seq<char>, u64)>::empty(),
            final(self).wf(),
    {
        let n = self.bars.len();
        self.bars.clear();
        assert(self.view() =~= Seq::<(Seq<char>, u64)>::empty());
        n
    }
}

} // verus!
