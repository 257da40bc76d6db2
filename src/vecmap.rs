//! Decoding and encoding of a `Vec<(K, V)>` as the entries of one map.
use core::marker::PhantomData;
use vstd::prelude::*;

verus! {

/// The most entries reserved up front from a source's count hint, whatever
/// the hint says.
pub const MAX_PREALLOCATED_ENTRIES: usize = 4069;

/// The number of entries to reserve for a source whose count hint is `hint`.
pub open spec fn capacity_for(hint: Option<usize>) -> nat {
    match hint {
        Some(n) => if n <= MAX_PREALLOCATED_ENTRIES {
            n as nat
        } else {
            MAX_PREALLOCATED_ENTRIES as nat
        },
        None => 0,
    }
}

/// The capacity to reserve before decoding: the source's hint, clamped so that
/// a hostile or malformed hint cannot force a large allocation.
pub fn initial_capacity(size_hint: Option<usize>) -> (r: usize)
    ensures
        r == capacity_for(size_hint),
        r <= MAX_PREALLOCATED_ENTRIES,
{
    match size_hint {
        Some(n) => if n <= MAX_PREALLOCATED_ENTRIES {
            n
        } else {
            MAX_PREALLOCATED_ENTRIES
        },
        None => 0,
    }
}

/// The pairs that the entries `written` stand for, in the same order.
pub open spec fn entries_of<K, V>(written: Seq<(&K, &V)>) -> Seq<(K, V)> {
    written.map_values(|e: (&K, &V)| (*e.0, *e.1))
}

/// The entries to hand a map sink for `data`, as one map: one entry per pair,
/// in the order of `data`, with no pair left out, merged or checked for a
/// repeated key.
pub fn map_entries<'a, K, V>(data: &'a [(K, V)]) -> (r: Vec<(&'a K, &'a V)>)
    ensures
        entries_of(r@) == data@,
{
    let mut r: Vec<(&'a K, &'a V)> = Vec::with_capacity(data.len());
    let mut i: usize = 0;
    while i < data.len()
        invariant
            i <= data@.len(),
            r@.len() == i,
            forall|j: int| 0 <= j < i ==> (*r@[j].0, *r@[j].1) == data@[j],
        decreases data@.len() - i,
    {
        let pair = &data[i];
        r.push((&pair.0, &pair.1));
        i = i + 1;
    }
    assert(entries_of(r@) =~= data@);
    r
}

/// Decoder of a map-shaped source into an ordered `Vec<(K, V)>`.
pub struct TupleVecMapVisitor<K, V> {
    /// Carries the entry types; the decoder holds no state.
    pub marker: PhantomData<Vec<(K, V)>>,
}

impl<K, V> TupleVecMapVisitor<K, V> {
    /// The decoder, which holds no state: any two are the same.
    pub fn new() -> (r: Self)
        ensures
            r == (TupleVecMapVisitor::<K, V> { marker: PhantomData }),
    {
        TupleVecMapVisitor { marker: PhantomData }
    }

    /// What this decoder expects to find, for diagnostics.
    pub fn expecting(&self) -> (r: &'static str)
        ensures
            r@ == "a map"@,
    {
        "a map"
    }

    /// A source that holds a unit value stands for a map with no entries.
    pub fn visit_unit(self) -> (r: Vec<(K, V)>)
        ensures
            r@ == Seq::<(K, V)>::empty(),
    {
        Vec::new()
    }

    /// Starts decoding the entries of a map source whose count hint is
    /// `size_hint`, with a reservation bounded by `MAX_PREALLOCATED_ENTRIES`.
    pub fn visit_map(self, size_hint: Option<usize>) -> (r: EntryCollector<K, V>)
        ensures
            r@ == Seq::<(K, V)>::empty(),
    {
        EntryCollector { entries: Vec::with_capacity(initial_capacity(size_hint)) }
    }
}

/// Where decoding a map source stands: still taking entries, finished with
/// the entries in the order they came, or failed with the source's error.
pub enum DecodeState<K, V, E> {
    Collecting(Seq<(K, V)>),
    Done(Seq<(K, V)>),
    Failed(E),
}

/// The state after the source answers `next` to a request for one more entry,
/// while `entries` have been taken: an entry is appended, the end of the map
/// finishes, and an error ends decoding with that same error.
pub open spec fn next_state<K, V, E>(entries: Seq<(K, V)>, next: Result<Option<(K, V)>, E>)
    -> DecodeState<K, V, E>
{
    match next {
        Ok(Some(entry)) => DecodeState::Collecting(entries.push(entry)),
        Ok(None) => DecodeState::Done(entries),
        Err(e) => DecodeState::Failed(e),
    }
}

/// The state reached from `state` when the source answers `answers` in turn.
/// Once decoding has finished or failed, later answers are never asked for.
pub open spec fn run_decode<K, V, E>(
    state: DecodeState<K, V, E>,
    answers: Seq<Result<Option<(K, V)>, E>>,
) -> DecodeState<K, V, E>
    decreases answers.len(),
{
    match state {
        DecodeState::Collecting(entries) => if answers.len() == 0 {
            state
        } else {
            run_decode(next_state(entries, answers[0]), answers.drop_first())
        },
        _ => state,
    }
}

/// Decoding from the start: no entry taken yet.
pub open spec fn decode_answers<K, V, E>(answers: Seq<Result<Option<(K, V)>, E>>) -> DecodeState<
    K,
    V,
    E,
> {
    run_decode(DecodeState::Collecting(Seq::empty()), answers)
}

/// The answers of a source that yields `entries` one by one, in order.
pub open spec fn answers_for<K, V, E>(entries: Seq<(K, V)>) -> Seq<Result<Option<(K, V)>, E>> {
    entries.map_values(|e: (K, V)| Ok::<Option<(K, V)>, E>(Some(e)))
}

/// No key occurs twice in `pairs`.
pub open spec fn keys_distinct<K, V>(pairs: Seq<(K, V)>) -> bool {
    forall|i: int, j: int| 0 <= i < j < pairs.len() ==> pairs[i].0 != pairs[j].0
}

/// Each entry that the source yields is appended after those already taken,
/// in the order it came, and none is dropped or merged with another.
pub proof fn lemma_entries_appended_in_order<K, V, E>(
    taken: Seq<(K, V)>,
    entries: Seq<(K, V)>,
    rest: Seq<Result<Option<(K, V)>, E>>,
)
    ensures
        run_decode(DecodeState::Collecting(taken), answers_for(entries) + rest) == run_decode(
            DecodeState::Collecting(taken + entries),
            rest,
        ),
    decreases entries.len(),
{
    let answers = answers_for::<K, V, E>(entries) + rest;
    if entries.len() == 0 {
        assert(answers =~= rest);
        assert(taken + entries =~= taken);
    } else {
        assert(answers[0] == Ok::<Option<(K, V)>, E>(Some(entries[0])));
        assert(answers.drop_first() =~= answers_for::<K, V, E>(entries.drop_first()) + rest);
        lemma_entries_appended_in_order(taken.push(entries[0]), entries.drop_first(), rest);
        assert(taken.push(entries[0]) + entries.drop_first() =~= taken + entries);
    }
}

/// A map source that yields `entries` and then ends decodes to exactly
/// `entries`, in the order they came: repeated keys are all kept, and nothing
/// is sorted.
pub proof fn lemma_decode_keeps_every_entry_in_order<K, V, E>(entries: Seq<(K, V)>)
    ensures
        decode_answers(answers_for::<K, V, E>(entries).push(Ok(None))) == DecodeState::<
            K,
            V,
            E,
        >::Done(entries),
{
    let end = seq![Ok::<Option<(K, V)>, E>(None)];
    assert(answers_for::<K, V, E>(entries).push(Ok(None)) =~= answers_for::<K, V, E>(entries)
        + end);
    lemma_entries_appended_in_order(Seq::empty(), entries, end);
    assert(Seq::<(K, V)>::empty() + entries =~= entries);
    assert(end[0] == Ok::<Option<(K, V)>, E>(None));
    assert(run_decode(DecodeState::Collecting(entries), end) == run_decode(
        DecodeState::<K, V, E>::Done(entries),
        end.drop_first(),
    ));
}

/// A source that fails after yielding `entries` makes decoding fail with that
/// same error, and no entries are returned, whatever it would answer after.
pub proof fn lemma_decode_fails_with_source_error<K, V, E>(
    entries: Seq<(K, V)>,
    e: E,
    rest: Seq<Result<Option<(K, V)>, E>>,
)
    ensures
        decode_answers(answers_for::<K, V, E>(entries) + seq![Err(e)] + rest) == DecodeState::<
            K,
            V,
            E,
        >::Failed(e),
{
    let tail = seq![Err::<Option<(K, V)>, E>(e)] + rest;
    assert(answers_for::<K, V, E>(entries) + seq![Err(e)] + rest =~= answers_for::<K, V, E>(
        entries,
    ) + tail);
    lemma_entries_appended_in_order(Seq::empty(), entries, tail);
    assert(tail[0] == Err::<Option<(K, V)>, E>(e));
    assert(run_decode(DecodeState::Collecting(entries), tail) == run_decode(
        DecodeState::<K, V, E>::Failed(e),
        tail.drop_first(),
    ));
}

/// Round trip: for pairs with distinct keys, the entries that `map_entries`
/// hands a map sink, read back from a map source that yields them in the
/// order written, decode to the original pairs in the original order.
pub proof fn lemma_round_trip<K, V, E>(data: Seq<(K, V)>, written: Seq<(&K, &V)>)
    requires
        keys_distinct(data),
        entries_of(written) == data,
    ensures
        decode_answers(answers_for::<K, V, E>(entries_of(written)).push(Ok(None)))
            == DecodeState::<K, V, E>::Done(data),
{
    lemma_decode_keeps_every_entry_in_order::<K, V, E>(data);
}

/// The entries taken so far from a map source.
pub struct EntryCollector<K, V> {
    entries: Vec<(K, V)>,
}

impl<K, V> View for EntryCollector<K, V> {
    type V = Seq<(K, V)>;

    closed spec fn view(&self) -> Seq<(K, V)> {
        self.entries@
    }
}

/// What to do after the source has answered one request for an entry.
pub enum DecodeStep<K, V, E> {
    /// Ask the source for the next entry.
    Continue(EntryCollector<K, V>),
    /// The source has no more entries: these are the result.
    Done(Vec<(K, V)>),
    /// The source failed: decoding fails with its error, and no entries are
    /// returned.
    Failed(E),
}

impl<K, V, E> DecodeStep<K, V, E> {
    /// The decoding state that this step stands for.
    pub open spec fn state(&self) -> DecodeState<K, V, E> {
        match self {
            DecodeStep::Continue(c) => DecodeState::Collecting(c@),
            DecodeStep::Done(v) => DecodeState::Done(v@),
            DecodeStep::Failed(e) => DecodeState::Failed(*e),
        }
    }
}

impl<K, V> EntryCollector<K, V> {
    /// Takes the source's answer to a request for the next entry: an entry is
    /// appended after those already taken, the end of the map yields them all
    /// in order, and an error is handed on unchanged.
    pub fn step<E>(self, next: Result<Option<(K, V)>, E>) -> (r: DecodeStep<K, V, E>)
        ensures
            r.state() == next_state(self@, next),
    {
        let mut entries = self.entries;
        match next {
            Ok(Some(entry)) => {
                entries.push(entry);
                DecodeStep::Continue(EntryCollector { entries })
            },
            Ok(None) => DecodeStep::Done(entries),
            Err(e) => DecodeStep::Failed(e),
        }
    }
}

} // verus!
