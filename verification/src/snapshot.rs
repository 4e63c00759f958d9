//! The current view of the process table.
//!
//! A snapshot holds the rows of the most recent refresh and nothing else.
//! `refresh` takes the snapshot by `&mut`: whoever refreshes has it to
//! themselves, and what they install replaces the table as a whole. `list`
//! decodes the rows into samples; a row whose name cannot be decoded is left
//! out of the samples and reported beside them, and never stands in the way
//! of the rows around it.

use crate::sample::{
    decodable, sample_of, sample_views, DecodeError, ProcessSample, RawProcess, RawProcessView,
    SampleView,
};
use vstd::prelude::*;

verus! {

/// The rows of a table, each by its view.
pub open spec fn row_views(rows: Seq<RawProcess>) -> Seq<RawProcessView> {
    rows.map_values(|row: RawProcess| row@)
}

/// The samples of a table: one for each decodable row, in the table's order.
pub open spec fn listed_samples(table: Seq<RawProcessView>) -> Seq<SampleView>
    decreases table.len(),
{
    if table.len() == 0 {
        Seq::empty()
    } else {
        let earlier = listed_samples(table.drop_last());
        if decodable(table.last()) {
            earlier.push(sample_of(table.last()))
        } else {
            earlier
        }
    }
}

/// The rows of a table that yield no sample, each by the identifier of its
/// process, in the table's order.
pub open spec fn undecodable_rows(table: Seq<RawProcessView>) -> Seq<DecodeError>
    decreases table.len(),
{
    if table.len() == 0 {
        Seq::empty()
    } else {
        let earlier = undecodable_rows(table.drop_last());
        if decodable(table.last()) {
            earlier
        } else {
            earlier.push(DecodeError { pid: table.last().pid })
        }
    }
}

/// The table that a refresh leaves: the rows it installs, and nothing of the
/// table before.
pub open spec fn installed(
    before: Seq<RawProcessView>,
    rows: Seq<RawProcessView>,
) -> Seq<RawProcessView> {
    rows
}

/// What `list` returns: the samples, and the rows that gave none.
#[derive(Clone, Debug, PartialEq, Eq)]
pub struct Listing {
    pub samples: Vec<ProcessSample>,
    pub undecodable: Vec<DecodeError>,
}

/// The process table as of the most recent refresh.
pub struct SystemSnapshot {
    rows: Vec<RawProcess>,
}

impl View for SystemSnapshot {
    type V = Seq<RawProcessView>;

    closed spec fn view(&self) -> Seq<RawProcessView> {
        row_views(self.rows@)
    }
}

impl SystemSnapshot {
    /// A snapshot that has not been refreshed yet: its table is empty.
    pub fn new() -> (snapshot: SystemSnapshot)
        ensures
            snapshot@ == Seq::<RawProcessView>::empty(),
    {
        let snapshot = SystemSnapshot { rows: Vec::new() };
        assert(row_views(snapshot.rows@) =~= Seq::empty());
        snapshot
    }

    /// Installs the rows of a fresh enumeration. Nothing of the table before
    /// is kept.
    pub fn refresh(&mut self, rows: Vec<RawProcess>)
        ensures
            final(self)@ == installed(old(self)@, row_views(rows@)),
    {
        self.rows = rows;
    }

    /// The number of rows in the table.
    pub fn len(&self) -> (count: usize)
        ensures
            count == self@.len(),
    {
        self.rows.len()
    }

    /// The samples of the current table, and the rows that gave none.
    pub fn list(&self) -> (listing: Listing)
        ensures
            sample_views(listing.samples@) == listed_samples(self@),
            listing.undecodable@ == undecodable_rows(self@),
    {
        let mut samples: Vec<ProcessSample> = Vec::new();
        let mut undecodable: Vec<DecodeError> = Vec::new();
        let mut i: usize = 0;
        assert(self@.take(0) =~= Seq::empty());
        assert(sample_views(samples@) =~= Seq::empty());
        while i < self.rows.len()
            invariant
                i <= self.rows.len(),
                self@ == row_views(self.rows@),
                sample_views(samples@) == listed_samples(self@.take(i as int)),
                undecodable@ == undecodable_rows(self@.take(i as int)),
            decreases self.rows.len() - i,
        {
            assert(self@.take(i + 1).drop_last() =~= self@.take(i as int));
            assert(self@.take(i + 1).last() == self.rows@[i as int]@);
            let ghost before = samples@;
            match ProcessSample::decode(&self.rows[i]) {
                Ok(sample) => {
                    samples.push(sample);
                    assert(sample_views(samples@) =~= sample_views(before).push(sample@));
                },
                Err(error) => {
                    undecodable.push(error);
                },
            }
            i = i + 1;
        }
        assert(self@.take(i as int) =~= self@);
        Listing { samples, undecodable }
    }
}

/// Every row is accounted for: it gave a sample, or it is reported as
/// undecodable.
pub proof fn lemma_listing_accounts_for_every_row(table: Seq<RawProcessView>)
    ensures
        listed_samples(table).len() + undecodable_rows(table).len() == table.len(),
    decreases table.len(),
{
    if table.len() > 0 {
        lemma_listing_accounts_for_every_row(table.drop_last());
    }
}

/// A table in which every name can be decoded is listed in full: one sample
/// for each row, in the same place.
pub proof fn lemma_decodable_table_is_listed_in_full(table: Seq<RawProcessView>)
    requires
        forall|i: int| 0 <= i < table.len() ==> decodable(#[trigger] table[i]),
    ensures
        listed_samples(table) == table.map_values(|row: RawProcessView| sample_of(row)),
        undecodable_rows(table) == Seq::<DecodeError>::empty(),
    decreases table.len(),
{
    if table.len() > 0 {
        lemma_decodable_table_is_listed_in_full(table.drop_last());
    }
    assert(listed_samples(table) =~= table.map_values(|row: RawProcessView| sample_of(row)));
    assert(undecodable_rows(table) =~= Seq::<DecodeError>::empty());
}

/// Listing goes row by row: the samples of two tables put end to end are
/// the samples of the first followed by those of the second.
pub proof fn lemma_listing_goes_row_by_row(first: Seq<RawProcessView>, second: Seq<RawProcessView>)
    ensures
        listed_samples(first + second) == listed_samples(first) + listed_samples(second),
        undecodable_rows(first + second) == undecodable_rows(first) + undecodable_rows(second),
    decreases second.len(),
{
    if second.len() == 0 {
        assert(first + second =~= first);
        assert(listed_samples(first) + listed_samples(second) =~= listed_samples(first));
        assert(undecodable_rows(first) + undecodable_rows(second) =~= undecodable_rows(first));
    } else {
        lemma_listing_goes_row_by_row(first, second.drop_last());
        assert((first + second).drop_last() =~= first + second.drop_last());
        let samples = listed_samples(second.drop_last());
        let skipped = undecodable_rows(second.drop_last());
        if decodable(second.last()) {
            assert((listed_samples(first) + samples).push(sample_of(second.last()))
                =~= listed_samples(first) + samples.push(sample_of(second.last())));
        } else {
            let error = DecodeError { pid: second.last().pid };
            assert((undecodable_rows(first) + skipped).push(error) =~= undecodable_rows(first)
                + skipped.push(error));
        }
    }
}

/// A name that cannot be decoded costs its own sample and no other: with the
/// row taken out of the table, the samples listed are the same.
pub proof fn lemma_undecodable_row_costs_no_other(
    before: Seq<RawProcessView>,
    row: RawProcessView,
    after: Seq<RawProcessView>,
)
    requires
        !decodable(row),
    ensures
        listed_samples(before + seq![row] + after) == listed_samples(before + after),
{
    lemma_listing_goes_row_by_row(before + seq![row], after);
    lemma_listing_goes_row_by_row(before, seq![row]);
    lemma_listing_goes_row_by_row(before, after);
    assert(listed_samples(seq![row]) =~= Seq::<SampleView>::empty()) by {
        reveal_with_fuel(listed_samples, 2);
        assert(seq![row].last() == row);
    }
    assert(listed_samples(before) + Seq::<SampleView>::empty() =~= listed_samples(before));
}

/// The table that a reader finds once the refreshes of `turns` have run, one
/// after the other: each installs its rows as [`SystemSnapshot::refresh`]
/// does.
pub open spec fn table_after(
    initial: Seq<RawProcessView>,
    turns: Seq<Seq<RawProcessView>>,
) -> Seq<RawProcessView>
    decreases turns.len(),
{
    if turns.len() == 0 {
        initial
    } else {
        installed(table_after(initial, turns.drop_last()), turns.last())
    }
}

/// `turns` is the refreshes of two parties in some order in which they may
/// have taken their turns: each party's own refreshes keep their order.
pub open spec fn is_interleaving(
    turns: Seq<Seq<RawProcessView>>,
    background: Seq<Seq<RawProcessView>>,
    on_demand: Seq<Seq<RawProcessView>>,
) -> bool
    decreases turns.len(),
{
    if turns.len() == 0 {
        background.len() == 0 && on_demand.len() == 0
    } else {
        ||| (background.len() > 0 && turns.last() == background.last() && is_interleaving(
            turns.drop_last(),
            background.drop_last(),
            on_demand,
        ))
        ||| (on_demand.len() > 0 && turns.last() == on_demand.last() && is_interleaving(
            turns.drop_last(),
            background,
            on_demand.drop_last(),
        ))
    }
}

/// Whether `table` is one of the tables of `refreshes`.
pub open spec fn installed_by(
    refreshes: Seq<Seq<RawProcessView>>,
    table: Seq<RawProcessView>,
) -> bool {
    exists|i: int| 0 <= i < refreshes.len() && table == #[trigger] refreshes[i]
}

/// Every turn of an interleaving is a refresh of one of the two parties.
proof fn lemma_every_turn_has_a_party(
    turns: Seq<Seq<RawProcessView>>,
    background: Seq<Seq<RawProcessView>>,
    on_demand: Seq<Seq<RawProcessView>>,
    at: int,
)
    requires
        is_interleaving(turns, background, on_demand),
        0 <= at < turns.len(),
    ensures
        installed_by(background, turns[at]) || installed_by(on_demand, turns[at]),
    decreases turns.len(),
{
    if background.len() > 0 && turns.last() == background.last() && is_interleaving(
        turns.drop_last(),
        background.drop_last(),
        on_demand,
    ) {
        if at == turns.len() - 1 {
            assert(turns[at] == background[background.len() - 1]);
        } else {
            lemma_every_turn_has_a_party(
                turns.drop_last(),
                background.drop_last(),
                on_demand,
                at,
            );
            if installed_by(background.drop_last(), turns[at]) {
                let i = choose|i: int|
                    0 <= i < background.drop_last().len() && turns[at]
                        == #[trigger] background.drop_last()[i];
                assert(turns[at] == background[i]);
            }
        }
    } else {
        if at == turns.len() - 1 {
            assert(turns[at] == on_demand[on_demand.len() - 1]);
        } else {
            lemma_every_turn_has_a_party(
                turns.drop_last(),
                background,
                on_demand.drop_last(),
                at,
            );
            if installed_by(on_demand.drop_last(), turns[at]) {
                let j = choose|j: int|
                    0 <= j < on_demand.drop_last().len() && turns[at]
                        == #[trigger] on_demand.drop_last()[j];
                assert(turns[at] == on_demand[j]);
            }
        }
    }
}

/// No reader sees a mixed table.
///
/// Let a background refresher and an on-demand refresher each install a
/// series of tables, taking their turns in any order whatever. At every
/// moment, what the snapshot holds is one of those tables as a whole, or the
/// table from before the first turn: the samples listed from it all stem
/// from one and the same refresh.
pub proof fn lemma_readers_never_see_a_mixed_table(
    initial: Seq<RawProcessView>,
    background: Seq<Seq<RawProcessView>>,
    on_demand: Seq<Seq<RawProcessView>>,
    turns: Seq<Seq<RawProcessView>>,
    seen: int,
)
    requires
        is_interleaving(turns, background, on_demand),
        0 <= seen <= turns.len(),
    ensures
        ({
            let found = table_after(initial, turns.take(seen));
            ||| (seen == 0 && found == initial)
            ||| installed_by(background, found)
            ||| installed_by(on_demand, found)
        }),
{
    if seen > 0 {
        lemma_every_turn_has_a_party(turns, background, on_demand, seen - 1);
        assert(turns.take(seen).last() == turns[seen - 1]);
    }
}

} // verus!
