//! From the fetched collection to the rows on display: a stable sort by the
//! selected column, then one row per player or per language where asked.

use crate::params::{FilterOption, SortColumn};
use crate::score::{score_views, Score, ScoreView};
use crate::text::{lemma_lex_le_total, lemma_lex_le_transitive, lex_le, str_le};
use vstd::prelude::*;

verus! {

/// `a` is ordered before `b`, or level with it, in the given column.
pub open spec fn key_le(a: ScoreView, b: ScoreView, column: SortColumn) -> bool {
    match column {
        SortColumn::PlayerName => lex_le(a.name, b.name),
        SortColumn::Binary => lex_le(a.command, b.command),
        SortColumn::Language => lex_le(a.language, b.language),
        SortColumn::Time => a.time_ns <= b.time_ns,
    }
}

/// The two entries are level in the given column.
pub open spec fn same_key(a: ScoreView, b: ScoreView, column: SortColumn) -> bool {
    key_le(a, b, column) && key_le(b, a, column)
}

/// No entry stands before one that the column orders strictly before it.
pub open spec fn is_sorted(scores: Seq<ScoreView>, column: SortColumn) -> bool {
    forall|i: int, j: int| 0 <= i < j < scores.len() ==> key_le(scores[i], scores[j], column)
}

/// Where a new entry goes: behind the last entry that is ordered before it or
/// level with it.
pub open spec fn insert_point(sorted: Seq<ScoreView>, entry: ScoreView, column: SortColumn) -> int
    decreases sorted.len(),
{
    if sorted.len() == 0 {
        0
    } else if key_le(sorted.last(), entry, column) {
        sorted.len() as int
    } else {
        insert_point(sorted.drop_last(), entry, column)
    }
}

/// The entries in ascending order of the column, entries that are level
/// keeping the order in which they came.
pub open spec fn sort_by(scores: Seq<ScoreView>, column: SortColumn) -> Seq<ScoreView>
    decreases scores.len(),
{
    if scores.len() == 0 {
        scores
    } else {
        let sorted = sort_by(scores.drop_last(), column);
        sorted.insert(insert_point(sorted, scores.last(), column), scores.last())
    }
}

/// The order of a column is total.
pub proof fn lemma_key_le_total(a: ScoreView, b: ScoreView, column: SortColumn)
    ensures
        key_le(a, b, column) || key_le(b, a, column),
{
    lemma_lex_le_total(a.name, b.name);
    lemma_lex_le_total(a.command, b.command);
    lemma_lex_le_total(a.language, b.language);
}

/// The order of a column is transitive.
pub proof fn lemma_key_le_transitive(a: ScoreView, b: ScoreView, c: ScoreView, column: SortColumn)
    requires
        key_le(a, b, column),
        key_le(b, c, column),
    ensures
        key_le(a, c, column),
{
    match column {
        SortColumn::PlayerName => lemma_lex_le_transitive(a.name, b.name, c.name),
        SortColumn::Binary => lemma_lex_le_transitive(a.command, b.command, c.command),
        SortColumn::Language => lemma_lex_le_transitive(a.language, b.language, c.language),
        SortColumn::Time => {},
    }
}

/// The insert point lies in the sequence or at its end; the entry just before
/// it is not ordered behind the new one, and every entry from it on is.
pub proof fn lemma_insert_point(sorted: Seq<ScoreView>, entry: ScoreView, column: SortColumn)
    ensures
        0 <= insert_point(sorted, entry, column) <= sorted.len(),
        insert_point(sorted, entry, column) > 0 ==> key_le(
            sorted[insert_point(sorted, entry, column) - 1],
            entry,
            column,
        ),
        forall|q: int|
            insert_point(sorted, entry, column) <= q < sorted.len() ==> !key_le(
                #[trigger] sorted[q],
                entry,
                column,
            ),
    decreases sorted.len(),
{
    if sorted.len() > 0 && !key_le(sorted.last(), entry, column) {
        let rest = sorted.drop_last();
        lemma_insert_point(rest, entry, column);
        assert forall|q: int|
            insert_point(sorted, entry, column) <= q < sorted.len() implies !key_le(
            #[trigger] sorted[q],
            entry,
            column,
        ) by {
            if q < rest.len() {
                assert(sorted[q] == rest[q]);
            }
        }
    }
}

/// A place that has the two properties of the insert point is the insert
/// point.
proof fn lemma_insert_point_found(
    sorted: Seq<ScoreView>,
    entry: ScoreView,
    column: SortColumn,
    place: int,
)
    requires
        0 <= place <= sorted.len(),
        place > 0 ==> key_le(sorted[place - 1], entry, column),
        forall|q: int| place <= q < sorted.len() ==> !key_le(#[trigger] sorted[q], entry, column),
    ensures
        insert_point(sorted, entry, column) == place,
    decreases sorted.len(),
{
    if sorted.len() > 0 && place < sorted.len() {
        assert(!key_le(sorted[sorted.len() - 1], entry, column));
        lemma_insert_point_found(sorted.drop_last(), entry, column, place);
    }
}

/// Putting an entry at its insert point keeps a sorted sequence sorted.
proof fn lemma_insert_keeps_sorted(sorted: Seq<ScoreView>, entry: ScoreView, column: SortColumn)
    requires
        is_sorted(sorted, column),
    ensures
        is_sorted(sorted.insert(insert_point(sorted, entry, column), entry), column),
{
    let place = insert_point(sorted, entry, column);
    let longer = sorted.insert(place, entry);
    lemma_insert_point(sorted, entry, column);
    assert forall|i: int, j: int| 0 <= i < j < longer.len() implies key_le(
        longer[i],
        longer[j],
        column,
    ) by {
        if j < place {
            assert(longer[i] == sorted[i] && longer[j] == sorted[j]);
        } else if j == place {
            assert(longer[i] == sorted[i]);
            if i < place - 1 {
                lemma_key_le_transitive(sorted[i], sorted[place - 1], entry, column);
            }
        } else if i == place {
            assert(longer[j] == sorted[j - 1]);
            assert(!key_le(sorted[j - 1], entry, column));
            lemma_key_le_total(entry, sorted[j - 1], column);
        } else if i < place {
            assert(longer[i] == sorted[i] && longer[j] == sorted[j - 1]);
        } else {
            assert(longer[i] == sorted[i - 1] && longer[j] == sorted[j - 1]);
        }
    }
}

/// The result of the sort is in ascending order of the column.
pub proof fn lemma_sort_is_sorted(scores: Seq<ScoreView>, column: SortColumn)
    ensures
        is_sorted(sort_by(scores, column), column),
    decreases scores.len(),
{
    if scores.len() > 0 {
        lemma_sort_is_sorted(scores.drop_last(), column);
        lemma_insert_keeps_sorted(sort_by(scores.drop_last(), column), scores.last(), column);
    }
}

/// The sort keeps every entry, as often as it came.
pub proof fn lemma_sort_permutes(scores: Seq<ScoreView>, column: SortColumn)
    ensures
        sort_by(scores, column).to_multiset() == scores.to_multiset(),
        sort_by(scores, column).len() == scores.len(),
    decreases scores.len(),
{
    broadcast use vstd::seq_lib::group_to_multiset_ensures;

    if scores.len() > 0 {
        let rest = scores.drop_last();
        let sorted = sort_by(rest, column);
        lemma_sort_permutes(rest, column);
        lemma_insert_point(sorted, scores.last(), column);
        vstd::seq_lib::to_multiset_insert(
            sorted,
            insert_point(sorted, scores.last(), column),
            scores.last(),
        );
        assert(scores =~= rest.push(scores.last()));
    }
}

/// Among the entries level with `pivot`, a new entry lands last.
proof fn lemma_insert_lands_last(
    sorted: Seq<ScoreView>,
    entry: ScoreView,
    column: SortColumn,
    pivot: ScoreView,
)
    ensures
        sorted.insert(insert_point(sorted, entry, column), entry).filter(
            |e: ScoreView| same_key(e, pivot, column),
        ) == if same_key(entry, pivot, column) {
            sorted.filter(|e: ScoreView| same_key(e, pivot, column)).push(entry)
        } else {
            sorted.filter(|e: ScoreView| same_key(e, pivot, column))
        },
    decreases sorted.len(),
{
    let level = |e: ScoreView| same_key(e, pivot, column);
    let place = insert_point(sorted, entry, column);
    lemma_insert_point(sorted, entry, column);
    if place == sorted.len() {
        assert(sorted.insert(place, entry) =~= sorted.push(entry));
        sorted.lemma_filter_push(entry, level);
    } else {
        let rest = sorted.drop_last();
        let last = sorted.last();
        assert(!key_le(sorted[sorted.len() - 1], entry, column));
        lemma_insert_lands_last(rest, entry, column, pivot);
        assert(sorted.insert(place, entry) =~= rest.insert(place, entry).push(last));
        assert(sorted =~= rest.push(last));
        rest.insert(place, entry).lemma_filter_push(last, level);
        rest.lemma_filter_push(last, level);
        if level(entry) && level(last) {
            lemma_key_le_transitive(last, pivot, entry, column);
        }
    }
}

/// The sort is stable: the entries level with any given one stand in the
/// result in the order in which they came.
pub proof fn lemma_sort_is_stable(scores: Seq<ScoreView>, column: SortColumn, pivot: ScoreView)
    ensures
        sort_by(scores, column).filter(|e: ScoreView| same_key(e, pivot, column)) == scores.filter(
            |e: ScoreView| same_key(e, pivot, column),
        ),
    decreases scores.len(),
{
    let level = |e: ScoreView| same_key(e, pivot, column);
    if scores.len() > 0 {
        let rest = scores.drop_last();
        lemma_sort_is_stable(rest, column, pivot);
        lemma_insert_lands_last(sort_by(rest, column), scores.last(), column, pivot);
        assert(scores =~= rest.push(scores.last()));
        rest.lemma_filter_push(scores.last(), level);
    }
}

/// Compares two entries in the given column.
fn entry_le(a: &Score, b: &Score, column: SortColumn) -> (le: bool)
    ensures
        le == key_le(a@, b@, column),
{
    match column {
        SortColumn::PlayerName => str_le(a.name.as_str(), b.name.as_str()),
        SortColumn::Binary => str_le(a.command.as_str(), b.command.as_str()),
        SortColumn::Language => str_le(a.language.as_str(), b.language.as_str()),
        SortColumn::Time => a.time_ns <= b.time_ns,
    }
}

/// Sorts a copy of the entries by the given column, ascending and stable.
pub fn sort_scores(scores: &Vec<Score>, column: SortColumn) -> (sorted: Vec<Score>)
    ensures
        score_views(sorted@) == sort_by(score_views(scores@), column),
{
    let mut sorted: Vec<Score> = Vec::new();
    let mut i: usize = 0;
    while i < scores.len()
        invariant
            i <= scores.len(),
            score_views(sorted@) == sort_by(score_views(scores@.take(i as int)), column),
        decreases scores.len() - i,
    {
        let entry = scores[i].clone();
        let mut place: usize = sorted.len();
        while place > 0 && !entry_le(&sorted[place - 1], &entry, column)
            invariant
                place <= sorted.len(),
                forall|q: int|
                    place <= q < sorted.len() ==> !key_le(
                        #[trigger] score_views(sorted@)[q],
                        entry@,
                        column,
                    ),
            decreases place,
        {
            place -= 1;
        }
        proof {
            let before = score_views(sorted@);
            let prefix = score_views(scores@.take(i as int));
            let longer = score_views(scores@.take(i + 1));
            if place > 0 {
                assert(before[place - 1] == sorted@[place - 1]@);
            }
            lemma_insert_point_found(before, entry@, column, place as int);
            assert(longer.drop_last() =~= prefix);
            assert(longer.last() == entry@);
            assert(score_views(sorted@.insert(place as int, entry)) =~= before.insert(
                place as int,
                entry@,
            ));
        }
        sorted.insert(place, entry);
        i += 1;
    }
    assert(scores@.take(i as int) =~= scores@);
    sorted
}

/// What the filter tells entries apart by: the language under
/// `UniqueLanguage`, the player's name otherwise.
pub open spec fn group_key(entry: ScoreView, filter: FilterOption) -> Seq<char> {
    match filter {
        FilterOption::UniqueLanguage => entry.language,
        _ => entry.name,
    }
}

/// An entry before the one at `at` has the same group key.
pub open spec fn seen_before(scores: Seq<ScoreView>, at: int, filter: FilterOption) -> bool {
    exists|j: int|
        0 <= j < at && group_key(#[trigger] scores[j], filter) == group_key(scores[at], filter)
}

/// The entries that the filter keeps: all of them under `All`, else of each
/// group the entry that comes first, in the order in which they stand.
pub open spec fn first_occurrences(scores: Seq<ScoreView>, filter: FilterOption) -> Seq<ScoreView>
    decreases scores.len(),
{
    if filter == FilterOption::All || scores.len() == 0 {
        scores
    } else {
        let kept = first_occurrences(scores.drop_last(), filter);
        if seen_before(scores, scores.len() - 1, filter) {
            kept
        } else {
            kept.push(scores.last())
        }
    }
}

/// Whether an entry has an earlier one of its group does not depend on what
/// follows it.
proof fn lemma_seen_before_prefix(scores: Seq<ScoreView>, at: int, filter: FilterOption)
    requires
        0 <= at < scores.len() - 1,
    ensures
        seen_before(scores.drop_last(), at, filter) == seen_before(scores, at, filter),
{
    let rest = scores.drop_last();
    if seen_before(scores, at, filter) {
        let j = choose|j: int|
            0 <= j < at && group_key(#[trigger] scores[j], filter) == group_key(
                scores[at],
                filter,
            );
        assert(rest[j] == scores[j] && rest[at] == scores[at]);
    }
    if seen_before(rest, at, filter) {
        let j = choose|j: int|
            0 <= j < at && group_key(#[trigger] rest[j], filter) == group_key(rest[at], filter);
        assert(rest[j] == scores[j] && rest[at] == scores[at]);
    }
}

/// Under a filter other than `All`, an entry is kept exactly if it is the
/// first of its group.
pub proof fn lemma_kept_are_first(
    scores: Seq<ScoreView>,
    filter: FilterOption,
    entry: ScoreView,
)
    requires
        filter != FilterOption::All,
    ensures
        first_occurrences(scores, filter).contains(entry) <==> exists|i: int|
            0 <= i < scores.len() && #[trigger] scores[i] == entry && !seen_before(
                scores,
                i,
                filter,
            ),
    decreases scores.len(),
{
    let kept = first_occurrences(scores, filter);
    if scores.len() > 0 {
        let rest = scores.drop_last();
        let last = scores.len() - 1;
        lemma_kept_are_first(rest, filter, entry);
        let kept_rest = first_occurrences(rest, filter);
        if kept.contains(entry) {
            let k = choose|k: int| 0 <= k < kept.len() && kept[k] == entry;
            if k < kept_rest.len() {
                assert(kept_rest[k] == entry);
                let i = choose|i: int|
                    0 <= i < rest.len() && #[trigger] rest[i] == entry && !seen_before(
                        rest,
                        i,
                        filter,
                    );
                lemma_seen_before_prefix(scores, i, filter);
                assert(scores[i] == entry);
            } else {
                assert(scores[last] == entry);
            }
        }
        if exists|i: int|
            0 <= i < scores.len() && #[trigger] scores[i] == entry && !seen_before(
                scores,
                i,
                filter,
            ) {
            let i = choose|i: int|
                0 <= i < scores.len() && #[trigger] scores[i] == entry && !seen_before(
                    scores,
                    i,
                    filter,
                );
            if i < last {
                lemma_seen_before_prefix(scores, i, filter);
                assert(rest[i] == entry);
                assert(kept_rest.contains(entry));
                let k = choose|k: int| 0 <= k < kept_rest.len() && kept_rest[k] == entry;
                assert(kept[k] == entry);
            } else {
                assert(kept[kept.len() - 1] == entry);
            }
        }
    }
}

/// Under a filter other than `All`, every group of the input has an entry
/// among those kept.
pub proof fn lemma_kept_cover_groups(scores: Seq<ScoreView>, filter: FilterOption, at: int)
    requires
        filter != FilterOption::All,
        0 <= at < scores.len(),
    ensures
        exists|k: int|
            0 <= k < first_occurrences(scores, filter).len() && group_key(
                #[trigger] first_occurrences(scores, filter)[k],
                filter,
            ) == group_key(scores[at], filter),
    decreases scores.len(),
{
    let kept = first_occurrences(scores, filter);
    let rest = scores.drop_last();
    let kept_rest = first_occurrences(rest, filter);
    let last = scores.len() - 1;
    if at < last {
        lemma_kept_cover_groups(rest, filter, at);
        let k = choose|k: int|
            0 <= k < kept_rest.len() && group_key(#[trigger] kept_rest[k], filter) == group_key(
                rest[at],
                filter,
            );
        assert(kept[k] == kept_rest[k]);
    } else if seen_before(scores, last, filter) {
        let j = choose|j: int|
            0 <= j < last && group_key(#[trigger] scores[j], filter) == group_key(
                scores[last],
                filter,
            );
        lemma_kept_cover_groups(rest, filter, j);
        let k = choose|k: int|
            0 <= k < kept_rest.len() && group_key(#[trigger] kept_rest[k], filter) == group_key(
                rest[j],
                filter,
            );
        assert(kept[k] == kept_rest[k]);
    } else {
        assert(kept[kept.len() - 1] == scores[last]);
    }
}

/// Under a filter other than `All`, no two of the entries kept belong to one
/// group.
pub proof fn lemma_kept_are_distinct(scores: Seq<ScoreView>, filter: FilterOption)
    requires
        filter != FilterOption::All,
    ensures
        forall|a: int, b: int|
            0 <= a < b < first_occurrences(scores, filter).len() ==> group_key(
                first_occurrences(scores, filter)[a],
                filter,
            ) != group_key(first_occurrences(scores, filter)[b], filter),
    decreases scores.len(),
{
    let kept = first_occurrences(scores, filter);
    if scores.len() > 0 {
        let rest = scores.drop_last();
        let kept_rest = first_occurrences(rest, filter);
        let last = scores.len() - 1;
        lemma_kept_are_distinct(rest, filter);
        if !seen_before(scores, last, filter) {
            assert forall|a: int, b: int| 0 <= a < b < kept.len() implies group_key(
                kept[a],
                filter,
            ) != group_key(kept[b], filter) by {
                if b == kept.len() - 1 {
                    let early = kept_rest[a];
                    assert(kept[a] == early);
                    assert(kept_rest.contains(early));
                    lemma_kept_are_first(rest, filter, early);
                    let i = choose|i: int|
                        0 <= i < rest.len() && #[trigger] rest[i] == early && !seen_before(
                            rest,
                            i,
                            filter,
                        );
                    assert(scores[i] == early);
                } else {
                    assert(kept[a] == kept_rest[a] && kept[b] == kept_rest[b]);
                }
            }
        }
    }
}

/// Tells whether two entries belong to one group of the filter.
fn same_group(a: &Score, b: &Score, filter: FilterOption) -> (same: bool)
    ensures
        same == (group_key(a@, filter) == group_key(b@, filter)),
{
    match filter {
        FilterOption::UniqueLanguage => a.language == b.language,
        _ => a.name == b.name,
    }
}

/// Copies the entries that the filter keeps.
pub fn keep_first(scores: &Vec<Score>, filter: FilterOption) -> (kept: Vec<Score>)
    ensures
        score_views(kept@) == first_occurrences(score_views(scores@), filter),
{
    let mut kept: Vec<Score> = Vec::new();
    let mut i: usize = 0;
    while i < scores.len()
        invariant
            i <= scores.len(),
            score_views(kept@) == first_occurrences(score_views(scores@.take(i as int)), filter),
        decreases scores.len() - i,
    {
        let ghost longer = score_views(scores@.take(i + 1));
        let mut seen = false;
        let mut j: usize = 0;
        while j < i && !seen
            invariant
                j <= i < scores.len(),
                longer == score_views(scores@.take(i + 1)),
                seen ==> seen_before(longer, i as int, filter),
                !seen ==> forall|k: int|
                    0 <= k < j ==> group_key(#[trigger] longer[k], filter) != group_key(
                        longer[i as int],
                        filter,
                    ),
            decreases i - j + if seen { 0int } else { 1int },
        {
            if same_group(&scores[j], &scores[i], filter) {
                seen = true;
                assert(longer[j as int] == scores[j as int]@);
            }
            j += 1;
        }
        proof {
            assert(longer.drop_last() =~= score_views(scores@.take(i as int)));
            assert(longer.last() == scores[i as int]@);
            if filter == FilterOption::All {
                assert(longer =~= longer.drop_last().push(longer.last()));
                assert(first_occurrences(longer.drop_last(), filter) == longer.drop_last());
            }
        }
        if filter == FilterOption::All || !seen {
            let entry = scores[i].clone();
            proof {
                assert(score_views(kept@.push(entry)) =~= score_views(kept@).push(entry@));
            }
            kept.push(entry);
        }
        i += 1;
    }
    assert(scores@.take(i as int) =~= scores@);
    kept
}

/// One line of the table.
#[derive(Debug)]
pub struct Row {
    pub rank: usize,
    pub time_ns: u64,
    pub name: String,
    pub language: String,
    pub binary: String,
}

/// What a `Row` holds, as plain values.
pub struct RowView {
    pub rank: nat,
    pub time_ns: u64,
    pub name: Seq<char>,
    pub language: Seq<char>,
    pub binary: Seq<char>,
}

impl View for Row {
    type V = RowView;

    open spec fn view(&self) -> RowView {
        RowView {
            rank: self.rank as nat,
            time_ns: self.time_ns,
            name: self.name@,
            language: self.language@,
            binary: self.binary@,
        }
    }
}

/// The rows of a table, as plain values.
pub open spec fn row_views(rows: Seq<Row>) -> Seq<RowView> {
    rows.map_values(|r: Row| r@)
}

/// The row shown for an entry at a given place, counted from zero.
pub open spec fn row_of(entry: ScoreView, rank: int) -> RowView {
    RowView {
        rank: rank as nat,
        time_ns: entry.time_ns,
        name: entry.name,
        language: entry.language,
        binary: entry.command,
    }
}

/// The table for a fetched collection: sorted by the column, then filtered,
/// then numbered from zero.
pub open spec fn table_spec(
    scores: Seq<ScoreView>,
    filter: FilterOption,
    column: SortColumn,
) -> Seq<RowView> {
    let shown = first_occurrences(sort_by(scores, column), filter);
    Seq::new(shown.len(), |i: int| row_of(shown[i], i))
}

/// Builds the table to display from the fetched collection.
pub fn table_rows(scores: &Vec<Score>, filter: FilterOption, column: SortColumn) -> (rows: Vec<Row>)
    ensures
        row_views(rows@) == table_spec(score_views(scores@), filter, column),
{
    let sorted = sort_scores(scores, column);
    let shown = keep_first(&sorted, filter);
    let mut rows: Vec<Row> = Vec::new();
    let mut i: usize = 0;
    while i < shown.len()
        invariant
            i <= shown.len(),
            rows.len() == i,
            forall|k: int| 0 <= k < i ==> (#[trigger] rows@[k])@ == row_of(shown@[k]@, k),
        decreases shown.len() - i,
    {
        rows.push(
            Row {
                rank: i,
                time_ns: shown[i].time_ns,
                name: shown[i].name.clone(),
                language: shown[i].language.clone(),
                binary: shown[i].command.clone(),
            },
        );
        i += 1;
    }
    assert(row_views(rows@) =~= table_spec(score_views(scores@), filter, column));
    rows
}

} // verus!
