//! The queries on the rows of a day's shard.
//!
//! Each query reads the rows in the order in which they were written and
//! returns copies of the rows it selects. Text is compared as it is stored:
//! by its UTF-8 bytes.

use crate::pattern::{like, like_match};
use crate::point::{rows_view, MetricDataPoint, PointView};
use crate::text::{
    lemma_lex_le_reflexive, lemma_lex_le_total, lemma_lex_le_transitive,
    lemma_text_le_antisymmetric, str_eq, str_le, text_le, to_chars,
};
use vstd::prelude::*;
use vstd::string::*;
use vstd::utf8::*;

verus! {

/// Whether a windowed query selects `row`: its metric name matches
/// `pattern`, its timestamp lies in `[start, end]`, and, unless every node
/// is asked for, it is a row of `node_id`.
pub open spec fn selects(
    row: PointView,
    any_node: bool,
    node_id: Seq<char>,
    pattern: Seq<char>,
    start: Seq<char>,
    end: Seq<char>,
) -> bool {
    &&& any_node || row.node_id == node_id
    &&& like(pattern, row.probe_name)
    &&& text_le(start, row.timestamp)
    &&& text_le(row.timestamp, end)
}

/// The rows that a windowed query selects.
pub open spec fn selector(
    any_node: bool,
    node_id: Seq<char>,
    pattern: Seq<char>,
    start: Seq<char>,
    end: Seq<char>,
) -> spec_fn(PointView) -> bool {
    |row: PointView| selects(row, any_node, node_id, pattern, start, end)
}

/// Whether `a` may stand before `b` in a result: by timestamp, and, where
/// the rows of several nodes are listed, by node first.
pub open spec fn comes_before(by_node: bool, a: PointView, b: PointView) -> bool {
    if by_node && a.node_id != b.node_id {
        text_le(a.node_id, b.node_id)
    } else {
        text_le(a.timestamp, b.timestamp)
    }
}

/// A sorted result with one more row: the row stands behind every row that
/// may stand before it.
pub open spec fn insert_sorted(by_node: bool, sorted: Seq<PointView>, row: PointView) -> Seq<
    PointView,
>
    decreases sorted.len(),
{
    if sorted.len() == 0 || comes_before(by_node, sorted.last(), row) {
        sorted.push(row)
    } else {
        insert_sorted(by_node, sorted.drop_last(), row).push(sorted.last())
    }
}

/// The rows in ascending order; rows that the order does not tell apart
/// keep the order in which they were written.
pub open spec fn sort_rows(by_node: bool, rows: Seq<PointView>) -> Seq<PointView>
    decreases rows.len(),
{
    if rows.len() == 0 {
        rows
    } else {
        insert_sorted(by_node, sort_rows(by_node, rows.drop_last()), rows.last())
    }
}

/// The result of a windowed query.
pub open spec fn window_result(
    rows: Seq<PointView>,
    any_node: bool,
    node_id: Seq<char>,
    pattern: Seq<char>,
    start: Seq<char>,
    end: Seq<char>,
) -> Seq<PointView> {
    sort_rows(any_node, rows.filter(selector(any_node, node_id, pattern, start, end)))
}

/// Where a row goes into a sorted result: behind the last row that may
/// stand before it.
proof fn lemma_insert_position(by_node: bool, sorted: Seq<PointView>, row: PointView, at: int)
    requires
        0 <= at <= sorted.len(),
        at == 0 || comes_before(by_node, sorted[at - 1], row),
        forall|k: int| at <= k < sorted.len() ==> !comes_before(by_node, #[trigger] sorted[k], row),
    ensures
        insert_sorted(by_node, sorted, row) == sorted.insert(at, row),
    decreases sorted.len() - at,
{
    if at == sorted.len() {
        assert(sorted.insert(at, row) =~= sorted.push(row));
    } else {
        let shorter = sorted.drop_last();
        assert(!comes_before(by_node, sorted[sorted.len() - 1], row));
        lemma_insert_position(by_node, shorter, row, at);
        assert(shorter.insert(at, row).push(sorted.last()) =~= sorted.insert(at, row));
    }
}

/// Of two rows one may stand before the other.
pub proof fn lemma_comes_before_total(by_node: bool, a: PointView, b: PointView)
    ensures
        comes_before(by_node, a, b) || comes_before(by_node, b, a),
{
    lemma_lex_le_total(encode_utf8(a.node_id), encode_utf8(b.node_id));
    lemma_lex_le_total(encode_utf8(a.timestamp), encode_utf8(b.timestamp));
}

/// The order of results is transitive.
pub proof fn lemma_comes_before_transitive(by_node: bool, a: PointView, b: PointView, c: PointView)
    requires
        comes_before(by_node, a, b),
        comes_before(by_node, b, c),
    ensures
        comes_before(by_node, a, c),
{
    if by_node && (a.node_id != b.node_id || b.node_id != c.node_id) {
        if a.node_id != b.node_id && b.node_id != c.node_id {
            lemma_lex_le_transitive(
                encode_utf8(a.node_id),
                encode_utf8(b.node_id),
                encode_utf8(c.node_id),
            );
            if a.node_id == c.node_id {
                lemma_text_le_antisymmetric(a.node_id, b.node_id);
            }
        }
    } else {
        lemma_lex_le_transitive(
            encode_utf8(a.timestamp),
            encode_utf8(b.timestamp),
            encode_utf8(c.timestamp),
        );
    }
}

/// Every row may stand before each row behind it.
pub open spec fn ascending(by_node: bool, rows: Seq<PointView>) -> bool {
    forall|i: int, j: int|
        0 <= i < j < rows.len() ==> comes_before(by_node, #[trigger] rows[i], #[trigger] rows[j])
}

/// Putting a row into a result in ascending order keeps the order, adds
/// the row, and neither drops nor repeats another.
proof fn lemma_insert_sorted(by_node: bool, sorted: Seq<PointView>, row: PointView)
    requires
        ascending(by_node, sorted),
    ensures
        ascending(by_node, insert_sorted(by_node, sorted, row)),
        insert_sorted(by_node, sorted, row).len() == sorted.len() + 1,
        insert_sorted(by_node, sorted, row).to_multiset() == sorted.to_multiset().insert(row),
        forall|x: PointView|
            #[trigger] insert_sorted(by_node, sorted, row).contains(x) ==> x == row
                || sorted.contains(x),
    decreases sorted.len(),
{
    broadcast use vstd::seq_lib::group_to_multiset_ensures;

    let result = insert_sorted(by_node, sorted, row);
    if sorted.len() == 0 || comes_before(by_node, sorted.last(), row) {
        assert forall|i: int, j: int| 0 <= i < j < result.len() implies comes_before(
            by_node,
            #[trigger] result[i],
            #[trigger] result[j],
        ) by {
            if j == sorted.len() && i < sorted.len() - 1 {
                lemma_comes_before_transitive(by_node, sorted[i], sorted.last(), row);
            }
        }
        assert forall|x: PointView| result.contains(x) implies x == row || sorted.contains(x) by {
            let i = choose|i: int| 0 <= i < result.len() && result[i] == x;
            if i < sorted.len() {
                assert(sorted[i] == x);
            }
        }
    } else {
        let shorter = sorted.drop_last();
        let last = sorted.last();
        let inner = insert_sorted(by_node, shorter, row);
        assert(ascending(by_node, shorter)) by {
            assert forall|i: int, j: int| 0 <= i < j < shorter.len() implies comes_before(
                by_node,
                #[trigger] shorter[i],
                #[trigger] shorter[j],
            ) by {
                assert(shorter[i] == sorted[i] && shorter[j] == sorted[j]);
            }
        }
        lemma_insert_sorted(by_node, shorter, row);
        lemma_comes_before_total(by_node, last, row);
        assert forall|i: int, j: int| 0 <= i < j < result.len() implies comes_before(
            by_node,
            #[trigger] result[i],
            #[trigger] result[j],
        ) by {
            if j == inner.len() {
                assert(inner.contains(inner[i]));
                if inner[i] != row {
                    let k = choose|k: int| 0 <= k < shorter.len() && shorter[k] == inner[i];
                    assert(sorted[k] == inner[i]);
                }
            } else {
                assert(result[i] == inner[i] && result[j] == inner[j]);
            }
        }
        assert(sorted =~= shorter.push(last));
        assert(result.to_multiset() =~= sorted.to_multiset().insert(row));
        assert forall|x: PointView| result.contains(x) implies x == row || sorted.contains(x) by {
            let i = choose|i: int| 0 <= i < result.len() && result[i] == x;
            if i < inner.len() {
                assert(inner.contains(x));
                if x != row {
                    let k = choose|k: int| 0 <= k < shorter.len() && shorter[k] == x;
                    assert(sorted[k] == x);
                }
            } else {
                assert(sorted[sorted.len() - 1] == x);
            }
        }
    }
}

/// A sorted result is in ascending order, and it holds the rows that were
/// sorted, each as often as it was there.
pub proof fn lemma_sort_rows(by_node: bool, rows: Seq<PointView>)
    ensures
        ascending(by_node, sort_rows(by_node, rows)),
        sort_rows(by_node, rows).len() == rows.len(),
        sort_rows(by_node, rows).to_multiset() == rows.to_multiset(),
    decreases rows.len(),
{
    broadcast use vstd::seq_lib::group_to_multiset_ensures;

    if rows.len() > 0 {
        lemma_sort_rows(by_node, rows.drop_last());
        lemma_insert_sorted(by_node, sort_rows(by_node, rows.drop_last()), rows.last());
        assert(rows =~= rows.drop_last().push(rows.last()));
    }
}

/// The result of a windowed query is in ascending order, holds only rows of
/// the shard that the query selects, and holds each of those.
pub proof fn lemma_window_result(
    rows: Seq<PointView>,
    any_node: bool,
    node_id: Seq<char>,
    pattern: Seq<char>,
    start: Seq<char>,
    end: Seq<char>,
)
    ensures
        ascending(any_node, window_result(rows, any_node, node_id, pattern, start, end)),
        forall|row: PointView|
            window_result(rows, any_node, node_id, pattern, start, end).contains(row) <==> (
            rows.contains(row) && selects(row, any_node, node_id, pattern, start, end)),
{
    broadcast use vstd::seq_lib::group_to_multiset_ensures;

    let wanted = selector(any_node, node_id, pattern, start, end);
    let kept = rows.filter(wanted);
    let result = window_result(rows, any_node, node_id, pattern, start, end);
    lemma_sort_rows(any_node, kept);
    assert forall|row: PointView| result.contains(row) <==> (rows.contains(row) && selects(
        row,
        any_node,
        node_id,
        pattern,
        start,
        end,
    )) by {
        assert(result.contains(row) <==> result.to_multiset().count(row) > 0);
        assert(kept.contains(row) <==> kept.to_multiset().count(row) > 0);
        if kept.contains(row) {
            let i = choose|i: int| 0 <= i < kept.len() && kept[i] == row;
            rows.lemma_filter_pred(wanted, i);
            rows.lemma_filter_contains_rev(wanted, row);
        }
        if rows.contains(row) && wanted(row) {
            let i = choose|i: int| 0 <= i < rows.len() && rows[i] == row;
            rows.lemma_filter_contains(wanted, i);
        }
    }
}

/// Whether `a` may stand before `b` in a result.
fn row_before(by_node: bool, a: &MetricDataPoint, b: &MetricDataPoint) -> (before: bool)
    ensures
        before == comes_before(by_node, a@, b@),
{
    if by_node && !str_eq(a.node_id.as_str(), b.node_id.as_str()) {
        str_le(a.node_id.as_str(), b.node_id.as_str())
    } else {
        str_le(a.timestamp.as_str(), b.timestamp.as_str())
    }
}

/// Whether a windowed query selects `row`.
fn row_selected(
    row: &MetricDataPoint,
    any_node: bool,
    node_id: &str,
    pattern: &Vec<char>,
    start: &str,
    end: &str,
) -> (selected: bool)
    ensures
        selected == selects(row@, any_node, node_id@, pattern@, start@, end@),
{
    if !any_node && !str_eq(row.node_id.as_str(), node_id) {
        return false;
    }
    if !str_le(start, row.timestamp.as_str()) || !str_le(row.timestamp.as_str(), end) {
        return false;
    }
    let name = to_chars(row.probe_name.as_str());
    like_match(pattern, &name)
}

/// Selects and sorts the rows of a windowed query.
fn select_window(
    rows: &Vec<MetricDataPoint>,
    any_node: bool,
    node_id: &str,
    metric_pattern: &str,
    start: &str,
    end: &str,
) -> (found: Vec<MetricDataPoint>)
    ensures
        rows_view(found@) == window_result(
            rows_view(rows@),
            any_node,
            node_id@,
            metric_pattern@,
            start@,
            end@,
        ),
{
    let pattern = to_chars(metric_pattern);
    let ghost all = rows_view(rows@);
    let ghost wanted = selector(any_node, node_id@, metric_pattern@, start@, end@);
    let mut found: Vec<MetricDataPoint> = Vec::new();
    let mut i: usize = 0;
    proof {
        assert(all.take(0) =~= Seq::<PointView>::empty());
        reveal(Seq::filter);
        assert(rows_view(found@) =~= Seq::<PointView>::empty());
    }
    while i < rows.len()
        invariant
            0 <= i <= rows@.len(),
            all == rows_view(rows@),
            wanted == selector(any_node, node_id@, metric_pattern@, start@, end@),
            pattern@ == metric_pattern@,
            rows_view(found@) == sort_rows(any_node, all.take(i as int).filter(wanted)),
        decreases rows@.len() - i,
    {
        let row = &rows[i];
        proof {
            assert(all.take(i + 1) =~= all.take(i as int).push(row@));
            all.take(i as int).lemma_filter_push(row@, wanted);
        }
        if row_selected(row, any_node, node_id, &pattern, start, end) {
            let mut at: usize = found.len();
            while at > 0 && !row_before(any_node, &found[at - 1], row)
                invariant
                    0 <= at <= found@.len(),
                    forall|k: int|
                        at <= k < found@.len() ==> !comes_before(
                            any_node,
                            #[trigger] rows_view(found@)[k],
                            row@,
                        ),
                decreases at,
            {
                at -= 1;
            }
            let copy = row.duplicate();
            proof {
                let kept = all.take(i as int).filter(wanted);
                lemma_insert_position(any_node, rows_view(found@), row@, at as int);
                assert(rows_view(found@.insert(at as int, copy)) =~= rows_view(found@).insert(
                    at as int,
                    row@,
                ));
                assert(kept.push(row@).drop_last() =~= kept);
            }
            found.insert(at, copy);
        }
        i += 1;
    }
    assert(all.take(i as int) =~= all);
    found
}

/// Windowed metrics of one node: every row of `node_id` whose metric name
/// matches `metric_pattern` and whose timestamp lies in `[start, end]`, in
/// ascending order of timestamp.
pub fn query_node_metrics(
    rows: &Vec<MetricDataPoint>,
    node_id: &str,
    metric_pattern: &str,
    start: &str,
    end: &str,
) -> (found: Vec<MetricDataPoint>)
    ensures
        rows_view(found@) == window_result(
            rows_view(rows@),
            false,
            node_id@,
            metric_pattern@,
            start@,
            end@,
        ),
{
    select_window(rows, false, node_id, metric_pattern, start, end)
}

/// Windowed metrics of every node: every row whose metric name matches
/// `metric_pattern` and whose timestamp lies in `[start, end]`, in
/// ascending order of node and, for one node, of timestamp.
pub fn query_all_nodes_metrics(
    rows: &Vec<MetricDataPoint>,
    metric_pattern: &str,
    start: &str,
    end: &str,
) -> (found: Vec<MetricDataPoint>)
    ensures
        rows_view(found@) == window_result(
            rows_view(rows@),
            true,
            Seq::<char>::empty(),
            metric_pattern@,
            start@,
            end@,
        ),
{
    let found = select_window(rows, true, "", metric_pattern, start, end);
    proof {
        reveal_strlit("");
        assert(""@ =~= Seq::<char>::empty());
    }
    found
}

/// No row of `node_id` is later than `time`.
pub open spec fn is_latest_time(rows: Seq<PointView>, node_id: Seq<char>, time: Seq<char>) -> bool {
    forall|k: int|
        0 <= k < rows.len() && (#[trigger] rows[k]).node_id == node_id ==> text_le(
            rows[k].timestamp,
            time,
        )
}

/// The rows of the latest snapshot of `node_id`: its rows with the latest
/// timestamp that any of its rows has.
pub open spec fn latest_selector(rows: Seq<PointView>, node_id: Seq<char>) -> spec_fn(
    PointView,
) -> bool {
    |row: PointView| row.node_id == node_id && is_latest_time(rows, node_id, row.timestamp)
}

/// The result of the latest-snapshot query: the rows of the node's most
/// recent collection cycle, in the order in which they were written.
pub open spec fn latest_result(rows: Seq<PointView>, node_id: Seq<char>) -> Seq<PointView> {
    rows.filter(latest_selector(rows, node_id))
}

/// Among the rows of a node that has a row, one has the latest timestamp.
proof fn lemma_latest_exists(rows: Seq<PointView>, node_id: Seq<char>) -> (at: int)
    requires
        exists|k: int| 0 <= k < rows.len() && (#[trigger] rows[k]).node_id == node_id,
    ensures
        0 <= at < rows.len(),
        rows[at].node_id == node_id,
        is_latest_time(rows, node_id, rows[at].timestamp),
    decreases rows.len(),
{
    let shorter = rows.drop_last();
    let last = rows.last();
    if exists|k: int| 0 <= k < shorter.len() && (#[trigger] shorter[k]).node_id == node_id {
        let best = lemma_latest_exists(shorter, node_id);
        assert(rows[best] == shorter[best]);
        let time = rows[best].timestamp;
        if last.node_id == node_id && !text_le(last.timestamp, time) {
            lemma_lex_le_total(encode_utf8(last.timestamp), encode_utf8(time));
            lemma_lex_le_reflexive(encode_utf8(last.timestamp));
            assert forall|k: int|
                0 <= k < rows.len() && (#[trigger] rows[k]).node_id == node_id implies text_le(
                rows[k].timestamp,
                last.timestamp,
            ) by {
                if k < shorter.len() {
                    assert(shorter[k] == rows[k]);
                    lemma_lex_le_transitive(
                        encode_utf8(rows[k].timestamp),
                        encode_utf8(time),
                        encode_utf8(last.timestamp),
                    );
                }
            }
            rows.len() - 1
        } else {
            assert forall|k: int|
                0 <= k < rows.len() && (#[trigger] rows[k]).node_id == node_id implies text_le(
                rows[k].timestamp,
                time,
            ) by {
                if k < shorter.len() {
                    assert(shorter[k] == rows[k]);
                }
            }
            best
        }
    } else {
        let k = choose|k: int| 0 <= k < rows.len() && (#[trigger] rows[k]).node_id == node_id;
        if k < shorter.len() {
            assert(shorter[k] == rows[k]);
        }
        lemma_lex_le_reflexive(encode_utf8(last.timestamp));
        assert forall|j: int|
            0 <= j < rows.len() && (#[trigger] rows[j]).node_id == node_id implies text_le(
            rows[j].timestamp,
            last.timestamp,
        ) by {
            if j < shorter.len() {
                assert(shorter[j] == rows[j]);
            }
        }
        rows.len() - 1
    }
}

/// The latest snapshot of a node holds rows of that node only, all of one
/// timestamp, and no row of the node is later. It is empty only where the
/// node has no row.
pub proof fn lemma_latest_result(rows: Seq<PointView>, node_id: Seq<char>)
    ensures
        forall|i: int|
            0 <= i < latest_result(rows, node_id).len() ==> {
                &&& (#[trigger] latest_result(rows, node_id)[i]).node_id == node_id
                &&& is_latest_time(rows, node_id, latest_result(rows, node_id)[i].timestamp)
                &&& latest_result(rows, node_id)[i].timestamp == latest_result(
                    rows,
                    node_id,
                )[0].timestamp
            },
        latest_result(rows, node_id).len() == 0 <==> forall|k: int|
            0 <= k < rows.len() ==> (#[trigger] rows[k]).node_id != node_id,
{
    let wanted = latest_selector(rows, node_id);
    let found = latest_result(rows, node_id);
    assert forall|i: int| 0 <= i < found.len() implies {
        &&& (#[trigger] found[i]).node_id == node_id
        &&& is_latest_time(rows, node_id, found[i].timestamp)
        &&& found[i].timestamp == found[0].timestamp
    } by {
        rows.lemma_filter_pred(wanted, i);
        rows.lemma_filter_pred(wanted, 0);
        assert(found.contains(found[i]));
        assert(found.contains(found[0]));
        rows.lemma_filter_contains_rev(wanted, found[i]);
        rows.lemma_filter_contains_rev(wanted, found[0]);
        let a = choose|a: int| 0 <= a < rows.len() && rows[a] == found[i];
        let b = choose|b: int| 0 <= b < rows.len() && rows[b] == found[0];
        assert(text_le(rows[a].timestamp, found[0].timestamp));
        assert(text_le(rows[b].timestamp, found[i].timestamp));
        lemma_text_le_antisymmetric(found[i].timestamp, found[0].timestamp);
    }
    if exists|k: int| 0 <= k < rows.len() && (#[trigger] rows[k]).node_id == node_id {
        let at = lemma_latest_exists(rows, node_id);
        assert(wanted(rows[at]));
        rows.lemma_filter_contains(wanted, at);
        assert(found.len() > 0);
    }
    if found.len() > 0 {
        rows.lemma_filter_pred(wanted, 0);
        assert(found.contains(found[0]));
        rows.lemma_filter_contains_rev(wanted, found[0]);
        let k = choose|k: int| 0 <= k < rows.len() && rows[k] == found[0];
        assert(rows[k].node_id == node_id);
    }
}

/// The position of a row of `node_id` with the latest timestamp, if the
/// node has a row.
fn latest_position(rows: &Vec<MetricDataPoint>, node_id: &str) -> (best: Option<usize>)
    ensures
        best matches Some(b) ==> b < rows@.len() && rows@[b as int]@.node_id == node_id@
            && is_latest_time(rows_view(rows@), node_id@, rows@[b as int]@.timestamp),
        best is None ==> forall|k: int|
            0 <= k < rows@.len() ==> (#[trigger] rows@[k])@.node_id != node_id@,
{
    let mut best: Option<usize> = None;
    let mut i: usize = 0;
    while i < rows.len()
        invariant
            0 <= i <= rows@.len(),
            best matches Some(b) ==> b < i && rows@[b as int]@.node_id == node_id@ && forall|
                k: int,
            |
                0 <= k < i && (#[trigger] rows@[k])@.node_id == node_id@ ==> text_le(
                    rows@[k]@.timestamp,
                    rows@[b as int]@.timestamp,
                ),
            best is None ==> forall|k: int|
                0 <= k < i ==> (#[trigger] rows@[k])@.node_id != node_id@,
        decreases rows@.len() - i,
    {
        let row = &rows[i];
        if str_eq(row.node_id.as_str(), node_id) {
            match best {
                None => {
                    proof {
                        lemma_lex_le_reflexive(encode_utf8(row@.timestamp));
                    }
                    best = Some(i);
                },
                Some(b) => {
                    if !str_le(row.timestamp.as_str(), rows[b].timestamp.as_str()) {
                        proof {
                            let old_time = rows@[b as int]@.timestamp;
                            let new_time = row@.timestamp;
                            lemma_lex_le_total(encode_utf8(new_time), encode_utf8(old_time));
                            lemma_lex_le_reflexive(encode_utf8(new_time));
                            assert forall|k: int|
                                0 <= k < i + 1 && (#[trigger] rows@[k])@.node_id
                                    == node_id@ implies text_le(rows@[k]@.timestamp, new_time) by {
                                if k < i {
                                    lemma_lex_le_transitive(
                                        encode_utf8(rows@[k]@.timestamp),
                                        encode_utf8(old_time),
                                        encode_utf8(new_time),
                                    );
                                }
                            }
                        }
                        best = Some(i);
                    }
                },
            }
        }
        i += 1;
    }
    proof {
        if let Some(b) = best {
            assert forall|k: int|
                0 <= k < rows@.len() && (#[trigger] rows_view(rows@)[k]).node_id
                    == node_id@ implies text_le(
                rows_view(rows@)[k].timestamp,
                rows@[b as int]@.timestamp,
            ) by {
                assert(rows@[k]@.node_id == node_id@);
            }
        }
    }
    best
}

/// Latest snapshot of one node: every row of `node_id` whose timestamp is
/// the latest that any row of the node has, in the order in which the rows
/// were written. This is the whole point set of the node's most recent
/// collection cycle.
pub fn query_latest_node_metrics(rows: &Vec<MetricDataPoint>, node_id: &str) -> (found: Vec<
    MetricDataPoint,
>)
    ensures
        rows_view(found@) == latest_result(rows_view(rows@), node_id@),
{
    let ghost all = rows_view(rows@);
    let ghost wanted = latest_selector(all, node_id@);
    let mut found: Vec<MetricDataPoint> = Vec::new();
    proof {
        reveal(Seq::filter);
        assert(all.take(0) =~= Seq::<PointView>::empty());
        assert(rows_view(found@) =~= Seq::<PointView>::empty());
    }
    let best = latest_position(rows, node_id);
    let mut i: usize = 0;
    while i < rows.len()
        invariant
            0 <= i <= rows@.len(),
            all == rows_view(rows@),
            wanted == latest_selector(all, node_id@),
            best matches Some(b) ==> b < rows@.len() && rows@[b as int]@.node_id == node_id@
                && is_latest_time(all, node_id@, rows@[b as int]@.timestamp),
            best is None ==> forall|k: int|
                0 <= k < rows@.len() ==> (#[trigger] rows@[k])@.node_id != node_id@,
            rows_view(found@) == all.take(i as int).filter(wanted),
        decreases rows@.len() - i,
    {
        let row = &rows[i];
        proof {
            assert(all.take(i + 1) =~= all.take(i as int).push(row@));
            all.take(i as int).lemma_filter_push(row@, wanted);
        }
        let selected: bool = match best {
            None => false,
            Some(b) => {
                let same_node = str_eq(row.node_id.as_str(), node_id);
                let same_time = str_eq(row.timestamp.as_str(), rows[b].timestamp.as_str());
                proof {
                    let latest = rows@[b as int]@.timestamp;
                    if same_node && !same_time && is_latest_time(all, node_id@, row@.timestamp) {
                        assert(all[b as int].node_id == node_id@);
                        assert(all[i as int].node_id == node_id@);
                        lemma_text_le_antisymmetric(row@.timestamp, latest);
                    }
                }
                same_node && same_time
            },
        };
        if selected {
            let copy = row.duplicate();
            proof {
                assert(rows_view(found@.push(copy)) =~= rows_view(found@).push(row@));
            }
            found.push(copy);
        }
        i += 1;
    }
    assert(all.take(i as int) =~= all);
    found
}

/// The texts of a list of identifiers.
pub open spec fn ids_view(ids: Seq<String>) -> Seq<Seq<char>> {
    ids.map_values(|id: String| id@)
}

/// Each identifier stands before every later one and differs from it.
pub open spec fn strictly_ascending(ids: Seq<Seq<char>>) -> bool {
    forall|i: int, j: int|
        0 <= i < j < ids.len() ==> text_le(#[trigger] ids[i], #[trigger] ids[j]) && ids[i]
            != ids[j]
}

/// `ids` names the nodes that have a row in `rows`, and no other.
pub open spec fn names_nodes_of(ids: Seq<Seq<char>>, rows: Seq<PointView>) -> bool {
    &&& forall|k: int| 0 <= k < rows.len() ==> ids.contains((#[trigger] rows[k]).node_id)
    &&& forall|i: int|
        0 <= i < ids.len() ==> exists|k: int|
            0 <= k < rows.len() && (#[trigger] rows[k]).node_id == #[trigger] ids[i]
}

/// The order of texts, as a relation.
pub open spec fn text_order() -> spec_fn(Seq<char>, Seq<char>) -> bool {
    |a: Seq<char>, b: Seq<char>| text_le(a, b)
}

/// The order of texts is a total order.
pub proof fn lemma_text_order_total()
    ensures
        vstd::relations::total_ordering(text_order()),
{
    let order = text_order();
    assert forall|a: Seq<char>| #[trigger] order(a, a) by {
        lemma_lex_le_reflexive(encode_utf8(a));
    }
    assert forall|a: Seq<char>, b: Seq<char>| #[trigger]
        order(a, b) && #[trigger] order(b, a) implies a == b by {
        lemma_text_le_antisymmetric(a, b);
    }
    assert forall|a: Seq<char>, b: Seq<char>, c: Seq<char>| #[trigger]
        order(a, b) && #[trigger] order(b, c) implies order(a, c) by {
        lemma_lex_le_transitive(encode_utf8(a), encode_utf8(b), encode_utf8(c));
    }
    assert forall|a: Seq<char>, b: Seq<char>| #[trigger] order(a, b) || #[trigger] order(b, a) by {
        lemma_lex_le_total(encode_utf8(a), encode_utf8(b));
    }
}

/// There is one list of distinct node ids for the rows of a shard: two
/// lists in ascending order that name the same nodes are the same list.
pub proof fn lemma_node_ids_unique(
    first: Seq<Seq<char>>,
    second: Seq<Seq<char>>,
    rows: Seq<PointView>,
)
    requires
        strictly_ascending(first),
        names_nodes_of(first, rows),
        strictly_ascending(second),
        names_nodes_of(second, rows),
    ensures
        first == second,
{
    broadcast use vstd::seq_lib::group_to_multiset_ensures;

    lemma_text_order_total();
    first.lemma_multiset_has_no_duplicates();
    second.lemma_multiset_has_no_duplicates();
    assert forall|id: Seq<char>| first.to_multiset().count(id) == second.to_multiset().count(
        id,
    ) by {
        if first.contains(id) {
            let i = choose|i: int| 0 <= i < first.len() && first[i] == id;
            let k = choose|k: int|
                0 <= k < rows.len() && (#[trigger] rows[k]).node_id == first[i];
            assert(second.contains(rows[k].node_id));
        }
        if second.contains(id) {
            let i = choose|i: int| 0 <= i < second.len() && second[i] == id;
            let k = choose|k: int|
                0 <= k < rows.len() && (#[trigger] rows[k]).node_id == second[i];
            assert(first.contains(rows[k].node_id));
        }
    }
    assert(first.to_multiset() =~= second.to_multiset());
    vstd::seq_lib::lemma_sorted_unique(first, second, text_order());
}

/// Distinct node ids: the identifier of every node that has a row, each
/// once, in ascending order. A node is known from its first row on.
pub fn query_all_node_ids(rows: &Vec<MetricDataPoint>) -> (ids: Vec<String>)
    ensures
        strictly_ascending(ids_view(ids@)),
        names_nodes_of(ids_view(ids@), rows_view(rows@)),
{
    let ghost all = rows_view(rows@);
    let mut ids: Vec<String> = Vec::new();
    let mut i: usize = 0;
    while i < rows.len()
        invariant
            0 <= i <= rows@.len(),
            all == rows_view(rows@),
            strictly_ascending(ids_view(ids@)),
            names_nodes_of(ids_view(ids@), all.take(i as int)),
        decreases rows@.len() - i,
    {
        let row = &rows[i];
        let ghost id = row@.node_id;
        let ghost before = ids_view(ids@);
        let mut at: usize = ids.len();
        while at > 0 && !str_le(ids[at - 1].as_str(), row.node_id.as_str())
            invariant
                0 <= at <= ids@.len(),
                id == row@.node_id,
                before == ids_view(ids@),
                forall|k: int| at <= k < ids@.len() ==> !text_le(#[trigger] before[k], id),
            decreases at,
        {
            at -= 1;
        }
        let known: bool = at > 0 && str_eq(ids[at - 1].as_str(), row.node_id.as_str());
        if known {
            proof {
                let grown = all.take(i + 1);
                assert(grown[i as int] == row@);
                assert(before[at - 1] == id);
                assert forall|k: int| 0 <= k < grown.len() implies before.contains(
                    (#[trigger] grown[k]).node_id,
                ) by {
                    if k < i {
                        assert(all.take(i as int)[k] == grown[k]);
                    }
                }
                assert forall|m: int| 0 <= m < before.len() implies exists|k: int|
                    0 <= k < grown.len() && (#[trigger] grown[k]).node_id
                        == #[trigger] before[m] by {
                    let k = choose|k: int|
                        0 <= k < all.take(i as int).len() && (#[trigger] all.take(
                            i as int,
                        )[k]).node_id == before[m];
                    assert(grown[k] == all.take(i as int)[k]);
                }
            }
        } else {
            let copy = row.node_id.clone();
            proof {
                let after = before.insert(at as int, id);
                assert(ids_view(ids@.insert(at as int, copy)) =~= after);
                assert forall|a: int, b: int| 0 <= a < b < after.len() implies text_le(
                    #[trigger] after[a],
                    #[trigger] after[b],
                ) && after[a] != after[b] by {
                    if b < at {
                        assert(after[a] == before[a] && after[b] == before[b]);
                    } else if a > at {
                        assert(after[a] == before[a - 1] && after[b] == before[b - 1]);
                    } else if a < at && b > at {
                        assert(after[a] == before[a] && after[b] == before[b - 1]);
                    } else if b == at {
                        assert(after[a] == before[a]);
                        if a < at - 1 {
                            assert(text_le(before[a], before[at - 1]));
                            lemma_lex_le_transitive(
                                encode_utf8(before[a]),
                                encode_utf8(before[at - 1]),
                                encode_utf8(id),
                            );
                            if before[a] == id {
                                lemma_text_le_antisymmetric(id, before[at - 1]);
                            }
                        }
                    } else {
                        assert(a == at);
                        assert(after[b] == before[b - 1]);
                        lemma_lex_le_total(encode_utf8(before[b - 1]), encode_utf8(id));
                        lemma_lex_le_reflexive(encode_utf8(id));
                    }
                }
                let grown = all.take(i + 1);
                assert(grown[i as int] == row@);
                assert(after[at as int] == id);
                assert forall|k: int| 0 <= k < grown.len() implies after.contains(
                    (#[trigger] grown[k]).node_id,
                ) by {
                    if k < i {
                        assert(all.take(i as int)[k] == grown[k]);
                        let m = choose|m: int|
                            0 <= m < before.len() && before[m] == grown[k].node_id;
                        if m < at {
                            assert(after[m] == before[m]);
                        } else {
                            assert(after[m + 1] == before[m]);
                        }
                    }
                }
                assert forall|m: int| 0 <= m < after.len() implies exists|k: int|
                    0 <= k < grown.len() && (#[trigger] grown[k]).node_id
                        == #[trigger] after[m] by {
                    if m == at {
                        assert(grown[i as int].node_id == after[m]);
                    } else {
                        let n = if m < at {
                            m
                        } else {
                            m - 1
                        };
                        assert(after[m] == before[n]);
                        let k = choose|k: int|
                            0 <= k < all.take(i as int).len() && (#[trigger] all.take(
                                i as int,
                            )[k]).node_id == before[n];
                        assert(grown[k] == all.take(i as int)[k]);
                    }
                }
            }
            ids.insert(at, copy);
        }
        i += 1;
    }
    assert(all.take(i as int) =~= all);
    ids
}

} // verus!
