//! How a series of a range query is listed: its labels, its first ten
//! samples in order, and how many were left out.
use vstd::prelude::*;

use crate::commands::clickhouse::{point_rows, series_rows, MetricsRow};
use crate::json::{get, items_of, str_of, Json};

verus! {

/// A sample: an array of at least a time and a value.
pub open spec fn is_sample(j: Json) -> bool {
    items_of(j) matches Some(pair) && pair.len() >= 2
}

/// The listing line of a sample: its time, and its value's text, `?` when
/// the value is no string.
pub open spec fn sample_line(j: Json) -> MetricsRow {
    let pair = items_of(j)->Some_0;
    MetricsRow::Point(
        pair[0],
        match str_of(pair[1]) {
            Some(v) => v,
            None => "?"@,
        },
    )
}

/// Samples are listed one line each, in order.
proof fn lemma_point_rows_samples(values: Seq<Json>)
    requires
        forall|k: int| 0 <= k < values.len() ==> is_sample(#[trigger] values[k]),
    ensures
        point_rows(values).len() == values.len(),
        forall|k: int|
            0 <= k < values.len() ==> #[trigger] point_rows(values)[k] == sample_line(values[k]),
    decreases values.len(),
{
    if values.len() > 0 {
        assert(is_sample(values[values.len() - 1]));
        lemma_point_rows_samples(values.drop_last());
    }
}

/// A series whose `values` holds `n` samples is listed as its labels (when it
/// has a `metric` member), then its first `min(n, 10)` samples in order, one
/// line each, then, only when `n` is over ten, one line saying that `n - 10`
/// more were left out.
pub proof fn law_series_lists_first_ten_samples_and_the_rest_count(s: Json, values: Seq<Json>)
    requires
        get(s, "values"@) matches Some(v) && items_of(v) == Some(values),
        forall|k: int| 0 <= k < values.len() ==> is_sample(#[trigger] values[k]),
    ensures
        ({
            let head: int = if get(s, "metric"@) is Some {
                1
            } else {
                0
            };
            let shown: int = if values.len() < 10 {
                values.len() as int
            } else {
                10
            };
            &&& series_rows(s).len() == head + shown + if values.len() > 10 {
                1int
            } else {
                0
            }
            &&& (get(s, "metric"@) matches Some(m) ==> series_rows(s)[0] == MetricsRow::Series(m))
            &&& forall|k: int|
                0 <= k < shown ==> #[trigger] series_rows(s)[head + k] == sample_line(values[k])
            &&& (values.len() > 10 ==> series_rows(s).last() == MetricsRow::More(
                (values.len() - 10) as nat,
            ))
        }),
{
    let shown: int = if values.len() < 10 {
        values.len() as int
    } else {
        10
    };
    let first = values.take(shown);
    assert forall|k: int| 0 <= k < first.len() implies is_sample(#[trigger] first[k]) by {
        assert(first[k] == values[k]);
    }
    lemma_point_rows_samples(first);
    let head: int = if get(s, "metric"@) is Some {
        1
    } else {
        0
    };
    assert forall|k: int| 0 <= k < shown implies #[trigger] series_rows(s)[head + k]
        == sample_line(values[k]) by {
        assert(first[k] == values[k]);
        assert(point_rows(first)[k] == sample_line(first[k]));
    }
}

} // verus!
