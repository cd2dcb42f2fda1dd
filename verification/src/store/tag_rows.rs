//! Tag rows read back from the store, grouped per task.

use vstd::prelude::*;
use crate::task::tags::TagMap;

verus! {

/// A tag row: the owning task's id, the key and the value.
pub open spec fn tag_row_view(r: (i64, String, String)) -> (i64, Seq<char>, Seq<char>) {
    (r.0, r.1@, r.2@)
}

/// The rows' views, in order.
pub open spec fn tag_rows_view(rows: Seq<(i64, String, String)>) -> Seq<(i64, Seq<char>, Seq<char>)> {
    rows.map_values(|r: (i64, String, String)| tag_row_view(r))
}

/// The tags that the rows give task `id`; a later row for a key wins.
pub open spec fn tags_from_rows(rows: Seq<(i64, Seq<char>, Seq<char>)>, id: i64) -> Map<Seq<char>, Seq<char>>
    decreases rows.len(),
{
    if rows.len() == 0 {
        Map::empty()
    } else {
        let m = tags_from_rows(rows.drop_last(), id);
        let r = rows.last();
        if r.0 == id {
            m.insert(r.1, r.2)
        } else {
            m
        }
    }
}

/// Some row belongs to task `id`.
pub open spec fn has_tag_rows(rows: Seq<(i64, Seq<char>, Seq<char>)>, id: i64) -> bool {
    exists|i: int| 0 <= i < rows.len() && #[trigger] rows[i].0 == id
}

/// The id at `i` occurs earlier in `ids`.
pub open spec fn seen_before(ids: Seq<i64>, i: int) -> bool {
    exists|j: int| 0 <= j < i && #[trigger] ids[j] == ids[i]
}

/// The tags of task `id` among `rows`, or `None` when no row belongs to it.
pub fn tags_for(id: i64, rows: &Vec<(i64, String, String)>) -> (r: Option<TagMap>)
    ensures
        match r {
            Some(t) => has_tag_rows(tag_rows_view(rows@), id) && t@ == tags_from_rows(
                tag_rows_view(rows@),
                id,
            ),
            None => !has_tag_rows(tag_rows_view(rows@), id),
        },
{
    let ghost rv = tag_rows_view(rows@);
    let mut tags = TagMap::new();
    let mut found = false;
    let mut i: usize = 0;
    while i < rows.len()
        invariant
            rv == tag_rows_view(rows@),
            i <= rows@.len(),
            tags@ == tags_from_rows(rv.take(i as int), id),
            found == has_tag_rows(rv.take(i as int), id),
        decreases rows@.len() - i,
    {
        proof {
            assert(rv.take(i as int + 1).drop_last() =~= rv.take(i as int));
            assert(rv.take(i as int + 1).last() == rv[i as int]);
        }
        if rows[i].0 == id {
            tags.insert(rows[i].1.clone(), rows[i].2.clone());
            found = true;
            proof {
                assert(rv.take(i as int + 1)[i as int].0 == id);
            }
        } else {
            proof {
                if has_tag_rows(rv.take(i as int + 1), id) {
                    let j = choose|j: int| 0 <= j < i + 1 && #[trigger] rv.take(i as int + 1)[j].0 == id;
                    assert(rv.take(i as int)[j].0 == id);
                }
            }
        }
        proof {
            if found && !has_tag_rows(rv.take(i as int), id) {
                assert(rv.take(i as int + 1)[i as int].0 == id);
            }
            if has_tag_rows(rv.take(i as int), id) {
                let j = choose|j: int| 0 <= j < i && #[trigger] rv.take(i as int)[j].0 == id;
                assert(rv.take(i as int + 1)[j].0 == id);
            }
        }
        i = i + 1;
    }
    proof {
        assert(rv.take(rows@.len() as int) =~= rv);
    }
    if found {
        Some(tags)
    } else {
        None
    }
}

/// The tags for each task of `ids` from the tag rows, in order: `None` for a
/// task that no row belongs to, and for an id already served earlier in `ids`.
pub fn tags_by_task(ids: &Vec<i64>, rows: &Vec<(i64, String, String)>) -> (r: Vec<Option<TagMap>>)
    ensures
        r@.len() == ids@.len(),
        forall|i: int|
            0 <= i < ids@.len() ==> match #[trigger] r@[i] {
                Some(t) => !seen_before(ids@, i) && has_tag_rows(tag_rows_view(rows@), ids@[i])
                    && t@ == tags_from_rows(tag_rows_view(rows@), ids@[i]),
                None => seen_before(ids@, i) || !has_tag_rows(tag_rows_view(rows@), ids@[i]),
            },
{
    let mut out: Vec<Option<TagMap>> = Vec::new();
    let mut i: usize = 0;
    while i < ids.len()
        invariant
            i <= ids@.len(),
            out@.len() == i,
            forall|k: int|
                0 <= k < i ==> match #[trigger] out@[k] {
                    Some(t) => !seen_before(ids@, k) && has_tag_rows(tag_rows_view(rows@), ids@[k])
                        && t@ == tags_from_rows(tag_rows_view(rows@), ids@[k]),
                    None => seen_before(ids@, k) || !has_tag_rows(tag_rows_view(rows@), ids@[k]),
                },
        decreases ids@.len() - i,
    {
        let id = ids[i];
        let mut seen = false;
        let mut j: usize = 0;
        while j < i
            invariant
                i < ids@.len(),
                id == ids@[i as int],
                j <= i,
                seen == exists|a: int| 0 <= a < j && #[trigger] ids@[a] == ids@[i as int],
            decreases i - j,
        {
            if ids[j] == id {
                seen = true;
            }
            j = j + 1;
        }
        if seen {
            out.push(None);
        } else {
            let t = tags_for(id, rows);
            out.push(t);
        }
        i = i + 1;
    }
    out
}

} // verus!
