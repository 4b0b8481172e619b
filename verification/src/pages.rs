//! What a page of a list holds, told by the rows that it is taken from.
use vstd::prelude::*;

use crate::effects::{announced, group_call_effects, moved};
use crate::env::EnvView;
use crate::views::{
    is_page, lists_are_complete_and_ascending, pages_make_up_the_list, StreamFilter, StreamPage,
};

verus! {

/// Whether a list holds the row `id` after a cursor: the id lies after the
/// cursor and was handed out, the row is there, and its fields are those that the
/// filter names.
spec fn wanted(
    e: EnvView,
    filter: StreamFilter,
    start_after: Option<u64>,
    id: u64,
) -> bool {
    &&& id > (match start_after {
        Some(cursor) => cursor,
        None => 0,
    })
    &&& id < (match e.stream_count {
        Some(count) => count,
        None => 1,
    })
    &&& e.streams.contains_key(id)
    &&& filter.sender is None || filter.sender == Some(e.streams[id].sender)
    &&& filter.recipient is None || filter.recipient == Some(e.streams[id].recipient)
    &&& filter.status is None || filter.status == Some(e.streams[id].status)
}

/// The ids of a list are the wanted ones, ascending.
proof fn lemma_listed(e: EnvView, filter: StreamFilter, start_after: Option<u64>)
    ensures
        forall|i: int, j: int|
            0 <= i < j < e.listed_ids(filter, start_after).len() ==> #[trigger] e.listed_ids(
                filter,
                start_after,
            )[i] < #[trigger] e.listed_ids(filter, start_after)[j],
        forall|id: u64|
            #[trigger] e.listed_ids(filter, start_after).contains(id) <==> wanted(
                e,
                filter,
                start_after,
                id,
            ),
{
    lists_are_complete_and_ascending(
        e.streams,
        filter,
        crate::views::first_after(start_after),
        e.next_id() as int,
    );
}

/// A page holds the records of wanted rows, ascending by id, at most `limit` of
/// them and at most a hundred. Every wanted row up to the cursor is on it; there
/// is a cursor exactly if a wanted row is left, and then the page is full.
pub proof fn pages_hold_the_first_wanted_rows(
    e: EnvView,
    filter: StreamFilter,
    start_after: Option<u64>,
    limit: u64,
    page: StreamPage,
)
    requires
        is_page(e, filter, start_after, limit, page),
    ensures
        ({
            let wanted = |id: u64|
                {
                    &&& id > (match start_after {
                        Some(cursor) => cursor,
                        None => 0,
                    })
                    &&& id < (match e.stream_count {
                        Some(count) => count,
                        None => 1,
                    })
                    &&& e.streams.contains_key(id)
                    &&& filter.sender is None || filter.sender == Some(e.streams[id].sender)
                    &&& filter.recipient is None || filter.recipient == Some(
                        e.streams[id].recipient,
                    )
                    &&& filter.status is None || filter.status == Some(e.streams[id].status)
                };
            let ids = e.page_ids(filter, start_after, limit);
            let room: int = if limit < 100 {
                limit as int
            } else {
                100
            };
            &&& page.streams@.len() == ids.len() <= room
            &&& forall|i: int| 0 <= i < ids.len() ==> #[trigger] page.streams@[i] == e.streams[ids[i]]
            &&& forall|i: int, j: int| 0 <= i < j < ids.len() ==> #[trigger] ids[i] < #[trigger] ids[j]
            &&& forall|i: int| 0 <= i < ids.len() ==> wanted(#[trigger] ids[i])
            &&& page.next_cursor is None ==> forall|id: u64| #[trigger]
                e.streams.contains_key(id) && wanted(id) ==> ids.contains(id)
            &&& page.next_cursor is Some ==> {
                let cursor = page.next_cursor->0;
                &&& ids.len() == room
                &&& ids.len() > 0 ==> cursor == ids[ids.len() - 1]
                &&& ids.len() == 0 ==> cursor == (match start_after {
                    Some(c) => c,
                    None => 0,
                })
                &&& forall|id: u64| #[trigger]
                    e.streams.contains_key(id) && wanted(id) && id <= cursor ==> ids.contains(id)
                &&& exists|id: u64| #[trigger]
                    e.streams.contains_key(id) && id > cursor && wanted(id)
            }
        }),
{
    let all = e.listed_ids(filter, start_after);
    let ids = e.page_ids(filter, start_after, limit);
    let room: int = if limit < 100 {
        limit as int
    } else {
        100
    };
    lemma_listed(e, filter, start_after);
    pages_make_up_the_list(e, filter, start_after, limit);
    assert forall|i: int| 0 <= i < ids.len() implies wanted(
        e,
        filter,
        start_after,
        #[trigger] ids[i],
    ) by {
        assert(ids[i] == all[i]);
        assert(all.contains(all[i]));
    }
    assert forall|i: int, j: int| 0 <= i < j < ids.len() implies #[trigger] ids[i]
        < #[trigger] ids[j] by {
        assert(ids[i] == all[i] && ids[j] == all[j]);
    }
    if page.next_cursor is Some {
        let cursor = page.next_cursor->0;
        assert(all.len() > room);
        assert(ids =~= all.take(room));
        assert(all.contains(all[room]));
        if room > 0 {
            assert(cursor == ids[room - 1]);
            assert(ids[room - 1] == all[room - 1]);
            assert(all[room - 1] < all[room]);
        }
        assert(all[room] > cursor && wanted(e, filter, start_after, all[room]));
        assert forall|id: u64| #[trigger]
            e.streams.contains_key(id) && wanted(e, filter, start_after, id) && id
            <= cursor implies ids.contains(id) by {
            assert(all.contains(id));
            let i = choose|i: int| 0 <= i < all.len() && all[i] == id;
            if i >= room {
                if room > 0 {
                    assert(all[room - 1] < all[i]);
                }
            }
            assert(i < room);
            assert(ids[i] == id);
        }
    } else {
        assert(all.len() <= room);
        assert forall|id: u64| #[trigger]
            e.streams.contains_key(id) && wanted(e, filter, start_after, id) implies ids.contains(
            id,
        ) by {
            assert(all.contains(id));
        }
    }
}

/// Reading rows makes host calls alone, and moves and announces nothing.
proof fn lemma_reading_moves_nothing(e: EnvView, lo: int, hi: int)
    ensures
        e.read_streams(lo, hi) == (EnvView { calls: e.read_streams(lo, hi).calls, ..e }),
        moved(e.read_streams(lo, hi).calls) == moved(e.calls),
        announced(e.read_streams(lo, hi).calls) == announced(e.calls),
    decreases hi - lo,
{
    broadcast use group_call_effects;

    if lo < hi {
        lemma_reading_moves_nothing(e, lo, hi - 1);
    }
}

/// Listing a page writes no row, asks for no authorisation, and moves and
/// announces nothing.
pub proof fn listing_only_reads(
    e: EnvView,
    filter: StreamFilter,
    start_after: Option<u64>,
    limit: u64,
)
    ensures
        ({
            let after = e.list(filter, start_after, limit);
            &&& after == (EnvView { calls: after.calls, ..e })
            &&& moved(after.calls) == moved(e.calls)
            &&& announced(after.calls) == announced(e.calls)
        }),
{
    let lo = crate::views::first_after(start_after);
    let ids = e.listed_ids(filter, start_after);
    let room = crate::views::page_room(limit);
    lemma_reading_moves_nothing(e, lo, ids[room] + 1);
    lemma_reading_moves_nothing(e, lo, e.next_id() as int);
}

/// Rows are read one by one from the cursor on, each row that is there extending
/// its own life.
pub proof fn rows_are_read_in_order(e: EnvView, lo: int, id: u64)
    requires
        lo <= id,
    ensures
        e.read_streams(lo, lo) == e,
        e.read_streams(lo, id + 1) == e.read_streams(lo, id as int).read_stream(id),
{
}

/// A page reads the rows after the cursor up to the first wanted row that does not
/// fit, or up to the last id.
pub proof fn listing_reads_up_to_the_first_row_left(
    e: EnvView,
    filter: StreamFilter,
    start_after: Option<u64>,
    limit: u64,
    left: u64,
)
    ensures
        ({
            let wanted = |id: u64|
                {
                    &&& id > (match start_after {
                        Some(cursor) => cursor,
                        None => 0,
                    })
                    &&& id < (match e.stream_count {
                        Some(count) => count,
                        None => 1,
                    })
                    &&& e.streams.contains_key(id)
                    &&& filter.sender is None || filter.sender == Some(e.streams[id].sender)
                    &&& filter.recipient is None || filter.recipient == Some(
                        e.streams[id].recipient,
                    )
                    &&& filter.status is None || filter.status == Some(e.streams[id].status)
                };
            let lo: int = (match start_after {
                Some(cursor) => cursor as int,
                None => 0,
            }) + 1;
            let count: int = match e.stream_count {
                Some(count) => count as int,
                None => 1,
            };
            let after = e.list(filter, start_after, limit);
            let cursor = e.page_cursor(filter, start_after, limit);
            &&& cursor is None ==> after == e.read_streams(lo, count)
            &&& cursor is Some && left > cursor->0 && wanted(left) && (forall|id: u64| #[trigger]
                e.streams.contains_key(id) && cursor->0 < id < left ==> !wanted(id))
                ==> after == e.read_streams(lo, left + 1)
        }),
{
    let all = e.listed_ids(filter, start_after);
    let room = crate::views::page_room(limit);
    lemma_listed(e, filter, start_after);
    if all.len() > room {
        let cursor = e.page_cursor(filter, start_after, limit)->0;
        let first = all[room];
        assert(all.contains(first));
        if room > 0 {
            assert(e.page_ids(filter, start_after, limit).last() == all[room - 1]);
            assert(all[room - 1] < all[room]);
        }
        assert(cursor < first && wanted(e, filter, start_after, first));
        if left > cursor && wanted(e, filter, start_after, left) {
            assert(all.contains(left));
            let i = choose|i: int| 0 <= i < all.len() && all[i] == left;
            if i < room {
                if i < room - 1 {
                    assert(all[i] < all[room - 1]);
                }
            } else if i > room {
                assert(first < left);
            }
        }
    }
}

} // verus!
