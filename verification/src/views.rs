//! Entrypoints that list streams page by page, in the order of their ids.
use vstd::prelude::*;

use crate::env::{Env, EnvView};
use crate::host::Address;
use crate::storage;
use crate::storage::{Stream, StreamStatus};
use crate::Contract;

verus! {

/// The most streams that one page holds.
pub const MAX_PAGE_SIZE: u64 = 100;

/// One page of a list of streams.
#[derive(Clone, Debug)]
pub struct StreamPage {
    pub streams: Vec<Stream>,
    /// Where the next page starts, if there is one: the cursor to pass as
    /// `start_after`.
    pub next_cursor: Option<u64>,
}

/// Which streams a list holds. `None` accepts everything.
#[derive(Copy, Clone, Debug, PartialEq, Eq, Structural)]
pub struct StreamFilter {
    pub sender: Option<Address>,
    pub recipient: Option<Address>,
    pub status: Option<StreamStatus>,
}

impl StreamFilter {
    /// Whether the list holds `s`.
    pub open spec fn accepts(self, s: Stream) -> bool {
        &&& self.sender is Some ==> self.sender->0 == s.sender
        &&& self.recipient is Some ==> self.recipient->0 == s.recipient
        &&& self.status is Some ==> self.status->0 == s.status
    }

    /// Whether the list holds `s`.
    pub fn matches(&self, s: &Stream) -> (r: bool)
        ensures
            r == self.accepts(*s),
    {
        if let Some(sender) = self.sender {
            if sender != s.sender {
                return false;
            }
        }
        if let Some(recipient) = self.recipient {
            if recipient != s.recipient {
                return false;
            }
        }
        if let Some(status) = self.status {
            if status != s.status {
                return false;
            }
        }
        true
    }
}

/// The ids from `lo` up to but not including `hi` of the streams that `filter`
/// accepts, ascending.
pub open spec fn matching_ids(streams: Map<u64, Stream>, filter: StreamFilter, lo: int, hi: int) -> Seq<u64>
    decreases hi - lo,
{
    if hi <= lo {
        Seq::empty()
    } else {
        let rest = matching_ids(streams, filter, lo, hi - 1);
        let id = (hi - 1) as u64;
        if streams.contains_key(id) && filter.accepts(streams[id]) {
            rest.push(id)
        } else {
            rest
        }
    }
}

/// The first id after a cursor.
pub open spec fn first_after(start_after: Option<u64>) -> int {
    match start_after {
        Some(id) => id + 1,
        None => 1,
    }
}

/// The number of streams that a page of `limit` may hold.
pub open spec fn page_room(limit: u64) -> int {
    if limit < MAX_PAGE_SIZE {
        limit as int
    } else {
        MAX_PAGE_SIZE as int
    }
}

/// The records under `ids`.
pub open spec fn records(streams: Map<u64, Stream>, ids: Seq<u64>) -> Seq<Stream> {
    Seq::new(ids.len(), |i: int| streams[ids[i]])
}

impl EnvView {
    /// The ids that a list holds after a cursor.
    pub open spec fn listed_ids(self, filter: StreamFilter, start_after: Option<u64>) -> Seq<u64> {
        matching_ids(self.streams, filter, first_after(start_after), self.next_id() as int)
    }

    /// The ids on a page: the first ones after the cursor, as many as fit.
    pub open spec fn page_ids(self, filter: StreamFilter, start_after: Option<u64>, limit: u64) -> Seq<u64> {
        let ids = self.listed_ids(filter, start_after);
        if ids.len() > page_room(limit) {
            ids.take(page_room(limit))
        } else {
            ids
        }
    }

    /// The cursor of the page that follows, if streams are left for one.
    pub open spec fn page_cursor(self, filter: StreamFilter, start_after: Option<u64>, limit: u64) -> Option<
        u64,
    > {
        if self.listed_ids(filter, start_after).len() > page_room(limit) {
            if page_room(limit) == 0 {
                Some((first_after(start_after) - 1) as u64)
            } else {
                Some(self.page_ids(filter, start_after, limit).last())
            }
        } else {
            None
        }
    }

    /// After the rows from `lo` up to but not including `hi` were read.
    pub open spec fn read_streams(self, lo: int, hi: int) -> EnvView
        decreases hi - lo,
    {
        if hi <= lo {
            self
        } else {
            self.read_streams(lo, hi - 1).read_stream((hi - 1) as u64)
        }
    }

    /// After a page was listed: the rows up to the first stream that did not
    /// fit were read.
    pub open spec fn list(self, filter: StreamFilter, start_after: Option<u64>, limit: u64) -> EnvView {
        let ids = self.listed_ids(filter, start_after);
        let hi = if ids.len() > page_room(limit) {
            ids[page_room(limit)] + 1
        } else {
            self.next_id() as int
        };
        self.read_streams(first_after(start_after), hi)
    }
}

/// Whether `page` is the page of `limit` streams after a cursor.
pub open spec fn is_page(e: EnvView, filter: StreamFilter, start_after: Option<u64>, limit: u64, page: StreamPage) -> bool {
    &&& page.streams@ == records(e.streams, e.page_ids(filter, start_after, limit))
    &&& page.next_cursor == e.page_cursor(filter, start_after, limit)
}

/// Reading rows adds host calls and nothing else.
pub proof fn lemma_read_streams(e: EnvView, lo: int, hi: int)
    ensures
        e.read_streams(lo, hi).only_calls_added(e),
    decreases hi - lo,
{
    broadcast use crate::env::group_calls_added;

    if lo < hi {
        lemma_read_streams(e, lo, hi - 1);
    }
}

/// A list up to `mid` starts the list up to `hi`.
proof fn lemma_matching_prefix(
    streams: Map<u64, Stream>,
    filter: StreamFilter,
    lo: int,
    mid: int,
    hi: int,
)
    requires
        mid <= hi,
    ensures
        matching_ids(streams, filter, lo, mid).len() <= matching_ids(streams, filter, lo, hi).len(),
        matching_ids(streams, filter, lo, mid) == matching_ids(streams, filter, lo, hi).take(
            matching_ids(streams, filter, lo, mid).len() as int,
        ),
    decreases hi - mid,
{
    let a = matching_ids(streams, filter, lo, mid);
    if mid == hi {
        assert(a.take(a.len() as int) =~= a);
    } else {
        lemma_matching_prefix(streams, filter, lo, mid, hi - 1);
        let b = matching_ids(streams, filter, lo, hi - 1);
        let c = matching_ids(streams, filter, lo, hi);
        if lo < hi {
            assert(c.take(a.len() as int) =~= b.take(a.len() as int));
        }
    }
}

/// A list holds exactly the ids in its range whose streams `filter` accepts, in
/// ascending order and each once.
pub proof fn lists_are_complete_and_ascending(
    streams: Map<u64, Stream>,
    filter: StreamFilter,
    lo: int,
    hi: int,
)
    requires
        0 <= lo,
        hi <= u64::MAX,
    ensures
        forall|i: int, j: int|
            0 <= i < j < matching_ids(streams, filter, lo, hi).len() ==> #[trigger] matching_ids(
                streams,
                filter,
                lo,
                hi,
            )[i] < #[trigger] matching_ids(streams, filter, lo, hi)[j],
        forall|id: u64|
            #[trigger] matching_ids(streams, filter, lo, hi).contains(id) <==> (lo <= id < hi
                && streams.contains_key(id) && filter.accepts(streams[id])),
    decreases hi - lo,
{
    let ids = matching_ids(streams, filter, lo, hi);
    if lo < hi {
        lists_are_complete_and_ascending(streams, filter, lo, hi - 1);
        let rest = matching_ids(streams, filter, lo, hi - 1);
        let last = (hi - 1) as u64;
        assert forall|i: int| 0 <= i < rest.len() implies rest[i] < last by {
            assert(rest.contains(rest[i]));
        }
        assert forall|id: u64| #[trigger] ids.contains(id) <==> (lo <= id < hi
            && streams.contains_key(id) && filter.accepts(streams[id])) by {
            if rest.contains(id) {
                let i = choose|i: int| 0 <= i < rest.len() && rest[i] == id;
                assert(ids[i] == id);
            }
            if ids.contains(id) {
                let i = choose|i: int| 0 <= i < ids.len() && ids[i] == id;
                if i < rest.len() {
                    assert(rest[i] == id);
                }
            }
            if id == last && ids != rest {
                assert(ids[rest.len() as int] == id);
            }
        }
    }
}

/// A list is the list up to `mid` followed by the list from `mid` on.
proof fn lemma_matching_split(
    streams: Map<u64, Stream>,
    filter: StreamFilter,
    lo: int,
    mid: int,
    hi: int,
)
    requires
        lo <= mid <= hi,
    ensures
        matching_ids(streams, filter, lo, hi) == matching_ids(streams, filter, lo, mid)
            + matching_ids(streams, filter, mid, hi),
    decreases hi - mid,
{
    if mid < hi {
        lemma_matching_split(streams, filter, lo, mid, hi - 1);
    }
    assert(matching_ids(streams, filter, lo, hi) =~= matching_ids(streams, filter, lo, mid)
        + matching_ids(streams, filter, mid, hi));
}

/// A page and the list after its cursor make up the list; without a cursor the
/// page is the whole list. So following the cursors visits every stream once.
pub proof fn pages_make_up_the_list(
    e: EnvView,
    filter: StreamFilter,
    start_after: Option<u64>,
    limit: u64,
)
    ensures
        e.page_ids(filter, start_after, limit).len() <= page_room(limit) <= MAX_PAGE_SIZE,
        e.listed_ids(filter, start_after) == e.page_ids(filter, start_after, limit) + (
        match e.page_cursor(filter, start_after, limit) {
            Some(cursor) => e.listed_ids(filter, Some(cursor)),
            None => Seq::empty(),
        }),
{
    let ids = e.listed_ids(filter, start_after);
    let page = e.page_ids(filter, start_after, limit);
    let lo = first_after(start_after);
    let hi = e.next_id() as int;
    let room = page_room(limit);
    if ids.len() > room && room > 0 {
        lists_are_complete_and_ascending(e.streams, filter, lo, hi);
        let cursor = ids[room - 1];
        assert(ids.contains(cursor));
        assert(page.last() == cursor);
        let mid = cursor + 1;
        lemma_matching_split(e.streams, filter, lo, mid, hi);
        let head = matching_ids(e.streams, filter, lo, mid);
        assert(head.last() == cursor && head.len() > 0);
        assert(ids[head.len() - 1] == head[head.len() - 1]);
        assert(head.len() == room);
        assert(head =~= page);
        assert(ids == head + matching_ids(e.streams, filter, mid, hi));
    } else if ids.len() > room {
        assert(page =~= Seq::empty());
        assert(ids =~= page + e.listed_ids(filter, Some((lo - 1) as u64)));
    } else {
        assert(ids =~= page + Seq::empty());
    }
}

/// Lists of two tables that agree on a range of ids are the same there.
proof fn lemma_matching_agrees(
    a: Map<u64, Stream>,
    b: Map<u64, Stream>,
    filter: StreamFilter,
    lo: int,
    hi: int,
)
    requires
        0 <= lo,
        hi <= u64::MAX,
        forall|id: u64|
            lo <= id < hi ==> (#[trigger] a.contains_key(id) == b.contains_key(id)) && (
            a.contains_key(id) ==> a[id] == b[id]),
    ensures
        matching_ids(a, filter, lo, hi) == matching_ids(b, filter, lo, hi),
    decreases hi - lo,
{
    if lo < hi {
        lemma_matching_agrees(a, b, filter, lo, hi - 1);
        let id = (hi - 1) as u64;
        assert(a.contains_key(id) == b.contains_key(id));
    }
}

/// Reading rows that two environments have in common makes the same host calls.
proof fn lemma_reads_agree(part: EnvView, whole: EnvView, lo: int, hi: int)
    requires
        0 <= lo,
        hi <= u64::MAX,
        part.sequence == whole.sequence,
        part.calls == whole.calls,
        forall|id: u64|
            lo <= id < hi ==> (#[trigger] part.streams.contains_key(id)
                == whole.streams.contains_key(id)),
    ensures
        part.read_streams(lo, hi).calls == whole.read_streams(lo, hi).calls,
    decreases hi - lo,
{
    if lo < hi {
        lemma_reads_agree(part, whole, lo, hi - 1);
        lemma_read_streams(part, lo, hi - 1);
        lemma_read_streams(whole, lo, hi - 1);
        let id = (hi - 1) as u64;
        assert(part.streams.contains_key(id) == whole.streams.contains_key(id));
    }
}

/// A page needs no row beyond the first stream that does not fit on it. If
/// `part` has the rows of `whole` from the cursor up to its own id counter, and
/// its page has a cursor or no id is left, its page is the page of `whole`, and
/// the same host calls are made for it.
pub proof fn pages_need_no_later_rows(
    part: EnvView,
    whole: EnvView,
    filter: StreamFilter,
    start_after: Option<u64>,
    limit: u64,
    page: StreamPage,
)
    requires
        part.next_id() <= whole.next_id(),
        part.sequence == whole.sequence,
        part.calls == whole.calls,
        forall|id: u64|
            first_after(start_after) <= id < part.next_id() ==> (
            #[trigger] part.streams.contains_key(id) == whole.streams.contains_key(id)) && (
            part.streams.contains_key(id) ==> part.streams[id] == whole.streams[id]),
        part.page_cursor(filter, start_after, limit) is Some || part.next_id() == whole.next_id(),
    ensures
        part.page_ids(filter, start_after, limit) == whole.page_ids(filter, start_after, limit),
        part.page_cursor(filter, start_after, limit) == whole.page_cursor(
            filter,
            start_after,
            limit,
        ),
        is_page(part, filter, start_after, limit, page) == is_page(
            whole,
            filter,
            start_after,
            limit,
            page,
        ),
        part.list(filter, start_after, limit).calls == whole.list(filter, start_after, limit).calls,
{
    let lo = first_after(start_after);
    let n = part.next_id() as int;
    let hi = whole.next_id() as int;
    let room = page_room(limit);
    let short = part.listed_ids(filter, start_after);
    let long = whole.listed_ids(filter, start_after);
    lemma_matching_agrees(part.streams, whole.streams, filter, lo, n);
    lemma_matching_prefix(whole.streams, filter, lo, n, hi);
    assert(short == long.take(short.len() as int));
    lists_are_complete_and_ascending(part.streams, filter, lo, n);
    let ids = part.page_ids(filter, start_after, limit);
    if short.len() > room {
        assert(short[room] == long[room]);
        assert(short.contains(short[room]));
        assert(short.take(room) =~= long.take(room));
        lemma_reads_agree(part, whole, lo, short[room] + 1);
    } else {
        assert(long.take(long.len() as int) =~= long);
        lemma_reads_agree(part, whole, lo, n);
    }
    assert(ids == whole.page_ids(filter, start_after, limit));
    assert(records(part.streams, ids) =~= records(whole.streams, ids)) by {
        assert forall|i: int| 0 <= i < ids.len() implies part.streams[#[trigger] ids[i]]
            == whole.streams[ids[i]] by {
            assert(ids[i] == short[i]);
            assert(short.contains(short[i]));
        }
    }
}

/// The page of streams that `filter` accepts, after the cursor `start_after`.
pub fn list_filtered(env: &mut Env, filter: StreamFilter, start_after: Option<u64>, limit: u64) -> (r:
    StreamPage)
    ensures
        is_page(old(env)@, filter, start_after, limit, r),
        final(env)@ == old(env)@.list(filter, start_after, limit),
{
    let room: usize = if limit < MAX_PAGE_SIZE {
        limit as usize
    } else {
        MAX_PAGE_SIZE as usize
    };
    let hi: u64 = storage::peek_next_stream_id(env);
    let mut streams: Vec<Stream> = Vec::new();
    let mut last: u64 = match start_after {
        Some(id) => id,
        None => 0,
    };
    let lo: u64 = match last.checked_add(1) {
        Some(id) => id,
        None => {
            proof {
                assert(old(env)@.listed_ids(filter, start_after) =~= Seq::<u64>::empty());
                assert(records(old(env)@.streams, Seq::empty()) =~= streams@);
            }
            return StreamPage { streams, next_cursor: None };
        },
    };
    let ghost e = env@;
    let ghost all = e.listed_ids(filter, start_after);
    let mut id: u64 = lo;
    while id < hi
        invariant
            e == old(env)@,
            lo == first_after(start_after),
            hi == e.next_id(),
            room == page_room(limit),
            all == e.listed_ids(filter, start_after),
            lo <= id,
            lo < hi ==> id <= hi,
            lo >= hi ==> id == lo,
            env@ == e.read_streams(lo as int, id as int),
            streams@.len() <= room,
            streams@ == records(e.streams, matching_ids(e.streams, filter, lo as int, id as int)),
            streams@.len() == 0 ==> last == first_after(start_after) - 1,
            streams@.len() > 0 ==> last == matching_ids(
                e.streams,
                filter,
                lo as int,
                id as int,
            ).last(),
        decreases hi - id,
    {
        let ghost seen = matching_ids(e.streams, filter, lo as int, id as int);
        proof {
            lemma_read_streams(e, lo as int, id as int);
        }
        if let Some(stream) = storage::get_stream(env, id) {
            if filter.matches(&stream) {
                proof {
                    let more = matching_ids(e.streams, filter, lo as int, id + 1);
                    assert(more == seen.push(id));
                    lemma_matching_prefix(e.streams, filter, lo as int, id + 1, hi as int);
                    assert(all.take(more.len() as int)[seen.len() as int] == id);
                    assert(all.take(seen.len() as int) =~= all.take(more.len() as int).take(
                        seen.len() as int,
                    ));
                    assert(more.take(seen.len() as int) =~= seen);
                }
                if streams.len() == room {
                    return StreamPage { streams, next_cursor: Some(last) };
                }
                streams.push(stream);
                last = id;
            }
        }
        proof {
            let now = matching_ids(e.streams, filter, lo as int, id + 1);
            assert(streams@ =~= records(e.streams, now));
        }
        id = id + 1;
    }
    proof {
        if lo >= hi {
            assert(all =~= matching_ids(e.streams, filter, lo as int, id as int));
            assert(e.read_streams(lo as int, hi as int) == e);
            assert(e.read_streams(lo as int, id as int) == e);
        }
    }
    StreamPage { streams, next_cursor: None }
}

impl Contract {
    /// All streams, ascending by id.
    pub fn list_streams(env: &mut Env, start_after: Option<u64>, limit: u64) -> (r: StreamPage)
        ensures
            is_page(
                old(env)@,
                (StreamFilter { sender: None, recipient: None, status: None }),
                start_after,
                limit,
                r,
            ),
            final(env)@ == old(env)@.list(
                (StreamFilter { sender: None, recipient: None, status: None }),
                start_after,
                limit,
            ),
    {
        let filter = StreamFilter { sender: None, recipient: None, status: None };
        list_filtered(env, filter, start_after, limit)
    }

    /// The streams of one sender, ascending by id.
    pub fn list_streams_by_sender(
        env: &mut Env,
        sender: Address,
        start_after: Option<u64>,
        limit: u64,
    ) -> (r: StreamPage)
        ensures
            is_page(
                old(env)@,
                (StreamFilter { sender: Some(sender), recipient: None, status: None }),
                start_after,
                limit,
                r,
            ),
            final(env)@ == old(env)@.list(
                (StreamFilter { sender: Some(sender), recipient: None, status: None }),
                start_after,
                limit,
            ),
    {
        let filter = StreamFilter { sender: Some(sender), recipient: None, status: None };
        list_filtered(env, filter, start_after, limit)
    }

    /// The streams of one recipient, ascending by id.
    pub fn list_streams_by_recipient(
        env: &mut Env,
        recipient: Address,
        start_after: Option<u64>,
        limit: u64,
    ) -> (r: StreamPage)
        ensures
            is_page(
                old(env)@,
                (StreamFilter { sender: None, recipient: Some(recipient), status: None }),
                start_after,
                limit,
                r,
            ),
            final(env)@ == old(env)@.list(
                (StreamFilter { sender: None, recipient: Some(recipient), status: None }),
                start_after,
                limit,
            ),
    {
        let filter = StreamFilter { sender: None, recipient: Some(recipient), status: None };
        list_filtered(env, filter, start_after, limit)
    }

    /// The streams in one status, ascending by id.
    pub fn list_streams_by_status(
        env: &mut Env,
        status: StreamStatus,
        start_after: Option<u64>,
        limit: u64,
    ) -> (r: StreamPage)
        ensures
            is_page(
                old(env)@,
                (StreamFilter { sender: None, recipient: None, status: Some(status) }),
                start_after,
                limit,
                r,
            ),
            final(env)@ == old(env)@.list(
                (StreamFilter { sender: None, recipient: None, status: Some(status) }),
                start_after,
                limit,
            ),
    {
        let filter = StreamFilter { sender: None, recipient: None, status: Some(status) };
        list_filtered(env, filter, start_after, limit)
    }

    /// The streams of one recipient in one status, ascending by id.
    pub fn list_streams_recipient_status(
        env: &mut Env,
        recipient: Address,
        status: StreamStatus,
        start_after: Option<u64>,
        limit: u64,
    ) -> (r: StreamPage)
        ensures
            is_page(
                old(env)@,
                (StreamFilter { sender: None, recipient: Some(recipient), status: Some(status) }),
                start_after,
                limit,
                r,
            ),
            final(env)@ == old(env)@.list(
                (StreamFilter { sender: None, recipient: Some(recipient), status: Some(status) }),
                start_after,
                limit,
            ),
    {
        let filter = StreamFilter {
            sender: None,
            recipient: Some(recipient),
            status: Some(status),
        };
        list_filtered(env, filter, start_after, limit)
    }

    /// The streams of one sender in one status, ascending by id.
    pub fn list_streams_sender_status(
        env: &mut Env,
        sender: Address,
        status: StreamStatus,
        start_after: Option<u64>,
        limit: u64,
    ) -> (r: StreamPage)
        ensures
            is_page(
                old(env)@,
                (StreamFilter { sender: Some(sender), recipient: None, status: Some(status) }),
                start_after,
                limit,
                r,
            ),
            final(env)@ == old(env)@.list(
                (StreamFilter { sender: Some(sender), recipient: None, status: Some(status) }),
                start_after,
                limit,
            ),
    {
        let filter = StreamFilter { sender: Some(sender), recipient: None, status: Some(status) };
        list_filtered(env, filter, start_after, limit)
    }
}

} // verus!
