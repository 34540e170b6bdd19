use vstd::prelude::*;
use crate::record::{ChannelRecord, RecordView, RemoteChannel, record_of_channel, views_of};
use crate::text::{contains_text, is_infix_of};

verus! {

/// What one request to the channel-listing endpoint came back with.
#[derive(Debug)]
pub enum ListReply {
    /// A well-formed page: the platform's `ok` flag, the channels on the page
    /// and the cursor of the next page (empty on the last page).
    Page { ok: bool, channels: Vec<RemoteChannel>, next_cursor: String },
    /// The body was not a listing response.
    Malformed,
    /// The request itself failed.
    TransportFailed,
}

/// Why a listing run stopped before its last page.
#[derive(Clone, Copy, Debug, PartialEq, Eq, Structural)]
pub enum FetchError {
    Transport,
    Malformed,
    Rejected,
}

/// What to do after one listing reply.
#[derive(Debug)]
pub enum FetchStep {
    /// Append `rows` to the store; then, after the cool-down, request the page
    /// at `next_cursor`, or stop where there is none.
    Persist { rows: Vec<ChannelRecord>, next_cursor: Option<String> },
    /// Stop the run: nothing of this page is written.
    Abort(FetchError),
}

/// A channel named `name` is kept under `filter`: the filter is empty, or
/// the name holds it (case-sensitive).
pub open spec fn keeps(filter: Seq<char>, name: Seq<char>) -> bool {
    filter.len() == 0 || is_infix_of(filter, name)
}

/// The records that a page of channels contributes under `filter`, in page
/// order.
pub open spec fn kept_rows(channels: Seq<RemoteChannel>, filter: Seq<char>) -> Seq<RecordView>
    decreases channels.len(),
{
    if channels.len() == 0 {
        Seq::empty()
    } else {
        let before = kept_rows(channels.drop_last(), filter);
        if keeps(filter, channels.last().name@) {
            before.push(record_of_channel(channels.last()))
        } else {
            before
        }
    }
}

/// The step taken on a reply, in terms of values: the rows to append and
/// the next cursor, or the error that ends the run.
pub open spec fn list_step(filter: Seq<char>, reply: ListReply) -> Result<(Seq<RecordView>, Option<Seq<char>>), FetchError> {
    match reply {
        ListReply::Page { ok, channels, next_cursor } => {
            if ok {
                Ok((
                    kept_rows(channels@, filter),
                    if next_cursor@.len() == 0 { None } else { Some(next_cursor@) },
                ))
            } else {
                Err(FetchError::Rejected)
            }
        },
        ListReply::Malformed => Err(FetchError::Malformed),
        ListReply::TransportFailed => Err(FetchError::Transport),
    }
}

/// The records of a page that a filtered listing keeps, in page order.
pub fn filter_channels(channels: &Vec<RemoteChannel>, filter: &str) -> (r: Vec<ChannelRecord>)
    ensures
        views_of(r@) == kept_rows(channels@, filter@),
{
    let mut out: Vec<ChannelRecord> = Vec::new();
    let mut i: usize = 0;
    let empty_filter = filter.unicode_len() == 0;
    assert(channels@.subrange(0, 0) =~= Seq::<RemoteChannel>::empty());
    assert(views_of(out@) =~= Seq::<RecordView>::empty());
    while i < channels.len()
        invariant
            i <= channels.len(),
            empty_filter == (filter@.len() == 0),
            views_of(out@) == kept_rows(channels@.subrange(0, i as int), filter@),
        decreases channels.len() - i,
    {
        let ghost before = out@;
        let ghost now = channels@.subrange(0, i + 1);
        assert(now.drop_last() =~= channels@.subrange(0, i as int));
        let channel = &channels[i];
        if empty_filter || contains_text(channel.name.as_str(), filter) {
            let rec = ChannelRecord::from_channel(channel);
            let ghost rv = rec@;
            out.push(rec);
            assert(views_of(out@) =~= views_of(before).push(rv));
        }
        i = i + 1;
    }
    assert(channels@.subrange(0, channels.len() as int) =~= channels@);
    out
}

/// Decides what follows one listing reply. A well-formed page with `ok`
/// set gives its filtered rows to append and the next cursor (none when the
/// reply's cursor is empty); a rejection, a malformed body or a failed request
/// ends the run.
pub fn on_list_reply(filter: &str, reply: ListReply) -> (r: FetchStep)
    ensures
        match r {
            FetchStep::Persist { rows, next_cursor } =>
                list_step(filter@, reply) == Ok::<(Seq<RecordView>, Option<Seq<char>>), FetchError>(
                    (views_of(rows@), match next_cursor { Some(c) => Some(c@), None => None }),
                ),
            FetchStep::Abort(e) =>
                list_step(filter@, reply) == Err::<(Seq<RecordView>, Option<Seq<char>>), FetchError>(e),
        },
{
    match reply {
        ListReply::Page { ok, channels, next_cursor } => {
            if !ok {
                return FetchStep::Abort(FetchError::Rejected);
            }
            let rows = filter_channels(&channels, filter);
            let next = if next_cursor.as_str().unicode_len() == 0 { None } else { Some(next_cursor) };
            FetchStep::Persist { rows, next_cursor: next }
        },
        ListReply::Malformed => FetchStep::Abort(FetchError::Malformed),
        ListReply::TransportFailed => FetchStep::Abort(FetchError::Transport),
    }
}

/// Every row of a filtered page has a name that holds the filter; under an
/// empty filter the page's rows are all its channels, in order.
pub proof fn lemma_filter_correct(channels: Seq<RemoteChannel>, filter: Seq<char>)
    ensures
        forall|k: int| 0 <= k < kept_rows(channels, filter).len() ==>
            is_infix_of(filter, #[trigger] kept_rows(channels, filter)[k].name),
        filter.len() == 0 ==> kept_rows(channels, filter) == channels.map_values(|c: RemoteChannel| record_of_channel(c)),
    decreases channels.len(),
{
    if channels.len() > 0 {
        lemma_filter_correct(channels.drop_last(), filter);
        let rest = kept_rows(channels.drop_last(), filter);
        assert forall|k: int| 0 <= k < kept_rows(channels, filter).len() implies
            is_infix_of(filter, #[trigger] kept_rows(channels, filter)[k].name) by {
            if k < rest.len() {
                assert(kept_rows(channels, filter)[k] == rest[k]);
            } else if filter.len() == 0 {
                let name = kept_rows(channels, filter)[k].name;
                assert(name.subrange(0int, 0int + filter.len()) =~= filter);
            }
        }
        if filter.len() == 0 {
            assert(kept_rows(channels, filter) =~= channels.map_values(|c: RemoteChannel| record_of_channel(c)));
        }
    } else if filter.len() == 0 {
        assert(kept_rows(channels, filter) =~= channels.map_values(|c: RemoteChannel| record_of_channel(c)));
    }
}

/// What a listing run amounts to: how many requests it made, the rows it
/// appended in order, and the error that ended it early, if any.
pub struct ListingRun {
    pub requests: nat,
    pub rows: Seq<RecordView>,
    pub error: Option<FetchError>,
}

/// The run that follows when the replies to successive requests are
/// `replies`: each reply is handled as [`on_list_reply`] decides, and a new
/// request is made only while a next cursor is given.
pub open spec fn listing_run(filter: Seq<char>, replies: Seq<ListReply>) -> ListingRun
    decreases replies.len(),
{
    if replies.len() == 0 {
        ListingRun { requests: 0, rows: Seq::empty(), error: None }
    } else {
        match list_step(filter, replies[0]) {
            Err(e) => ListingRun { requests: 1, rows: Seq::empty(), error: Some(e) },
            Ok((rows, None)) => ListingRun { requests: 1, rows, error: None },
            Ok((rows, Some(_))) => {
                let rest = listing_run(filter, replies.drop_first());
                ListingRun { requests: rest.requests + 1, rows: rows + rest.rows, error: rest.error }
            },
        }
    }
}

/// The cursor of a well-formed page with `ok` set; `None` for any other reply.
pub open spec fn ok_page_cursor(reply: ListReply) -> Option<Seq<char>> {
    match reply {
        ListReply::Page { ok, next_cursor, .. } => if ok { Some(next_cursor@) } else { None },
        _ => None,
    }
}

/// The filtered rows of a sequence of pages, page after page.
pub open spec fn pages_rows(filter: Seq<char>, replies: Seq<ListReply>) -> Seq<RecordView>
    decreases replies.len(),
{
    if replies.len() == 0 {
        Seq::empty()
    } else {
        let here = match replies[0] {
            ListReply::Page { channels, .. } => kept_rows(channels@, filter),
            _ => Seq::empty(),
        };
        here + pages_rows(filter, replies.drop_first())
    }
}

/// Pagination ends on the page whose next cursor is empty: over `n` pages
/// where only the last has an empty cursor, a run makes exactly `n` requests
/// (whatever would have come after), and appends every page's filtered rows
/// once, in page order.
pub proof fn lemma_pagination_terminates(filter: Seq<char>, replies: Seq<ListReply>, after: Seq<ListReply>)
    requires
        replies.len() > 0,
        forall|i: int| 0 <= i < replies.len() ==> (#[trigger] ok_page_cursor(replies[i])) is Some,
        forall|i: int| 0 <= i < replies.len() - 1 ==> (#[trigger] ok_page_cursor(replies[i]))->0.len() > 0,
        ok_page_cursor(replies.last())->0.len() == 0,
    ensures
        listing_run(filter, replies + after) == (ListingRun {
            requests: replies.len(),
            rows: pages_rows(filter, replies),
            error: None,
        }),
    decreases replies.len(),
{
    let all = replies + after;
    assert(all[0] == replies[0]);
    assert(ok_page_cursor(replies[0]) is Some);
    let rest = pages_rows(filter, replies.drop_first());
    if replies.len() == 1 {
        assert(replies.drop_first() =~= Seq::<ListReply>::empty());
        assert(rest =~= Seq::<RecordView>::empty());
        assert(pages_rows(filter, replies) =~= kept_rows(match replies[0] {
            ListReply::Page { channels, .. } => channels@,
            _ => Seq::empty(),
        }, filter));
    } else {
        assert(ok_page_cursor(replies[0])->0.len() > 0);
        let tail = replies.drop_first();
        assert forall|i: int| 0 <= i < tail.len() implies (#[trigger] ok_page_cursor(tail[i])) is Some by {
            assert(tail[i] == replies[i + 1]);
        }
        assert forall|i: int| 0 <= i < tail.len() - 1 implies (#[trigger] ok_page_cursor(tail[i]))->0.len() > 0 by {
            assert(tail[i] == replies[i + 1]);
        }
        assert(tail.last() == replies.last());
        lemma_pagination_terminates(filter, tail, after);
        assert(all.drop_first() =~= tail + after);
    }
}

} // verus!
