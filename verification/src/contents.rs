//! What a whole download leaves in its file.
use crate::error::DlErrorView;
use crate::http;
use crate::http::{HttpActionView, HttpEventView, HttpView, Stage};
use crate::parallel;
use crate::single;
use crate::state::StateView;
use vstd::prelude::*;

verus! {

/// An event of a download, with what came before it: what was read of a saved state, and what was
/// written to the unfinished file.
pub struct Happening {
    pub event: HttpEventView,
    /// What reading the saved state came to when segments were planned.
    pub read: Result<Option<StateView>, DlErrorView>,
    /// A transfer came as far as the file.
    pub opened: bool,
    /// The status of the response that a stream was read from.
    pub status: u16,
    /// The places in the file and the bytes that were written there, in order.
    pub writes: Seq<(nat, Seq<u8>)>,
}

/// A file after `bytes` were written at `place`.
pub open spec fn written(file: Seq<u8>, place: nat, bytes: Seq<u8>) -> Seq<u8> {
    let end = place + bytes.len();
    Seq::new(
        if file.len() < end {
            end
        } else {
            file.len()
        },
        |at: int|
            if place <= at < end {
                bytes[at - place]
            } else if at < file.len() {
                file[at]
            } else {
                0
            },
    )
}

/// A file after a list of writes.
pub open spec fn all_written(file: Seq<u8>, writes: Seq<(nat, Seq<u8>)>) -> Seq<u8>
    decreases writes.len(),
{
    if writes.len() == 0 {
        file
    } else {
        written(all_written(file, writes.drop_last()), writes.last().0, writes.last().1)
    }
}

/// A file of `len` bytes, as it is made or cut: what it had, and zeros behind that.
pub open spec fn resized(file: Seq<u8>, len: nat) -> Seq<u8> {
    Seq::new(
        len,
        |at: int|
            if at < file.len() {
                file[at]
            } else {
                0
            },
    )
}

/// The segments of this download were planned from the state that was read.
pub open spec fn planned_from_state(d: HttpView, happening: Happening) -> bool {
    match parallel::plan_state(d.resume, happening.read) {
        Ok(found) => parallel::resumes(
            found,
            d.url,
            d.probe->Some_0.total_size->Some_0,
            d.chunk_size,
            d.probe->Some_0,
        ),
        Err(_) => false,
    }
}

/// What the unfinished file holds after something happened to the download `d`. Segments are
/// written into the file that is there, if they are planned from its state, and else into one that
/// is made anew; their footer goes when they succeed. A stream is written behind the bytes that
/// are kept.
pub open spec fn file_after(d: HttpView, file: Seq<u8>, happening: Happening) -> Seq<u8> {
    match d.stage {
        Stage::Segments => {
            let total_size = d.probe->Some_0.total_size->Some_0 as nat;
            let start = if planned_from_state(d, happening) {
                file
            } else {
                resized(Seq::empty(), total_size)
            };
            let end = all_written(start, happening.writes);
            if !happening.opened {
                file
            } else if happening.event is TransferDone && happening.event->TransferDone_0 is Ok {
                resized(end, total_size)
            } else {
                end
            }
        },
        Stage::Truncating { start_offset } => resized(file, start_offset as nat),
        Stage::Stream { start_offset } => {
            let offset = single::body_offset(happening.status, start_offset) as nat;
            if !happening.opened {
                file
            } else {
                all_written(resized(file, offset), happening.writes)
            }
        },
        _ => file,
    }
}

/// A transfer that succeeded came as far as the file, and tells whether it took up an earlier one:
/// segments that were planned from a state, or a stream that was written behind bytes that were
/// there.
pub open spec fn true_happening(d: HttpView, happening: Happening) -> bool {
    match happening.event {
        HttpEventView::TransferDone(Ok(summary)) => {
            &&& happening.opened
            &&& summary.resumed == match d.stage {
                Stage::Stream { start_offset } => single::body_offset(
                    happening.status,
                    start_offset,
                ) > 0,
                _ => planned_from_state(d, happening),
            }
        },
        _ => true,
    }
}

pub open spec fn events_of(history: Seq<Happening>) -> Seq<HttpEventView> {
    history.map_values(|happening: Happening| happening.event)
}

/// What happened is what the download waited for, each time.
pub open spec fn true_history(d: HttpView, history: Seq<Happening>) -> bool
    decreases history.len(),
{
    history.len() > 0 ==> {
        let front = history.drop_last();
        let before = http::course(d, events_of(front));
        &&& true_history(d, front)
        &&& http::expects(before.stage, history.last().event)
        &&& http::sound_event(before, history.last().event)
        &&& true_happening(before, history.last())
    }
}

/// What the file holds after a history that found `file` there.
pub open spec fn file_course(d: HttpView, file: Seq<u8>, history: Seq<Happening>) -> Seq<u8>
    decreases history.len(),
{
    if history.len() == 0 {
        file
    } else {
        let front = history.drop_last();
        file_after(
            http::course(d, events_of(front)),
            file_course(d, file, front),
            history.last(),
        )
    }
}

/// What the last thing that happened leads to.
pub open spec fn last_action(d: HttpView, history: Seq<Happening>) -> HttpActionView {
    http::http_next(
        http::course(d, events_of(history.drop_last())),
        history.last().event,
    ).1
}

/// Two histories with the same replies of the server and the same course outside, which may differ
/// in what was found on the disk.
pub open spec fn same_replies(one: Seq<Happening>, other: Seq<Happening>) -> bool {
    &&& one.len() == other.len()
    &&& forall|k: int|
        #![trigger one[k]]
        #![trigger other[k]]
        0 <= k < one.len() ==> {
            &&& one[k].event == other[k].event
            &&& one[k].opened == other[k].opened
            &&& one[k].status == other[k].status
            &&& one[k].writes == other[k].writes
        }
}

/// Two downloads that are not to take anything up again, with the same replies, end alike,
/// whatever an earlier download left: neither outcome was taken up, the outcomes are the same, and
/// so are the files.
pub proof fn law_fresh_downloads_end_alike(
    d: HttpView,
    found: Seq<u8>,
    other_found: Seq<u8>,
    one: Seq<Happening>,
    other: Seq<Happening>,
)
    requires
        http::http_invariant(d),
        d.stage == Stage::Probing,
        !d.resume,
        true_history(d, one),
        true_history(d, other),
        same_replies(one, other),
        one.len() > 0,
        last_action(d, one) is Finish,
    ensures
        last_action(d, other) == last_action(d, one),
        !last_action(d, one)->Finish_0.resumed,
        file_course(d, found, one) == file_course(d, other_found, other),
{
    let front = one.drop_last();
    let other_front = other.drop_last();
    lemma_same_events(front, other_front);
    lemma_history_is_course(d, front);
    lemma_history_is_course(d, other_front);
    http::lemma_fresh_course(d, events_of(front));
    let before = http::course(d, events_of(front));
    assert(one.last() == one[one.len() - 1]);
    assert(other.last() == other[other.len() - 1]);
    http::law_success_is_a_published_transfer(before, one.last().event);
    lemma_same_files(d, found, other_found, front, other_front);
}

/// A fresh download finds the same in its file whatever was there, once a transfer succeeded.
proof fn lemma_same_files(
    d: HttpView,
    found: Seq<u8>,
    other_found: Seq<u8>,
    one: Seq<Happening>,
    other: Seq<Happening>,
)
    requires
        http::http_invariant(d),
        d.stage == Stage::Probing,
        !d.resume,
        true_history(d, one),
        true_history(d, other),
        same_replies(one, other),
    ensures
        http::course(d, events_of(one)).stage == Stage::Publishing ==> file_course(d, found, one)
            == file_course(d, other_found, other),
{
    if one.len() > 0 {
        let front = one.drop_last();
        let other_front = other.drop_last();
        lemma_same_events(front, other_front);
        lemma_history_is_course(d, front);
        http::lemma_fresh_course(d, events_of(front));
        assert(events_of(one).drop_last() =~= events_of(front));
        assert(one.last() == one[one.len() - 1]);
        assert(other.last() == other[other.len() - 1]);
        let before = http::course(d, events_of(front));
        if http::course(d, events_of(one)).stage == Stage::Publishing {
            assert(one.last().event is TransferDone && one.last().event->TransferDone_0 is Ok);
            let file = file_course(d, found, front);
            let other_file = file_course(d, other_found, other_front);
            assert(resized(file, 0) =~= resized(other_file, 0));
        }
    }
}

proof fn lemma_same_events(one: Seq<Happening>, other: Seq<Happening>)
    requires
        same_replies(one, other),
    ensures
        events_of(one) == events_of(other),
{
    assert forall|k: int| 0 <= k < one.len() implies events_of(one)[k] == events_of(other)[k] by {
        assert(one[k].event == other[k].event);
    }
    assert(events_of(one) =~= events_of(other));
}

proof fn lemma_history_is_course(d: HttpView, history: Seq<Happening>)
    requires
        true_history(d, history),
    ensures
        http::course_events(d, events_of(history)),
    decreases history.len(),
{
    if history.len() > 0 {
        lemma_history_is_course(d, history.drop_last());
        assert(events_of(history).drop_last() =~= events_of(history.drop_last()));
    }
}

} // verus!
