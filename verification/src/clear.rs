//! Clearing the cache: everything in its directory goes.

use crate::cache::{self, CacheListing};
use crate::error::{ErrorView, InferaError};
use vstd::prelude::*;

verus! {

/// What happened while the cache directory is cleared.
#[derive(Debug, PartialEq, Eq)]
pub enum ClearEvent {
    /// There is no cache directory.
    Absent,
    /// The directory could not be read, for the reason given.
    Unreadable(String),
    /// The directory is open for reading.
    Opened,
    /// The directory gave an entry.
    Entry { is_file: bool, is_dir: bool },
    /// An entry could not be read, for the reason given.
    EntryUnreadable(String),
    /// The directory has no more entries.
    Exhausted,
    /// The entry was removed.
    Removed,
    /// The entry could not be removed, for the reason given.
    RemoveFailed(String),
}

/// What is to be done next.
#[derive(Debug, PartialEq, Eq)]
pub enum ClearAction {
    /// Read the next entry.
    NextEntry,
    /// Remove the entry, which is a file or whatever else is no directory: a link,
    /// a socket.
    RemoveFile,
    /// Remove the entry, which is a directory, with all that it holds.
    RemoveTree,
    /// Stop with the result.
    Finish(Result<(), InferaError>),
}

/// The answer to an event.
pub open spec fn answers(event: ClearEvent, action: ClearAction) -> bool {
    match event {
        ClearEvent::Absent | ClearEvent::Exhausted => action == ClearAction::Finish(Ok(())),
        ClearEvent::Unreadable(reason)
        | ClearEvent::EntryUnreadable(reason)
        | ClearEvent::RemoveFailed(reason) => {
            &&& action matches ClearAction::Finish(Err(error))
            &&& error@ == ErrorView::IoError(reason@)
        },
        ClearEvent::Opened | ClearEvent::Removed => action == ClearAction::NextEntry,
        ClearEvent::Entry { is_file, is_dir } => action == if !is_file && is_dir {
            ClearAction::RemoveTree
        } else {
            ClearAction::RemoveFile
        },
    }
}

/// Decides what to do after an event, so that the entries are removed one after
/// the other, whatever they are, and the first failure ends the work.
pub fn clear_cache(event: ClearEvent) -> (r: ClearAction)
    ensures
        answers(event, r),
{
    match event {
        ClearEvent::Absent => ClearAction::Finish(Ok(())),
        ClearEvent::Exhausted => ClearAction::Finish(Ok(())),
        ClearEvent::Unreadable(reason) => ClearAction::Finish(Err(InferaError::IoError(reason))),
        ClearEvent::EntryUnreadable(reason) => ClearAction::Finish(
            Err(InferaError::IoError(reason)),
        ),
        ClearEvent::RemoveFailed(reason) => ClearAction::Finish(Err(InferaError::IoError(reason))),
        ClearEvent::Opened => ClearAction::NextEntry,
        ClearEvent::Removed => ClearAction::NextEntry,
        ClearEvent::Entry { is_file, is_dir } => {
            if !is_file && is_dir {
                ClearAction::RemoveTree
            } else {
                ClearAction::RemoveFile
            }
        },
    }
}

/// The event can come of the action.
pub open spec fn can_follow(action: ClearAction, event: ClearEvent) -> bool {
    match action {
        ClearAction::NextEntry => event is Entry || event is EntryUnreadable || event is Exhausted,
        ClearAction::RemoveFile | ClearAction::RemoveTree => event is Removed
            || event is RemoveFailed,
        ClearAction::Finish(_) => false,
    }
}

/// A run: each event is answered, and each but the first comes of the answer to
/// the one before.
pub open spec fn is_run(events: Seq<ClearEvent>, actions: Seq<ClearAction>) -> bool {
    &&& events.len() == actions.len() > 0
    &&& events[0] is Absent || events[0] is Unreadable || events[0] is Opened
    &&& forall|i: int| 0 <= i < events.len() ==> answers(#[trigger] events[i], actions[i])
    &&& forall|i: int|
        0 <= i && i + 1 < events.len() ==> can_follow(#[trigger] actions[i], events[i + 1])
}

/// A run that ends well has seen that there is no directory, or has read all of
/// it and removed every entry that it held, whatever the entry was.
pub proof fn law_clearing_removes_every_entry(
    events: Seq<ClearEvent>,
    actions: Seq<ClearAction>,
    i: int,
)
    requires
        is_run(events, actions),
        actions.last() == ClearAction::Finish(Ok(())),
        0 <= i < events.len(),
    ensures
        events.len() == 1 && events[0] is Absent || events.last() is Exhausted,
        events[i] is Entry ==> i + 1 < events.len() && events[i + 1] is Removed,
        events[i] matches ClearEvent::Entry { is_file, is_dir } ==> {
            actions[i] == if !is_file && is_dir {
                ClearAction::RemoveTree
            } else {
                ClearAction::RemoveFile
            }
        },
{
    let last = events.len() - 1;
    assert(answers(events[last], actions[last]));
    assert(answers(events[i], actions[i]));
    if events[last] is Absent && last > 0 {
        assert(can_follow(actions[last - 1], events[last]));
    }
    if i < last {
        assert(can_follow(actions[i], events[i + 1]));
        assert(answers(events[i + 1], actions[i + 1]));
        if events[i + 1] is RemoveFailed && i + 1 < last {
            assert(can_follow(actions[i + 1], events[i + 2]));
        }
    }
}

/// How many entries the directory gave.
pub open spec fn entries_given(events: Seq<ClearEvent>) -> int
    decreases events.len(),
{
    if events.len() == 0 {
        0
    } else {
        entries_given(events.drop_last()) + (if events.last() is Entry {
            1int
        } else {
            0
        })
    }
}

/// The names that are left of those that the directory held, where it gives them
/// in the order of `names`: what is removed is the entry that was given last.
pub open spec fn names_left(names: Seq<Seq<u8>>, events: Seq<ClearEvent>) -> Set<Seq<u8>>
    decreases events.len(),
{
    if events.len() == 0 {
        names.to_set()
    } else if events.last() is Removed {
        names_left(names, events.drop_last()).remove(names[entries_given(events) - 1])
    } else {
        names_left(names, events.drop_last())
    }
}

/// The run is one over a directory that holds the names: it gives no more entries
/// than there are, it has no more only once it gave them all, and a directory that
/// is not there holds none.
pub open spec fn is_over(names: Seq<Seq<u8>>, events: Seq<ClearEvent>) -> bool {
    &&& entries_given(events) <= names.len()
    &&& events.last() is Exhausted ==> entries_given(events) == names.len()
    &&& events.last() is Absent ==> names.len() == 0
}

/// As far as the first `n` events go, the entries that were given are gone, but
/// for one that was given just now, and nothing was added.
proof fn lemma_given_entries_are_gone(
    names: Seq<Seq<u8>>,
    events: Seq<ClearEvent>,
    actions: Seq<ClearAction>,
    n: int,
)
    requires
        is_run(events, actions),
        entries_given(events) <= names.len(),
        0 < n <= events.len(),
        !(events[n - 1] is RemoveFailed),
    ensures
        0 <= entries_given(events.take(n)) <= entries_given(events),
        names_left(names, events.take(n)).subset_of(names.to_set()),
        forall|k: int|
            0 <= k < entries_given(events.take(n)) - (if events[n - 1] is Entry {
                1int
            } else {
                0
            }) ==> !names_left(names, events.take(n)).contains(#[trigger] names[k]),
    decreases n,
{
    let now = events.take(n);
    let before = events.take(n - 1);
    assert(now.drop_last() == before);
    assert(now.last() == events[n - 1]);
    lemma_entries_given_monotonic(events, n);
    if n == 1 {
        assert(before == Seq::<ClearEvent>::empty());
        assert(entries_given(before) == 0);
        assert(names_left(names, before) == names.to_set());
    } else {
        assert(can_follow(actions[n - 2], events[n - 1]));
        assert(answers(events[n - 2], actions[n - 2]));
        lemma_given_entries_are_gone(names, events, actions, n - 1);
    }
}

/// More events do not make the entries that were given fewer.
proof fn lemma_entries_given_monotonic(events: Seq<ClearEvent>, n: int)
    requires
        0 <= n <= events.len(),
    ensures
        0 <= entries_given(events.take(n)) <= entries_given(events),
    decreases events.len(),
{
    if n == events.len() {
        assert(events.take(n) == events);
        if n > 0 {
            lemma_entries_given_monotonic(events.drop_last(), n - 1);
            assert(events.drop_last().take(n - 1) == events.drop_last());
        }
    } else {
        assert(events.take(n) == events.drop_last().take(n));
        lemma_entries_given_monotonic(events.drop_last(), n);
    }
}

/// After clearing that ends well nothing is left of what the directory held.
pub proof fn law_cleared_directory_is_empty(
    names: Seq<Seq<u8>>,
    events: Seq<ClearEvent>,
    actions: Seq<ClearAction>,
)
    requires
        is_run(events, actions),
        is_over(names, events),
        actions.last() == ClearAction::Finish(Ok(())),
    ensures
        names_left(names, events) == Set::<Seq<u8>>::empty(),
{
    let n = events.len() as int;
    assert(answers(events[n - 1], actions[n - 1]));
    law_clearing_removes_every_entry(events, actions, n - 1);
    lemma_given_entries_are_gone(names, events, actions, n);
    assert(events.take(n) == events);
    assert forall|name: Seq<u8>| !names_left(names, events).contains(name) by {
        if names_left(names, events).contains(name) {
            assert(names.to_set().contains(name));
            let k = choose|k: int| 0 <= k < names.len() && names[k] == name;
            assert(!names_left(names, events).contains(names[k]));
        }
    }
    assert(names_left(names, events) =~= Set::<Seq<u8>>::empty());
}

/// A listing that was made after clearing that ended well, with nothing written in
/// between, has no models: their size and their number are 0.
pub proof fn law_cleared_cache_has_no_models(
    names: Seq<Seq<u8>>,
    events: Seq<ClearEvent>,
    actions: Seq<ClearAction>,
    later: CacheListing,
)
    requires
        is_run(events, actions),
        is_over(names, events),
        actions.last() == ClearAction::Finish(Ok(())),
        forall|i: int|
            0 <= i < later.entries().len() ==> names_left(names, events).contains(
                (#[trigger] later.entries()[i]).name@,
            ),
    ensures
        later.entries().len() == 0,
        cache::cached_size(later.entries()) == 0,
        cache::cached_count(later.entries()) == 0,
{
    law_cleared_directory_is_empty(names, events, actions);
    if later.entries().len() > 0 {
        assert(names_left(names, events).contains(later.entries()[0].name@));
    }
}

/// A run stops at the first failure, with its reason, and removes nothing more.
pub proof fn law_clearing_stops_at_the_first_failure(
    events: Seq<ClearEvent>,
    actions: Seq<ClearAction>,
    i: int,
)
    requires
        is_run(events, actions),
        0 <= i < events.len(),
        events[i] is RemoveFailed || events[i] is Unreadable || events[i] is EntryUnreadable,
    ensures
        i == events.len() - 1,
        actions[i] is Finish,
        actions[i]->Finish_0 is Err,
{
    assert(answers(events[i], actions[i]));
    if i < events.len() - 1 {
        assert(can_follow(actions[i], events[i + 1]));
    }
}

/// Clearing begins with a directory that is not there, which is well as it is, or
/// one that is open for reading.
pub proof fn law_clearing_begins()
    ensures
        is_run(seq![ClearEvent::Absent], seq![ClearAction::Finish(Ok(()))]),
        is_run(seq![ClearEvent::Opened], seq![ClearAction::NextEntry]),
{
}

/// As long as each entry can be removed, clearing goes on to the next, and ends
/// well once there is none: a directory goes with all that it holds, and whatever
/// else an entry is goes as a file.
pub proof fn law_clearing_goes_on(
    events: Seq<ClearEvent>,
    actions: Seq<ClearAction>,
    is_file: bool,
    is_dir: bool,
)
    requires
        is_run(events, actions),
        actions.last() == ClearAction::NextEntry,
    ensures
        is_run(events.push(ClearEvent::Exhausted), actions.push(ClearAction::Finish(Ok(())))),
        is_run(
            events.push(ClearEvent::Entry { is_file, is_dir }).push(ClearEvent::Removed),
            actions.push(
                if is_dir && !is_file {
                    ClearAction::RemoveTree
                } else {
                    ClearAction::RemoveFile
                },
            ).push(ClearAction::NextEntry),
        ),
{
    let n = events.len() as int;
    assert(actions[n - 1] == ClearAction::NextEntry);
    let done_events = events.push(ClearEvent::Exhausted);
    let done_actions = actions.push(ClearAction::Finish(Ok(())));
    assert forall|i: int| 0 <= i < done_events.len() implies answers(
        #[trigger] done_events[i],
        done_actions[i],
    ) by {
        if i < n {
            assert(answers(events[i], actions[i]));
        }
    }
    assert forall|i: int| 0 <= i && i + 1 < done_events.len() implies can_follow(
        #[trigger] done_actions[i],
        done_events[i + 1],
    ) by {
        if i + 1 < n {
            assert(can_follow(actions[i], events[i + 1]));
        }
    }
    let removal = if is_dir && !is_file {
        ClearAction::RemoveTree
    } else {
        ClearAction::RemoveFile
    };
    let more_events = events.push(ClearEvent::Entry { is_file, is_dir }).push(ClearEvent::Removed);
    let more_actions = actions.push(removal).push(ClearAction::NextEntry);
    assert forall|i: int| 0 <= i < more_events.len() implies answers(
        #[trigger] more_events[i],
        more_actions[i],
    ) by {
        if i < n {
            assert(answers(events[i], actions[i]));
        }
    }
    assert forall|i: int| 0 <= i && i + 1 < more_events.len() implies can_follow(
        #[trigger] more_actions[i],
        more_events[i + 1],
    ) by {
        if i + 1 < n {
            assert(can_follow(actions[i], events[i + 1]));
        }
    }
}

/// Clearing ends badly only where something failed, and then with what failed
/// last: the directory or an entry could not be read, or an entry could not be
/// removed.
pub proof fn law_clearing_tells_what_failed(events: Seq<ClearEvent>, actions: Seq<ClearAction>)
    requires
        is_run(events, actions),
    ensures
        actions.last() matches ClearAction::Finish(Err(error)) ==> match events.last() {
            ClearEvent::Unreadable(reason)
            | ClearEvent::EntryUnreadable(reason)
            | ClearEvent::RemoveFailed(reason) => error@ == ErrorView::IoError(reason@),
            _ => false,
        },
        events.last() is Unreadable || events.last() is EntryUnreadable || events.last() is RemoveFailed
            ==> actions.last() matches ClearAction::Finish(Err(_)),
{
    let last = events.len() - 1;
    assert(answers(events[last], actions[last]));
}

} // verus!
