//! Moving between the tool clusters of a log and between their tool calls.

use vstd::prelude::*;

use crate::chat_log;
use crate::chat_log::{ChatLog, EntryId, Message, MessageView};

verus! {

/// The last tool cluster before `end`.
pub open spec fn cluster_before(log: Seq<MessageView>, end: int) -> Option<nat>
    decreases end,
{
    if end <= 0 {
        None
    } else if log[end - 1] is ToolCluster {
        Some((end - 1) as nat)
    } else {
        cluster_before(log, end - 1)
    }
}

/// The first tool cluster from `start` on.
pub open spec fn cluster_from(log: Seq<MessageView>, start: int) -> Option<nat>
    decreases log.len() - start,
{
    if start < 0 || start >= log.len() {
        None
    } else if log[start] is ToolCluster {
        Some(start as nat)
    } else {
        cluster_from(log, start + 1)
    }
}

/// A place in a log as a natural number.
pub open spec fn place(index: Option<usize>) -> Option<nat> {
    match index {
        Some(index) => Some(index as nat),
        None => None,
    }
}

/// Nothing between the last cluster before an end and that end is a cluster.
pub proof fn cluster_before_is_the_nearest(log: Seq<MessageView>, end: int)
    requires
        0 <= end <= log.len(),
    ensures
        match cluster_before(log, end) {
            Some(found) => {
                &&& found < end
                &&& log[found as int] is ToolCluster
                &&& forall|i: int| found < i < end ==> !(#[trigger] log[i] is ToolCluster)
            },
            None => forall|i: int| 0 <= i < end ==> !(#[trigger] log[i] is ToolCluster),
        },
    decreases end,
{
    if end > 0 && !(log[end - 1] is ToolCluster) {
        cluster_before_is_the_nearest(log, end - 1);
    }
}

/// Nothing between a start and the first cluster from there on is a cluster.
pub proof fn cluster_from_is_the_nearest(log: Seq<MessageView>, start: int)
    requires
        0 <= start <= log.len(),
    ensures
        match cluster_from(log, start) {
            Some(found) => {
                &&& start <= found < log.len()
                &&& log[found as int] is ToolCluster
                &&& forall|i: int| start <= i < found ==> !(#[trigger] log[i] is ToolCluster)
            },
            None => forall|i: int| start <= i < log.len() ==> !(#[trigger] log[i] is ToolCluster),
        },
    decreases log.len() - start,
{
    if start < log.len() && !(log[start] is ToolCluster) {
        cluster_from_is_the_nearest(log, start + 1);
    }
}

/// The step up from a cluster leads back down to it.
pub proof fn down_undoes_up(log: Seq<MessageView>, index: nat)
    requires
        index < log.len(),
        log[index as int] is ToolCluster,
        cluster_before(log, index as int) is Some,
    ensures
        cluster_from(log, cluster_before(log, index as int)->0 as int + 1) == Some(index),
{
    cluster_before_is_the_nearest(log, index as int);
    let up = cluster_before(log, index as int)->0 as int;
    cluster_from_is_the_nearest(log, up + 1);
    assert(log[index as int] is ToolCluster);
    let down = cluster_from(log, up + 1);
    assert(down is Some);
    assert(log[down->0 as int] is ToolCluster);
}

/// Index of the last `ToolCluster` message in `chat_log`, if any.
pub fn last_cluster_index(chat_log: &ChatLog) -> (found: Option<usize>)
    ensures
        place(found) == cluster_before(chat_log@, chat_log@.len() as int),
{
    cluster_index_before(chat_log, chat_log.len())
}

/// Index of the nearest `ToolCluster` message before `index`, if any.
pub fn cluster_index_before(chat_log: &ChatLog, index: usize) -> (found: Option<usize>)
    requires
        index <= chat_log@.len(),
    ensures
        place(found) == cluster_before(chat_log@, index as int),
{
    let messages = chat_log.messages();
    assert(chat_log::message_views(messages@).len() == messages@.len());
    let mut i: usize = index;
    while i > 0
        invariant
            i <= index <= messages@.len(),
            chat_log::message_views(messages@) == chat_log@,
            cluster_before(chat_log@, i as int) == cluster_before(chat_log@, index as int),
        decreases i,
    {
        i = i - 1;
        assert(chat_log@[i as int] == messages@[i as int]@);
        match &messages[i] {
            Message::ToolCluster(_) => {
                return Some(i);
            },
            _ => {},
        }
    }
    None
}

/// Index of the nearest `ToolCluster` message after `index`, if any.
pub fn cluster_index_after(chat_log: &ChatLog, index: usize) -> (found: Option<usize>)
    requires
        index < chat_log@.len(),
    ensures
        place(found) == cluster_from(chat_log@, index + 1),
{
    let messages = chat_log.messages();
    assert(chat_log::message_views(messages@).len() == messages@.len());
    assert(index < messages.len());
    let mut i: usize = index + 1;
    while i < messages.len()
        invariant
            index < i <= messages@.len(),
            chat_log::message_views(messages@) == chat_log@,
            cluster_from(chat_log@, i as int) == cluster_from(chat_log@, index + 1),
        decreases messages.len() - i,
    {
        assert(chat_log@[i as int] == messages@[i as int]@);
        match &messages[i] {
            Message::ToolCluster(_) => {
                return Some(i);
            },
            _ => {},
        }
        i = i + 1;
    }
    None
}

/// A handle as the places that it stands for.
pub open spec fn handle(id: Option<EntryId>) -> Option<(nat, nat)> {
    match id {
        Some(id) => Some(id@),
        None => None,
    }
}

/// The place of the selected tool call among others.
pub open spec fn selected_place(calls: Seq<(nat, nat)>, selected: Option<(nat, nat)>) -> Option<
    int,
> {
    match selected {
        Some(id) => calls.index_of_first(id),
        None => None,
    }
}

/// The tool call above the selected one; above the first nothing is selected.
/// Without a selection it is the last.
pub open spec fn call_above(calls: Seq<(nat, nat)>, selected: Option<(nat, nat)>) -> Option<
    (nat, nat),
> {
    match selected_place(calls, selected) {
        Some(place) => if place > 0 {
            Some(calls[place - 1])
        } else {
            None
        },
        None => if calls.len() > 0 {
            Some(calls.last())
        } else {
            None
        },
    }
}

/// The tool call below the selected one; the last stays selected. Without a
/// selection it is the first.
pub open spec fn call_below(calls: Seq<(nat, nat)>, selected: Option<(nat, nat)>) -> Option<
    (nat, nat),
> {
    match selected_place(calls, selected) {
        Some(place) => if place + 1 < calls.len() {
            Some(calls[place + 1])
        } else {
            Some(calls.last())
        },
        None => if calls.len() > 0 {
            Some(calls[0])
        } else {
            None
        },
    }
}

fn position(calls: &[EntryId], selected: Option<EntryId>) -> (found: Option<usize>)
    ensures
        match found {
            Some(place) => selected_place(chat_log::id_views(calls@), handle(selected)) == Some(
                place as int,
            ) && place < calls@.len(),
            None => selected_place(chat_log::id_views(calls@), handle(selected)) is None,
        },
{
    let ghost ids = chat_log::id_views(calls@);
    if let Some(id) = selected {
        proof {
            ids.index_of_first_ensures(id@);
        }
        let mut i: usize = 0;
        while i < calls.len()
            invariant
                selected == Some(id),
                ids == chat_log::id_views(calls@),
                i <= calls@.len(),
                forall|k: int| 0 <= k < i ==> #[trigger] ids[k] != id@,
            decreases calls@.len() - i,
        {
            assert(ids[i as int] == calls@[i as int]@);
            if calls[i] == id {
                proof {
                    ids.index_of_first_ensures(id@);
                    assert(ids[i as int] == id@);
                    assert(ids.contains(id@));
                    let first = ids.index_of_first(id@)->0;
                    assert(ids[first] == id@);
                }
                return Some(i);
            }
            proof {
                if ids[i as int] == id@ {
                    chat_log::lemma_entry_id_injective(calls@[i as int], id);
                }
            }
            i = i + 1;
        }
        assert(ids.len() == calls@.len());
    }
    None
}

/// The tool call above the selected one.
pub fn previous_tool_call(tool_calls: &[EntryId], selected: Option<EntryId>) -> (call: Option<
    EntryId,
>)
    ensures
        handle(call) == call_above(chat_log::id_views(tool_calls@), handle(selected)),
{
    assert(chat_log::id_views(tool_calls@).len() == tool_calls@.len());
    match position(tool_calls, selected) {
        Some(index) => if index > 0 {
            Some(tool_calls[index - 1])
        } else {
            None
        },
        None => if tool_calls.len() > 0 {
            Some(tool_calls[tool_calls.len() - 1])
        } else {
            None
        },
    }
}

/// The tool call below the selected one.
pub fn next_tool_call(tool_calls: &[EntryId], selected: Option<EntryId>) -> (call: Option<EntryId>)
    ensures
        handle(call) == call_below(chat_log::id_views(tool_calls@), handle(selected)),
{
    assert(chat_log::id_views(tool_calls@).len() == tool_calls@.len());
    match position(tool_calls, selected) {
        Some(index) => if index < tool_calls.len() - 1 {
            Some(tool_calls[index + 1])
        } else {
            Some(tool_calls[tool_calls.len() - 1])
        },
        None => if tool_calls.len() > 0 {
            Some(tool_calls[0])
        } else {
            None
        },
    }
}

/// Where the tool calls differ, the step down and up again leads back to the
/// selected one, unless that is the last.
pub proof fn up_undoes_down(calls: Seq<(nat, nat)>, place: int)
    requires
        calls.no_duplicates(),
        0 <= place < calls.len() - 1,
    ensures
        call_above(calls, call_below(calls, Some(calls[place]))) == Some(calls[place]),
{
    calls.index_of_first_ensures(calls[place]);
    calls.index_of_first_ensures(calls[place + 1]);
    assert(calls.contains(calls[place]));
    assert(calls.contains(calls[place + 1]));
}

/// Up leads to the tool call right above the selected one and Down to the one
/// right below it; above the first there is none, and below the last none other.
/// Without a selection Up starts at the last and Down at the first.
pub proof fn arrows_step_call_by_call(calls: Seq<(nat, nat)>, place: int)
    requires
        calls.no_duplicates(),
        0 <= place < calls.len(),
    ensures
        place > 0 ==> call_above(calls, Some(calls[place])) == Some(calls[place - 1]),
        call_above(calls, Some(calls[0])) is None,
        place < calls.len() - 1 ==> call_below(calls, Some(calls[place])) == Some(calls[place + 1]),
        call_below(calls, Some(calls[calls.len() - 1])) == Some(calls[calls.len() - 1]),
        call_above(calls, None) == Some(calls[calls.len() - 1]),
        call_below(calls, None) == Some(calls[0]),
{
    calls.index_of_first_ensures(calls[place]);
    calls.index_of_first_ensures(calls[0]);
    calls.index_of_first_ensures(calls[calls.len() - 1]);
    assert(calls.contains(calls[place]));
    assert(calls.contains(calls[0]));
    assert(calls.contains(calls[calls.len() - 1]));
}

} // verus!
