//! What the bot does when a member adds or removes a reaction on a server's
//! availability message: a reaction with a slot's emoji marks the member
//! unavailable for that slot, removing it marks them available again; a
//! member seen for the first time is registered with all fourteen slots
//! available. Only a change of availability counts toward the next
//! timetable redraw.
//!
//! The handling talks to the database between its decisions, so it is
//! written as a state machine: each step takes the event that the last
//! action produced and gives the next state and action.

use vstd::prelude::*;
use vstd::string::*;
use crate::cache::SchedulerCache;
use crate::refresh::{count_after_change, count_after_outcome};
use crate::text::{decimal_string, decimal_text};
use crate::setup::{emoji_slot, emoji_time_slot, lemma_emoji_slot_in_range, slot_emoji};
use crate::timeslots::{SLOT_COUNT, slot_name, time_slot_name};

verus! {

// ---------------------------------------------------------------------------
// Which slot a reaction's emoji stands for
// ---------------------------------------------------------------------------

/// What `percent_encoding::percent_decode_str` followed by
/// `decode_utf8_lossy` makes of a text.
pub uninterp spec fn percent_decoded_text(encoded: Seq<char>) -> Seq<char>;

/// Decodes the percent-encoded form of a reaction emoji (as Discord's
/// `ReactionType::as_data` gives it) with
/// `percent_encoding::percent_decode_str(..).decode_utf8_lossy()`. The result
/// is named by `percent_decoded_text`. The crate's source shows in addition
/// that a text without `%` decodes to itself: each byte other than `%` is
/// kept, and bytes that were valid UTF-8 stay valid. What it makes of `%`
/// sequences and of invalid UTF-8 is left unsaid.
#[verifier::external_body]
fn percent_decode_lossy(encoded: &str) -> (decoded: String)
    ensures
        decoded@ == percent_decoded_text(encoded@),
        !encoded@.contains('%') ==> decoded@ == encoded@,
{
    percent_encoding::percent_decode_str(encoded).decode_utf8_lossy().to_string()
}

/// The slot that a reaction's emoji stands for, the emoji being given in the
/// percent-encoded form that Discord gives.
pub open spec fn encoded_emoji_slot(reaction_data: Seq<char>) -> Option<int> {
    emoji_slot(percent_decoded_text(reaction_data))
}

/// The slot that a reaction stands for, from its emoji in the
/// percent-encoded form that Discord gives: the encoded emoji is decoded,
/// then looked up among the fourteen slot emojis as `emoji_time_slot` does.
/// An emoji that stands for no slot gives `None`.
pub fn find_reaction_index(reaction_data: &str) -> (slot: Option<usize>)
    ensures
        slot == match encoded_emoji_slot(reaction_data@) {
            Some(i) => Some(i as usize),
            None => None::<usize>,
        },
        slot matches Some(i) ==> i < SLOT_COUNT,
{
    let decoded = percent_decode_lossy(reaction_data);
    proof {
        lemma_emoji_slot_in_range(decoded@, 0);
    }
    emoji_time_slot(decoded.as_str())
}

/// A reaction whose emoji is the emoji of slot `i`, once decoded, stands for
/// slot `i`, whatever the other reactions of the message are.
pub proof fn law_reaction_selects_its_slot(reaction_data: Seq<char>, i: int)
    requires
        0 <= i < 14,
        percent_decoded_text(reaction_data) == slot_emoji(i),
    ensures
        encoded_emoji_slot(reaction_data) == Some(i),
{
    crate::setup::law_emoji_stands_for_its_slot(i);
}

// ---------------------------------------------------------------------------
// The rows of a new member
// ---------------------------------------------------------------------------

/// One row of a new member's slots: the slot `i`, available.
pub open spec fn slot_row_text(user_record_id: int, i: int) -> Seq<char> {
    "("@ + decimal_text(user_record_id) + ", '"@ + slot_name(i) + "', true)"@
}

/// The rows of the first `count` slots, separated by commas.
pub open spec fn slot_rows_text(user_record_id: int, count: int) -> Seq<char>
    decreases count,
{
    if count <= 0 {
        Seq::empty()
    } else if count == 1 {
        slot_row_text(user_record_id, 0)
    } else {
        slot_rows_text(user_record_id, count - 1) + ","@ + slot_row_text(user_record_id, count - 1)
    }
}

/// The statement that gives a new member all fourteen slots, each available.
pub open spec fn time_slots_insert_text(user_record_id: int) -> Seq<char> {
    "INSERT INTO user_time_slots (user_record_id, day, available) VALUES "@ + slot_rows_text(
        user_record_id,
        14,
    )
}

/// The statement that gives the member with record `user_record_id` all
/// fourteen slots, each available.
pub fn time_slots_insert_sql(user_record_id: i64) -> (sql: String)
    ensures
        sql@ == time_slots_insert_text(user_record_id as int),
{
    let ghost id = user_record_id as int;
    let prefix = "INSERT INTO user_time_slots (user_record_id, day, available) VALUES ";
    let mut sql = String::from_str(prefix);
    let number = decimal_string(user_record_id);
    let mut i: usize = 0;
    while i < SLOT_COUNT
        invariant
            i <= SLOT_COUNT,
            number@ == decimal_text(id),
            sql@ == prefix@ + if i == 0 {
                Seq::<char>::empty()
            } else if i < 14 {
                slot_rows_text(id, i as int) + ","@
            } else {
                slot_rows_text(id, 14)
            },
        decreases SLOT_COUNT - i,
    {
        let ghost before = sql@;
        sql.append("(");
        sql.append(number.as_str());
        sql.append(", '");
        sql.append(time_slot_name(i));
        sql.append("', true)");
        assert(sql@ =~= before + slot_row_text(id, i as int));
        if i < SLOT_COUNT - 1 {
            sql.append(",");
        }
        proof {
            if i == 0 {
                assert(sql@ =~= prefix@ + (slot_rows_text(id, 1) + ","@));
            } else if i < 13 {
                assert(slot_rows_text(id, i + 1) == slot_rows_text(id, i as int) + ","@ + slot_row_text(id, i as int));
                assert(sql@ =~= prefix@ + (slot_rows_text(id, i + 1) + ","@));
            } else {
                assert(slot_rows_text(id, 14) == slot_rows_text(id, 13) + ","@ + slot_row_text(id, 13));
                assert(sql@ =~= prefix@ + slot_rows_text(id, 14));
            }
        }
        i = i + 1;
    }
    sql
}


// ---------------------------------------------------------------------------
// Handling a reaction
// ---------------------------------------------------------------------------

/// Whether a reaction was added or removed.
#[derive(Clone, Copy, Debug, PartialEq, Eq, Structural)]
pub enum ReactionKind {
    Added,
    Removed,
}

/// What the handling needs of a reaction: the server it was made in, the
/// message it was made on, the member who made it and its emoji in the
/// percent-encoded form that Discord gives.
#[derive(Clone, Debug, PartialEq, Eq)]
pub struct ReactionInfo {
    pub guild_id: Option<u64>,
    pub message_id: u64,
    pub user_id: Option<u64>,
    pub emoji_data: String,
}

/// Where the handling of a reaction stands: which result it waits for, with
/// the server and member as the database stores them; or how it ended.
#[derive(Clone, Copy, Debug, PartialEq, Eq, Structural)]
pub enum ReactionFlow {
    Start,
    AwaitConnection { guild_id: i64, user_id: i64 },
    AwaitUserExists { guild_id: i64, user_id: i64 },
    AwaitUserInserted { guild_id: i64, user_id: i64 },
    AwaitUserRecordId { guild_id: i64, user_id: i64 },
    AwaitTimeSlotsInserted { guild_id: i64, user_id: i64 },
    AwaitSlotUpdated,
    /// A slot's availability changed.
    Finished,
    /// Nothing of anyone's availability changed.
    Skipped,
    /// An action failed.
    Failed,
}

/// The result of the last action, or `Begin` to start.
#[derive(Clone, Copy, Debug, PartialEq, Eq, Structural)]
pub enum FlowEvent {
    Begin,
    ConnectionReady,
    UserExists(bool),
    UserInserted,
    UserRecordId(i64),
    TimeSlotsInserted,
    SlotUpdated,
    Error,
}

/// What the caller is to do next.
#[derive(Clone, Copy, Debug, PartialEq, Eq, Structural)]
pub enum FlowAction {
    /// Take a connection from the database pool.
    OpenConnection,
    /// Ask whether the member is registered in the server.
    QueryUserExists { guild_id: i64, user_id: i64 },
    /// Register the member in the server.
    InsertUser { guild_id: i64, user_id: i64 },
    /// Ask for the record number of the member just registered.
    QueryUserRecordId { guild_id: i64, user_id: i64 },
    /// Run `time_slots_insert_sql(user_record_id)`.
    InsertTimeSlots { user_record_id: i64 },
    /// Set the member's availability for the slot `slot`.
    SetSlotAvailability { guild_id: i64, user_id: i64, slot: usize, available: bool },
    /// Count the change for the next timetable redraw and report success.
    CountAndFinish,
    /// Report success without counting: no availability changed.
    FinishUnchanged,
    /// Report the error of the last action.
    ReportError,
    /// Nothing: the handling is over.
    Halt,
}

/// Whether the reaction was made on the message that its server tracks.
pub open spec fn is_tracked(cache: Map<u64, (u64, u64)>, reaction: ReactionInfo) -> bool {
    match reaction.guild_id {
        Some(g) => cache.contains_key(g) && cache[g].1 == reaction.message_id,
        None => false,
    }
}

/// The slot that the reaction's emoji stands for, if any.
pub open spec fn reaction_slot(reaction: ReactionInfo) -> Option<int> {
    encoded_emoji_slot(reaction.emoji_data@)
}

/// Whether the handling is over.
pub open spec fn is_over(flow: ReactionFlow) -> bool {
    flow is Finished || flow is Skipped || flow is Failed
}

/// Whether an action ends the handling with its outcome.
pub open spec fn is_outcome(action: FlowAction) -> bool {
    action is CountAndFinish || action is FinishUnchanged || action is ReportError
}

/// The action that ends a handling in the given way.
pub open spec fn outcome_action(flow: ReactionFlow) -> FlowAction {
    match flow {
        ReactionFlow::Finished => FlowAction::CountAndFinish,
        ReactionFlow::Skipped => FlowAction::FinishUnchanged,
        ReactionFlow::Failed => FlowAction::ReportError,
        _ => FlowAction::Halt,
    }
}

/// The decision once the member is known: mark the slot of the reaction's
/// emoji, or end without change where the emoji stands for no slot.
pub open spec fn slot_decision(
    kind: ReactionKind,
    reaction: ReactionInfo,
    guild_id: i64,
    user_id: i64,
) -> (ReactionFlow, FlowAction) {
    match reaction_slot(reaction) {
        Some(i) => (
            ReactionFlow::AwaitSlotUpdated,
            FlowAction::SetSlotAvailability {
                guild_id,
                user_id,
                slot: i as usize,
                available: kind == ReactionKind::Removed,
            },
        ),
        None => (ReactionFlow::Skipped, FlowAction::FinishUnchanged),
    }
}

/// One step of the handling of a reaction: from where it stands and the
/// result of the last action, where it goes and what is to be done.
pub open spec fn reaction_step(
    kind: ReactionKind,
    cache: Map<u64, (u64, u64)>,
    reaction: ReactionInfo,
    flow: ReactionFlow,
    event: FlowEvent,
) -> (ReactionFlow, FlowAction) {
    match flow {
        ReactionFlow::Start => match event {
            FlowEvent::Begin => if is_tracked(cache, reaction) {
                let g = reaction.guild_id->0 as i64;
                let u = reaction.user_id->0 as i64;
                (ReactionFlow::AwaitConnection { guild_id: g, user_id: u }, FlowAction::OpenConnection)
            } else {
                (ReactionFlow::Skipped, FlowAction::FinishUnchanged)
            },
            _ => (ReactionFlow::Failed, FlowAction::ReportError),
        },
        ReactionFlow::AwaitConnection { guild_id, user_id } => match event {
            FlowEvent::ConnectionReady => match kind {
                ReactionKind::Added => (
                    ReactionFlow::AwaitUserExists { guild_id, user_id },
                    FlowAction::QueryUserExists { guild_id, user_id },
                ),
                ReactionKind::Removed => slot_decision(kind, reaction, guild_id, user_id),
            },
            _ => (ReactionFlow::Failed, FlowAction::ReportError),
        },
        ReactionFlow::AwaitUserExists { guild_id, user_id } => match event {
            FlowEvent::UserExists(exists) => if exists {
                slot_decision(kind, reaction, guild_id, user_id)
            } else {
                (
                    ReactionFlow::AwaitUserInserted { guild_id, user_id },
                    FlowAction::InsertUser { guild_id, user_id },
                )
            },
            _ => (ReactionFlow::Failed, FlowAction::ReportError),
        },
        ReactionFlow::AwaitUserInserted { guild_id, user_id } => match event {
            FlowEvent::UserInserted => (
                ReactionFlow::AwaitUserRecordId { guild_id, user_id },
                FlowAction::QueryUserRecordId { guild_id, user_id },
            ),
            _ => (ReactionFlow::Failed, FlowAction::ReportError),
        },
        ReactionFlow::AwaitUserRecordId { guild_id, user_id } => match event {
            FlowEvent::UserRecordId(record) => (
                ReactionFlow::AwaitTimeSlotsInserted { guild_id, user_id },
                FlowAction::InsertTimeSlots { user_record_id: record },
            ),
            _ => (ReactionFlow::Failed, FlowAction::ReportError),
        },
        ReactionFlow::AwaitTimeSlotsInserted { guild_id, user_id } => match event {
            FlowEvent::TimeSlotsInserted => slot_decision(kind, reaction, guild_id, user_id),
            _ => (ReactionFlow::Failed, FlowAction::ReportError),
        },
        ReactionFlow::AwaitSlotUpdated => match event {
            FlowEvent::SlotUpdated => (ReactionFlow::Finished, FlowAction::CountAndFinish),
            _ => (ReactionFlow::Failed, FlowAction::ReportError),
        },
        _ => (flow, FlowAction::Halt),
    }
}

/// The inputs on which the handling is defined: a reaction on a tracked
/// message names its member.
pub open spec fn step_allowed(
    cache: Map<u64, (u64, u64)>,
    reaction: ReactionInfo,
    flow: ReactionFlow,
    event: FlowEvent,
) -> bool {
    (flow is Start && event is Begin && is_tracked(cache, reaction)) ==> reaction.user_id is Some
}

fn slot_decision_exec(
    kind: ReactionKind,
    reaction: &ReactionInfo,
    guild_id: i64,
    user_id: i64,
) -> (next: (ReactionFlow, FlowAction))
    ensures
        next == slot_decision(kind, *reaction, guild_id, user_id),
{
    match find_reaction_index(reaction.emoji_data.as_str()) {
        Some(slot) => {
            let available = match kind {
                ReactionKind::Added => false,
                ReactionKind::Removed => true,
            };
            (
                ReactionFlow::AwaitSlotUpdated,
                FlowAction::SetSlotAvailability { guild_id, user_id, slot, available },
            )
        },
        None => (ReactionFlow::Skipped, FlowAction::FinishUnchanged),
    }
}

fn reaction_step_exec(
    kind: ReactionKind,
    cache: &SchedulerCache,
    reaction: &ReactionInfo,
    flow: ReactionFlow,
    event: FlowEvent,
) -> (next: (ReactionFlow, FlowAction))
    requires
        step_allowed(cache@, *reaction, flow, event),
    ensures
        next == reaction_step(kind, cache@, *reaction, flow, event),
{
    match flow {
        ReactionFlow::Start => match event {
            FlowEvent::Begin => {
                let on_tracked_message = match reaction.guild_id {
                    Some(g) => match cache.get(g) {
                        Some(entry) => entry.1 == reaction.message_id,
                        None => false,
                    },
                    None => false,
                };
                if on_tracked_message {
                    let g = match reaction.guild_id {
                        Some(g) => g,
                        None => 0,
                    };
                    let u = match reaction.user_id {
                        Some(u) => u,
                        None => 0,
                    };
                    (
                        ReactionFlow::AwaitConnection { guild_id: g as i64, user_id: u as i64 },
                        FlowAction::OpenConnection,
                    )
                } else {
                    (ReactionFlow::Skipped, FlowAction::FinishUnchanged)
                }
            },
            _ => (ReactionFlow::Failed, FlowAction::ReportError),
        },
        ReactionFlow::AwaitConnection { guild_id, user_id } => match event {
            FlowEvent::ConnectionReady => match kind {
                ReactionKind::Added => (
                    ReactionFlow::AwaitUserExists { guild_id, user_id },
                    FlowAction::QueryUserExists { guild_id, user_id },
                ),
                ReactionKind::Removed => slot_decision_exec(kind, reaction, guild_id, user_id),
            },
            _ => (ReactionFlow::Failed, FlowAction::ReportError),
        },
        ReactionFlow::AwaitUserExists { guild_id, user_id } => match event {
            FlowEvent::UserExists(exists) => if exists {
                slot_decision_exec(kind, reaction, guild_id, user_id)
            } else {
                (
                    ReactionFlow::AwaitUserInserted { guild_id, user_id },
                    FlowAction::InsertUser { guild_id, user_id },
                )
            },
            _ => (ReactionFlow::Failed, FlowAction::ReportError),
        },
        ReactionFlow::AwaitUserInserted { guild_id, user_id } => match event {
            FlowEvent::UserInserted => (
                ReactionFlow::AwaitUserRecordId { guild_id, user_id },
                FlowAction::QueryUserRecordId { guild_id, user_id },
            ),
            _ => (ReactionFlow::Failed, FlowAction::ReportError),
        },
        ReactionFlow::AwaitUserRecordId { guild_id, user_id } => match event {
            FlowEvent::UserRecordId(record) => (
                ReactionFlow::AwaitTimeSlotsInserted { guild_id, user_id },
                FlowAction::InsertTimeSlots { user_record_id: record },
            ),
            _ => (ReactionFlow::Failed, FlowAction::ReportError),
        },
        ReactionFlow::AwaitTimeSlotsInserted { guild_id, user_id } => match event {
            FlowEvent::TimeSlotsInserted => slot_decision_exec(kind, reaction, guild_id, user_id),
            _ => (ReactionFlow::Failed, FlowAction::ReportError),
        },
        ReactionFlow::AwaitSlotUpdated => match event {
            FlowEvent::SlotUpdated => (ReactionFlow::Finished, FlowAction::CountAndFinish),
            _ => (ReactionFlow::Failed, FlowAction::ReportError),
        },
        _ => (flow, FlowAction::Halt),
    }
}

/// One step of handling a reaction that a member added: from where the
/// handling stands and the result of the last action, where it goes and what
/// the caller is to do next (see `reaction_step`).
pub fn handle_reaction_add(
    cache: &SchedulerCache,
    reaction: &ReactionInfo,
    flow: ReactionFlow,
    event: FlowEvent,
) -> (next: (ReactionFlow, FlowAction))
    requires
        step_allowed(cache@, *reaction, flow, event),
    ensures
        next == reaction_step(ReactionKind::Added, cache@, *reaction, flow, event),
{
    reaction_step_exec(ReactionKind::Added, cache, reaction, flow, event)
}

/// One step of handling a reaction that a member removed: from where the
/// handling stands and the result of the last action, where it goes and what
/// the caller is to do next (see `reaction_step`).
pub fn handle_reaction_remove(
    cache: &SchedulerCache,
    reaction: &ReactionInfo,
    flow: ReactionFlow,
    event: FlowEvent,
) -> (next: (ReactionFlow, FlowAction))
    requires
        step_allowed(cache@, *reaction, flow, event),
    ensures
        next == reaction_step(ReactionKind::Removed, cache@, *reaction, flow, event),
{
    reaction_step_exec(ReactionKind::Removed, cache, reaction, flow, event)
}

// ---------------------------------------------------------------------------
// What a whole handling does
// ---------------------------------------------------------------------------

/// Where the handling of a reaction stands after the results `events`,
/// starting from `Start`, and the actions it asked for on the way.
pub open spec fn run_reaction(
    kind: ReactionKind,
    cache: Map<u64, (u64, u64)>,
    reaction: ReactionInfo,
    events: Seq<FlowEvent>,
) -> (ReactionFlow, Seq<FlowAction>)
    decreases events.len(),
{
    if events.len() == 0 {
        (ReactionFlow::Start, Seq::empty())
    } else {
        let before = run_reaction(kind, cache, reaction, events.drop_last());
        let next = reaction_step(kind, cache, reaction, before.0, events.last());
        (next.0, before.1.push(next.1))
    }
}

/// The server of a reaction as the database stores it.
pub open spec fn stored_guild(reaction: ReactionInfo) -> i64 {
    reaction.guild_id->0 as i64
}

/// The member of a reaction as the database stores it.
pub open spec fn stored_user(reaction: ReactionInfo) -> i64 {
    reaction.user_id->0 as i64
}

/// Whether the server and member that the handling carries are the
/// reaction's.
pub open spec fn carries_reaction(flow: ReactionFlow, reaction: ReactionInfo) -> bool {
    match flow {
        ReactionFlow::AwaitConnection { guild_id, user_id } => guild_id == stored_guild(reaction)
            && user_id == stored_user(reaction),
        ReactionFlow::AwaitUserExists { guild_id, user_id } => guild_id == stored_guild(reaction)
            && user_id == stored_user(reaction),
        ReactionFlow::AwaitUserInserted { guild_id, user_id } => guild_id == stored_guild(reaction)
            && user_id == stored_user(reaction),
        ReactionFlow::AwaitUserRecordId { guild_id, user_id } => guild_id == stored_guild(reaction)
            && user_id == stored_user(reaction),
        ReactionFlow::AwaitTimeSlotsInserted { guild_id, user_id } => guild_id == stored_guild(
            reaction,
        ) && user_id == stored_user(reaction),
        _ => true,
    }
}

/// Whether an action changes the member's availability for the slot of the
/// reaction's emoji, as the kind of reaction says, and nothing else.
pub open spec fn marks_own_slot(kind: ReactionKind, reaction: ReactionInfo, action: FlowAction) -> bool {
    action matches FlowAction::SetSlotAvailability { guild_id, user_id, slot, available } ==> {
        &&& guild_id == stored_guild(reaction)
        &&& user_id == stored_user(reaction)
        &&& reaction_slot(reaction) == Some(slot as int)
        &&& available == (kind == ReactionKind::Removed)
    }
}

/// Whether an action that names a server and a member names the ones that
/// the handling carries for the reaction.
pub open spec fn names_stored_ids(action: FlowAction, reaction: ReactionInfo) -> bool {
    match action {
        FlowAction::QueryUserExists { guild_id, user_id } => guild_id == stored_guild(reaction)
            && user_id == stored_user(reaction),
        FlowAction::InsertUser { guild_id, user_id } => guild_id == stored_guild(reaction) && user_id
            == stored_user(reaction),
        FlowAction::QueryUserRecordId { guild_id, user_id } => guild_id == stored_guild(reaction)
            && user_id == stored_user(reaction),
        FlowAction::SetSlotAvailability { guild_id, user_id, .. } => guild_id == stored_guild(
            reaction,
        ) && user_id == stored_user(reaction),
        _ => true,
    }
}

/// Handling no result yet leaves the handling at its start.
pub proof fn lemma_run_empty(kind: ReactionKind, cache: Map<u64, (u64, u64)>, reaction: ReactionInfo)
    ensures
        run_reaction(kind, cache, reaction, Seq::empty()) == (ReactionFlow::Start, Seq::<FlowAction>::empty()),
{
}

/// One more result makes one more step.
pub proof fn lemma_run_push(
    kind: ReactionKind,
    cache: Map<u64, (u64, u64)>,
    reaction: ReactionInfo,
    events: Seq<FlowEvent>,
    event: FlowEvent,
)
    ensures
        ({
            let before = run_reaction(kind, cache, reaction, events);
            let next = reaction_step(kind, cache, reaction, before.0, event);
            run_reaction(kind, cache, reaction, events.push(event)) == (next.0, before.1.push(next.1))
        }),
{
    assert(events.push(event).drop_last() =~= events);
}

/// The run of `events`, where each step is unfolded.
proof fn lemma_run_steps(
    kind: ReactionKind,
    cache: Map<u64, (u64, u64)>,
    reaction: ReactionInfo,
    events: Seq<FlowEvent>,
)
    ensures
        forall|n: int|
            0 < n <= events.len() ==> {
                let before = #[trigger] run_reaction(kind, cache, reaction, events.take(n - 1));
                let next = reaction_step(kind, cache, reaction, before.0, events[n - 1]);
                run_reaction(kind, cache, reaction, events.take(n)) == (next.0, before.1.push(next.1))
            },
{
    assert forall|n: int| 0 < n <= events.len() implies {
        let before = #[trigger] run_reaction(kind, cache, reaction, events.take(n - 1));
        let next = reaction_step(kind, cache, reaction, before.0, events[n - 1]);
        run_reaction(kind, cache, reaction, events.take(n)) == (next.0, before.1.push(next.1))
    } by {
        lemma_run_push(kind, cache, reaction, events.take(n - 1), events[n - 1]);
        assert(events.take(n - 1).push(events[n - 1]) =~= events.take(n));
    }
}

/// What holds of every run, proved by induction on its results.
proof fn lemma_run_invariants(
    kind: ReactionKind,
    cache: Map<u64, (u64, u64)>,
    reaction: ReactionInfo,
    events: Seq<FlowEvent>,
)
    ensures
        ({
            let (flow, actions) = run_reaction(kind, cache, reaction, events);
            &&& actions.len() == events.len()
            &&& forall|j: int, k: int|
                0 <= j < k < actions.len() && is_outcome(#[trigger] actions[j]) ==> #[trigger] actions[k]
                    is Halt
            &&& forall|j: int|
                0 <= j < actions.len() && is_outcome(#[trigger] actions[j]) ==> actions[j]
                    == outcome_action(flow)
            &&& is_over(flow) == exists|j: int| 0 <= j < actions.len() && is_outcome(#[trigger] actions[j])
            &&& carries_reaction(flow, reaction)
            &&& forall|j: int| 0 <= j < actions.len() ==> marks_own_slot(kind, reaction, #[trigger] actions[j])
            &&& forall|j: int| 0 <= j < actions.len() ==> names_stored_ids(#[trigger] actions[j], reaction)
            &&& reaction_slot(reaction) is None ==> !(flow is AwaitSlotUpdated) && !(flow is Finished)
            &&& !is_tracked(cache, reaction) ==> (flow is Start || flow is Skipped || flow is Failed)
            &&& !is_tracked(cache, reaction) ==> forall|j: int|
                0 <= j < actions.len() ==> (#[trigger] actions[j] is FinishUnchanged || actions[j]
                    is ReportError || actions[j] is Halt)
        }),
    decreases events.len(),
{
    if events.len() > 0 {
        let shorter = events.drop_last();
        lemma_run_invariants(kind, cache, reaction, shorter);
        let before = run_reaction(kind, cache, reaction, shorter);
        let next = reaction_step(kind, cache, reaction, before.0, events.last());
        let actions = before.1.push(next.1);
        assert(run_reaction(kind, cache, reaction, events) == (next.0, actions));
        assert forall|j: int| 0 <= j < before.1.len() implies actions[j] == before.1[j] by {}
        crate::setup::lemma_emoji_slot_in_range(percent_decoded_text(reaction.emoji_data@), 0);
        if is_over(before.0) {
            assert(next == (before.0, FlowAction::Halt));
        } else {
            assert(is_outcome(next.1) == is_over(next.0));
            assert(is_outcome(next.1) ==> next.1 == outcome_action(next.0));
            assert(marks_own_slot(kind, reaction, next.1));
            assert(names_stored_ids(next.1, reaction));
        }
        assert forall|j: int, k: int|
            0 <= j < k < actions.len() && is_outcome(#[trigger] actions[j]) implies #[trigger] actions[k]
                is Halt by {
            assert(actions[j] == before.1[j]);
            if k < before.1.len() {
                assert(actions[k] == before.1[k]);
            }
        }
        assert forall|j: int|
            0 <= j < actions.len() && is_outcome(#[trigger] actions[j]) implies actions[j]
                == outcome_action(next.0) by {
            if j < before.1.len() {
                assert(actions[j] == before.1[j]);
            }
        }
        if is_over(next.0) {
            if is_over(before.0) {
                let j = choose|j: int| 0 <= j < before.1.len() && is_outcome(#[trigger] before.1[j]);
                assert(is_outcome(actions[j]));
            } else {
                assert(is_outcome(actions[actions.len() - 1]));
            }
        } else {
            assert forall|j: int| 0 <= j < actions.len() implies !is_outcome(#[trigger] actions[j]) by {
                if j < before.1.len() {
                    assert(actions[j] == before.1[j]);
                }
            }
        }
        assert forall|j: int| 0 <= j < actions.len() implies marks_own_slot(kind, reaction, #[trigger] actions[j]) by {
            if j < before.1.len() {
                assert(actions[j] == before.1[j]);
            }
        }
        assert forall|j: int| 0 <= j < actions.len() implies names_stored_ids(#[trigger] actions[j], reaction) by {
            if j < before.1.len() {
                assert(actions[j] == before.1[j]);
            }
        }
        if !is_tracked(cache, reaction) {
            assert forall|j: int| 0 <= j < actions.len() implies (#[trigger] actions[j] is FinishUnchanged
                || actions[j] is ReportError || actions[j] is Halt) by {
                if j < before.1.len() {
                    assert(actions[j] == before.1[j]);
                }
            }
        }
    }
}

/// A handling ends once, in one of three ways, and asks for nothing after:
/// it ends `Finished` exactly when it asks to count a change, `Skipped`
/// exactly when it asks to finish without counting, and `Failed` exactly
/// when it asks to report an error. So a success that changed a slot counts
/// once, and an error never counts.
pub proof fn law_single_outcome(
    kind: ReactionKind,
    cache: Map<u64, (u64, u64)>,
    reaction: ReactionInfo,
    events: Seq<FlowEvent>,
)
    ensures
        ({
            let (flow, actions) = run_reaction(kind, cache, reaction, events);
            &&& forall|j: int, k: int|
                0 <= j < k < actions.len() && is_outcome(#[trigger] actions[j]) ==> #[trigger] actions[k]
                    is Halt
            &&& (flow is Finished) == exists|j: int|
                0 <= j < actions.len() && #[trigger] actions[j] == FlowAction::CountAndFinish
            &&& (flow is Skipped) == exists|j: int|
                0 <= j < actions.len() && #[trigger] actions[j] == FlowAction::FinishUnchanged
            &&& (flow is Failed) == exists|j: int|
                0 <= j < actions.len() && #[trigger] actions[j] == FlowAction::ReportError
        }),
{
    lemma_run_invariants(kind, cache, reaction, events);
    let (flow, actions) = run_reaction(kind, cache, reaction, events);
    if is_over(flow) {
        let j = choose|j: int| 0 <= j < actions.len() && is_outcome(#[trigger] actions[j]);
        assert(actions[j] == outcome_action(flow));
    }
}

/// Every slot change that a handling asks for is the member's change for the
/// slot of the reaction's own emoji, in the reaction's own server: to
/// unavailable for an added reaction, to available for a removed one.
pub proof fn law_slot_change_is_the_emojis_slot(
    kind: ReactionKind,
    cache: Map<u64, (u64, u64)>,
    reaction: ReactionInfo,
    events: Seq<FlowEvent>,
)
    ensures
        ({
            let actions = run_reaction(kind, cache, reaction, events).1;
            forall|j: int| 0 <= j < actions.len() ==> marks_own_slot(kind, reaction, #[trigger] actions[j])
        }),
{
    lemma_run_invariants(kind, cache, reaction, events);
}

/// A reaction whose emoji stands for no slot changes no availability and is
/// not counted toward a redraw.
pub proof fn law_non_slot_emoji_changes_nothing(
    kind: ReactionKind,
    cache: Map<u64, (u64, u64)>,
    reaction: ReactionInfo,
    events: Seq<FlowEvent>,
)
    requires
        reaction_slot(reaction) is None,
    ensures
        ({
            let actions = run_reaction(kind, cache, reaction, events).1;
            forall|j: int|
                0 <= j < actions.len() ==> !(#[trigger] actions[j] is SetSlotAvailability) && !(
                actions[j] is CountAndFinish)
        }),
{
    lemma_run_invariants(kind, cache, reaction, events);
    law_single_outcome(kind, cache, reaction, events);
}

/// A reaction on any other message than its server's availability message
/// touches no data and is not counted: its handling asks for nothing but to
/// finish without change (or to report an error on a result that does not
/// belong to it).
pub proof fn law_untracked_reaction_is_not_counted(
    kind: ReactionKind,
    cache: Map<u64, (u64, u64)>,
    reaction: ReactionInfo,
    events: Seq<FlowEvent>,
)
    requires
        !is_tracked(cache, reaction),
    ensures
        run_reaction(kind, cache, reaction, seq![FlowEvent::Begin]) == (
            ReactionFlow::Skipped,
            seq![FlowAction::FinishUnchanged],
        ),
        ({
            let actions = run_reaction(kind, cache, reaction, events).1;
            forall|j: int|
                0 <= j < actions.len() ==> (#[trigger] actions[j] is FinishUnchanged || actions[j]
                    is ReportError || actions[j] is Halt)
        }),
{
    lemma_run_invariants(kind, cache, reaction, events);
    lemma_run_empty(kind, cache, reaction);
    lemma_run_push(kind, cache, reaction, Seq::empty(), FlowEvent::Begin);
    assert(Seq::<FlowEvent>::empty().push(FlowEvent::Begin) =~= seq![FlowEvent::Begin]);
    assert(Seq::<FlowAction>::empty().push(FlowAction::FinishUnchanged) =~= seq![FlowAction::FinishUnchanged]);
}

/// A registered member who reacts with the emoji of slot `i` is marked
/// unavailable for that slot, and the change is counted.
pub proof fn law_reaction_marks_slot_unavailable(
    cache: Map<u64, (u64, u64)>,
    reaction: ReactionInfo,
    i: int,
)
    requires
        is_tracked(cache, reaction),
        reaction.user_id is Some,
        reaction_slot(reaction) == Some(i),
    ensures
        run_reaction(
            ReactionKind::Added,
            cache,
            reaction,
            seq![
                FlowEvent::Begin,
                FlowEvent::ConnectionReady,
                FlowEvent::UserExists(true),
                FlowEvent::SlotUpdated,
            ],
        ) == (
            ReactionFlow::Finished,
            seq![
                FlowAction::OpenConnection,
                FlowAction::QueryUserExists {
                    guild_id: stored_guild(reaction),
                    user_id: stored_user(reaction),
                },
                FlowAction::SetSlotAvailability {
                    guild_id: stored_guild(reaction),
                    user_id: stored_user(reaction),
                    slot: i as usize,
                    available: false,
                },
                FlowAction::CountAndFinish,
            ],
        ),
{
    let k = ReactionKind::Added;
    let g = stored_guild(reaction);
    let u = stored_user(reaction);
    let events = seq![
        FlowEvent::Begin,
        FlowEvent::ConnectionReady,
        FlowEvent::UserExists(true),
        FlowEvent::SlotUpdated,
    ];
    lemma_run_empty(k, cache, reaction);
    lemma_run_steps(k, cache, reaction, events);
    assert(events.take(0) =~= Seq::<FlowEvent>::empty());
    let r1 = run_reaction(k, cache, reaction, events.take(1));
    let r2 = run_reaction(k, cache, reaction, events.take(2));
    let r3 = run_reaction(k, cache, reaction, events.take(3));
    let r4 = run_reaction(k, cache, reaction, events.take(4));
    assert(r1.0 == ReactionFlow::AwaitConnection { guild_id: g, user_id: u });
    assert(r2.0 == ReactionFlow::AwaitUserExists { guild_id: g, user_id: u });
    assert(r3.0 == ReactionFlow::AwaitSlotUpdated);
    assert(events.take(4) =~= events);
    assert(r4.1 =~= seq![
        FlowAction::OpenConnection,
        FlowAction::QueryUserExists { guild_id: g, user_id: u },
        FlowAction::SetSlotAvailability { guild_id: g, user_id: u, slot: i as usize, available: false },
        FlowAction::CountAndFinish,
    ]);
}

/// A member seen for the first time in the server is registered, with all
/// fourteen slots available, before the slot of the reaction is marked
/// unavailable.
pub proof fn law_new_member_is_registered_first(
    cache: Map<u64, (u64, u64)>,
    reaction: ReactionInfo,
    user_record_id: i64,
    i: int,
)
    requires
        is_tracked(cache, reaction),
        reaction.user_id is Some,
        reaction_slot(reaction) == Some(i),
    ensures
        run_reaction(
            ReactionKind::Added,
            cache,
            reaction,
            seq![
                FlowEvent::Begin,
                FlowEvent::ConnectionReady,
                FlowEvent::UserExists(false),
                FlowEvent::UserInserted,
                FlowEvent::UserRecordId(user_record_id),
                FlowEvent::TimeSlotsInserted,
                FlowEvent::SlotUpdated,
            ],
        ) == (
            ReactionFlow::Finished,
            seq![
                FlowAction::OpenConnection,
                FlowAction::QueryUserExists {
                    guild_id: stored_guild(reaction),
                    user_id: stored_user(reaction),
                },
                FlowAction::InsertUser { guild_id: stored_guild(reaction), user_id: stored_user(reaction) },
                FlowAction::QueryUserRecordId {
                    guild_id: stored_guild(reaction),
                    user_id: stored_user(reaction),
                },
                FlowAction::InsertTimeSlots { user_record_id },
                FlowAction::SetSlotAvailability {
                    guild_id: stored_guild(reaction),
                    user_id: stored_user(reaction),
                    slot: i as usize,
                    available: false,
                },
                FlowAction::CountAndFinish,
            ],
        ),
{
    let k = ReactionKind::Added;
    let g = stored_guild(reaction);
    let u = stored_user(reaction);
    let events = seq![
        FlowEvent::Begin,
        FlowEvent::ConnectionReady,
        FlowEvent::UserExists(false),
        FlowEvent::UserInserted,
        FlowEvent::UserRecordId(user_record_id),
        FlowEvent::TimeSlotsInserted,
        FlowEvent::SlotUpdated,
    ];
    lemma_run_empty(k, cache, reaction);
    lemma_run_steps(k, cache, reaction, events);
    assert(events.take(0) =~= Seq::<FlowEvent>::empty());
    let r1 = run_reaction(k, cache, reaction, events.take(1));
    let r2 = run_reaction(k, cache, reaction, events.take(2));
    let r3 = run_reaction(k, cache, reaction, events.take(3));
    let r4 = run_reaction(k, cache, reaction, events.take(4));
    let r5 = run_reaction(k, cache, reaction, events.take(5));
    let r6 = run_reaction(k, cache, reaction, events.take(6));
    let r7 = run_reaction(k, cache, reaction, events.take(7));
    assert(r1.0 == ReactionFlow::AwaitConnection { guild_id: g, user_id: u });
    assert(r2.0 == ReactionFlow::AwaitUserExists { guild_id: g, user_id: u });
    assert(r3.0 == ReactionFlow::AwaitUserInserted { guild_id: g, user_id: u });
    assert(r4.0 == ReactionFlow::AwaitUserRecordId { guild_id: g, user_id: u });
    assert(r5.0 == ReactionFlow::AwaitTimeSlotsInserted { guild_id: g, user_id: u });
    assert(r6.0 == ReactionFlow::AwaitSlotUpdated);
    assert(events.take(7) =~= events);
    assert(r7.1 =~= seq![
        FlowAction::OpenConnection,
        FlowAction::QueryUserExists { guild_id: g, user_id: u },
        FlowAction::InsertUser { guild_id: g, user_id: u },
        FlowAction::QueryUserRecordId { guild_id: g, user_id: u },
        FlowAction::InsertTimeSlots { user_record_id },
        FlowAction::SetSlotAvailability { guild_id: g, user_id: u, slot: i as usize, available: false },
        FlowAction::CountAndFinish,
    ]);
}

/// Removing the reaction with the emoji of slot `i` marks the member
/// available for that slot again, and the change is counted.
pub proof fn law_removal_marks_slot_available(
    cache: Map<u64, (u64, u64)>,
    reaction: ReactionInfo,
    i: int,
)
    requires
        is_tracked(cache, reaction),
        reaction.user_id is Some,
        reaction_slot(reaction) == Some(i),
    ensures
        run_reaction(
            ReactionKind::Removed,
            cache,
            reaction,
            seq![FlowEvent::Begin, FlowEvent::ConnectionReady, FlowEvent::SlotUpdated],
        ) == (
            ReactionFlow::Finished,
            seq![
                FlowAction::OpenConnection,
                FlowAction::SetSlotAvailability {
                    guild_id: stored_guild(reaction),
                    user_id: stored_user(reaction),
                    slot: i as usize,
                    available: true,
                },
                FlowAction::CountAndFinish,
            ],
        ),
{
    let k = ReactionKind::Removed;
    let g = stored_guild(reaction);
    let u = stored_user(reaction);
    let events = seq![FlowEvent::Begin, FlowEvent::ConnectionReady, FlowEvent::SlotUpdated];
    lemma_run_empty(k, cache, reaction);
    lemma_run_steps(k, cache, reaction, events);
    assert(events.take(0) =~= Seq::<FlowEvent>::empty());
    let r1 = run_reaction(k, cache, reaction, events.take(1));
    let r2 = run_reaction(k, cache, reaction, events.take(2));
    let r3 = run_reaction(k, cache, reaction, events.take(3));
    assert(r1.0 == ReactionFlow::AwaitConnection { guild_id: g, user_id: u });
    assert(r2.0 == ReactionFlow::AwaitSlotUpdated);
    assert(events.take(3) =~= events);
    assert(r3.1 =~= seq![
        FlowAction::OpenConnection,
        FlowAction::SetSlotAvailability { guild_id: g, user_id: u, slot: i as usize, available: true },
        FlowAction::CountAndFinish,
    ]);
}

/// Removing a reaction undoes adding it: both change the same member's
/// same slot in the same server, the addition to unavailable, the removal
/// back to available.
pub proof fn law_removal_undoes_addition(cache: Map<u64, (u64, u64)>, reaction: ReactionInfo, i: int)
    requires
        is_tracked(cache, reaction),
        reaction.user_id is Some,
        reaction_slot(reaction) == Some(i),
    ensures
        ({
            let added = run_reaction(
                ReactionKind::Added,
                cache,
                reaction,
                seq![
                    FlowEvent::Begin,
                    FlowEvent::ConnectionReady,
                    FlowEvent::UserExists(true),
                    FlowEvent::SlotUpdated,
                ],
            ).1[2];
            let removed = run_reaction(
                ReactionKind::Removed,
                cache,
                reaction,
                seq![FlowEvent::Begin, FlowEvent::ConnectionReady, FlowEvent::SlotUpdated],
            ).1[1];
            &&& added matches FlowAction::SetSlotAvailability { guild_id, user_id, slot, available }
            &&& removed == FlowAction::SetSlotAvailability { guild_id, user_id, slot, available: true }
            &&& !available
        }),
{
    law_reaction_marks_slot_unavailable(cache, reaction, i);
    law_removal_marks_slot_available(cache, reaction, i);
}

/// Handling the same reaction again for a member already registered asks
/// for no registration and sets the same slot to the same value as the
/// first handling did, so the stored availability does not change further.
pub proof fn law_repeated_reaction_changes_nothing_more(
    cache: Map<u64, (u64, u64)>,
    reaction: ReactionInfo,
    user_record_id: i64,
    i: int,
)
    requires
        is_tracked(cache, reaction),
        reaction.user_id is Some,
        reaction_slot(reaction) == Some(i),
    ensures
        ({
            let first = run_reaction(
                ReactionKind::Added,
                cache,
                reaction,
                seq![
                    FlowEvent::Begin,
                    FlowEvent::ConnectionReady,
                    FlowEvent::UserExists(false),
                    FlowEvent::UserInserted,
                    FlowEvent::UserRecordId(user_record_id),
                    FlowEvent::TimeSlotsInserted,
                    FlowEvent::SlotUpdated,
                ],
            ).1;
            let again = run_reaction(
                ReactionKind::Added,
                cache,
                reaction,
                seq![
                    FlowEvent::Begin,
                    FlowEvent::ConnectionReady,
                    FlowEvent::UserExists(true),
                    FlowEvent::SlotUpdated,
                ],
            ).1;
            &&& forall|j: int|
                0 <= j < again.len() ==> !(#[trigger] again[j] is InsertUser) && !(again[j]
                    is InsertTimeSlots)
            &&& again[2] == first[5]
        }),
{
    law_reaction_marks_slot_unavailable(cache, reaction, i);
    law_new_member_is_registered_first(cache, reaction, user_record_id, i);
}

/// The redraw count after the caller has recorded each action of a handling
/// with `UpdateCounter::record_outcome`.
pub open spec fn count_after_actions(count: nat, actions: Seq<FlowAction>) -> nat
    decreases actions.len(),
{
    if actions.len() == 0 {
        count
    } else {
        count_after_outcome(count_after_actions(count, actions.drop_last()), actions.last())
    }
}

/// A handling changes the redraw count only when it changed a slot: a
/// handling that ends `Finished` adds one (keeping the count at two at
/// most), one that is skipped, fails or is still under way leaves the count
/// as it was.
pub proof fn law_count_follows_outcome(
    kind: ReactionKind,
    cache: Map<u64, (u64, u64)>,
    reaction: ReactionInfo,
    events: Seq<FlowEvent>,
    count: nat,
)
    ensures
        ({
            let (flow, actions) = run_reaction(kind, cache, reaction, events);
            count_after_actions(count, actions) == if flow is Finished {
                count_after_change(count)
            } else {
                count
            }
        }),
    decreases events.len(),
{
    if events.len() > 0 {
        let shorter = events.drop_last();
        law_count_follows_outcome(kind, cache, reaction, shorter, count);
        let before = run_reaction(kind, cache, reaction, shorter);
        let next = reaction_step(kind, cache, reaction, before.0, events.last());
        let actions = before.1.push(next.1);
        assert(run_reaction(kind, cache, reaction, events) == (next.0, actions));
        assert(actions.drop_last() =~= before.1);
    }
}

/// An identifier stored as signed keeps its bits: read back as unsigned it
/// is the identifier itself.
proof fn lemma_id_bits_kept(id: u64)
    ensures
        (id as i64) as u64 == id,
{
    assert((id as i64) as u64 == id) by (bit_vector);
}

/// Every database action of a handling is about the reaction's own server
/// and member: the identifiers it carries, read back as unsigned, are the
/// reaction's server and member identifiers, every bit kept.
pub proof fn law_actions_name_the_reactions_server_and_member(
    kind: ReactionKind,
    cache: Map<u64, (u64, u64)>,
    reaction: ReactionInfo,
    events: Seq<FlowEvent>,
)
    requires
        reaction.user_id is Some,
    ensures
        ({
            let actions = run_reaction(kind, cache, reaction, events).1;
            forall|j: int|
                0 <= j < actions.len() ==> match #[trigger] actions[j] {
                    FlowAction::QueryUserExists { guild_id, user_id } => reaction.guild_id == Some(
                        guild_id as u64,
                    ) && reaction.user_id == Some(user_id as u64),
                    FlowAction::InsertUser { guild_id, user_id } => reaction.guild_id == Some(
                        guild_id as u64,
                    ) && reaction.user_id == Some(user_id as u64),
                    FlowAction::QueryUserRecordId { guild_id, user_id } => reaction.guild_id == Some(
                        guild_id as u64,
                    ) && reaction.user_id == Some(user_id as u64),
                    FlowAction::SetSlotAvailability { guild_id, user_id, .. } => reaction.guild_id
                        == Some(guild_id as u64) && reaction.user_id == Some(user_id as u64),
                    _ => true,
                }
        }),
{
    lemma_run_invariants(kind, cache, reaction, events);
    let actions = run_reaction(kind, cache, reaction, events).1;
    lemma_id_bits_kept(reaction.user_id->0);
    if reaction.guild_id is Some {
        lemma_id_bits_kept(reaction.guild_id->0);
    }
    assert forall|j: int| 0 <= j < actions.len() implies match #[trigger] actions[j] {
        FlowAction::QueryUserExists { guild_id, user_id } => reaction.guild_id == Some(
            guild_id as u64,
        ) && reaction.user_id == Some(user_id as u64),
        FlowAction::InsertUser { guild_id, user_id } => reaction.guild_id == Some(guild_id as u64)
            && reaction.user_id == Some(user_id as u64),
        FlowAction::QueryUserRecordId { guild_id, user_id } => reaction.guild_id == Some(
            guild_id as u64,
        ) && reaction.user_id == Some(user_id as u64),
        FlowAction::SetSlotAvailability { guild_id, user_id, .. } => reaction.guild_id == Some(
            guild_id as u64,
        ) && reaction.user_id == Some(user_id as u64),
        _ => true,
    } by {
        assert(names_stored_ids(actions[j], reaction));
        if !is_tracked(cache, reaction) {
            assert(actions[j] is FinishUnchanged || actions[j] is ReportError || actions[j] is Halt);
        }
    }
}

/// Only a reaction on the message that the cache records for the
/// reaction's own server gets as far as the database: any action other than
/// finishing unchanged, reporting an error or halting means the reaction
/// has a server, the cache tracks that server, and the message it tracks is
/// the reacted message.
pub proof fn law_only_the_tracked_message_reaches_the_database(
    kind: ReactionKind,
    cache: Map<u64, (u64, u64)>,
    reaction: ReactionInfo,
    events: Seq<FlowEvent>,
)
    ensures
        ({
            let actions = run_reaction(kind, cache, reaction, events).1;
            forall|j: int|
                0 <= j < actions.len() && !(#[trigger] actions[j] is FinishUnchanged) && !(
                actions[j] is ReportError) && !(actions[j] is Halt) ==> {
                    &&& reaction.guild_id is Some
                    &&& cache.contains_key(reaction.guild_id->0)
                    &&& cache[reaction.guild_id->0].1 == reaction.message_id
                }
        }),
{
    lemma_run_invariants(kind, cache, reaction, events);
}

} // verus!
