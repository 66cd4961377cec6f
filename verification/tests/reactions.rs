use scheduler_bot::cache::SchedulerCache;
use scheduler_bot::reactions::{
    find_reaction_index, handle_reaction_add, handle_reaction_remove, time_slots_insert_sql,
    FlowAction, FlowEvent, ReactionFlow, ReactionInfo,
};
use scheduler_bot::refresh::UpdateCounter;

fn run(
    add: bool,
    cache: &SchedulerCache,
    reaction: &ReactionInfo,
    events: &[FlowEvent],
) -> (ReactionFlow, Vec<FlowAction>) {
    let mut flow = ReactionFlow::Start;
    let mut actions = Vec::new();
    for event in events {
        let (next, action) = if add {
            handle_reaction_add(cache, reaction, flow, *event)
        } else {
            handle_reaction_remove(cache, reaction, flow, *event)
        };
        flow = next;
        actions.push(action);
    }
    (flow, actions)
}

fn cache() -> SchedulerCache {
    SchedulerCache::new(vec![(7, 70, 700)])
}

// "🎩" (slot 2, Tuesday 2-5 PM) as Discord percent-encodes it.
const TOP_HAT: &str = "%F0%9F%8E%A9";

fn reaction_with(emoji_data: &str) -> ReactionInfo {
    ReactionInfo {
        guild_id: Some(7),
        message_id: 700,
        user_id: Some(42),
        emoji_data: emoji_data.to_string(),
    }
}

#[test]
fn untracked_reactions_are_not_counted() {
    let cache = cache();
    let others = [
        ReactionInfo { guild_id: None, message_id: 700, user_id: Some(42), emoji_data: TOP_HAT.to_string() },
        ReactionInfo { guild_id: Some(8), message_id: 700, user_id: Some(42), emoji_data: TOP_HAT.to_string() },
        ReactionInfo { guild_id: Some(7), message_id: 701, user_id: Some(42), emoji_data: TOP_HAT.to_string() },
        ReactionInfo { guild_id: Some(7), message_id: 70, user_id: None, emoji_data: TOP_HAT.to_string() },
    ];
    for reaction in others.iter() {
        for add in [true, false] {
            let (flow, actions) = run(add, &cache, reaction, &[FlowEvent::Begin]);
            assert_eq!(flow, ReactionFlow::Skipped);
            assert_eq!(actions, vec![FlowAction::FinishUnchanged]);
        }
    }
}

#[test]
fn reaction_marks_its_emojis_slot_unavailable() {
    let (flow, actions) = run(
        true,
        &cache(),
        &reaction_with(TOP_HAT),
        &[FlowEvent::Begin, FlowEvent::ConnectionReady, FlowEvent::UserExists(true), FlowEvent::SlotUpdated],
    );
    assert_eq!(flow, ReactionFlow::Finished);
    assert_eq!(
        actions,
        vec![
            FlowAction::OpenConnection,
            FlowAction::QueryUserExists { guild_id: 7, user_id: 42 },
            FlowAction::SetSlotAvailability { guild_id: 7, user_id: 42, slot: 2, available: false },
            FlowAction::CountAndFinish,
        ]
    );
}

#[test]
fn new_member_is_registered_first() {
    let (flow, actions) = run(
        true,
        &cache(),
        &reaction_with("%F0%9F%8D%A3"), // "🍣", slot 13
        &[
            FlowEvent::Begin,
            FlowEvent::ConnectionReady,
            FlowEvent::UserExists(false),
            FlowEvent::UserInserted,
            FlowEvent::UserRecordId(99),
            FlowEvent::TimeSlotsInserted,
            FlowEvent::SlotUpdated,
        ],
    );
    assert_eq!(flow, ReactionFlow::Finished);
    assert_eq!(
        actions,
        vec![
            FlowAction::OpenConnection,
            FlowAction::QueryUserExists { guild_id: 7, user_id: 42 },
            FlowAction::InsertUser { guild_id: 7, user_id: 42 },
            FlowAction::QueryUserRecordId { guild_id: 7, user_id: 42 },
            FlowAction::InsertTimeSlots { user_record_id: 99 },
            FlowAction::SetSlotAvailability { guild_id: 7, user_id: 42, slot: 13, available: false },
            FlowAction::CountAndFinish,
        ]
    );
}

#[test]
fn removal_marks_slot_available() {
    let (flow, actions) = run(
        false,
        &cache(),
        &reaction_with(TOP_HAT),
        &[FlowEvent::Begin, FlowEvent::ConnectionReady, FlowEvent::SlotUpdated],
    );
    assert_eq!(flow, ReactionFlow::Finished);
    assert_eq!(
        actions,
        vec![
            FlowAction::OpenConnection,
            FlowAction::SetSlotAvailability { guild_id: 7, user_id: 42, slot: 2, available: true },
            FlowAction::CountAndFinish,
        ]
    );
}

#[test]
fn non_slot_emoji_changes_nothing() {
    // "👍" percent-encoded, and a custom emoji.
    for data in ["%F0%9F%91%8D", "party:1234"] {
        let (flow, actions) = run(
            true,
            &cache(),
            &reaction_with(data),
            &[FlowEvent::Begin, FlowEvent::ConnectionReady, FlowEvent::UserExists(true)],
        );
        assert_eq!(flow, ReactionFlow::Skipped);
        assert_eq!(
            actions,
            vec![
                FlowAction::OpenConnection,
                FlowAction::QueryUserExists { guild_id: 7, user_id: 42 },
                FlowAction::FinishUnchanged,
            ]
        );
        let (flow, actions) = run(
            false,
            &cache(),
            &reaction_with(data),
            &[FlowEvent::Begin, FlowEvent::ConnectionReady],
        );
        assert_eq!(flow, ReactionFlow::Skipped);
        assert_eq!(actions, vec![FlowAction::OpenConnection, FlowAction::FinishUnchanged]);
    }
}

#[test]
fn repeated_reaction_asks_the_same_change() {
    let reaction = reaction_with(TOP_HAT);
    let events = [FlowEvent::Begin, FlowEvent::ConnectionReady, FlowEvent::UserExists(true), FlowEvent::SlotUpdated];
    let first = run(true, &cache(), &reaction, &events);
    let again = run(true, &cache(), &reaction, &events);
    assert_eq!(first, again);
    assert!(again.1.iter().all(|a| !matches!(a, FlowAction::InsertUser { .. } | FlowAction::InsertTimeSlots { .. })));
}

#[test]
fn failure_reports_once_and_is_not_counted() {
    let (flow, actions) = run(
        true,
        &cache(),
        &reaction_with(TOP_HAT),
        &[
            FlowEvent::Begin,
            FlowEvent::ConnectionReady,
            FlowEvent::Error,
            FlowEvent::UserExists(true),
            FlowEvent::SlotUpdated,
        ],
    );
    assert_eq!(flow, ReactionFlow::Failed);
    assert_eq!(
        actions,
        vec![
            FlowAction::OpenConnection,
            FlowAction::QueryUserExists { guild_id: 7, user_id: 42 },
            FlowAction::ReportError,
            FlowAction::Halt,
            FlowAction::Halt,
        ]
    );
}

#[test]
fn counter_counts_only_changes() {
    let mut counter = UpdateCounter::new();
    let (_, skipped) = run(true, &cache(), &reaction_with("%F0%9F%91%8D"), &[FlowEvent::Begin, FlowEvent::ConnectionReady, FlowEvent::UserExists(true)]);
    for action in skipped {
        counter.record_outcome(action);
    }
    assert_eq!(counter.pending(), 0);
    assert!(!counter.tick());
    let (_, failed) = run(true, &cache(), &reaction_with(TOP_HAT), &[FlowEvent::Begin, FlowEvent::Error]);
    for action in failed {
        counter.record_outcome(action);
    }
    assert_eq!(counter.pending(), 0);
    let (_, done) = run(false, &cache(), &reaction_with(TOP_HAT), &[FlowEvent::Begin, FlowEvent::ConnectionReady, FlowEvent::SlotUpdated]);
    for action in done {
        counter.record_outcome(action);
    }
    assert_eq!(counter.pending(), 1);
    assert!(counter.tick());
}

#[test]
fn stored_identifiers_are_read_as_signed() {
    let cache = SchedulerCache::new(vec![(-1, 0, 5)]);
    let reaction = ReactionInfo {
        guild_id: Some(u64::MAX),
        message_id: 5,
        user_id: Some(u64::MAX - 1),
        emoji_data: TOP_HAT.to_string(),
    };
    let (_, actions) = run(true, &cache, &reaction, &[FlowEvent::Begin, FlowEvent::ConnectionReady]);
    assert_eq!(
        actions,
        vec![FlowAction::OpenConnection, FlowAction::QueryUserExists { guild_id: -1, user_id: -2 }]
    );
}

#[test]
fn reaction_slot_comes_from_its_emoji() {
    assert_eq!(find_reaction_index("%F0%9F%8D%95"), Some(0)); // 🍕
    assert_eq!(find_reaction_index("%F0%9F%9A%80"), Some(1)); // 🚀
    assert_eq!(find_reaction_index(TOP_HAT), Some(2));
    assert_eq!(find_reaction_index("%F0%9F%8D%A3"), Some(13)); // 🍣
    assert_eq!(find_reaction_index("🍕"), Some(0));
    assert_eq!(find_reaction_index("%F0%9F%91%8D"), None); // 👍
    assert_eq!(find_reaction_index("custom:123"), None);
    assert_eq!(find_reaction_index(""), None);
}

#[test]
fn every_posted_emoji_selects_its_slot() {
    let post = scheduler_bot::setup::post_message();
    for (i, emoji) in post.emojis.iter().enumerate() {
        let encoded: String = emoji.bytes().map(|b| format!("%{:02X}", b)).collect();
        assert_eq!(find_reaction_index(&encoded), Some(i));
    }
}

#[test]
fn new_member_rows_statement() {
    let sql = time_slots_insert_sql(5);
    assert_eq!(
        sql,
        "INSERT INTO user_time_slots (user_record_id, day, available) VALUES \
         (5, 'Monday 2-5 PM', true),(5, 'Monday 7-10 PM', true),\
         (5, 'Tuesday 2-5 PM', true),(5, 'Tuesday 7-10 PM', true),\
         (5, 'Wednesday 2-5 PM', true),(5, 'Wednesday 7-10 PM', true),\
         (5, 'Thursday 2-5 PM', true),(5, 'Thursday 7-10 PM', true),\
         (5, 'Friday 2-5 PM', true),(5, 'Friday 7-10 PM', true),\
         (5, 'Saturday 2-5 PM', true),(5, 'Saturday 7-10 PM', true),\
         (5, 'Sunday 2-5 PM', true),(5, 'Sunday 7-10 PM', true)"
    );
    assert!(time_slots_insert_sql(-12).contains("(-12, 'Sunday 7-10 PM', true)"));
    assert!(time_slots_insert_sql(i64::MAX).contains("(9223372036854775807, 'Monday 2-5 PM', true),"));
}
