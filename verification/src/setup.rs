//! The `/scheduler_setup` command: the availability message with its fourteen
//! reaction emojis, the timetable message, and the row that records both for
//! the server.

use vstd::prelude::*;
use vstd::string::*;
use crate::text::same_text;
use crate::timeslots::SLOT_COUNT;

verus! {

/// The emoji that stands for slot `i` in the availability message.
pub open spec fn slot_emoji(i: int) -> Seq<char> {
    if i == 0 { "🍕"@ }
    else if i == 1 { "🚀"@ }
    else if i == 2 { "🎩"@ }
    else if i == 3 { "🐉"@ }
    else if i == 4 { "🌮"@ }
    else if i == 5 { "🦄"@ }
    else if i == 6 { "🧀"@ }
    else if i == 7 { "🌛"@ }
    else if i == 8 { "🎮"@ }
    else if i == 9 { "🍔"@ }
    else if i == 10 { "🍰"@ }
    else if i == 11 { "🐒"@ }
    else if i == 12 { "🍿"@ }
    else { "🍣"@ }
}

/// The first slot at or after `from` whose emoji is `emoji`.
pub open spec fn emoji_slot_from(emoji: Seq<char>, from: int) -> Option<int>
    decreases 14 - from,
{
    if from < 0 || from >= 14 {
        None
    } else if emoji == slot_emoji(from) {
        Some(from)
    } else {
        emoji_slot_from(emoji, from + 1)
    }
}

/// A slot found from `from` on is one of the fourteen and has that emoji.
pub proof fn lemma_emoji_slot_in_range(emoji: Seq<char>, from: int)
    ensures
        emoji_slot_from(emoji, from) matches Some(i) ==> 0 <= i < 14 && from <= i && slot_emoji(i)
            == emoji,
    decreases 14 - from,
{
    if 0 <= from < 14 && emoji != slot_emoji(from) {
        lemma_emoji_slot_in_range(emoji, from + 1);
    }
}

/// The slot that the emoji `emoji` stands for, if any.
pub open spec fn emoji_slot(emoji: Seq<char>) -> Option<int> {
    emoji_slot_from(emoji, 0)
}

/// Each emoji stands for one slot only: the emoji of slot `i` leads back
/// to slot `i`.
pub proof fn law_emoji_stands_for_its_slot(i: int)
    requires
        0 <= i < 14,
    ensures
        emoji_slot(slot_emoji(i)) == Some(i),
{
    reveal_strlit("🍕");
    reveal_strlit("🚀");
    reveal_strlit("🎩");
    reveal_strlit("🐉");
    reveal_strlit("🌮");
    reveal_strlit("🦄");
    reveal_strlit("🧀");
    reveal_strlit("🌛");
    reveal_strlit("🎮");
    reveal_strlit("🍔");
    reveal_strlit("🍰");
    reveal_strlit("🐒");
    reveal_strlit("🍿");
    reveal_strlit("🍣");
    assert forall|j: int| 0 <= j < 14 implies #[trigger] slot_emoji(j).len() == 1 by {}
    assert forall|j: int, k: int| 0 <= j < k < 14 implies #[trigger] slot_emoji(j)[0] != #[trigger] slot_emoji(k)[0] by {}
    lemma_emoji_slot_from(i, 0);
}

proof fn lemma_emoji_slot_from(i: int, from: int)
    requires
        0 <= from <= i < 14,
        forall|j: int| 0 <= j < 14 ==> #[trigger] slot_emoji(j).len() == 1,
        forall|j: int, k: int| 0 <= j < k < 14 ==> #[trigger] slot_emoji(j)[0] != #[trigger] slot_emoji(k)[0],
    ensures
        emoji_slot_from(slot_emoji(i), from) == Some(i),
    decreases i - from,
{
    if from < i {
        assert(slot_emoji(from)[0] != slot_emoji(i)[0]);
        lemma_emoji_slot_from(i, from + 1);
    }
}

/// The name of day `d`, Monday being day 0.
pub open spec fn day_name(d: int) -> Seq<char> {
    if d == 0 { "Monday"@ }
    else if d == 1 { "Tuesday"@ }
    else if d == 2 { "Wednesday"@ }
    else if d == 3 { "Thursday"@ }
    else if d == 4 { "Friday"@ }
    else if d == 5 { "Saturday"@ }
    else { "Sunday"@ }
}

/// The field of day `d` in the availability message: the day's name, and
/// the emojis of its afternoon and evening slots with their hours.
pub open spec fn day_field(d: int) -> (Seq<char>, Seq<char>) {
    (day_name(d), slot_emoji(2 * d) + " 2-5 PM\n"@ + slot_emoji(2 * d + 1) + " 7-10 PM"@)
}

/// The emoji that stands for slot `index`.
pub fn time_slot_emoji(index: usize) -> (emoji: &'static str)
    requires
        index < SLOT_COUNT,
    ensures
        emoji@ == slot_emoji(index as int),
{
    match index {
        0 => "🍕",
        1 => "🚀",
        2 => "🎩",
        3 => "🐉",
        4 => "🌮",
        5 => "🦄",
        6 => "🧀",
        7 => "🌛",
        8 => "🎮",
        9 => "🍔",
        10 => "🍰",
        11 => "🐒",
        12 => "🍿",
        _ => "🍣",
    }
}

/// The slot that the emoji `emoji` stands for, if any.
pub fn emoji_time_slot(emoji: &str) -> (slot: Option<usize>)
    ensures
        slot == match emoji_slot(emoji@) {
            Some(i) => Some(i as usize),
            None => None::<usize>,
        },
{
    let mut i: usize = 0;
    while i < SLOT_COUNT
        invariant
            i <= SLOT_COUNT,
            emoji_slot(emoji@) == emoji_slot_from(emoji@, i as int),
        decreases SLOT_COUNT - i,
    {
        if same_text(emoji, time_slot_emoji(i)) {
            return Some(i);
        }
        i = i + 1;
    }
    None
}

fn day_label(day: usize) -> (name: &'static str)
    requires
        day < 7,
    ensures
        name@ == day_name(day as int),
{
    match day {
        0 => "Monday",
        1 => "Tuesday",
        2 => "Wednesday",
        3 => "Thursday",
        4 => "Friday",
        5 => "Saturday",
        _ => "Sunday",
    }
}

/// The content of the availability message.
pub struct AvailabilityPost {
    pub title: String,
    pub description: String,
    /// For each day, its name and the text under it.
    pub fields: Vec<(String, String)>,
    /// The reactions the bot adds, in this order.
    pub emojis: Vec<String>,
}

/// The content of the availability message that the setup posts: its title
/// and description, one field per day listing the emojis of the day's two
/// slots, and the fourteen slot emojis that the bot adds as reactions, slot
/// by slot.
pub fn post_message() -> (post: AvailabilityPost)
    ensures
        post.title@ == "Unavailability Schedule"@,
        post.description@
            == "Please react to the emojis below corresponding to when you are NOT available:"@,
        post.fields@.len() == 7,
        forall|d: int| 0 <= d < 7 ==> (#[trigger] post.fields@[d].0@, post.fields@[d].1@) == day_field(d),
        post.emojis@.len() == 14,
        forall|i: int| 0 <= i < 14 ==> #[trigger] post.emojis@[i]@ == slot_emoji(i),
{
    let mut fields: Vec<(String, String)> = Vec::new();
    let mut day: usize = 0;
    while day < 7
        invariant
            day <= 7,
            fields@.len() == day,
            forall|d: int| 0 <= d < day ==> (#[trigger] fields@[d].0@, fields@[d].1@) == day_field(d),
        decreases 7 - day,
    {
        let mut text = String::from_str(time_slot_emoji(2 * day));
        text.append(" 2-5 PM\n");
        text.append(time_slot_emoji(2 * day + 1));
        text.append(" 7-10 PM");
        fields.push((String::from_str(day_label(day)), text));
        day = day + 1;
    }
    let mut emojis: Vec<String> = Vec::new();
    let mut i: usize = 0;
    while i < SLOT_COUNT
        invariant
            i <= SLOT_COUNT,
            emojis@.len() == i,
            forall|k: int| 0 <= k < i ==> #[trigger] emojis@[k]@ == slot_emoji(k),
        decreases SLOT_COUNT - i,
    {
        emojis.push(String::from_str(time_slot_emoji(i)));
        i = i + 1;
    }
    AvailabilityPost {
        title: String::from_str("Unavailability Schedule"),
        description: String::from_str(
            "Please react to the emojis below corresponding to when you are NOT available:",
        ),
        fields,
        emojis,
    }
}

/// The content of the timetable message.
pub struct TimetablePost {
    pub title: String,
    /// The embedded picture, as the message refers to its attachment.
    pub image: String,
    /// The file attached to the message.
    pub file_path: String,
}

/// The content of the timetable message that the setup posts: titled
/// "Timetable", showing the base timetable picture that it attaches.
pub fn post_timetable() -> (post: TimetablePost)
    ensures
        post.title@ == "Timetable"@,
        post.image@ == "attachment://timetable.png"@,
        post.file_path@ == "/usr/local/bin/resources/images/timetable.png"@,
{
    TimetablePost {
        title: String::from_str("Timetable"),
        image: String::from_str("attachment://timetable.png"),
        file_path: String::from_str("/usr/local/bin/resources/images/timetable.png"),
    }
}

/// Why the setup cannot be recorded.
#[derive(Clone, Copy, Debug, PartialEq, Eq, Structural)]
pub enum SetupError {
    /// One of the server, channel and message identifiers is zero.
    ZeroId,
}

impl SetupError {
    /// The message that reports the error.
    pub fn message(&self) -> (text: &'static str)
        ensures
            text@ == "One or more IDs are zero."@,
    {
        match self {
            SetupError::ZeroId => "One or more IDs are zero.",
        }
    }
}

/// The row that records a server's setup, `(guild_id, channel_id,
/// timetable_message_id, react_message_id)` as the database stores them
/// (the same bits read as signed), or `ZeroId` where one of them is zero.
pub fn scheduler_info_params(
    guild_id: u64,
    channel_id: u64,
    timetable_message_id: u64,
    react_message_id: u64,
) -> (row: Result<(i64, i64, i64, i64), SetupError>)
    ensures
        row is Err <==> (guild_id == 0 || channel_id == 0 || timetable_message_id == 0
            || react_message_id == 0),
        row matches Err(e) ==> e == SetupError::ZeroId,
        row matches Ok(r) ==> r == (
            guild_id as i64,
            channel_id as i64,
            timetable_message_id as i64,
            react_message_id as i64,
        ),
{
    if guild_id == 0 || channel_id == 0 || timetable_message_id == 0 || react_message_id == 0 {
        return Err(SetupError::ZeroId);
    }
    Ok((guild_id as i64, channel_id as i64, timetable_message_id as i64, react_message_id as i64))
}

} // verus!
