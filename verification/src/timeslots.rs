//! The fourteen weekly time slots: two per day, 2-5 PM and 7-10 PM, from
//! Monday to Sunday, with the reaction emoji that stands for each and the
//! cell of the timetable picture that shows it.

use vstd::prelude::*;
use crate::text::same_text;

verus! {

/// How many time slots a week has.
pub const SLOT_COUNT: usize = 14;

/// The name of slot `i`; the slots go through the week, the afternoon slot
/// of a day before its evening slot.
pub open spec fn slot_name(i: int) -> Seq<char> {
    if i == 0 { "Monday 2-5 PM"@ }
    else if i == 1 { "Monday 7-10 PM"@ }
    else if i == 2 { "Tuesday 2-5 PM"@ }
    else if i == 3 { "Tuesday 7-10 PM"@ }
    else if i == 4 { "Wednesday 2-5 PM"@ }
    else if i == 5 { "Wednesday 7-10 PM"@ }
    else if i == 6 { "Thursday 2-5 PM"@ }
    else if i == 7 { "Thursday 7-10 PM"@ }
    else if i == 8 { "Friday 2-5 PM"@ }
    else if i == 9 { "Friday 7-10 PM"@ }
    else if i == 10 { "Saturday 2-5 PM"@ }
    else if i == 11 { "Saturday 7-10 PM"@ }
    else if i == 12 { "Sunday 2-5 PM"@ }
    else { "Sunday 7-10 PM"@ }
}

/// The first slot at or after `from` whose name is `name`.
pub open spec fn slot_index_from(name: Seq<char>, from: int) -> Option<int>
    decreases 14 - from,
{
    if from < 0 || from >= 14 {
        None
    } else if name == slot_name(from) {
        Some(from)
    } else {
        slot_index_from(name, from + 1)
    }
}

/// A slot found from `from` on is one of the fourteen and carries `name`.
pub proof fn lemma_slot_index_from(name: Seq<char>, from: int)
    ensures
        slot_index_from(name, from) matches Some(i) ==> 0 <= i < 14 && from <= i && slot_name(i)
            == name,
    decreases 14 - from,
{
    if 0 <= from < 14 && name != slot_name(from) {
        lemma_slot_index_from(name, from + 1);
    }
}

/// The slot whose name is `name`, if any.
pub open spec fn slot_index(name: Seq<char>) -> Option<int> {
    slot_index_from(name, 0)
}

/// A rectangle of the timetable picture, in pixels: its top left corner and
/// its size.
#[derive(Clone, Copy, Debug, PartialEq, Eq, Structural)]
pub struct TimeSlotCoordinates {
    pub x: i32,
    pub y: i32,
    pub width: u32,
    pub height: u32,
}

/// The cell of slot `i` in the timetable picture. Days are columns, from
/// x = 100 for Monday, each further column 102 pixels to the right of the
/// one before; Monday's column is 100 pixels wide, the others 101. The
/// afternoon row starts at y = 41 and is 86 pixels high, the evening row
/// starts at y = 147 and is 83 pixels high.
pub open spec fn slot_cell(i: int) -> TimeSlotCoordinates {
    let day = i / 2;
    TimeSlotCoordinates {
        x: if day == 0 { 100 } else { (201 + 102 * (day - 1)) as i32 },
        y: if i % 2 == 0 { 41 } else { 147 },
        width: if day == 0 { 100 } else { 101 },
        height: if i % 2 == 0 { 86 } else { 83 },
    }
}

/// Whether the pixel `p` lies in the rectangle `r`.
pub open spec fn cell_contains(r: TimeSlotCoordinates, p: (int, int)) -> bool {
    &&& r.x <= p.0 < r.x + r.width
    &&& r.y <= p.1 < r.y + r.height
}

/// The day columns go left to right in week order, one pixel apart: a
/// slot of a later day lies to the right of every slot of an earlier day,
/// and the column of the next day starts one pixel after the end of the
/// column of the day before. Monday's column starts at x = 100 and
/// Sunday's ends just before x = 812.
pub proof fn law_columns_in_week_order(i: int, j: int)
    requires
        0 <= i < 14,
        0 <= j < 14,
    ensures
        i / 2 < j / 2 ==> slot_cell(i).x + slot_cell(i).width < slot_cell(j).x,
        j / 2 == i / 2 + 1 ==> slot_cell(j).x == slot_cell(i).x + slot_cell(i).width + 1,
        i / 2 == j / 2 ==> slot_cell(i).x == slot_cell(j).x && slot_cell(i).width == slot_cell(j).width,
        i / 2 == 0 ==> slot_cell(i).x == 100,
        i / 2 == 6 ==> slot_cell(i).x + slot_cell(i).width == 812,
{
}

/// The afternoon slots form the upper row and the evening slots the lower
/// row: every afternoon cell is above every evening cell, cells of the same
/// row share their top and height, the upper row runs from y = 41 to just
/// before 127 and the lower row from y = 147 to just before 230.
pub proof fn law_rows_afternoon_above_evening(i: int, j: int)
    requires
        0 <= i < 14,
        0 <= j < 14,
    ensures
        i % 2 == 0 && j % 2 == 1 ==> slot_cell(i).y + slot_cell(i).height < slot_cell(j).y,
        i % 2 == j % 2 ==> slot_cell(i).y == slot_cell(j).y && slot_cell(i).height == slot_cell(j).height,
        i % 2 == 0 ==> slot_cell(i).y == 41 && slot_cell(i).y + slot_cell(i).height == 127,
        i % 2 == 1 ==> slot_cell(i).y == 147 && slot_cell(i).y + slot_cell(i).height == 230,
{
}

/// The name of slot `index`.
pub fn time_slot_name(index: usize) -> (name: &'static str)
    requires
        index < SLOT_COUNT,
    ensures
        name@ == slot_name(index as int),
{
    match index {
        0 => "Monday 2-5 PM",
        1 => "Monday 7-10 PM",
        2 => "Tuesday 2-5 PM",
        3 => "Tuesday 7-10 PM",
        4 => "Wednesday 2-5 PM",
        5 => "Wednesday 7-10 PM",
        6 => "Thursday 2-5 PM",
        7 => "Thursday 7-10 PM",
        8 => "Friday 2-5 PM",
        9 => "Friday 7-10 PM",
        10 => "Saturday 2-5 PM",
        11 => "Saturday 7-10 PM",
        12 => "Sunday 2-5 PM",
        _ => "Sunday 7-10 PM",
    }
}

/// The slot whose name is `name`, if any.
pub fn find_time_slot(name: &str) -> (index: Option<usize>)
    ensures
        match index {
            Some(i) => i < SLOT_COUNT && slot_index(name@) == Some(i as int),
            None => slot_index(name@) is None,
        },
{
    proof {
        lemma_slot_index_from(name@, 0);
    }
    let mut i: usize = 0;
    while i < SLOT_COUNT
        invariant
            i <= SLOT_COUNT,
            slot_index(name@) == slot_index_from(name@, i as int),
        decreases SLOT_COUNT - i,
    {
        if same_text(name, time_slot_name(i)) {
            return Some(i);
        }
        i = i + 1;
    }
    None
}

/// The cell of slot `index` in the timetable picture.
pub fn time_slot_cell(index: usize) -> (cell: TimeSlotCoordinates)
    requires
        index < SLOT_COUNT,
    ensures
        cell == slot_cell(index as int),
{
    match index {
        0 => TimeSlotCoordinates { x: 100, y: 41, width: 100, height: 86 },
        1 => TimeSlotCoordinates { x: 100, y: 147, width: 100, height: 83 },
        2 => TimeSlotCoordinates { x: 201, y: 41, width: 101, height: 86 },
        3 => TimeSlotCoordinates { x: 201, y: 147, width: 101, height: 83 },
        4 => TimeSlotCoordinates { x: 303, y: 41, width: 101, height: 86 },
        5 => TimeSlotCoordinates { x: 303, y: 147, width: 101, height: 83 },
        6 => TimeSlotCoordinates { x: 405, y: 41, width: 101, height: 86 },
        7 => TimeSlotCoordinates { x: 405, y: 147, width: 101, height: 83 },
        8 => TimeSlotCoordinates { x: 507, y: 41, width: 101, height: 86 },
        9 => TimeSlotCoordinates { x: 507, y: 147, width: 101, height: 83 },
        10 => TimeSlotCoordinates { x: 609, y: 41, width: 101, height: 86 },
        11 => TimeSlotCoordinates { x: 609, y: 147, width: 101, height: 83 },
        12 => TimeSlotCoordinates { x: 711, y: 41, width: 101, height: 86 },
        _ => TimeSlotCoordinates { x: 711, y: 147, width: 101, height: 83 },
    }
}

/// The cells of the timetable picture that show the slot named `day`: the
/// one cell of that slot, or none where no slot has that name.
pub fn get_time_slot_coordinates(day: &str) -> (cells: Vec<TimeSlotCoordinates>)
    ensures
        cells@ == match slot_index(day@) {
            Some(i) => seq![slot_cell(i)],
            None => Seq::<TimeSlotCoordinates>::empty(),
        },
{
    let mut cells: Vec<TimeSlotCoordinates> = Vec::new();
    match find_time_slot(day) {
        Some(i) => {
            cells.push(time_slot_cell(i));
        },
        None => {},
    }
    cells
}

} // verus!
