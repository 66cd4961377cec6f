//! The timetable picture: every slot cell is painted green where the slot is
//! free and red where some member marked it unavailable.

use vstd::prelude::*;
use vstd::string::*;
use crate::text::{decimal_string, decimal_text, same_text};
use crate::timeslots::{
    SLOT_COUNT, TimeSlotCoordinates, cell_contains, slot_cell, slot_name, time_slot_cell,
    time_slot_name,
};

verus! {

/// The colour of pixel `p` in RGBA bytes laid out as the `image` crate lays
/// them out: rows from the top, pixels from the left, four bytes each (red,
/// green, blue, alpha).
pub open spec fn pixel_at(bytes: Seq<u8>, width: u32, p: (int, int)) -> (u8, u8, u8, u8) {
    let k = 4 * (p.1 * width + p.0);
    (bytes[k], bytes[k + 1], bytes[k + 2], bytes[k + 3])
}

/// Whether the pixel `p` lies in a picture of the given size.
pub open spec fn within(width: u32, height: u32, p: (int, int)) -> bool {
    0 <= p.0 < width && 0 <= p.1 < height
}

/// Paints the part of `cell` that lies in the picture with `colour`, through
/// `imageproc::drawing::draw_filled_rect_mut` on `Rect::at(x, y).of_size(width,
/// height)`, the picture being the `image::RgbaImage` that `ImageBuffer::from_raw`
/// makes of `width`, `height` and `bytes` and that `into_raw` turns back into
/// bytes. The contract states what the source of these functions does: the
/// buffer keeps its length, the rectangle is intersected with the picture's
/// bounds and each pixel of the intersection takes the colour, the others
/// keep theirs. The source panics for a rectangle or picture of zero width or
/// height and overflows where a right or bottom edge passes `i32::MAX`;
/// `from_raw` refuses a buffer shorter than the picture. `requires` leaves
/// those inputs out.
#[verifier::external_body]
fn fill_rect(
    width: u32,
    height: u32,
    bytes: &mut Vec<u8>,
    cell: TimeSlotCoordinates,
    colour: (u8, u8, u8, u8),
)
    requires
        old(bytes).len() == 4 * width * height,
        0 < width <= i32::MAX,
        0 < height <= i32::MAX,
        0 < cell.width <= i32::MAX,
        0 < cell.height <= i32::MAX,
        cell.x + cell.width <= i32::MAX,
        cell.y + cell.height <= i32::MAX,
    ensures
        final(bytes).len() == old(bytes).len(),
        forall|p: (int, int)|
            within(width, height, p) ==> #[trigger] pixel_at(final(bytes)@, width, p) == if cell_contains(
                cell,
                p,
            ) {
                colour
            } else {
                pixel_at(old(bytes)@, width, p)
            },
{
    let mut picture = image::RgbaImage::from_raw(width, height, std::mem::take(bytes)).unwrap();
    imageproc::drawing::draw_filled_rect_mut(
        &mut picture,
        imageproc::rect::Rect::at(cell.x, cell.y).of_size(cell.width, cell.height),
        image::Rgba([colour.0, colour.1, colour.2, colour.3]),
    );
    *bytes = picture.into_raw();
}

/// The colour of a slot that some member cannot make: opaque red.
pub open spec fn unavailable_colour() -> (u8, u8, u8, u8) {
    (255, 0, 0, 255)
}

/// The colour of a slot that every member can make: opaque green.
pub open spec fn available_colour() -> (u8, u8, u8, u8) {
    (0, 255, 0, 255)
}

/// The colour of slot `i`'s cell, given the names of the slots that some
/// member marked unavailable.
pub open spec fn slot_colour(unavailable: Seq<Seq<char>>, i: int) -> (u8, u8, u8, u8) {
    if unavailable.contains(slot_name(i)) {
        unavailable_colour()
    } else {
        available_colour()
    }
}

/// The last of the slots below `count` whose cell holds pixel `p`.
pub open spec fn slot_covering(p: (int, int), count: int) -> Option<int>
    decreases count,
{
    if count <= 0 {
        None
    } else if cell_contains(slot_cell(count - 1), p) {
        Some(count - 1)
    } else {
        slot_covering(p, count - 1)
    }
}

/// The slot whose cell holds pixel `p`, if any (no two cells overlap, see
/// `law_slot_cells_are_disjoint`).
pub open spec fn slot_at(p: (int, int)) -> Option<int> {
    slot_covering(p, 14)
}

/// No two slot cells overlap: a pixel in the cell of slot `i` is covered by
/// slot `i` and no other.
pub proof fn law_slot_cells_are_disjoint(i: int, p: (int, int))
    requires
        0 <= i < 14,
        cell_contains(slot_cell(i), p),
    ensures
        slot_at(p) == Some(i),
{
    assert(slot_at(p) == Some(i)) by {
        reveal_with_fuel(slot_covering, 15);
    }
}

/// In the drawn timetable each pixel of a slot's cell shows that slot's
/// colour: red where the slot is listed as unavailable, green where it is
/// not.
pub proof fn law_cell_shows_slot_colour(
    before: Seq<u8>,
    width: u32,
    unavailable: Seq<Seq<char>>,
    i: int,
    p: (int, int),
)
    requires
        0 <= i < 14,
        cell_contains(slot_cell(i), p),
    ensures
        timetable_pixel(before, width, unavailable, p) == (if unavailable.contains(slot_name(i)) {
            unavailable_colour()
        } else {
            available_colour()
        }),
{
    law_slot_cells_are_disjoint(i, p);
}

/// The colour of pixel `p` in the timetable drawn over the picture `before`:
/// the colour of the slot whose cell holds it, or its colour in `before`
/// where no cell does.
pub open spec fn timetable_pixel(
    before: Seq<u8>,
    width: u32,
    unavailable: Seq<Seq<char>>,
    p: (int, int),
) -> (u8, u8, u8, u8) {
    match slot_at(p) {
        Some(i) => slot_colour(unavailable, i),
        None => pixel_at(before, width, p),
    }
}

/// Where the timetable picture of a server is saved.
pub open spec fn timetable_file_path(guild_id: int) -> Seq<char> {
    "/usr/local/bin/resources/images/timetable_"@ + decimal_text(guild_id) + ".png"@
}

/// The names as text.
pub open spec fn texts(names: Seq<String>) -> Seq<Seq<char>> {
    names.map_values(|name: String| name@)
}

/// The names as text keep every name, in order: one text per name, the
/// text of each name being that name's characters.
pub proof fn law_texts_keep_each_name(names: Seq<String>)
    ensures
        texts(names).len() == names.len(),
        forall|k: int| 0 <= k < names.len() ==> #[trigger] texts(names)[k] == names[k]@,
{
}

/// A slot that some entry of the unavailable list names is drawn red:
/// every pixel of its cell is opaque red, whichever entry names it.
pub proof fn law_listed_slot_is_red(
    before: Seq<u8>,
    width: u32,
    names: Seq<String>,
    k: int,
    i: int,
    p: (int, int),
)
    requires
        0 <= k < names.len(),
        0 <= i < 14,
        names[k]@ == slot_name(i),
        cell_contains(slot_cell(i), p),
    ensures
        timetable_pixel(before, width, texts(names), p) == (255u8, 0u8, 0u8, 255u8),
{
    law_texts_keep_each_name(names);
    law_slot_cells_are_disjoint(i, p);
    assert(texts(names)[k] == slot_name(i));
}

/// A slot that no entry of the unavailable list names is drawn green:
/// every pixel of its cell is opaque green.
pub proof fn law_unlisted_slot_is_green(
    before: Seq<u8>,
    width: u32,
    names: Seq<String>,
    i: int,
    p: (int, int),
)
    requires
        0 <= i < 14,
        forall|k: int| 0 <= k < names.len() ==> #[trigger] names[k]@ != slot_name(i),
        cell_contains(slot_cell(i), p),
    ensures
        timetable_pixel(before, width, texts(names), p) == (0u8, 255u8, 0u8, 255u8),
{
    law_texts_keep_each_name(names);
    law_slot_cells_are_disjoint(i, p);
    if texts(names).contains(slot_name(i)) {
        let k = choose|k: int| 0 <= k < texts(names).len() && texts(names)[k] == slot_name(i);
        assert(names[k]@ == slot_name(i));
    }
}

/// Whether `names` holds `name`.
fn lists_name(names: &Vec<String>, name: &str) -> (listed: bool)
    ensures
        listed == texts(names@).contains(name@),
{
    let mut j: usize = 0;
    while j < names.len()
        invariant
            j <= names.len(),
            forall|k: int| 0 <= k < j ==> names@[k]@ != name@,
        decreases names.len() - j,
    {
        if same_text(names[j].as_str(), name) {
            assert(texts(names@)[j as int] == name@);
            return true;
        }
        j = j + 1;
    }
    proof {
        if texts(names@).contains(name@) {
            let k = choose|k: int| 0 <= k < texts(names@).len() && texts(names@)[k] == name@;
            assert(names@[k]@ == name@);
        }
    }
    false
}

/// Where the timetable picture of the server `guild_id` is saved.
pub fn timetable_image_path(guild_id: i64) -> (path: String)
    ensures
        path@ == timetable_file_path(guild_id as int),
{
    let mut path = String::from_str("/usr/local/bin/resources/images/timetable_");
    let number = decimal_string(guild_id);
    path.append(number.as_str());
    path.append(".png");
    path
}

/// Draws the timetable over the picture held in `pixels` (RGBA bytes, rows
/// from the top): the cell of each slot named in `unavailable_days` turns
/// red, the cell of each other slot green, and every pixel outside the
/// cells keeps its colour. Returns the path where the picture of the server
/// `guild_id` is saved.
pub fn generate_timetable_image(
    width: u32,
    height: u32,
    pixels: &mut Vec<u8>,
    unavailable_days: &Vec<String>,
    guild_id: i64,
) -> (file_path: String)
    requires
        old(pixels).len() == 4 * width * height,
        0 < width <= i32::MAX,
        0 < height <= i32::MAX,
    ensures
        final(pixels).len() == old(pixels).len(),
        forall|p: (int, int)|
            within(width, height, p) ==> #[trigger] pixel_at(final(pixels)@, width, p)
                == timetable_pixel(old(pixels)@, width, texts(unavailable_days@), p),
        file_path@ == timetable_file_path(guild_id as int),
{
    let ghost before = pixels@;
    let ghost unavailable = texts(unavailable_days@);
    let mut i: usize = 0;
    while i < SLOT_COUNT
        invariant
            i <= SLOT_COUNT,
            pixels.len() == before.len(),
            before.len() == 4 * width * height,
            0 < width <= i32::MAX,
            0 < height <= i32::MAX,
            unavailable == texts(unavailable_days@),
            forall|p: (int, int)|
                within(width, height, p) ==> #[trigger] pixel_at(pixels@, width, p) == match slot_covering(
                    p,
                    i as int,
                ) {
                    Some(k) => slot_colour(unavailable, k),
                    None => pixel_at(before, width, p),
                },
        decreases SLOT_COUNT - i,
    {
        let cell = time_slot_cell(i);
        let colour = if lists_name(unavailable_days, time_slot_name(i)) {
            (255u8, 0u8, 0u8, 255u8)
        } else {
            (0u8, 255u8, 0u8, 255u8)
        };
        assert(colour == slot_colour(unavailable, i as int));
        fill_rect(width, height, pixels, cell, colour);
        i = i + 1;
    }
    timetable_image_path(guild_id)
}

// ---------------------------------------------------------------------------
// The periodic redraw
// ---------------------------------------------------------------------------

/// One server's timetable to redraw: where it is posted and the message that
/// shows it now.
#[derive(Clone, Copy, Debug, PartialEq, Eq, Structural)]
pub struct TimetableRefresh {
    pub guild_id: i64,
    pub channel_id: u64,
    pub old_message_id: u64,
}

/// The redraw of the stored row `(guild_id, channel_id,
/// timetable_message_id)`.
pub open spec fn refresh_of(row: (i64, i64, i64)) -> TimetableRefresh {
    TimetableRefresh { guild_id: row.0, channel_id: row.1 as u64, old_message_id: row.2 as u64 }
}

/// A redraw keeps the stored identifiers of its row, every bit: the server
/// is the row's, and the channel and old message, read back as signed, are
/// the row's.
pub proof fn law_refresh_keeps_ids(row: (i64, i64, i64))
    ensures
        refresh_of(row).guild_id == row.0,
        refresh_of(row).channel_id as i64 == row.1,
        refresh_of(row).old_message_id as i64 == row.2,
{
    let channel = row.1;
    let message = row.2;
    assert((channel as u64) as i64 == channel) by (bit_vector);
    assert((message as u64) as i64 == message) by (bit_vector);
}

/// The redraws that the stored rows `(guild_id, channel_id,
/// timetable_message_id)` call for, one per row and in the same order: for
/// each server, its picture is redrawn, the old timetable message in its
/// channel is deleted and a new one is posted and recorded.
pub fn update_timetable_image_and_message(rows: &Vec<(i64, i64, i64)>) -> (refreshes: Vec<TimetableRefresh>)
    ensures
        refreshes@ == rows@.map_values(|row: (i64, i64, i64)| refresh_of(row)),
        refreshes@.len() == rows@.len(),
        forall|k: int|
            0 <= k < rows@.len() ==> {
                &&& (#[trigger] refreshes@[k]).guild_id == rows@[k].0
                &&& refreshes@[k].channel_id as i64 == rows@[k].1
                &&& refreshes@[k].old_message_id as i64 == rows@[k].2
            },
{
    let mut refreshes: Vec<TimetableRefresh> = Vec::new();
    let mut i: usize = 0;
    while i < rows.len()
        invariant
            i <= rows.len(),
            refreshes@ == rows@.take(i as int).map_values(|row: (i64, i64, i64)| refresh_of(row)),
        decreases rows.len() - i,
    {
        let row = rows[i];
        refreshes.push(
            TimetableRefresh {
                guild_id: row.0,
                channel_id: row.1 as u64,
                old_message_id: row.2 as u64,
            },
        );
        assert(rows@.take(i as int + 1).map_values(|row: (i64, i64, i64)| refresh_of(row))
            =~= rows@.take(i as int).map_values(|row: (i64, i64, i64)| refresh_of(row)).push(
            refresh_of(row),
        ));
        i = i + 1;
    }
    assert(rows@.take(rows.len() as int) =~= rows@);
    proof {
        assert forall|k: int| 0 <= k < rows@.len() implies {
            &&& (#[trigger] refreshes@[k]).guild_id == rows@[k].0
            &&& refreshes@[k].channel_id as i64 == rows@[k].1
            &&& refreshes@[k].old_message_id as i64 == rows@[k].2
        } by {
            law_refresh_keeps_ids(rows@[k]);
            assert(refreshes@[k] == refresh_of(rows@[k]));
        }
    }
    refreshes
}

/// The title of a redrawn timetable message: the time of the redraw as a
/// Discord timestamp.
pub fn timetable_title(timestamp: i64) -> (title: String)
    ensures
        title@ == "Timetable Updated: <t:"@ + decimal_text(timestamp as int) + ">"@,
{
    let mut title = String::from_str("Timetable Updated: <t:");
    let number = decimal_string(timestamp);
    title.append(number.as_str());
    title.append(">");
    title
}

/// How a timetable message embeds the picture saved at `image_path`.
pub fn timetable_attachment(image_path: &str) -> (reference: String)
    ensures
        reference@ == "attachment://"@ + image_path@,
{
    let mut reference = String::from_str("attachment://");
    reference.append(image_path);
    reference
}

} // verus!
