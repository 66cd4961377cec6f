use scheduler_bot::timeslots::time_slot_cell;
use scheduler_bot::timetable::{
    generate_timetable_image, timetable_attachment, timetable_image_path, timetable_title,
    update_timetable_image_and_message, TimetableRefresh,
};

const WIDTH: u32 = 820;
const HEIGHT: u32 = 240;
const GREY: [u8; 4] = [10, 20, 30, 40];
const RED: [u8; 4] = [255, 0, 0, 255];
const GREEN: [u8; 4] = [0, 255, 0, 255];

fn pixel(bytes: &[u8], x: u32, y: u32) -> [u8; 4] {
    let k = (4 * (y * WIDTH + x)) as usize;
    [bytes[k], bytes[k + 1], bytes[k + 2], bytes[k + 3]]
}

fn grey_picture() -> Vec<u8> {
    GREY.iter().copied().cycle().take((4 * WIDTH * HEIGHT) as usize).collect()
}

#[test]
fn cells_show_availability() {
    let mut bytes = grey_picture();
    let days = vec!["Monday 2-5 PM".to_string(), "Sunday 7-10 PM".to_string(), "Noday".to_string()];
    let path = generate_timetable_image(WIDTH, HEIGHT, &mut bytes, &days, 77);
    assert_eq!(path, "/usr/local/bin/resources/images/timetable_77.png");
    assert_eq!(bytes.len(), (4 * WIDTH * HEIGHT) as usize);
    for i in 0..14 {
        let cell = time_slot_cell(i);
        let expected = if i == 0 || i == 13 { RED } else { GREEN };
        let (x0, y0) = (cell.x as u32, cell.y as u32);
        let (x1, y1) = (x0 + cell.width - 1, y0 + cell.height - 1);
        for (x, y) in [(x0, y0), (x1, y0), (x0, y1), (x1, y1)] {
            assert_eq!(pixel(&bytes, x, y), expected, "slot {} at ({}, {})", i, x, y);
        }
    }
    // Outside the cells nothing changes.
    for (x, y) in [(0, 0), (99, 41), (200, 41), (150, 40), (150, 127), (150, 146), (812, 147), (819, 239)] {
        assert_eq!(pixel(&bytes, x, y), GREY, "({}, {})", x, y);
    }
}

#[test]
fn cells_clip_at_the_picture_edge() {
    // A picture narrower and lower than the cells.
    let width: u32 = 150;
    let height: u32 = 100;
    let mut bytes: Vec<u8> = GREY.iter().copied().cycle().take((4 * width * height) as usize).collect();
    generate_timetable_image(width, height, &mut bytes, &vec![], -3);
    let at = |x: u32, y: u32| {
        let k = (4 * (y * width + x)) as usize;
        [bytes[k], bytes[k + 1], bytes[k + 2], bytes[k + 3]]
    };
    assert_eq!(at(100, 41), GREEN);
    assert_eq!(at(149, 99), GREEN);
    assert_eq!(at(99, 99), GREY);
    assert_eq!(at(149, 40), GREY);
}

#[test]
fn all_free_when_nobody_is_unavailable() {
    let mut bytes = grey_picture();
    generate_timetable_image(WIDTH, HEIGHT, &mut bytes, &vec![], 1);
    for i in 0..14 {
        let cell = time_slot_cell(i);
        assert_eq!(pixel(&bytes, cell.x as u32 + 5, cell.y as u32 + 5), GREEN);
    }
}

#[test]
fn paths_and_titles() {
    assert_eq!(timetable_image_path(0), "/usr/local/bin/resources/images/timetable_0.png");
    assert_eq!(
        timetable_image_path(-1234567890123),
        "/usr/local/bin/resources/images/timetable_-1234567890123.png"
    );
    assert_eq!(timetable_title(1700000000), "Timetable Updated: <t:1700000000>");
    assert_eq!(timetable_title(i64::MIN), "Timetable Updated: <t:-9223372036854775808>");
    assert_eq!(
        timetable_attachment("/usr/local/bin/resources/images/timetable_5.png"),
        "attachment:///usr/local/bin/resources/images/timetable_5.png"
    );
}

#[test]
fn one_refresh_per_row() {
    let rows = vec![(1, 10, 100), (2, -1, -2)];
    assert_eq!(
        update_timetable_image_and_message(&rows),
        vec![
            TimetableRefresh { guild_id: 1, channel_id: 10, old_message_id: 100 },
            TimetableRefresh { guild_id: 2, channel_id: u64::MAX, old_message_id: u64::MAX - 1 },
        ]
    );
    assert!(update_timetable_image_and_message(&vec![]).is_empty());
}
