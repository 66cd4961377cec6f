use scheduler_bot::setup::{emoji_time_slot, post_message, post_timetable, time_slot_emoji};
use scheduler_bot::timeslots::{
    find_time_slot, get_time_slot_coordinates, time_slot_cell, time_slot_name, TimeSlotCoordinates,
};

#[test]
fn coordinates_of_known_slots() {
    assert_eq!(
        get_time_slot_coordinates("Monday 2-5 PM"),
        vec![TimeSlotCoordinates { x: 100, y: 41, width: 100, height: 86 }]
    );
    assert_eq!(
        get_time_slot_coordinates("Monday 7-10 PM"),
        vec![TimeSlotCoordinates { x: 100, y: 147, width: 100, height: 83 }]
    );
    assert_eq!(
        get_time_slot_coordinates("Wednesday 2-5 PM"),
        vec![TimeSlotCoordinates { x: 303, y: 41, width: 101, height: 86 }]
    );
    assert_eq!(
        get_time_slot_coordinates("Sunday 7-10 PM"),
        vec![TimeSlotCoordinates { x: 711, y: 147, width: 101, height: 83 }]
    );
}

#[test]
fn coordinates_of_unknown_names_are_empty() {
    assert!(get_time_slot_coordinates("").is_empty());
    assert!(get_time_slot_coordinates("monday 2-5 PM").is_empty());
    assert!(get_time_slot_coordinates("Monday 2-5 PM ").is_empty());
    assert!(get_time_slot_coordinates("Funday 2-5 PM").is_empty());
}

#[test]
fn slot_names_in_week_order() {
    let expected = [
        "Monday 2-5 PM", "Monday 7-10 PM", "Tuesday 2-5 PM", "Tuesday 7-10 PM",
        "Wednesday 2-5 PM", "Wednesday 7-10 PM", "Thursday 2-5 PM", "Thursday 7-10 PM",
        "Friday 2-5 PM", "Friday 7-10 PM", "Saturday 2-5 PM", "Saturday 7-10 PM",
        "Sunday 2-5 PM", "Sunday 7-10 PM",
    ];
    for (i, name) in expected.iter().enumerate() {
        assert_eq!(time_slot_name(i), *name);
        assert_eq!(find_time_slot(name), Some(i));
        assert_eq!(get_time_slot_coordinates(name), vec![time_slot_cell(i)]);
    }
    assert_eq!(find_time_slot("Noday"), None);
}

#[test]
fn slot_cells_do_not_overlap() {
    for i in 0..14 {
        for j in 0..14 {
            if i == j {
                continue;
            }
            let a = time_slot_cell(i);
            let b = time_slot_cell(j);
            let disjoint_x = a.x + a.width as i32 <= b.x || b.x + b.width as i32 <= a.x;
            let disjoint_y = a.y + a.height as i32 <= b.y || b.y + b.height as i32 <= a.y;
            assert!(disjoint_x || disjoint_y, "cells {} and {} overlap", i, j);
        }
    }
}

#[test]
fn each_emoji_stands_for_its_slot() {
    let emojis = ["🍕", "🚀", "🎩", "🐉", "🌮", "🦄", "🧀", "🌛", "🎮", "🍔", "🍰", "🐒", "🍿", "🍣"];
    for (i, e) in emojis.iter().enumerate() {
        assert_eq!(time_slot_emoji(i), *e);
        assert_eq!(emoji_time_slot(e), Some(i));
    }
    assert_eq!(emoji_time_slot("👍"), None);
    assert_eq!(emoji_time_slot(""), None);
}

#[test]
fn availability_message_content() {
    let post = post_message();
    assert_eq!(post.title, "Unavailability Schedule");
    assert_eq!(
        post.description,
        "Please react to the emojis below corresponding to when you are NOT available:"
    );
    let expected = [
        ("Monday", "🍕 2-5 PM\n🚀 7-10 PM"),
        ("Tuesday", "🎩 2-5 PM\n🐉 7-10 PM"),
        ("Wednesday", "🌮 2-5 PM\n🦄 7-10 PM"),
        ("Thursday", "🧀 2-5 PM\n🌛 7-10 PM"),
        ("Friday", "🎮 2-5 PM\n🍔 7-10 PM"),
        ("Saturday", "🍰 2-5 PM\n🐒 7-10 PM"),
        ("Sunday", "🍿 2-5 PM\n🍣 7-10 PM"),
    ];
    assert_eq!(post.fields.len(), 7);
    for (field, (day, text)) in post.fields.iter().zip(expected.iter()) {
        assert_eq!(field.0, *day);
        assert_eq!(field.1, *text);
    }
    assert_eq!(
        post.emojis,
        vec!["🍕", "🚀", "🎩", "🐉", "🌮", "🦄", "🧀", "🌛", "🎮", "🍔", "🍰", "🐒", "🍿", "🍣"]
    );
}

#[test]
fn timetable_message_content() {
    let post = post_timetable();
    assert_eq!(post.title, "Timetable");
    assert_eq!(post.image, "attachment://timetable.png");
    assert_eq!(post.file_path, "/usr/local/bin/resources/images/timetable.png");
}
