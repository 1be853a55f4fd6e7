//! The decisions of the program around a scan

use nkscan::batch::{
    arrival, hold_white_balance, plan, select, Arrival, BalanceNote, Batch, Event, FilmType,
    Orders, Plan, Polarity, Step,
};
use nkscan::error::Error;
use nkscan::feed::{eject_notice, is_not_yet, GiveBack, Ready, Reply};
use nkscan::output::{
    color_planes, frames_path, gather, next_free, paths, picture, plane_of, stands_in,
    thumbnail_path, thumbnail_picture, Source,
};
use nkscan::protocol::caps::set_window::ColorInterleaving;
use nkscan::protocol::data::Rect;
use nkscan::protocol::sense::{Contention, Intervention};
use nkscan::protocol::window::Channel;
use nkscan::ram::{hexdump, offset_of, Walk, MAX_CHUNK};
use nkscan::review::{
    draw_box, levels, pressed, preview, preview_planes, try_set, window, Answer, Canvas, Key,
};
use nkscan::stub::unqualify_local_classes;

// ----- batches

const PLAIN: Orders = Orders {
    from_file: false,
    named: false,
    no_eject: false,
};

fn go(orders: Orders, events: &[Event]) -> Vec<Step> {
    let mut batch = Batch::new(orders);
    let mut steps = vec![batch.step];
    for &event in events {
        batch = batch.next(event, false);
        steps.push(batch.step);
    }
    steps
}

#[test]
fn a_batch_goes_on_until_nothing_is_left() {
    let whole = Event::Scanned(Arrival::Whole);
    let fed = Event::Ejected {
        gave_back: true,
        self_feeding: true,
    };
    assert_eq!(
        go(
            PLAIN,
            &[
                Event::FilmIn,
                Event::Found { frames: 2 },
                whole,
                Event::Scanned(Arrival::Short),
                fed,
                Event::Refilled(true),
                Event::Staged,
                Event::Found { frames: 0 },
                fed,
                Event::Refilled(false),
            ]
        ),
        vec![
            Step::WaitForFilm { first: true },
            Step::Discover,
            Step::ScanFrame { n: 0 },
            Step::ScanFrame { n: 1 },
            Step::Eject,
            Step::Refill,
            Step::Stage,
            Step::Discover,
            Step::Eject,
            Step::Refill,
            Step::Done,
        ]
    );
}

#[test]
fn what_follows_an_eject_is_the_units_or_the_operators() {
    let strip = [Event::FilmIn, Event::Found { frames: 0 }];
    let after = |orders: Orders, gave_back: bool| {
        let mut events = strip.to_vec();
        events.push(Event::Ejected {
            gave_back,
            self_feeding: false,
        });
        *go(orders, &events).last().unwrap()
    };
    assert_eq!(after(PLAIN, true), Step::WaitForFilm { first: false });
    assert_eq!(after(PLAIN, false), Step::AskOperator);
    let named = Orders { named: true, ..PLAIN };
    let filed = Orders { from_file: true, ..PLAIN };
    assert_eq!(after(named, true), Step::Done);
    assert_eq!(after(filed, false), Step::Done);
    let kept = Orders { no_eject: true, ..PLAIN };
    assert_eq!(*go(kept, &strip).last().unwrap(), Step::Done);

    let mut asked = strip.to_vec();
    asked.push(Event::Ejected {
        gave_back: false,
        self_feeding: false,
    });
    asked.push(Event::Answered(true));
    assert_eq!(*go(PLAIN, &asked).last().unwrap(), Step::WaitForFilm { first: false });
    asked.pop();
    asked.push(Event::Answered(false));
    assert_eq!(*go(PLAIN, &asked).last().unwrap(), Step::Done);
}

#[test]
fn an_empty_frame_fails_and_a_cancel_stops() {
    let mut events = vec![Event::FilmIn, Event::Found { frames: 3 }];
    events.push(Event::Scanned(Arrival::Nothing));
    assert_eq!(*go(PLAIN, &events).last().unwrap(), Step::Failed { n: 0 });

    let start = Batch::new(PLAIN);
    assert_eq!(start.next(Event::FilmIn, true).step, Step::Cancelled);
    let found = start.next(Event::FilmIn, false);
    assert_eq!(found.next(Event::Found { frames: 2 }, true).step, Step::Cancelled);
    // Nothing left to start, so the strip ends as it would
    assert_eq!(found.next(Event::Found { frames: 0 }, true).step, Step::Eject);
    let first = found.next(Event::Found { frames: 2 }, false);
    assert_eq!(first.next(Event::Scanned(Arrival::Whole), true).step, Step::Cancelled);
    // What did not come of the step changes nothing
    assert_eq!(first.next(Event::Staged, true), first);
}

#[test]
fn a_plan_follows_the_flags() {
    let multi = ColorInterleaving::from_bits_truncate(ColorInterleaving::MULTILINE_SIMULTANEOUS);
    let single = ColorInterleaving::from_bits_truncate(ColorInterleaving::LINE_WITHOUT_DISTANCE);
    assert_eq!(
        plan(FilmType::Negative, false, true, false, true, true),
        Ok(Plan {
            interleaving: multi,
            infrared: true,
            superfine_is_idle: false,
            slower: false
        })
    );
    assert_eq!(
        plan(FilmType::Mono, false, false, true, false, false),
        Ok(Plan {
            interleaving: single,
            infrared: false,
            superfine_is_idle: true,
            slower: false
        })
    );
    assert_eq!(
        plan(FilmType::Positive, true, false, false, true, false),
        Ok(Plan {
            interleaving: single,
            infrared: true,
            superfine_is_idle: false,
            slower: true
        })
    );
    for (ir, clean) in [(true, false), (false, true)] {
        assert_eq!(
            plan(FilmType::Mono, ir, clean, false, true, true),
            Err("--ir and --clean do not work on black and white negatives")
        );
    }
    assert_eq!(Polarity::from(FilmType::Kodachrome), Polarity::Positive);
    assert_eq!(Polarity::from(FilmType::Positive), Polarity::Positive);
    assert_eq!(Polarity::from(FilmType::Negative), Polarity::Negative);
    assert_eq!(Polarity::from(FilmType::Mono), Polarity::Negative);
}

#[test]
fn a_flag_overrides_what_the_film_is_metered_with() {
    for default in [true, false] {
        assert_eq!(hold_white_balance(default, false, false), (default, BalanceNote::Nothing));
        assert_eq!(hold_white_balance(default, false, true).0, true);
        assert_eq!(hold_white_balance(default, true, false).0, false);
    }
    assert_eq!(hold_white_balance(true, false, true).1, BalanceNote::Idle);
    assert_eq!(hold_white_balance(false, false, true).1, BalanceNote::Override);
    assert_eq!(hold_white_balance(true, true, false).1, BalanceNote::Override);
    assert_eq!(hold_white_balance(false, true, true), (true, BalanceNote::Override));
}

fn rect(n: u32) -> Rect {
    Rect {
        top: n,
        left: 0,
        bottom: n + 1,
        right: 9,
    }
}

#[test]
fn named_frames_are_taken_in_the_order_they_are_named() {
    let found = [rect(10), rect(20), rect(30)];
    assert_eq!(select(&found, &[]).unwrap(), found);
    assert_eq!(select(&found, &[3, 1, 3]).unwrap(), vec![rect(30), rect(10), rect(30)]);
    assert_eq!(
        select(&found, &[1, 4, 9]),
        Err("Requested frame 4 not available. Frames detected: 3".into())
    );
    assert_eq!(
        select(&found, &[0]),
        Err("Requested frame 0 not available. Frames detected: 3".into())
    );
    assert!(select(&[], &[]).unwrap().is_empty());
}

#[test]
fn what_arrived_is_whole_short_or_nothing() {
    assert_eq!(arrival(0, false), Arrival::Nothing);
    assert_eq!(arrival(0, true), Arrival::Nothing);
    assert_eq!(arrival(3, false), Arrival::Short);
    assert_eq!(arrival(3, true), Arrival::Whole);
}

// ----- film

fn readiness(take_in: bool, answers: &[bool]) -> Vec<Ready> {
    let mut step = Ready::AskLoaded;
    let mut steps = vec![step];
    for &answer in answers {
        step = step.next(take_in, answer);
        steps.push(step);
    }
    steps
}

#[test]
fn film_is_taken_in_where_it_may_be() {
    assert_eq!(readiness(true, &[true]), [Ready::AskLoaded, Ready::Film(true)]);
    assert_eq!(readiness(false, &[false]), [Ready::AskLoaded, Ready::Film(false)]);
    assert_eq!(
        readiness(true, &[false, true, true, true, false]),
        [
            Ready::AskLoaded,
            Ready::Load,
            Ready::Refresh,
            Ready::AskAgain,
            Ready::Film(true),
            Ready::Film(true)
        ]
    );
    assert_eq!(
        readiness(true, &[false, false]),
        [Ready::AskLoaded, Ready::Load, Ready::Film(false)]
    );
    assert!(is_not_yet(&Error::Media(Intervention::DoorNotOpen)));
    assert!(!is_not_yet(&Error::Busy(Contention::Busy)));
}

#[test]
fn film_is_given_back_by_a_unit_that_is_there() {
    assert_eq!(GiveBack::Probe.next(Reply::Gone), GiveBack::Stop);
    for reply in [Reply::Yes, Reply::No, Reply::Refused] {
        assert_eq!(GiveBack::Probe.next(reply), GiveBack::AskLoaded);
    }
    assert_eq!(GiveBack::AskLoaded.next(Reply::No), GiveBack::Stop);
    for reply in [Reply::Yes, Reply::Gone, Reply::Refused] {
        assert_eq!(GiveBack::AskLoaded.next(reply), GiveBack::Eject);
        assert_eq!(GiveBack::Eject.next(reply), GiveBack::Stop);
        assert_eq!(GiveBack::Stop.next(reply), GiveBack::Stop);
    }
}

#[test]
fn an_eject_is_reported_in_words() {
    assert_eq!(eject_notice(&Ok(true)), Some("Ejected"));
    assert_eq!(eject_notice(&Ok(false)), Some("Scanner does not support eject"));
    assert_eq!(
        eject_notice(&Err(Error::Media(Intervention::NoMedium))),
        Some("Ejected")
    );
    assert_eq!(eject_notice(&Err(Error::Media(Intervention::DoorNotOpen))), None);
    assert_eq!(eject_notice(&Err(Error::NotFound)), None);
}

// ----- files

#[test]
fn files_are_named_by_frame() {
    assert_eq!(paths("out/roll", 12), ("out/roll_12.tiff".into(), "out/roll_12_IR.tiff".into()));
    assert_eq!(thumbnail_path("scan", 1), "scan_1_thumbnail.tiff");
    assert_eq!(frames_path("scan", 7), "scan_7_frames.json");
    for (n, m) in [(1usize, 2usize), (1, 11), (9, 99)] {
        assert_ne!(paths("s", n), paths("s", m));
        assert_ne!(paths("s", n).0, paths("s", m).1);
    }
}

#[test]
fn the_first_free_number_is_taken() {
    assert_eq!(next_free("s", |_| false), Some(1));
    let taken = ["s_1.tiff", "s_2_IR.tiff", "s_3_thumbnail.tiff", "s_4_frames.json", "s_6.tiff"];
    assert_eq!(next_free("s", |file| taken.contains(&file)), Some(4));
    assert_eq!(next_free("t", |file| taken.contains(&file)), Some(1));
    assert_eq!(next_free("s", |file| !file.starts_with("s_11")), Some(11));
}

/// One gray channel in place of a picture is no picture the profile is true of
#[test]
fn a_stand_in_is_gray_out_of_color() {
    assert!(stands_in(&[1, 2, 3], true));
    assert!(stands_in(&[0], true));
    assert!(!stands_in(&[1], true));
    assert!(!stands_in(&[1, 2, 3], false));
}

#[test]
fn planes_are_found_whatever_their_order() {
    assert_eq!(plane_of(&[3, 1, 2], Channel::Red), Some(1));
    assert_eq!(plane_of(&[3, 1, 2], Channel::Default), None);
    assert_eq!(color_planes(&[3, 1, 2]), vec![1, 2, 0]);
    assert_eq!(color_planes(&[0]), vec![0]);
    assert_eq!(color_planes(&[0, 2]), vec![1]);
    assert_eq!(color_planes(&[3, 2]), vec![1, 0]);
    assert!(color_planes(&[4]).is_empty());
}

#[test]
fn a_picture_is_color_gray_or_weighed() {
    assert_eq!(picture(&[3, 1, 2], true, true), Ok(Source::Luminance([1, 2, 0])));
    assert_eq!(picture(&[3, 1, 2], true, false), Ok(Source::Planes(vec![2])));
    assert_eq!(picture(&[0], true, true), Ok(Source::Planes(vec![0])));
    assert_eq!(picture(&[3, 1, 2], false, true), Ok(Source::Planes(vec![1, 2, 0])));
    assert_eq!(picture(&[0], false, false), Ok(Source::Planes(vec![0])));
    // Monochrome with neither green nor default is written as it is
    assert_eq!(picture(&[1], true, false), Ok(Source::Planes(vec![0])));
    assert_eq!(
        picture(&[1, 2], false, true),
        Err("2 color planes is not a TIFF this writes".into())
    );
    assert_eq!(thumbnail_picture(&[1, 2, 3]), Ok(Source::Planes(vec![0, 1, 2])));
    assert_eq!(
        thumbnail_picture(&[4]),
        Err("0 color planes is not a thumbnail this writes".into())
    );
    assert_eq!(Source::Planes(vec![0, 1, 2]).per_pixel(), 3);
    assert_eq!(Source::Luminance([0, 1, 2]).per_pixel(), 1);
}

#[test]
fn a_strip_interleaves_the_chosen_planes() {
    let planes = vec![vec![1, 2, 3], vec![10, 20, 30], vec![100, 200, 300]];
    assert_eq!(gather(&planes, &[2, 0], 1, 2), vec![200, 2, 300, 3]);
    assert_eq!(gather(&planes, &[1], 0, 3), vec![10, 20, 30]);
    assert!(gather(&planes, &[0, 1, 2], 3, 0).is_empty());
}

// ----- review

#[test]
fn a_view_pans_as_one_piece() {
    assert_eq!(window(100, 20, 1000), (80, 140));
    assert_eq!(window(5, 20, 1000), (0, 60));
    assert_eq!(window(990, 20, 1000), (940, 1000));
    assert_eq!(window(10, 20, 50), (0, 50));
    for col in 0..981 {
        let (left, right) = window(col, 20, 1000);
        assert_eq!(right - left, 60);
        assert!(left <= col && col + 20 <= right);
    }
}

#[test]
fn keys_move_and_resize() {
    assert_eq!(pressed(Key::Left, 5, 9), Answer::Try(4, 9));
    assert_eq!(pressed(Key::Left, 0, 9), Answer::Try(0, 9));
    assert_eq!(pressed(Key::Right, 5, 9), Answer::Try(6, 9));
    assert_eq!(pressed(Key::Up, 5, 9), Answer::Try(5, 10));
    assert_eq!(pressed(Key::Down, 5, 9), Answer::Try(5, 8));
    assert_eq!(pressed(Key::Down, 5, 1), Answer::Stay);
    assert_eq!(pressed(Key::Enter, 5, 9), Answer::Accept);
    assert_eq!(pressed(Key::Quit, 5, 9), Answer::Abort);
    assert_eq!(pressed(Key::Other, 5, 9), Answer::Stay);
    let mut frame = (5, 9);
    try_set(&mut frame, (6, 9), false);
    assert_eq!(frame, (5, 9));
    try_set(&mut frame, (6, 9), true);
    assert_eq!(frame, (6, 9));
}

#[test]
fn levels_are_never_the_same() {
    assert_eq!(levels(&[500, 20, 300]), (20, 500));
    assert_eq!(levels(&[7]), (7, 8));
    assert_eq!(levels(&[65535, 0]), (0, 65535));
    assert_eq!(preview_planes(&[2, 0, 1]), Ok([2, 0, 1]));
    assert_eq!(preview_planes(&[4]), Ok([4, 4, 4]));
    assert_eq!(
        preview_planes(&[0, 1]),
        Err("2 color planes is not a thumbnail --review can show".into())
    );
}

/// A picture of the box alone, one character a pixel
fn drawn(w: u32, h: u32, start: u32, width: u32) -> Vec<String> {
    let mut image = Canvas {
        width: w,
        height: h,
        data: vec![0; (w * h * 3) as usize],
    };
    draw_box(&mut image, start, width, [9, 8, 7]);
    let row = (w * 3) as usize;
    image
        .data
        .chunks(row)
        .map(|r| {
            r.chunks(3)
                .map(|p| match p {
                    [9, 8, 7] => '#',
                    [0, 0, 0] => '.',
                    _ => '?',
                })
                .collect()
        })
        .collect()
}

#[test]
fn a_box_is_dashed_along_its_edges() {
    assert_eq!(
        drawn(14, 10, 2, 9),
        [
            "..####....##..",
            "..#........#..",
            "..#........#..",
            "..#........#..",
            "..............",
            "..............",
            "..............",
            "..............",
            "..#........#..",
            "..####....##..",
        ]
    );
    // Off the right end, only its own column is left to draw
    assert_eq!(drawn(4, 2, 2, 50), ["..##", "..##"]);
    assert_eq!(drawn(4, 2, 9, 2), ["...#", "...#"]);
}

/// Only the columns around a frame are shown, and its box is over them
#[test]
fn a_preview_is_the_strip_around_a_frame() {
    let (w, h) = (20u32, 3u32);
    let data: Vec<u8> = (0..w * h * 3).map(|n| (n % 251) as u8).collect();
    let strip = Canvas {
        width: w,
        height: h,
        data: data.clone(),
    };
    // Columns 6 to 15, with the box over 9 to 12
    let view = preview(&strip, 9, 3, [255, 254, 253]);
    assert_eq!((view.width, view.height), (9, 3));
    for y in 0..3usize {
        for x in 0..9usize {
            let got = &view.data[(y * 9 + x) * 3..][..3];
            let edge = (x == 3 || x == 6) || (y != 1 && (3..=6).contains(&x));
            if edge {
                assert_eq!(got, &[255, 254, 253], "{x} {y}");
            } else {
                assert_eq!(got, &data[(y * 20 + x + 6) * 3..][..3], "{x} {y}");
            }
        }
    }
    // A strip no wider than that is shown whole
    let view = preview(&strip, 0, 7, [0, 0, 0]);
    assert_eq!((view.width, view.height), (20, 3));
    assert_eq!(view.data[3 * 8..3 * 20], data[3 * 8..3 * 20]);
}

// ----- memory

#[test]
fn a_read_goes_on_while_chunks_come_whole() {
    let walk = Walk {
        at: 0x100,
        remaining: 100_000,
    };
    assert_eq!(walk.chunk(1 << 20), MAX_CHUNK);
    assert_eq!(walk.chunk(4096), 4096);
    let next = walk.after(4096, 4096).unwrap();
    assert_eq!(
        next,
        Walk {
            at: 0x1100,
            remaining: 95_904
        }
    );
    assert_eq!(walk.after(4096, 4095), None);
    assert_eq!(walk.after(4096, 0), None);
    let last = Walk {
        at: 0,
        remaining: 16,
    };
    assert_eq!(last.chunk(4096), 16);
    assert_eq!(last.after(16, 16), None);
    // Only what came has to be in range
    let high = Walk {
        at: u32::MAX - 20,
        remaining: 100,
    };
    assert_eq!(
        high.after(16, 16),
        Some(Walk {
            at: u32::MAX - 4,
            remaining: 84
        })
    );
    assert_eq!(high.after(16, 5), None);
    assert_eq!(offset_of(0x2000, 0x1000), Ok(0x1000));
    assert_eq!(
        offset_of(0xFFF, 0x1000),
        Err("--address 0xfff is below --base 0x1000".into())
    );
}

#[test]
fn a_dump_shows_bytes_and_what_they_spell() {
    assert_eq!(
        hexdump(b"Nikon\x00\x7f~ 0123456"),
        vec!["  0000  4E 69 6B 6F 6E 00 7F 7E 20 30 31 32 33 34 35 36  Nikon..~ 0123456"]
    );
    let mut bytes = vec![0x20u8; 33];
    bytes[32] = 0xFF;
    let rows = hexdump(&bytes);
    assert_eq!(rows.len(), 3);
    assert_eq!(rows[1], format!("  0010  {}  {:<16}", ["20"; 16].join(" "), ""));
    assert_eq!(rows[2], format!("  {:04X}  {:<47}  {}", 0x20, "FF", "."));
    let wide = hexdump(&vec![0u8; 0x10010]);
    assert!(wide[0x1000].starts_with("  10000  00 00"));
    assert!(hexdump(&[]).is_empty());
}

// ----- stubs

#[test]
fn local_classes_are_unqualified() {
    let stub = "import builtins\nclass A(builtins.Exception):\n    x: builtins.int\nclass B(builtins.A): ...\r\nclass C\r\nx: builtins.C = builtins.Bee\n";
    assert_eq!(
        unqualify_local_classes(stub),
        "import builtins\nclass A(builtins.Exception):\n    x: builtins.int\nclass B(A): ...\r\nclass C\r\nx: C = Bee\n"
    );
    let plain = "x: builtins.int\n    class D(builtins.D): ...";
    assert_eq!(unqualify_local_classes(plain), plain);
    assert_eq!(unqualify_local_classes(""), "");
}
