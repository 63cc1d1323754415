use streamasm::parser::state::alphabet::Alphabet;
use streamasm::runtime::{ExitError, Stream, StreamItem};

fn cells(s: &Stream) -> Vec<StreamItem> {
    (0..s.capacity()).map(|i| s.cell(i)).collect()
}

#[test]
fn a_new_stream_is_empty() {
    let s = Stream::new(4);
    assert_eq!(s.capacity(), 4);
    assert_eq!(s.cursor(), 0);
    assert_eq!(s.buffered_total(), 0);
    assert_eq!(s.buffered_characters(), 0);
    assert_eq!(s.buffered_moments(), 0);
    assert_eq!(s.current_moment(), None);
    assert!(s.is_empty());
    assert!(s.accepting_pushes());
    assert!(!s.next_is_character());
    assert!(!s.next_is_moment());
    assert_eq!(cells(&s), vec![StreamItem::Empty; 4]);
}

#[test]
fn hello_world_on_the_exit() {
    // what label_root of the hello_world program does to its exit
    let mut exit = Stream::new(0x50);
    exit.set_initial_moment(0);
    exit.push_moment(1).unwrap();
    for c in "Hello, World!".chars() {
        exit.push(c as u128).unwrap();
    }
    exit.push_moment(1).unwrap();
    assert_eq!(exit.buffered_characters(), 13);
    assert_eq!(exit.buffered_moments(), 2);
    assert_eq!(exit.buffered_total(), 15);
    assert_eq!(exit.cursor(), 15);
    assert_eq!(exit.current_moment(), Some(0));
    let mut expected = vec![StreamItem::Moment(1)];
    for c in [b'H', b'e', b'l', b'l', b'o', b',', b' ', b'W', b'o', b'r', b'l', b'd', b'!'] {
        expected.push(StreamItem::Character(c as u128));
    }
    expected.push(StreamItem::Moment(1));
    assert_eq!(&cells(&exit)[..15], &expected[..]);
    assert_eq!(&cells(&exit)[15..], &vec![StreamItem::Empty; 0x50 - 15][..]);
}

#[test]
fn capacity_overflow() {
    let mut s = Stream::new(2);
    assert_eq!(s.push(1), Ok(()));
    assert_eq!(s.push(2), Ok(()));
    let before = cells(&s);
    let cursor = s.cursor();
    assert!(!s.accepting_pushes());
    assert_eq!(s.push(3), Err(ExitError::BufferFull));
    assert_eq!((s.buffered_characters(), s.buffered_total()), (2, 2));
    assert_eq!(s.buffered_moments(), 0);
    assert_eq!(cells(&s), before);
    assert_eq!(s.cursor(), cursor);
    assert_eq!(s.push_moment(9), Err(ExitError::BufferFull));
    assert_eq!((s.buffered_characters(), s.buffered_total()), (2, 2));
    assert_eq!(cells(&s), vec![StreamItem::Character(1), StreamItem::Character(2)]);
    assert_eq!(s.current_moment(), None);
}

#[test]
fn push_then_pop_on_a_ring_of_one_cell() {
    let mut s = Stream::new(1);
    assert_eq!(s.push(0x41), Ok(()));
    assert_eq!(s.cursor(), 0);
    assert!(s.next_is_character());
    assert_eq!(s.pop(), StreamItem::Character(0x41));
    assert!(s.is_empty());
    assert_eq!(s.push_moment(7), Ok(()));
    assert!(s.next_is_moment());
    assert_eq!(s.pop(), StreamItem::Moment(7));
    assert_eq!(s.current_moment(), Some(7));
    assert_eq!(s.pop(), StreamItem::Empty);
}

#[test]
fn push_then_pop_yields_the_same_named_variant() {
    let mut a = Alphabet::new("A".to_string());
    a.process_command("t", 1, "set_char_type", &["u8"]).unwrap();
    a.process_command("t", 2, "def_char", &["0x41", "A_UPPERCASE"]).unwrap();
    a.process_command("t", 3, "def_char", &["0x42", "B_UPPERCASE"]).unwrap();
    let b = a.char_with_name("B_UPPERCASE").unwrap();
    let mut s = Stream::new(1);
    s.push(a.to_val(b)).unwrap();
    match s.pop() {
        StreamItem::Character(raw) => assert_eq!(a.to_char(raw), Ok(b)),
        other => panic!("{:?}", other),
    }
    assert_eq!(s.push_with_name(&a, "A_UPPERCASE"), Ok(()));
    assert_eq!(s.push_with_name(&a, "A_UPPERCASE"), Err(ExitError::BufferFull));
    assert_eq!(s.pop(), StreamItem::Character(0x41));
}

#[test]
fn a_pop_takes_the_cell_after_the_pushed_one() {
    // with more than one cell, the pop that follows a push finds the next cell
    let mut s = Stream::new(3);
    s.push(5).unwrap();
    assert_eq!(s.cursor(), 1);
    assert_eq!(s.pop(), StreamItem::Empty);
    assert_eq!(s.cursor(), 2);
    assert_eq!(s.buffered_total(), 1);
    assert_eq!(s.pop(), StreamItem::Empty);
    assert_eq!(s.cursor(), 0);
    assert_eq!(s.pop(), StreamItem::Character(5));
    assert_eq!(s.cursor(), 1);
    assert_eq!(s.buffered_total(), 0);
    assert_eq!(cells(&s), vec![StreamItem::Empty; 3]);
}

#[test]
fn cursor_returns_after_a_full_round() {
    for capacity in [1usize, 2, 5, 16] {
        let mut s = Stream::new(capacity);
        let start = s.cursor();
        for i in 0..capacity {
            if i % 2 == 0 {
                s.push(i as u128).unwrap();
            } else {
                s.push_moment(i as u128).unwrap();
            }
        }
        assert_eq!(s.cursor(), start);
        for i in 0..capacity {
            let expected = if i % 2 == 0 {
                StreamItem::Character(i as u128)
            } else {
                StreamItem::Moment(i as u128)
            };
            assert_eq!(s.pop(), expected);
        }
        assert_eq!(s.cursor(), start);
        assert!(s.is_empty());
    }
}

#[test]
fn cursor_moves_around_the_ring() {
    let mut s = Stream::new(3);
    s.pop();
    s.pop();
    assert_eq!(s.cursor(), 2);
    s.push(1).unwrap();
    assert_eq!(s.cursor(), 0);
    s.pop();
    assert_eq!(s.cursor(), 1);
    // a full stream refuses, and the cursor stays
    let mut s = Stream::new(2);
    s.push(1).unwrap();
    s.push(2).unwrap();
    let start = s.cursor();
    s.push(3).unwrap_err();
    s.push(4).unwrap_err();
    s.pop();
    s.pop();
    assert_eq!(s.cursor(), start);
}

#[test]
fn counters_add_up() {
    let mut s = Stream::new(4);
    let check = |s: &Stream| {
        assert_eq!(s.buffered_characters() + s.buffered_moments(), s.buffered_total());
        assert!(s.buffered_total() <= s.capacity());
    };
    check(&s);
    s.push(1).unwrap();
    check(&s);
    s.push_moment(2).unwrap();
    check(&s);
    assert_eq!((s.buffered_characters(), s.buffered_moments(), s.buffered_total()), (1, 1, 2));
    s.pop();
    check(&s);
    s.pop();
    check(&s);
    s.push(3).unwrap();
    s.push(4).unwrap();
    check(&s);
    assert_eq!(s.push(5), Err(ExitError::BufferFull));
    check(&s);
    for _ in 0..9 {
        s.pop();
        check(&s);
    }
    // the two pushes after the pops wrote over cells that were counted
    assert_eq!(cells(&s), vec![StreamItem::Empty; 4]);
    assert_eq!((s.buffered_characters(), s.buffered_moments(), s.buffered_total()), (1, 1, 2));
}

#[test]
fn the_last_seen_moment_changes_on_a_pop_of_a_moment() {
    let mut s = Stream::new(2);
    s.push_moment(5).unwrap();
    assert_eq!(s.current_moment(), None);
    s.push(1).unwrap();
    assert_eq!(s.current_moment(), None);
    assert_eq!(s.pop(), StreamItem::Moment(5));
    assert_eq!(s.current_moment(), Some(5));
    assert_eq!(s.pop(), StreamItem::Character(1));
    assert_eq!(s.current_moment(), Some(5));
    s.set_initial_moment(9);
    assert_eq!(s.current_moment(), Some(9));
    assert_eq!(s.pop(), StreamItem::Empty);
    assert_eq!(s.current_moment(), Some(9));
}

fn loaded_gateway() -> Stream {
    // C,C,C,Moment(5),C
    let mut g = Stream::new(5);
    g.push(10).unwrap();
    g.push(11).unwrap();
    g.push(12).unwrap();
    g.push_moment(5).unwrap();
    g.push(13).unwrap();
    assert_eq!(g.cursor(), 0);
    g
}

#[test]
fn forward_duration_stops_before_the_moment() {
    let mut g = loaded_gateway();
    let mut e = Stream::new(8);
    assert_eq!(g.forward_duration(&mut e), Ok(()));
    assert_eq!(
        &cells(&e)[..4],
        &[
            StreamItem::Character(10),
            StreamItem::Character(11),
            StreamItem::Character(12),
            StreamItem::Empty
        ][..]
    );
    assert_eq!(e.buffered_characters(), 3);
    assert_eq!(e.buffered_moments(), 0);
    assert!(g.next_is_moment());
    assert_eq!(g.cursor(), 3);
    assert_eq!(g.buffered_total(), 2);
}

#[test]
fn forward_duration_stops_at_moment() {
    // the instruction forwards the characters and then the moment
    let mut g = loaded_gateway();
    let mut e = Stream::new(8);
    g.forward_duration(&mut e).unwrap();
    match g.pop() {
        StreamItem::Moment(m) => e.push_moment(m).unwrap(),
        other => panic!("{:?}", other),
    }
    assert_eq!(
        &cells(&e)[..5],
        &[
            StreamItem::Character(10),
            StreamItem::Character(11),
            StreamItem::Character(12),
            StreamItem::Moment(5),
            StreamItem::Empty
        ][..]
    );
    assert_eq!(e.buffered_total(), 4);
    assert!(g.next_is_character());
    assert_eq!(g.cell(g.cursor()), StreamItem::Character(13));
    assert_eq!(g.buffered_total(), 1);
    assert_eq!(g.current_moment(), Some(5));
}

#[test]
fn forward_duration_ends_where_the_exit_is_full() {
    let mut g = loaded_gateway();
    let mut e = Stream::new(2);
    assert_eq!(g.forward_duration(&mut e), Err(ExitError::BufferFull));
    assert_eq!(cells(&e), vec![StreamItem::Character(10), StreamItem::Character(11)]);
    // the third character was popped before the push was refused
    assert_eq!(g.cursor(), 3);
    assert_eq!(g.buffered_characters(), 1);
    assert!(g.next_is_moment());
}

#[test]
fn forward_duration_of_nothing() {
    let mut g = Stream::new(3);
    let mut e = Stream::new(3);
    assert_eq!(g.forward_duration(&mut e), Ok(()));
    assert_eq!(g.cursor(), 0);
    assert!(e.is_empty());
    g.push_moment(1).unwrap();
    g.pop();
    g.pop();
    assert_eq!(g.forward_duration(&mut e), Ok(()));
    assert!(e.is_empty());
}
