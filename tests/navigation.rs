use tabs_layout::nav::{App, Command};

#[test]
fn starts_on_first_view() {
    let app = App::new();
    assert_eq!(app.index, 0);
    assert_eq!(app.titles, vec!["split windows", "inputs", "multi inputs"]);
    assert_eq!(app.current(), "split windows");
}

#[test]
fn next_wraps_forward() {
    let mut app = App::new();
    app.next();
    assert_eq!(app.index, 1);
    app.next();
    assert_eq!(app.index, 2);
    app.next();
    assert_eq!(app.index, 0);
}

#[test]
fn previous_wraps_backward() {
    let mut app = App::new();
    app.previous();
    assert_eq!(app.index, 2);
    assert_eq!(app.current(), "multi inputs");
    app.previous();
    assert_eq!(app.index, 1);
}

#[test]
fn full_cycle_returns_to_start() {
    for start in 0..5usize {
        let mut app = App { titles: vec!["a", "b", "c", "d", "e"], index: start };
        for _ in 0..5 {
            app.next();
        }
        assert_eq!(app.index, start);
        for _ in 0..5 {
            app.previous();
        }
        assert_eq!(app.index, start);
    }
}

#[test]
fn next_then_previous_round_trip() {
    for start in 0..3usize {
        let mut app = App::new();
        app.index = start;
        app.next();
        app.previous();
        assert_eq!(app.index, start);
        app.previous();
        app.next();
        assert_eq!(app.index, start);
    }
}

#[test]
fn single_view_stays_selected() {
    let mut app = App { titles: vec!["only"], index: 0 };
    app.next();
    assert_eq!(app.index, 0);
    app.previous();
    assert_eq!(app.index, 0);
}

#[test]
fn index_stays_in_range_over_mixed_moves() {
    let mut app = App { titles: vec!["a", "b", "c", "d"], index: 0 };
    let moves = [true, true, false, false, false, true, false, false, true, true, true, true, true];
    for m in moves {
        if m {
            app.next();
        } else {
            app.previous();
        }
        assert!(app.index < 4);
    }
    assert_eq!(app.index, 3);
}

#[test]
fn handle_dispatches_commands() {
    let mut app = App::new();
    assert!(app.handle(Command::MoveRight));
    assert_eq!(app.index, 1);
    assert!(app.handle(Command::MoveLeft));
    assert!(app.handle(Command::MoveLeft));
    assert_eq!(app.index, 2);
    assert!(app.handle(Command::Other));
    assert_eq!(app.index, 2);
    assert!(!app.handle(Command::Quit));
    assert_eq!(app.index, 2);
    assert_eq!(app.titles, vec!["split windows", "inputs", "multi inputs"]);
}
