use tabs_layout::compose::{
    compose, Align, DrawCall, Passage, Screen, GREETING_TEXT, OVERFLOW_TEXT, SENTENCES_TEXT,
};
use tabs_layout::nav::App;
use tabs_layout::region::{split, Axis, Extent, Region};

fn rect(x: u16, y: u16, width: u16, height: u16) -> Region {
    Region { x, y, width, height }
}

fn region_of(call: &DrawCall) -> Region {
    match call {
        DrawCall::Tabs { area, .. } => *area,
        DrawCall::Text { area, .. } => *area,
        DrawCall::Panel { area } => *area,
    }
}

#[test]
fn inner_takes_margin_off_each_side() {
    assert_eq!(rect(0, 0, 40, 20).inner(5), rect(5, 5, 30, 10));
    assert_eq!(rect(2, 3, 9, 20).inner(5), rect(2, 3, 0, 0));
    assert_eq!(rect(0, 0, 10, 10).inner(5), rect(5, 5, 0, 0));
}

#[test]
fn split_gives_remainder_to_last() {
    let third = Extent::Percentage(33);
    let cols = split(rect(0, 0, 11, 4), Axis::Horizontal, &[third, third, third]);
    assert_eq!(cols, vec![rect(0, 0, 3, 4), rect(3, 0, 3, 4), rect(6, 0, 5, 4)]);
}

#[test]
fn split_clamps_fixed_lengths() {
    let parts = split(rect(1, 2, 5, 2), Axis::Vertical, &[Extent::Length(3), Extent::Rest]);
    assert_eq!(parts, vec![rect(1, 2, 5, 2), rect(1, 4, 5, 0)]);
    let parts = split(rect(1, 2, 5, 7), Axis::Vertical, &[Extent::Length(3), Extent::Rest]);
    assert_eq!(parts, vec![rect(1, 2, 5, 3), rect(1, 5, 5, 4)]);
}

#[test]
fn split_of_empty_list_is_empty() {
    assert!(split(rect(0, 0, 10, 10), Axis::Horizontal, &[]).is_empty());
}

#[test]
fn split_view_frame() {
    let app = App::new();
    let calls = compose(rect(0, 0, 40, 20), &app);
    assert_eq!(
        calls,
        vec![
            DrawCall::Tabs { area: rect(5, 5, 30, 3), selected: 0 },
            DrawCall::Text { area: rect(5, 8, 9, 7), passage: Passage::Overflow, align: Align::Left },
            DrawCall::Text { area: rect(14, 8, 9, 2), passage: Passage::Sentences, align: Align::Center },
            DrawCall::Text { area: rect(14, 10, 9, 2), passage: Passage::Sentences, align: Align::Center },
            DrawCall::Text { area: rect(14, 12, 9, 3), passage: Passage::Sentences, align: Align::Center },
            DrawCall::Text { area: rect(23, 8, 12, 7), passage: Passage::Greeting, align: Align::Right },
        ]
    );
}

#[test]
fn columns_sum_to_content_width() {
    let app = App::new();
    for width in 13u16..120 {
        let calls = compose(rect(0, 0, width, 30), &app);
        let left = region_of(&calls[1]);
        let middle = region_of(&calls[2]);
        let right = region_of(&calls[5]);
        let content_width = width - 10;
        assert_eq!(left.width + middle.width + right.width, content_width);
        assert_eq!(left.x, 5);
        assert_eq!(left.x + left.width, middle.x);
        assert_eq!(middle.x + middle.width, right.x);
        assert_eq!(right.x + right.width, 5 + content_width);
    }
}

#[test]
fn short_display_draws_nothing_visible() {
    for index in 0..4usize {
        let mut app = App::new();
        app.index = index;
        for height in 0u16..13 {
            for width in [0u16, 1, 5, 80, 200] {
                let calls = compose(rect(0, 0, width, height), &app);
                assert!(!calls.is_empty());
                for call in &calls {
                    let r = region_of(call);
                    assert!(r.width == 0 || r.height == 0);
                }
            }
        }
    }
}

#[test]
fn input_views_share_layout() {
    let mut app = App::new();
    app.index = 1;
    let first = compose(rect(0, 0, 60, 25), &app);
    app.index = 2;
    let second = compose(rect(0, 0, 60, 25), &app);
    assert_eq!(first.len(), 2);
    assert_eq!(first[1..], second[1..]);
    assert_eq!(first[1], DrawCall::Panel { area: rect(5, 8, 50, 12) });
    assert_eq!(first[0], DrawCall::Tabs { area: rect(5, 5, 50, 3), selected: 1 });
    assert_eq!(second[0], DrawCall::Tabs { area: rect(5, 5, 50, 3), selected: 2 });
}

#[test]
fn unknown_index_draws_only_tabs() {
    let app = App { titles: vec!["a", "b", "c", "d"], index: 3 };
    let calls = compose(rect(0, 0, 40, 20), &app);
    assert_eq!(calls, vec![DrawCall::Tabs { area: rect(5, 5, 30, 3), selected: 3 }]);
}

#[test]
fn screens_by_index() {
    assert_eq!(Screen::from_index(0), Some(Screen::SplitWindows));
    assert_eq!(Screen::from_index(1), Some(Screen::Inputs));
    assert_eq!(Screen::from_index(2), Some(Screen::MultiInputs));
    assert_eq!(Screen::from_index(3), None);
}

#[test]
fn passages_have_their_texts() {
    assert_eq!(Passage::Overflow.text(), OVERFLOW_TEXT);
    assert_eq!(Passage::Sentences.text(), SENTENCES_TEXT);
    assert_eq!(Passage::Greeting.text(), GREETING_TEXT);
    assert!(SENTENCES_TEXT.starts_with("This is a sentence."));
}

#[test]
fn display_within_margins_draws_nothing_visible() {
    for index in 0..3usize {
        let mut app = App::new();
        app.index = index;
        for (width, height) in [(80u16, 10u16), (80, 0), (10, 40), (3, 3), (200, 7)] {
            for call in &compose(rect(0, 0, width, height), &app) {
                let r = region_of(call);
                assert!(r.width == 0 || r.height == 0);
            }
        }
    }
    for height in [11u16, 12] {
        let calls = compose(rect(0, 0, 40, height), &App::new());
        assert_eq!(calls.len(), 6);
        for call in &calls {
            assert_eq!(region_of(call).height, 0);
        }
    }
    let calls = compose(rect(0, 0, 40, 13), &App::new());
    assert_eq!(region_of(&calls[0]), rect(5, 5, 30, 3));
    assert_eq!(region_of(&calls[1]), rect(5, 8, 9, 0));
}

#[test]
fn first_two_columns_take_a_third_each() {
    let app = App::new();
    let calls = compose(rect(0, 0, 110, 30), &app);
    assert_eq!(region_of(&calls[1]).width, 33);
    assert_eq!(region_of(&calls[2]).width, 33);
    assert_eq!(region_of(&calls[5]).width, 34);
}
