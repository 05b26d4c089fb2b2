use focus::menu::{
    float, main_menu, selector, toggle_keep_on_top, validate_menu_item, Command, Level, Mark,
};
use focus::note::{
    autosave_name, color, frame, react, text_frame, title, Action, Color, Event, Frame, COUNT, SIZE,
};
use focus::paths::{join, notes_db, notes_dir};
use focus::text::to_decimal;
use std::path::Path;

#[test]
fn colors() {
    let all: Vec<Color> = (0..COUNT).map(color).collect();
    let part = |parts: (u8, u8, u8)| Color { red: parts.0, green: parts.1, blue: parts.2 };
    assert_eq!(
        all,
        [(100, 95, 55), (100, 77, 85), (70, 88, 100), (78, 95, 66)].map(part)
    );
    let floats: Vec<f64> = all.iter().map(|c| f64::from(c.green) / 100.0).collect();
    assert_eq!(floats, [0.95, 0.77, 0.88, 0.95]);
}

#[test]
fn frames() {
    for i in 0..COUNT {
        let x = 100.0 + i as f64 * (220.0 + 30.0);
        assert_eq!(f64::from(frame(i).x), x);
        assert_eq!((frame(i).y, frame(i).width, frame(i).height), (400, 220, 220));
        if i > 0 {
            assert!(frame(i - 1).x + frame(i - 1).width < frame(i).x);
        }
    }
    assert_eq!(text_frame(), Frame { x: 0, y: 110, width: 110, height: 110 });
    assert_eq!(text_frame().y + text_frame().height, SIZE);
}

#[test]
fn names_and_titles() {
    assert_eq!(autosave_name(0), "note0");
    assert_eq!(autosave_name(1234567890), "note1234567890");
    assert_eq!(to_decimal(usize::MAX), usize::MAX.to_string());
    assert_eq!(title(None), "");
    assert_eq!(title(Some("x".to_string())), "x");
}

#[test]
fn edits_are_saved() {
    let actions = react(Event::TextChanged("hi".to_string()));
    assert_eq!(actions.len(), 1);
    assert!(matches!(&actions[0], Action::Save { table: "notes", text } if text == "hi"));
    let actions = react(Event::TitleChanged("to do".to_string()));
    assert_eq!(actions.len(), 2);
    assert!(matches!(&actions[0], Action::SetWindowTitle(title) if title == "to do"));
    assert!(matches!(&actions[1], Action::Save { table: "titles", text } if text == "to do"));
}

#[test]
fn double_click_edits_the_title() {
    for clicks in [-1, 0, 1, 3] {
        assert!(matches!(react(Event::TitleClicked(clicks))[..], [Action::ClickLabel]));
    }
    assert!(matches!(
        react(Event::TitleClicked(2))[..],
        [Action::SetTitleEditable(true), Action::FocusTitle]
    ));
    assert!(matches!(
        react(Event::TitleDone)[..],
        [Action::SetTitleEditable(false), Action::FocusText]
    ));
}

#[test]
fn menu_bar() {
    let bar: Vec<(&str, Vec<(&str, &str, &str)>)> = main_menu()
        .into_iter()
        .map(|menu| {
            let items = menu.items.iter().map(|i| (i.title, selector(i.command), i.key)).collect();
            (menu.title, items)
        })
        .collect();
    assert_eq!(
        bar,
        [
            ("App", vec![("Quit", "terminate:", "q")]),
            (
                "Edit",
                vec![
                    ("Cut", "cut:", "x"),
                    ("Copy", "copy:", "c"),
                    ("Paste", "paste:", "v"),
                    ("Select All", "selectAll:", "a"),
                ]
            ),
            ("Window", vec![("Keep All Windows on Top", "toggleKeepOnTop:", "")]),
        ]
    );
    assert_eq!(main_menu()[2].items[0].command, Command::ToggleKeepOnTop);
}

#[test]
fn keeping_on_top() {
    assert_eq!((float(true), float(false)), (Level::Floating, Level::Normal));
    assert_eq!((validate_menu_item(true), validate_menu_item(false)), (Mark::On, Mark::Off));
    assert_eq!(toggle_keep_on_top(false), (true, Level::Floating));
    assert_eq!(toggle_keep_on_top(true), (false, Level::Normal));
}

#[test]
fn paths_are_joined() {
    for base in ["/Users/me", "/Users/me/", "/", "", "a"] {
        for path in ["b", "b/c", "/b", ""] {
            let expected = Path::new(base).join(path);
            assert_eq!(
                join(&base.as_bytes().to_vec(), path),
                expected.to_str().unwrap().as_bytes(),
                "{base} {path}"
            );
        }
    }
    let dir = notes_dir(&b"/Users/me".to_vec());
    assert_eq!(dir, b"/Users/me/Library/Application Support/focus");
    assert_eq!(notes_db(&dir), b"/Users/me/Library/Application Support/focus/notes.sqlite");
}
