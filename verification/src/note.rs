//! A note: where it is, what it looks like, and what happens as it is edited.
use crate::store::{is_complete, is_table, load, reads, saved, stored, tables, StoreError, Tables};
use crate::text::{decimal, decimal_is_injective, to_decimal};
use rusqlite::Connection;
use vstd::prelude::*;

verus! {

/// The width and height of a note.
pub const SIZE: u32 = 220;

/// The space between one note and the next, at first.
pub const GAP: u32 = 30;

/// How many notes there are: one of each color.
pub const COUNT: usize = 4;

/// A color. Each part is in hundredths.
#[derive(Clone, Copy, Debug, PartialEq, Eq, Structural)]
pub struct Color {
    pub red: u8,
    pub green: u8,
    pub blue: u8,
}

/// A rectangle; `y` grows upwards.
#[derive(Clone, Copy, Debug, PartialEq, Eq, Structural)]
pub struct Frame {
    pub x: u32,
    pub y: u32,
    pub width: u32,
    pub height: u32,
}

/// The colors of the notes.
pub open spec fn colors() -> Seq<Color> {
    seq![
        Color { red: 100, green: 95, blue: 55 },  // yellow
        Color { red: 100, green: 77, blue: 85 },  // pink
        Color { red: 70, green: 88, blue: 100 },  // blue
        Color { red: 78, green: 95, blue: 66 },  // green
    ]
}

/// The color of the note `i`.
pub fn color(i: usize) -> (r: Color)
    requires
        i < COUNT,
    ensures
        r == colors()[i as int],
{
    match i {
        0 => Color { red: 100, green: 95, blue: 55 },
        1 => Color { red: 100, green: 77, blue: 85 },
        2 => Color { red: 70, green: 88, blue: 100 },
        _ => Color { red: 78, green: 95, blue: 66 },
    }
}

/// Where the note `i` is, until it is moved: the notes are in a row.
pub open spec fn frame_of(i: int) -> Frame {
    Frame { x: (100 + i * (SIZE + GAP)) as u32, y: 400, width: SIZE, height: SIZE }
}

/// Where the note `i` is, until it is moved.
pub fn frame(i: usize) -> (r: Frame)
    requires
        i < COUNT,
    ensures
        r == frame_of(i as int),
{
    let step: u32 = SIZE + GAP;
    assert(i * step <= 750) by (nonlinear_arith)
        requires
            i < 4,
            step == 250,
    ;
    Frame { x: 100 + i as u32 * step, y: 400, width: SIZE, height: SIZE }
}

/// Where in the note its text is: the top-left quarter.
pub open spec fn text_frame_of() -> Frame {
    Frame {
        x: 0,
        y: (SIZE / 2) as u32,
        width: (SIZE / 2) as u32,
        height: (SIZE / 2) as u32,
    }
}

/// Where in the note its text is.
pub fn text_frame() -> (r: Frame)
    ensures
        r == text_frame_of(),
{
    let half = SIZE / 2;
    Frame { x: 0, y: half, width: half, height: half }
}

/// The name under which the position of the note `i` is kept.
pub open spec fn autosave_name_of(i: nat) -> Seq<char> {
    "note"@ + decimal(i)
}

/// The name under which the position of the note `i` is kept.
pub fn autosave_name(i: usize) -> (r: String)
    ensures
        r@ == autosave_name_of(i as nat),
        r@ == "note"@ + decimal(i as nat),
{
    "note".to_owned().concat(to_decimal(i).as_str())
}

/// What a text is, if there is one.
pub open spec fn text_of(text: Option<String>) -> Option<Seq<char>> {
    match text {
        Some(text) => Some(text@),
        None => None,
    }
}

/// The title of a note: the saved one, or none yet.
pub fn title(saved: Option<String>) -> (r: String)
    ensures
        r@ == match saved {
            Some(title) => title@,
            None => Seq::empty(),
        },
{
    match saved {
        Some(title) => title,
        None => String::new(),
    }
}

/// What the note `i` shows at first: its text, if there is one yet, and its title, which may be
/// empty.
pub fn shown(db: &Connection, i: usize) -> (r: Result<(Option<String>, String), StoreError>)
    ensures
        tables(*db) matches Some(rows) ==> (r matches Ok(seen) ==> is_complete(rows)
            && text_of(seen.0) == stored(rows, "notes"@, i) && seen.1@ == match stored(
            rows,
            "titles"@,
            i,
        ) {
            Some(title) => title,
            None => Seq::empty(),
        }),
        tables(*db) matches Some(rows) ==> !is_complete(rows) ==> r is Err,
        r matches Err(e) ==> e is Read,
        match r {
            Ok(seen) => {
                &&& reads(*db, "notes"@, i, Ok(seen.0))
                &&& exists|saved: Option<String>| #[trigger]
                    reads(*db, "titles"@, i, Ok(saved)) && seen.1@ == match saved {
                        Some(title) => title@,
                        None => Seq::empty(),
                    }
            },
            Err(StoreError::Read(e)) => reads(*db, "notes"@, i, Err(e)) || reads(
                *db,
                "titles"@,
                i,
                Err(e),
            ) && exists|text: Option<String>| #[trigger] reads(*db, "notes"@, i, Ok(text)),
            Err(_) => false,
        },
{
    match load(db, "notes", i) {
        Ok(text) => match load(db, "titles", i) {
            Ok(saved) => Ok((text, title(saved))),
            Err(e) => Err(e),
        },
        Err(e) => Err(e),
    }
}

/// What happens to a note.
#[derive(Debug)]
pub enum Event {
    /// Its text changed to this, by typing, paste or cut.
    TextChanged(String),
    /// Its title changed to this.
    TitleChanged(String),
    /// Its title was clicked this many times in a row.
    TitleClicked(isize),
    /// The editing of its title ended, by Return or a click in the note.
    TitleDone,
}

/// What to do with a note.
#[derive(Debug)]
pub enum Action {
    /// Save this text in that table, under the note's id.
    Save { table: &'static str, text: String },
    /// Give the window this title, which stays hidden. VoiceOver and the Dock's window list read
    /// it.
    SetWindowTitle(String),
    /// Let the title be edited, or not.
    SetTitleEditable(bool),
    /// Put the cursor in the title.
    FocusTitle,
    /// Put the cursor in the text.
    FocusText,
    /// Let the title do what a label does on a click. It counts as titlebar: dragging it moves the
    /// window.
    ClickLabel,
}

/// What an `Action` is.
pub enum Deed {
    Save { table: Seq<char>, text: Seq<char> },
    SetWindowTitle(Seq<char>),
    SetTitleEditable(bool),
    FocusTitle,
    FocusText,
    ClickLabel,
}

impl View for Action {
    type V = Deed;

    open spec fn view(&self) -> Deed {
        match self {
            Action::Save { table, text } => Deed::Save { table: table@, text: text@ },
            Action::SetWindowTitle(title) => Deed::SetWindowTitle(title@),
            Action::SetTitleEditable(editable) => Deed::SetTitleEditable(*editable),
            Action::FocusTitle => Deed::FocusTitle,
            Action::FocusText => Deed::FocusText,
            Action::ClickLabel => Deed::ClickLabel,
        }
    }
}

/// What an `Event` asks for, in order. Every edit is saved, so that quitting loses nothing. A
/// double-click edits the title, like renaming in Finder; other clicks are the label's.
pub open spec fn deeds(event: Event) -> Seq<Deed> {
    match event {
        Event::TextChanged(text) => seq![Deed::Save { table: "notes"@, text: text@ }],
        Event::TitleChanged(title) => seq![
            Deed::SetWindowTitle(title@),
            Deed::Save { table: "titles"@, text: title@ },
        ],
        Event::TitleClicked(clicks) => if clicks == 2 {
            seq![Deed::SetTitleEditable(true), Deed::FocusTitle]
        } else {
            seq![Deed::ClickLabel]
        },
        Event::TitleDone => seq![Deed::SetTitleEditable(false), Deed::FocusText],
    }
}

/// What some actions are.
pub open spec fn deeds_of(actions: Seq<Action>) -> Seq<Deed> {
    Seq::new(actions.len(), |i: int| actions[i]@)
}

/// What to do when something happens to a note.
pub fn react(event: Event) -> (r: Vec<Action>)
    ensures
        deeds_of(r@) == deeds(event),
        match event {
            Event::TextChanged(text) => r@.len() == 1 && (r@[0] matches Action::Save {
                table,
                text: typed,
            } && table@ == "notes"@ && typed@ == text@),
            Event::TitleChanged(title) => r@.len() == 2 && (r@[0] matches Action::SetWindowTitle(
                typed,
            ) && typed@ == title@) && (r@[1] matches Action::Save { table, text: typed } && table@
                == "titles"@ && typed@ == title@),
            Event::TitleClicked(2) => r@.len() == 2 && r@[0] == Action::SetTitleEditable(true)
                && r@[1] is FocusTitle,
            Event::TitleClicked(_) => r@.len() == 1 && r@[0] is ClickLabel,
            Event::TitleDone => r@.len() == 2 && r@[0] == Action::SetTitleEditable(false)
                && r@[1] is FocusText,
        },
{
    let mut all: Vec<Action> = Vec::new();
    match event {
        Event::TextChanged(text) => {
            all.push(Action::Save { table: "notes", text });
        },
        Event::TitleChanged(title) => {
            all.push(Action::SetWindowTitle(title.clone()));
            all.push(Action::Save { table: "titles", text: title });
        },
        Event::TitleClicked(clicks) => {
            if clicks == 2 {
                all.push(Action::SetTitleEditable(true));
                all.push(Action::FocusTitle);
            } else {
                all.push(Action::ClickLabel);
            }
        },
        Event::TitleDone => {
            all.push(Action::SetTitleEditable(false));
            all.push(Action::FocusText);
        },
    }
    assert(deeds_of(all@) =~= deeds(event));
    all
}

/// What the database holds after `deeds` of the note `i`, each of which did what it should.
pub open spec fn after(rows: Tables, i: usize, deeds: Seq<Deed>) -> Tables
    decreases deeds.len(),
{
    if deeds.len() == 0 {
        rows
    } else {
        let before = after(rows, i, deeds.drop_last());
        match deeds.last() {
            Deed::Save { table, text } => saved(before, table, i, text),
            _ => before,
        }
    }
}

/// Where the cursor is.
pub enum Cursor {
    /// In the note's title.
    Title,
    /// In the note's text.
    Text,
    /// In neither.
    Elsewhere,
}

/// A note's window.
pub struct Window {
    /// The title of the window.
    pub title: Seq<char>,
    /// Whether the note's title can be edited.
    pub editable: bool,
    pub cursor: Cursor,
    /// How many clicks went to the title as a label.
    pub clicks: nat,
    /// What was saved, and in which table, in order.
    pub saves: Seq<(Seq<char>, Seq<char>)>,
}

/// A note's window after `deeds`.
pub open spec fn window_after(window: Window, deeds: Seq<Deed>) -> Window
    decreases deeds.len(),
{
    if deeds.len() == 0 {
        window
    } else {
        let before = window_after(window, deeds.drop_last());
        match deeds.last() {
            Deed::Save { table, text } => Window {
                saves: before.saves.push((table, text)),
                ..before
            },
            Deed::SetWindowTitle(title) => Window { title, ..before },
            Deed::SetTitleEditable(editable) => Window { editable, ..before },
            Deed::FocusTitle => Window { cursor: Cursor::Title, ..before },
            Deed::FocusText => Window { cursor: Cursor::Text, ..before },
            Deed::ClickLabel => Window { clicks: before.clicks + 1, ..before },
        }
    }
}

/// A window has the title that was typed last: after a change of the title it is the new one,
/// whatever it was, and nothing else that happens to the note changes it.
pub proof fn window_has_the_typed_title(window: Window, event: Event)
    ensures
        window_after(window, deeds(event)).title == match event {
            Event::TitleChanged(title) => title@,
            _ => window.title,
        },
{
    reveal_with_fuel(window_after, 3);
}

/// The title can be edited from a double-click until the editing is done. The cursor goes where the
/// editing is, and nowhere else by itself.
pub proof fn title_is_edited_on_double_click(window: Window, event: Event)
    ensures
        ({
            let seen = window_after(window, deeds(event));
            match event {
                Event::TitleClicked(clicks) if clicks == 2 => seen.editable && seen.cursor is Title,
                Event::TitleDone => !seen.editable && seen.cursor is Text,
                _ => seen.editable == window.editable && seen.cursor == window.cursor,
            }
        }),
{
    reveal_with_fuel(window_after, 3);
}

/// A click goes to the title as a label, once, unless it is a double-click. Nothing else does.
pub proof fn other_clicks_are_the_labels(window: Window, event: Event)
    ensures
        window_after(window, deeds(event)).clicks == match event {
            Event::TitleClicked(clicks) if clicks != 2 => window.clicks + 1,
            _ => window.clicks,
        },
{
    reveal_with_fuel(window_after, 3);
}

/// An edit is saved once, as it was typed, and nothing else is saved.
pub proof fn edits_are_saved_once(window: Window, event: Event)
    ensures
        window_after(window, deeds(event)).saves == match event {
            Event::TextChanged(text) => window.saves.push(("notes"@, text@)),
            Event::TitleChanged(title) => window.saves.push(("titles"@, title@)),
            _ => window.saves,
        },
{
    reveal_with_fuel(window_after, 3);
}

/// Nothing is done twice.
pub proof fn deeds_differ(event: Event, j: int, k: int)
    requires
        0 <= j < k < deeds(event).len(),
    ensures
        deeds(event)[j] != deeds(event)[k],
{
}

/// The title of a window is the saved one, and it stays so, whatever happens to the note.
pub proof fn window_title_is_the_saved_one(rows: Tables, i: usize, window: Window, event: Event)
    requires
        window.title == match stored(rows, "titles"@, i) {
            Some(title) => title,
            None => Seq::empty(),
        },
    ensures
        window_after(window, deeds(event)).title == match stored(
            after(rows, i, deeds(event)),
            "titles"@,
            i,
        ) {
            Some(title) => title,
            None => Seq::empty(),
        },
{
    window_has_the_typed_title(window, event);
    edits_are_saved(rows, i, event);
    edits_are_shown_again(rows, i, event);
}

/// A note is shown unless reading its text or its title fails, and then it fails with that error.
pub proof fn showing_fails_as_its_reads(
    db: &Connection,
    i: usize,
    r: Result<(Option<String>, String), StoreError>,
)
    requires
        call_ensures(shown, (db, i), r),
    ensures
        r matches Err(error) ==> exists|e: rusqlite::Error|
            error == StoreError::Read(e) && (#[trigger] reads(*db, "notes"@, i, Err(e)) || reads(
                *db,
                "titles"@,
                i,
                Err(e),
            )),
        (forall|table: Seq<char>, found: Result<Option<String>, rusqlite::Error>|
            (table == "notes"@ || table == "titles"@) && #[trigger] reads(*db, table, i, found)
                ==> found is Ok) ==> r is Ok,
{
    if let Err(StoreError::Read(e)) = r {
        assert(reads(*db, "notes"@, i, Err(e)) || reads(*db, "titles"@, i, Err(e)));
    }
}

/// No edit is lost: what was typed is saved, and nothing else. Nothing else that happens to the
/// note changes the database.
pub proof fn edits_are_saved(rows: Tables, i: usize, event: Event)
    ensures
        match event {
            Event::TextChanged(text) => after(rows, i, deeds(event)) == saved(
                rows,
                "notes"@,
                i,
                text@,
            ),
            Event::TitleChanged(title) => after(rows, i, deeds(event)) == saved(
                rows,
                "titles"@,
                i,
                title@,
            ),
            _ => after(rows, i, deeds(event)) == rows,
        },
{
    reveal_with_fuel(after, 3);
}

/// A note shows again what was last typed: after an edit, the text and the title that it starts
/// with are the edited one and, of the other, what it was.
pub proof fn edits_are_shown_again(rows: Tables, i: usize, event: Event)
    ensures
        match event {
            Event::TextChanged(text) => {
                &&& stored(after(rows, i, deeds(event)), "notes"@, i) == Some(text@)
                &&& stored(after(rows, i, deeds(event)), "titles"@, i) == stored(
                    rows,
                    "titles"@,
                    i,
                )
            },
            Event::TitleChanged(title) => {
                &&& stored(after(rows, i, deeds(event)), "titles"@, i) == Some(title@)
                &&& stored(after(rows, i, deeds(event)), "notes"@, i) == stored(rows, "notes"@, i)
            },
            _ => true,
        },
{
    edits_are_saved(rows, i, event);
    reveal_strlit("notes");
    reveal_strlit("titles");
    assert("notes"@.len() != "titles"@.len());
}

/// The notes save only into tables that there are.
pub proof fn saves_are_in_tables(event: Event, k: int)
    requires
        0 <= k < deeds(event).len(),
    ensures
        deeds(event)[k] matches Deed::Save { table, text } ==> is_table(table),
{
}

/// The text is at the left and at the top of the note, and a quarter of it.
pub proof fn text_is_the_top_left_quarter(i: int)
    ensures
        text_frame_of().x == 0,
        text_frame_of().y + text_frame_of().height == frame_of(i).height,
        2 * text_frame_of().width == frame_of(i).width,
        2 * text_frame_of().height == frame_of(i).height,
{
}

/// At first no note covers another.
pub proof fn notes_are_apart(i: int, j: int)
    requires
        0 <= i < j < COUNT,
    ensures
        frame_of(i).x + frame_of(i).width < frame_of(j).x,
{
    assert(i * 250 + 250 <= j * 250) by (nonlinear_arith)
        requires
            i < j,
    ;
}

/// Each note keeps its position under a name of its own.
pub proof fn autosave_names_differ(i: nat, j: nat)
    requires
        autosave_name_of(i) == autosave_name_of(j),
    ensures
        i == j,
{
    let prefix = "note"@;
    assert(decimal(i) =~= autosave_name_of(i).skip(prefix.len() as int));
    assert(decimal(j) =~= autosave_name_of(j).skip(prefix.len() as int));
    decimal_is_injective(i, j);
}

/// Each color has one note.
pub proof fn colors_are_of_one_note(i: int, j: int)
    requires
        0 <= i < j < COUNT,
    ensures
        colors().len() == COUNT,
        colors()[i] != colors()[j],
{
}

} // verus!
