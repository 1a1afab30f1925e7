use exif_sorter::image::Image;
use exif_sorter::mover::PlannedMove;
use exif_sorter::tui::{
    progress_percent, selected_moves, App, Command, Key, Selection, StatefulList, TableState,
};

fn list_of(count: usize) -> StatefulList {
    let mut list = StatefulList::new();
    for i in 0..count {
        list.items.push(Image::new(format!("/in/{}.jpg", i)));
    }
    list
}

#[test]
fn next_goes_down_and_wraps() {
    let mut list = list_of(3);
    list.next();
    assert_eq!(list.state.selected, Some(0));
    list.next();
    assert_eq!(list.state.selected, Some(1));
    list.next();
    assert_eq!(list.state.selected, Some(2));
    list.next();
    assert_eq!(list.state.selected, Some(0));
}

#[test]
fn previous_goes_up_and_wraps() {
    let mut list = list_of(3);
    list.state.selected = Some(1);
    list.previous();
    assert_eq!(list.state.selected, Some(0));
    list.previous();
    assert_eq!(list.state.selected, Some(2));
    list.previous();
    assert_eq!(list.state.selected, Some(1));
}

#[test]
fn an_empty_list_has_no_row_to_select() {
    let mut list = list_of(0);
    list.next();
    assert_eq!(list.state.selected, None);
    list.previous();
    assert_eq!(list.state.selected, None);
    list.state.selected = Some(0);
    list.next();
    assert_eq!(list.state.selected, None);
    list.state.selected = Some(3);
    list.last_selected = Some(2);
    list.previous();
    assert_eq!(list.state.selected, None);
    assert_eq!(list.last_selected, Some(2));
}

#[test]
fn unselect_remembers_the_selection() {
    let mut list = list_of(3);
    list.state = TableState { selected: Some(2), offset: 1 };
    list.unselect();
    assert_eq!(list.state.selected, None);
    assert_eq!(list.state.offset, 1);
    assert_eq!(list.last_selected, Some(2));
    list.next();
    assert_eq!(list.state.selected, Some(2));
    list.unselect();
    list.previous();
    assert_eq!(list.state.selected, Some(2));
}

#[test]
fn a_new_app_shows_nothing() {
    let app = App::new(".".to_string(), "./sorted".to_string());
    assert!(!app.should_exit);
    assert_eq!(app.progress, None);
    assert_eq!(app.source_dir, ".");
    assert_eq!(app.target_dir, "./sorted");
    assert_eq!(app.items, StatefulList::new());
}

#[test]
fn keys_ask_for_what_they_stand_for() {
    let mut app = App::new(".".to_string(), "./sorted".to_string());
    app.scan_source(vec![Image::new("/in/a.jpg".to_string()), Image::new("/in/b.jpg".to_string())]);
    assert_eq!(app.handle_event(Key::Char('s')), Command::Scan);
    assert_eq!(app.handle_event(Key::Char('p')), Command::ProcessAll);
    assert_eq!(app.handle_event(Key::Char('P')), Command::Nothing);
    assert_eq!(app.handle_event(Key::Char('j')), Command::Nothing);
    assert_eq!(app.items.state.selected, Some(0));
    assert_eq!(app.handle_event(Key::Down), Command::Nothing);
    assert_eq!(app.items.state.selected, Some(1));
    assert_eq!(app.handle_event(Key::Char('P')), Command::ProcessSelected(1));
    assert_eq!(app.handle_event(Key::Up), Command::Nothing);
    assert_eq!(app.items.state.selected, Some(0));
    assert_eq!(app.handle_event(Key::Char('k')), Command::Nothing);
    assert_eq!(app.items.state.selected, Some(1));
    assert_eq!(app.handle_event(Key::Char('x')), Command::Nothing);
    assert_eq!(app.handle_event(Key::Other), Command::Nothing);
    assert!(!app.should_exit);
    assert_eq!(app.handle_event(Key::Char('q')), Command::Quit);
    assert!(app.should_exit);
    let mut app = App::new(".".to_string(), "./sorted".to_string());
    assert_eq!(app.handle_event(Key::Esc), Command::Quit);
    assert!(app.should_exit);
}

#[test]
fn a_fresh_batch_takes_the_place_of_the_old_one() {
    let mut app = App::new(".".to_string(), "./sorted".to_string());
    app.scan_source(vec![Image::new("/in/a.jpg".to_string()), Image::new("/in/b.jpg".to_string())]);
    app.handle_event(Key::Down);
    app.progress = Some(10);
    app.scan_source(vec![Image::new("/in/c.jpg".to_string())]);
    assert_eq!(app.items.items, vec![Image::new("/in/c.jpg".to_string())]);
    assert_eq!(app.items.state, TableState { selected: None, offset: 0 });
    assert_eq!(app.items.last_selected, None);
    assert_eq!(app.progress, None);
}

fn move_of(index: usize) -> PlannedMove {
    PlannedMove {
        index,
        source: format!("/in/{}.jpg", index),
        directory: "/out".to_string(),
        target: format!("/out/{}.jpg", index),
    }
}

#[test]
fn a_selection_covers_all_or_its_places() {
    assert!(Selection::All.holds(0));
    assert!(Selection::All.holds(usize::MAX));
    let some = Selection::Selected(vec![3, 1]);
    assert!(some.holds(1));
    assert!(some.holds(3));
    assert!(!some.holds(0));
    assert!(!some.holds(2));
    assert!(!Selection::Selected(Vec::new()).holds(0));
}

#[test]
fn a_command_names_the_records_to_process() {
    assert_eq!(Command::ProcessAll.selection(), Some(Selection::All));
    assert_eq!(Command::ProcessSelected(4).selection(), Some(Selection::Selected(vec![4])));
    assert_eq!(Command::Scan.selection(), None);
    assert_eq!(Command::Quit.selection(), None);
    assert_eq!(Command::Nothing.selection(), None);
}

#[test]
fn only_the_selected_moves_are_kept() {
    let moves = vec![move_of(0), move_of(2), move_of(5)];
    assert_eq!(selected_moves(&moves, &Selection::All), moves);
    assert_eq!(selected_moves(&moves, &Selection::Selected(vec![5, 0, 1])), vec![move_of(0), move_of(5)]);
    assert_eq!(selected_moves(&moves, &Selection::Selected(vec![1])), Vec::new());
    assert_eq!(selected_moves(&Vec::new(), &Selection::All), Vec::new());
}

#[test]
fn progress_is_the_percentage_rounded_down() {
    assert_eq!(progress_percent(0, 3), 0);
    assert_eq!(progress_percent(1, 3), 33);
    assert_eq!(progress_percent(2, 3), 66);
    assert_eq!(progress_percent(3, 3), 100);
    assert_eq!(progress_percent(4, 3), 100);
    assert_eq!(progress_percent(0, 0), 100);
    assert_eq!(progress_percent(1, 200), 0);
    assert_eq!(progress_percent(199, 200), 99);
    assert_eq!(progress_percent(usize::MAX - 1, usize::MAX), 99);
}
