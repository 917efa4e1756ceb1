use tmenu::menu::{Action, MenuItem};
use tmenu::nav::{is_exit, normalize, DispatchResult, Key, KeyOutcome, MenuLevel, NavigationState};
use tmenu::parser::parse;

fn run(label: &str, command: &str) -> MenuItem {
    MenuItem { label: label.to_string(), action: Action::Execute(command.to_string()) }
}

fn sub(label: &str, items: Vec<MenuItem>) -> MenuItem {
    MenuItem { label: label.to_string(), action: Action::OpenSubmenu(items) }
}

fn sample() -> NavigationState {
    let text = "main:\n  \"Tools\":\n    \"Build\"[1]: echo build\n    \"Clean\"[2]: echo clean\n  \"Quit\"[0]: exit\n";
    let (title, items) = parse(text).unwrap();
    NavigationState::new(title, items)
}

fn snapshot(state: &NavigationState) -> (String, Vec<MenuItem>, Option<usize>) {
    let (title, items, selected) = state.current_view();
    (title.clone(), items.clone(), selected)
}

#[test]
fn fresh_state_selects_first_item_at_root() {
    let state = sample();
    assert_eq!(state.depth(), 0);
    let (title, items, selected) = state.current_view();
    assert_eq!(title, "main");
    assert_eq!(items.len(), 2);
    assert_eq!(selected, Some(0));
}

#[test]
fn empty_menu_selects_nothing_and_ignores_moves() {
    let mut state = NavigationState::new("empty".to_string(), Vec::new());
    assert_eq!(state.current_view().2, None);
    state.move_next();
    assert_eq!(state.current_view().2, None);
    state.move_previous();
    assert_eq!(state.current_view().2, None);
    assert_eq!(state.activate(), DispatchResult::Nothing);
    assert_eq!(state.handle_key(Key::Enter), KeyOutcome::Ignored);
    assert_eq!(state.depth(), 0);
}

#[test]
fn move_next_wraps_after_last_item() {
    let mut state = NavigationState::new("m".to_string(), vec![run("a", "1"), run("b", "2"), run("c", "3")]);
    state.move_next();
    assert_eq!(state.current_view().2, Some(1));
    state.move_next();
    assert_eq!(state.current_view().2, Some(2));
    state.move_next();
    assert_eq!(state.current_view().2, Some(0));
}

#[test]
fn move_previous_wraps_before_first_item() {
    let mut state = NavigationState::new("m".to_string(), vec![run("a", "1"), run("b", "2"), run("c", "3")]);
    state.move_previous();
    assert_eq!(state.current_view().2, Some(2));
    state.move_previous();
    assert_eq!(state.current_view().2, Some(1));
    state.move_previous();
    assert_eq!(state.current_view().2, Some(0));
}

#[test]
fn as_many_moves_as_items_return_to_start() {
    for len in 1..6usize {
        let items: Vec<MenuItem> = (0..len).map(|i| run(&format!("i{}", i), "x")).collect();
        for start in 0..len {
            let mut level = MenuLevel::new("m".to_string(), items.clone());
            for _ in 0..start {
                level.select_next();
            }
            assert_eq!(level.selected_index(), Some(start));
            let before = level.clone();
            for _ in 0..len {
                level.select_next();
            }
            assert_eq!(level, before);
            level.select_next();
            level.select_previous();
            assert_eq!(level, before);
        }
    }
}

#[test]
fn selection_is_always_in_range() {
    let mut state = sample();
    let keys = [Key::Down, Key::Enter, Key::Up, Key::Left, Key::Right, Key::Down, Key::Down, Key::Escape, Key::Escape, Key::Up, Key::Other];
    for round in 0..4 {
        for key in keys.iter() {
            let _ = state.handle_key(*key);
            let (_, items, selected) = state.current_view();
            match selected {
                Some(i) => assert!(i < items.len(), "round {}", round),
                None => assert!(items.is_empty()),
            }
        }
    }
}

#[test]
fn activating_quit_item_quits() {
    let mut state = sample();
    state.move_next();
    let before = snapshot(&state);
    assert_eq!(state.activate(), DispatchResult::Quit);
    assert_eq!(snapshot(&state), before);
    assert_eq!(state.depth(), 0);
}

#[test]
fn exit_is_recognised_through_space_and_quotes() {
    for command in ["exit", "  exit  ", "\"exit\"", " \"\"exit\" \t", "\texit\n"] {
        let mut state = NavigationState::new("m".to_string(), vec![run("Quit", command)]);
        assert_eq!(state.activate(), DispatchResult::Quit, "{:?}", command);
        assert!(is_exit(command));
    }
    for command in ["exit now", "Exit", "exi", "exits", "e xit", "\" exit\"", ""] {
        assert!(!is_exit(command), "{:?}", command);
    }
}

#[test]
fn activating_root_command_asks_to_run_it() {
    let mut state = NavigationState::new("m".to_string(), vec![run("Build", "echo build")]);
    assert_eq!(state.activate(), DispatchResult::RunCommand("echo build".to_string()));
    assert_eq!(state.depth(), 0);
    assert_eq!(state.current_view().2, Some(0));
}

#[test]
fn command_is_handed_out_normalized() {
    let mut state = NavigationState::new("m".to_string(), vec![run("a", "  \"ls -l\" ")]);
    assert_eq!(state.activate(), DispatchResult::RunCommand("ls -l".to_string()));
    assert_eq!(normalize("  \"ls -l\" "), "ls -l");
    assert_eq!(normalize("\" exit \""), " exit ");
    assert_eq!(normalize("   "), "");
    assert_eq!(normalize("\"\"\""), "");
    assert_eq!(normalize("a \"b\""), "a \"b");
    assert_eq!(normalize("\u{2003}día\u{a0}"), "día");
}

#[test]
fn activating_submenu_descends() {
    let mut state = sample();
    assert_eq!(state.activate(), DispatchResult::Descended);
    assert_eq!(state.depth(), 1);
    let (title, items, selected) = state.current_view();
    assert_eq!(title, "Tools");
    assert_eq!(items, &vec![run("Build", "echo build"), run("Clean", "echo clean")]);
    assert_eq!(selected, Some(0));
    state.move_next();
    assert_eq!(state.activate(), DispatchResult::RunCommand("echo clean".to_string()));
}

#[test]
fn descending_into_empty_submenu_selects_nothing() {
    let mut state = NavigationState::new("m".to_string(), vec![sub("Empty", vec![])]);
    assert_eq!(state.activate(), DispatchResult::Descended);
    assert_eq!(state.current_view().0, "Empty");
    assert_eq!(state.current_view().2, None);
    assert_eq!(state.activate(), DispatchResult::Nothing);
    state.ascend();
    assert_eq!(state.current_view().2, Some(0));
}

#[test]
fn ascend_after_descend_restores_level() {
    let items = vec![run("a", "1"), sub("S", vec![run("x", "2"), run("y", "3")]), run("c", "4")];
    let mut state = NavigationState::new("root".to_string(), items);
    state.move_next();
    let before = snapshot(&state);
    assert_eq!(before.2, Some(1));
    assert_eq!(state.activate(), DispatchResult::Descended);
    state.move_next();
    state.ascend();
    assert_eq!(snapshot(&state), before);
    assert_eq!(state.depth(), 0);
}

#[test]
fn nested_levels_come_back_in_order() {
    let deep = sub("B", vec![run("leaf", "go")]);
    let items = vec![run("first", "1"), sub("A", vec![run("a0", "0"), deep])];
    let mut state = NavigationState::new("root".to_string(), items);
    state.move_next();
    let root = snapshot(&state);
    assert_eq!(state.activate(), DispatchResult::Descended);
    state.move_next();
    let middle = snapshot(&state);
    assert_eq!(state.activate(), DispatchResult::Descended);
    assert_eq!(state.depth(), 2);
    assert_eq!(state.current_view().0, "B");
    assert_eq!(state.activate(), DispatchResult::RunCommand("go".to_string()));
    state.ascend();
    assert_eq!(snapshot(&state), middle);
    state.ascend();
    assert_eq!(snapshot(&state), root);
    state.ascend();
    assert_eq!(snapshot(&state), root);
}

#[test]
fn ascend_at_root_changes_nothing() {
    let mut state = sample();
    state.move_next();
    let before = snapshot(&state);
    state.ascend();
    assert_eq!(snapshot(&state), before);
    assert_eq!(state.depth(), 0);
    assert_eq!(state.handle_key(Key::Left), KeyOutcome::Redraw);
    assert_eq!(state.handle_key(Key::Escape), KeyOutcome::Redraw);
    assert_eq!(snapshot(&state), before);
}

#[test]
fn keys_map_to_operations() {
    let mut state = sample();
    assert_eq!(state.handle_key(Key::Down), KeyOutcome::Redraw);
    assert_eq!(state.current_view().2, Some(1));
    assert_eq!(state.handle_key(Key::Enter), KeyOutcome::Quit);
    assert_eq!(state.handle_key(Key::Up), KeyOutcome::Redraw);
    assert_eq!(state.current_view().2, Some(0));
    assert_eq!(state.handle_key(Key::Right), KeyOutcome::Redraw);
    assert_eq!(state.depth(), 1);
    assert_eq!(state.handle_key(Key::Enter), KeyOutcome::RunCommand("echo build".to_string()));
    assert_eq!(state.handle_key(Key::Other), KeyOutcome::Ignored);
    assert_eq!(state.handle_key(Key::Quit), KeyOutcome::Quit);
    assert_eq!(state.depth(), 1);
    assert_eq!(state.handle_key(Key::Escape), KeyOutcome::Redraw);
    assert_eq!(state.depth(), 0);
    assert_eq!(state.current_view().2, Some(0));
}

#[test]
fn level_reports_what_it_was_made_of() {
    let level = MenuLevel::new("t".to_string(), vec![run("a", "1")]);
    assert_eq!(level.title(), "t");
    assert_eq!(level.items(), &vec![run("a", "1")]);
    assert_eq!(level.selected_index(), Some(0));
    let empty = MenuLevel::new("e".to_string(), Vec::new());
    assert_eq!(empty.selected_index(), None);
}

#[test]
fn copies_are_equal_to_what_they_copy() {
    let item = sub("S", vec![run("x", "2"), sub("T", vec![run("y", "3")])]);
    assert_eq!(item.clone(), item);
    assert_eq!(item.action.clone(), item.action);
    let state = sample();
    assert_eq!(state.current().clone(), *state.current());
}
