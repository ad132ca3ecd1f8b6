use quota_control::nav::{
    command_for, panel_shares, ActionState, App, Command, KeyPress, Mode, StatefulList, TabsState,
};

fn three() -> StatefulList<String> {
    StatefulList::new(vec!["a".to_string(), "b".to_string(), "c".to_string()])
}

#[test]
fn new_list_has_nothing_selected() {
    let list = three();
    assert_eq!(list.selected, None);
    assert_eq!(list.items, vec!["a", "b", "c"]);
}

#[test]
fn previous_from_the_first_wraps_to_the_last() {
    let mut list = three();
    list.select(0);
    list.previous();
    assert_eq!(list.selected, Some(2));
}

#[test]
fn next_from_the_last_wraps_to_the_first() {
    let mut list = three();
    list.select(2);
    list.next();
    assert_eq!(list.selected, Some(0));
}

#[test]
fn first_step_selects_the_first_item() {
    let mut list = three();
    list.next();
    assert_eq!(list.selected, Some(0));
    let mut list = three();
    list.previous();
    assert_eq!(list.selected, Some(0));
}

#[test]
fn steps_move_by_one() {
    let mut list = three();
    list.select(0);
    list.next();
    assert_eq!(list.selected, Some(1));
    list.next();
    assert_eq!(list.selected, Some(2));
    list.previous();
    assert_eq!(list.selected, Some(1));
    list.previous();
    assert_eq!(list.selected, Some(0));
}

#[test]
fn forward_and_back_is_where_it_was() {
    for start in 0..3usize {
        let mut list = three();
        list.select(start);
        list.next();
        list.previous();
        assert_eq!(list.selected, Some(start));
        list.previous();
        list.next();
        assert_eq!(list.selected, Some(start));
    }
}

#[test]
fn jump_to_the_last_from_anywhere() {
    for start in [None, Some(0usize), Some(1), Some(2)] {
        let mut list = three();
        if let Some(i) = start {
            list.select(i);
        }
        list.select_last();
        assert_eq!(list.selected, Some(2));
        list.select_first();
        assert_eq!(list.selected, Some(0));
    }
}

#[test]
fn list_of_one_stays_on_its_item() {
    let mut list = StatefulList::new(vec![7u8]);
    list.next();
    assert_eq!(list.selected, Some(0));
    list.next();
    assert_eq!(list.selected, Some(0));
    list.previous();
    assert_eq!(list.selected, Some(0));
    list.select_last();
    assert_eq!(list.selected, Some(0));
}

#[test]
fn empty_list_selects_nothing() {
    let mut list: StatefulList<String> = StatefulList::new(Vec::new());
    list.next();
    assert_eq!(list.selected, None);
    list.previous();
    assert_eq!(list.selected, None);
    list.select_first();
    assert_eq!(list.selected, None);
    list.select_last();
    assert_eq!(list.selected, None);
}

#[test]
fn selection_beyond_the_end_steps_to_the_first() {
    let mut list = three();
    list.select(9);
    assert_eq!(list.selected, Some(9));
    list.next();
    assert_eq!(list.selected, Some(0));
}

#[test]
fn tabs_start_at_the_first() {
    let tabs = TabsState::new(vec!["Search", "Overview"]);
    assert_eq!(tabs.index, 0);
    assert_eq!(tabs.titles, vec!["Search", "Overview"]);
}

#[test]
fn tabs_wrap() {
    let mut tabs = TabsState::new(vec!["one", "two", "three"]);
    tabs.next();
    assert_eq!(tabs.index, 1);
    tabs.next();
    assert_eq!(tabs.index, 2);
    tabs.next();
    assert_eq!(tabs.index, 0);
    assert_eq!(tabs.titles, vec!["one", "two", "three"]);
}

#[test]
fn single_tab_stays() {
    let mut tabs = TabsState::new(vec!["only"]);
    tabs.next();
    assert_eq!(tabs.index, 0);
}

#[test]
fn tab_index_at_the_machine_limit() {
    let mut tabs = TabsState { titles: vec!["a", "b", "c"], index: usize::MAX };
    tabs.next();
    assert_eq!(tabs.index as u128, (usize::MAX as u128 + 1) % 3);
}

#[test]
fn action_tabs_start_hidden() {
    let action = ActionState::new(vec!["Hit", "Kick", "Delete"]);
    assert!(!action.is_visible);
    assert_eq!(action.state.index, 0);
    assert_eq!(action.state.titles, vec!["Hit", "Kick", "Delete"]);
}

#[test]
fn keys_and_their_commands() {
    assert_eq!(command_for(KeyPress::Char('q')), Some(Command::Quit));
    assert_eq!(command_for(KeyPress::Char('\t')), Some(Command::AdvanceTopTab));
    assert_eq!(command_for(KeyPress::Down), Some(Command::SelectNextGroup));
    assert_eq!(command_for(KeyPress::Up), Some(Command::SelectPreviousGroup));
    assert_eq!(command_for(KeyPress::PageUp), Some(Command::JumpToFirstGroup));
    assert_eq!(command_for(KeyPress::PageDown), Some(Command::JumpToLastGroup));
    assert_eq!(command_for(KeyPress::Char('Q')), None);
    assert_eq!(command_for(KeyPress::Char('x')), None);
    assert_eq!(command_for(KeyPress::Other), None);
}

#[test]
fn left_and_right_both_advance_the_action_tab() {
    assert_eq!(command_for(KeyPress::Right), Some(Command::AdvanceActionTab));
    assert_eq!(command_for(KeyPress::Left), Some(Command::AdvanceActionTab));
    let mut app = App::new(Vec::new());
    for key in [KeyPress::Left, KeyPress::Left, KeyPress::Right, KeyPress::Left] {
        let before = app.action.state.index;
        assert!(app.apply(command_for(key).unwrap()));
        assert_eq!(app.action.state.index, (before + 1) % 3);
    }
}

#[test]
fn dashboard_starts_on_search() {
    let app = App::new(vec!["staff".to_string(), "ops".to_string()]);
    assert_eq!(app.tabs.titles, vec!["Search", "Overview"]);
    assert_eq!(app.tabs.index, 0);
    assert_eq!(app.action.state.titles, vec!["Hit", "Kick", "Delete"]);
    assert_eq!(app.action.state.index, 0);
    assert!(!app.action.is_visible);
    assert_eq!(app.items.selected, None);
    assert_eq!(app.items.items, vec!["staff", "ops"]);
    assert_eq!(app.mode(), Some(Mode::Search));
}

#[test]
fn commands_move_one_position_each() {
    let groups: Vec<String> = ["a", "b", "c"].iter().map(|s| s.to_string()).collect();
    let mut app = App::new(groups);
    assert!(app.apply(Command::AdvanceTopTab));
    assert_eq!((app.tabs.index, app.action.state.index, app.items.selected), (1, 0, None));
    assert_eq!(app.mode(), Some(Mode::Overview));
    assert!(app.apply(Command::AdvanceTopTab));
    assert_eq!(app.tabs.index, 0);
    assert!(app.apply(Command::AdvanceActionTab));
    assert_eq!((app.tabs.index, app.action.state.index, app.items.selected), (0, 1, None));
    assert!(app.apply(Command::SelectNextGroup));
    assert_eq!(app.items.selected, Some(0));
    assert!(app.apply(Command::SelectPreviousGroup));
    assert_eq!(app.items.selected, Some(2));
    assert!(app.apply(Command::SelectNextGroup));
    assert_eq!(app.items.selected, Some(0));
    assert!(app.apply(Command::JumpToLastGroup));
    assert_eq!(app.items.selected, Some(2));
    assert!(app.apply(Command::JumpToFirstGroup));
    assert_eq!(app.items.selected, Some(0));
    assert_eq!((app.tabs.index, app.action.state.index), (0, 1));
    assert!(!app.action.is_visible);
}

#[test]
fn quit_ends_and_moves_nothing() {
    let mut app = App::new(vec!["a".to_string()]);
    app.apply(Command::SelectNextGroup);
    app.apply(Command::AdvanceActionTab);
    assert!(!app.apply(Command::Quit));
    assert_eq!((app.tabs.index, app.action.state.index, app.items.selected), (0, 1, Some(0)));
}

#[test]
fn jumps_in_an_empty_dashboard() {
    let mut app = App::new(Vec::new());
    assert!(app.apply(Command::JumpToLastGroup));
    assert_eq!(app.items.selected, None);
    assert!(app.apply(Command::JumpToFirstGroup));
    assert_eq!(app.items.selected, None);
    assert!(app.apply(Command::SelectNextGroup));
    assert_eq!(app.items.selected, None);
    assert_eq!(app.shown_group(), None);
}

#[test]
fn shown_group_defaults_to_the_first() {
    let mut app = App::new(vec!["a".to_string(), "b".to_string()]);
    assert_eq!(app.shown_group(), Some(0));
    app.apply(Command::JumpToLastGroup);
    assert_eq!(app.shown_group(), Some(1));
    app.items.select(5);
    assert_eq!(app.shown_group(), None);
}

#[test]
fn screen_shares() {
    assert_eq!(panel_shares(false), (7, 93, 0));
    assert_eq!(panel_shares(true), (7, 86, 7));
}
