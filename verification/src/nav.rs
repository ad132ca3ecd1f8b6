//! What the dashboard shows: the tab in front, the action tab, and the
//! group that is selected; and how key presses move them.

use vstd::prelude::*;
use vstd::arithmetic::div_mod::lemma_add_mod_noop;

verus! {

/// A row of tabs, one of them in front.
#[derive(Debug, Clone)]
pub struct TabsState {
    pub titles: Vec<&'static str>,
    pub index: usize,
}

/// The action tabs, and whether they are shown.
#[derive(Debug, Clone)]
pub struct ActionState {
    pub state: TabsState,
    pub is_visible: bool,
}

/// A list with at most one of its items selected.
#[derive(Debug, Clone)]
pub struct StatefulList<T> {
    pub selected: Option<usize>,
    pub items: Vec<T>,
}

/// The state of the dashboard.
#[derive(Debug, Clone)]
pub struct App {
    pub items: StatefulList<String>,
    pub tabs: TabsState,
    pub action: ActionState,
}

/// The index after `index` among `count` tabs, the first following the
/// last.
pub open spec fn next_tab(index: usize, count: nat) -> int {
    (index + 1) % (count as int)
}

/// The selection after a step forward in a list of `len` items: the first
/// item where nothing was selected or the selection was at the end or
/// beyond, the following item otherwise. In an empty list nothing changes.
pub open spec fn index_after(selected: Option<usize>, len: nat) -> Option<usize> {
    if len == 0 {
        selected
    } else {
        match selected {
            Some(i) => if i >= len - 1 {
                Some(0usize)
            } else {
                Some((i + 1) as usize)
            },
            None => Some(0usize),
        }
    }
}

/// The selection after a step backward in a list of `len` items: the first
/// item where nothing was selected, the last where the first was, the item
/// before otherwise. In an empty list nothing changes.
pub open spec fn index_before(selected: Option<usize>, len: nat) -> Option<usize> {
    if len == 0 {
        selected
    } else {
        match selected {
            Some(i) => if i == 0 {
                Some((len - 1) as usize)
            } else {
                Some((i - 1) as usize)
            },
            None => Some(0usize),
        }
    }
}

/// Whether a selection points into a list of `len` items.
pub open spec fn in_range(selected: Option<usize>, len: nat) -> bool {
    match selected {
        Some(i) => i < len,
        None => true,
    }
}

/// A remainder is its own remainder.
proof fn lemma_small_mod(x: int, m: usize)
    requires
        m > 0,
        0 <= x <= m,
    ensures
        x % (m as int) == (if x == m {
            0
        } else {
            x
        }),
{
    if x == m {
        assert(x % (m as int) == 0) by (nonlinear_arith)
            requires
                x == m,
                m > 0,
        ;
    } else {
        assert(x % (m as int) == x) by (nonlinear_arith)
            requires
                0 <= x < m,
        ;
    }
}

impl TabsState {
    /// The tab in front is one of the tabs.
    pub open spec fn wf(&self) -> bool {
        self.index < self.titles@.len()
    }

    /// A row of tabs with the first in front.
    pub fn new(titles: Vec<&'static str>) -> (tabs: TabsState)
        ensures
            tabs.titles == titles,
            tabs.index == 0,
            titles@.len() > 0 ==> tabs.wf(),
    {
        TabsState { titles, index: 0 }
    }

    /// Brings the next tab to the front, the first after the last.
    pub fn next(&mut self)
        requires
            old(self).titles@.len() > 0,
        ensures
            final(self).titles == old(self).titles,
            final(self).index == next_tab(old(self).index, old(self).titles@.len()),
            final(self).wf(),
    {
        let count = self.titles.len();
        proof {
            let m = count as int;
            let i = self.index as int;
            lemma_add_mod_noop(i, 1, m);
            if count == 1 {
                assert((i + 1) % 1 == 0);
                assert((i % 1 + 1) % 1 == 0);
            } else {
                lemma_small_mod(1, count);
            }
        }
        self.index = (self.index % count + 1) % count;
    }
}

impl ActionState {
    /// Action tabs with the first in front, not shown.
    pub fn new(titles: Vec<&'static str>) -> (action: ActionState)
        ensures
            action.state.titles == titles,
            action.state.index == 0,
            !action.is_visible,
            titles@.len() > 0 ==> action.state.wf(),
    {
        ActionState { state: TabsState { titles, index: 0 }, is_visible: false }
    }
}

impl<T> StatefulList<T> {
    /// The selection, if there is one, points at an item.
    pub open spec fn wf(&self) -> bool {
        in_range(self.selected, self.items@.len())
    }

    /// A list with nothing selected.
    pub fn new(items: Vec<T>) -> (list: StatefulList<T>)
        ensures
            list.items == items,
            list.selected is None,
            list.wf(),
    {
        StatefulList { selected: None, items }
    }

    /// Moves the selection one item forward, from the last item to the
    /// first. With nothing selected, the first item is.
    pub fn next(&mut self)
        ensures
            final(self).items == old(self).items,
            final(self).selected == index_after(old(self).selected, old(self).items@.len()),
            old(self).items@.len() > 0 ==> final(self).wf(),
            old(self).wf() ==> final(self).wf(),
    {
        let len = self.items.len();
        if len == 0 {
            return;
        }
        let i: usize = match self.selected {
            Some(i) => {
                if i >= len - 1 {
                    0
                } else {
                    i + 1
                }
            },
            None => 0,
        };
        self.selected = Some(i);
    }

    /// Moves the selection one item backward, from the first item to the
    /// last. With nothing selected, the first item is.
    pub fn previous(&mut self)
        ensures
            final(self).items == old(self).items,
            final(self).selected == index_before(old(self).selected, old(self).items@.len()),
            old(self).wf() ==> final(self).wf(),
    {
        let len = self.items.len();
        if len == 0 {
            return;
        }
        let i: usize = match self.selected {
            Some(i) => {
                if i == 0 {
                    len - 1
                } else {
                    i - 1
                }
            },
            None => 0,
        };
        self.selected = Some(i);
    }

    /// Selects the item at `state`.
    pub fn select(&mut self, state: usize)
        ensures
            final(self).items == old(self).items,
            final(self).selected == Some(state),
            final(self).wf() == (state < old(self).items@.len()),
    {
        self.selected = Some(state);
    }

    /// Selects the first item, whatever was selected. In an empty list
    /// nothing changes.
    pub fn select_first(&mut self)
        ensures
            final(self).items == old(self).items,
            old(self).items@.len() > 0 ==> final(self).selected == Some(0usize),
            old(self).items@.len() == 0 ==> final(self).selected == old(self).selected,
            old(self).items@.len() > 0 ==> final(self).wf(),
            old(self).wf() ==> final(self).wf(),
    {
        if self.items.len() > 0 {
            self.select(0);
        }
    }

    /// Selects the last item, whatever was selected. In an empty list
    /// nothing changes.
    pub fn select_last(&mut self)
        ensures
            final(self).items == old(self).items,
            old(self).items@.len() > 0 ==> final(self).selected == Some(
                (old(self).items@.len() - 1) as usize,
            ),
            old(self).items@.len() == 0 ==> final(self).selected == old(self).selected,
            old(self).items@.len() > 0 ==> final(self).wf(),
            old(self).wf() ==> final(self).wf(),
    {
        let len = self.items.len();
        if len > 0 {
            self.select(len - 1);
        }
    }
}

/// Stepping through a list of `len` items goes round: back from the first
/// item is the last, forward from the last is the first, and a step forward
/// undoes a step backward, and the other way round, wherever something in
/// range is selected. A selection in range stays in range.
pub proof fn lemma_selection_wraps(selected: Option<usize>, len: nat)
    requires
        len > 0,
        len <= usize::MAX,
        in_range(selected, len),
    ensures
        index_before(Some(0usize), len) == Some((len - 1) as usize),
        index_after(Some((len - 1) as usize), len) == Some(0usize),
        in_range(index_after(selected, len), len),
        in_range(index_before(selected, len), len),
        index_after(selected, len) is Some,
        index_before(selected, len) is Some,
        selected is Some ==> index_before(index_after(selected, len), len) == selected,
        selected is Some ==> index_after(index_before(selected, len), len) == selected,
{
}

/// A key press, as far as the dashboard tells keys apart.
#[derive(Clone, Copy, Debug, PartialEq, Eq, Structural)]
pub enum KeyPress {
    Char(char),
    Left,
    Right,
    Up,
    Down,
    PageUp,
    PageDown,
    Other,
}

/// What a key press asks the dashboard to do.
#[derive(Clone, Copy, Debug, PartialEq, Eq, Structural)]
pub enum Command {
    AdvanceTopTab,
    AdvanceActionTab,
    SelectNextGroup,
    SelectPreviousGroup,
    JumpToFirstGroup,
    JumpToLastGroup,
    Quit,
}

/// What the tab in front shows.
#[derive(Clone, Copy, Debug, PartialEq, Eq, Structural)]
pub enum Mode {
    /// The data of the selected group, beside the list of groups.
    Search,
    /// An overview.
    Overview,
}

/// The command that a key stands for. `q` quits, the tab key brings the
/// next top tab forward, both the left and the right arrow bring the next
/// action tab forward, the down and up arrows step through the groups, and
/// page down and page up jump to the last and the first group. Other keys
/// ask for nothing.
pub open spec fn command_of(key: KeyPress) -> Option<Command> {
    match key {
        KeyPress::Char(c) => if c == 'q' {
            Some(Command::Quit)
        } else if c == '\t' {
            Some(Command::AdvanceTopTab)
        } else {
            None
        },
        KeyPress::Right => Some(Command::AdvanceActionTab),
        KeyPress::Left => Some(Command::AdvanceActionTab),
        KeyPress::Down => Some(Command::SelectNextGroup),
        KeyPress::Up => Some(Command::SelectPreviousGroup),
        KeyPress::PageUp => Some(Command::JumpToFirstGroup),
        KeyPress::PageDown => Some(Command::JumpToLastGroup),
        KeyPress::Other => None,
    }
}

/// Tells which command a key stands for, if any.
pub fn command_for(key: KeyPress) -> (command: Option<Command>)
    ensures
        command == command_of(key),
{
    match key {
        KeyPress::Char(c) => {
            if c == 'q' {
                Some(Command::Quit)
            } else if c == '\t' {
                Some(Command::AdvanceTopTab)
            } else {
                None
            }
        },
        KeyPress::Right => Some(Command::AdvanceActionTab),
        KeyPress::Left => Some(Command::AdvanceActionTab),
        KeyPress::Down => Some(Command::SelectNextGroup),
        KeyPress::Up => Some(Command::SelectPreviousGroup),
        KeyPress::PageUp => Some(Command::JumpToFirstGroup),
        KeyPress::PageDown => Some(Command::JumpToLastGroup),
        KeyPress::Other => None,
    }
}

/// How the height of the screen is shared, in percent, between the tab bar,
/// the main panel and the action tabs.
pub open spec fn shares_of(action_visible: bool) -> (u16, u16, u16) {
    if action_visible {
        (7, 86, 7)
    } else {
        (7, 93, 0)
    }
}

/// Shares the height of the screen between the three panels.
pub fn panel_shares(action_visible: bool) -> (shares: (u16, u16, u16))
    ensures
        shares == shares_of(action_visible),
        shares.0 + shares.1 + shares.2 == 100,
{
    if action_visible {
        (7, 86, 7)
    } else {
        (7, 93, 0)
    }
}

/// The positions that a dashboard holds, without its texts.
pub struct NavModel {
    pub top_tab: int,
    pub top_count: nat,
    pub action_tab: int,
    pub action_count: nat,
    pub action_visible: bool,
    pub selected: Option<usize>,
    pub group_count: nat,
}

/// The positions after `command`. Only the position that the command is
/// about moves; quitting moves none.
pub open spec fn step(state: NavModel, command: Command) -> NavModel {
    match command {
        Command::AdvanceTopTab => NavModel {
            top_tab: (state.top_tab + 1) % (state.top_count as int),
            ..state
        },
        Command::AdvanceActionTab => NavModel {
            action_tab: (state.action_tab + 1) % (state.action_count as int),
            ..state
        },
        Command::SelectNextGroup => NavModel {
            selected: index_after(state.selected, state.group_count),
            ..state
        },
        Command::SelectPreviousGroup => NavModel {
            selected: index_before(state.selected, state.group_count),
            ..state
        },
        Command::JumpToFirstGroup => NavModel {
            selected: if state.group_count > 0 {
                Some(0usize)
            } else {
                state.selected
            },
            ..state
        },
        Command::JumpToLastGroup => NavModel {
            selected: if state.group_count > 0 {
                Some((state.group_count - 1) as usize)
            } else {
                state.selected
            },
            ..state
        },
        Command::Quit => state,
    }
}

impl View for App {
    type V = NavModel;

    open spec fn view(&self) -> NavModel {
        NavModel {
            top_tab: self.tabs.index as int,
            top_count: self.tabs.titles@.len(),
            action_tab: self.action.state.index as int,
            action_count: self.action.state.titles@.len(),
            action_visible: self.action.is_visible,
            selected: self.items.selected,
            group_count: self.items.items@.len(),
        }
    }
}

impl App {
    /// Every position points at something: the tab in front and the action
    /// tab are tabs, and the selection, if there is one, is a group.
    pub open spec fn wf(&self) -> bool {
        &&& self.tabs.wf()
        &&& self.action.state.wf()
        &&& self.items.wf()
    }

    /// The dashboard as it starts: the first of the two top tabs in front,
    /// the first of the three action tabs, the action tabs hidden, and no
    /// group selected.
    pub fn new(groups: Vec<String>) -> (app: App)
        ensures
            app.wf(),
            app.items.items == groups,
            app@ == (NavModel {
                top_tab: 0,
                top_count: 2,
                action_tab: 0,
                action_count: 3,
                action_visible: false,
                selected: None,
                group_count: groups@.len(),
            }),
    {
        let mut top: Vec<&'static str> = Vec::new();
        top.push("Search");
        top.push("Overview");
        let mut actions: Vec<&'static str> = Vec::new();
        actions.push("Hit");
        actions.push("Kick");
        actions.push("Delete");
        App {
            items: StatefulList::new(groups),
            tabs: TabsState::new(top),
            action: ActionState::new(actions),
        }
    }

    /// Carries out `command` and tells whether the dashboard goes on:
    /// it does after every command but `Quit`.
    pub fn apply(&mut self, command: Command) -> (running: bool)
        requires
            old(self).wf(),
        ensures
            final(self).wf(),
            final(self)@ == step(old(self)@, command),
            final(self).items.items == old(self).items.items,
            final(self).tabs.titles == old(self).tabs.titles,
            final(self).action.state.titles == old(self).action.state.titles,
            running == (command != Command::Quit),
            command == Command::JumpToLastGroup && old(self).items.items@.len() > 0
                ==> final(self).items.selected == Some((old(self).items.items@.len() - 1) as usize),
            command == Command::JumpToFirstGroup && old(self).items.items@.len() > 0
                ==> final(self).items.selected == Some(0usize),
    {
        match command {
            Command::AdvanceTopTab => {
                self.tabs.next();
            },
            Command::AdvanceActionTab => {
                self.action.state.next();
            },
            Command::SelectNextGroup => {
                self.items.next();
            },
            Command::SelectPreviousGroup => {
                self.items.previous();
            },
            Command::JumpToFirstGroup => {
                self.items.select_first();
            },
            Command::JumpToLastGroup => {
                self.items.select_last();
            },
            Command::Quit => {
                return false;
            },
        }
        true
    }

    /// What the tab in front shows: the first tab the search, the second
    /// the overview. Further tabs show nothing.
    pub fn mode(&self) -> (mode: Option<Mode>)
        ensures
            mode == (if self.tabs.index == 0 {
                Some(Mode::Search)
            } else if self.tabs.index == 1 {
                Some(Mode::Overview)
            } else {
                None
            }),
    {
        if self.tabs.index == 0 {
            Some(Mode::Search)
        } else if self.tabs.index == 1 {
            Some(Mode::Overview)
        } else {
            None
        }
    }

    /// The place of the group whose data is shown: the selected group, or the
    /// first while none is selected. Where the list has no such group,
    /// nothing is shown.
    pub fn shown_group(&self) -> (shown: Option<usize>)
        ensures
            shown == (match self.items.selected {
                Some(i) => if i < self.items.items@.len() {
                    Some(i)
                } else {
                    None
                },
                None => if self.items.items@.len() > 0 {
                    Some(0usize)
                } else {
                    None
                },
            }),
            shown is Some ==> shown->0 < self.items.items@.len(),
    {
        let i: usize = match self.items.selected {
            Some(i) => i,
            None => 0,
        };
        if i < self.items.items.len() {
            Some(i)
        } else {
            None
        }
    }
}

/// Whatever commands come, in whatever order, the positions of a dashboard
/// stay in range: no command leads out of the well-formed states.
pub proof fn lemma_step_keeps_range(state: NavModel, command: Command)
    requires
        0 <= state.top_tab < state.top_count,
        0 <= state.action_tab < state.action_count,
        in_range(state.selected, state.group_count),
        state.group_count <= usize::MAX,
    ensures
        0 <= step(state, command).top_tab < state.top_count,
        0 <= step(state, command).action_tab < state.action_count,
        in_range(step(state, command).selected, state.group_count),
        step(state, command).top_count == state.top_count,
        step(state, command).action_count == state.action_count,
        step(state, command).group_count == state.group_count,
        step(state, command).action_visible == state.action_visible,
        command == Command::JumpToLastGroup && state.group_count > 0 ==> step(
            state,
            command,
        ).selected == Some((state.group_count - 1) as usize),
{
}

} // verus!
