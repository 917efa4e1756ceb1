//! Navigation over a menu: the level on display, the selection in it, and the
//! levels above it.

use crate::menu::{copy_items, models, Action, ActionModel, ItemModel, MenuItem};
use crate::text::{chars_of, slice_of, strip_range, trim, unquote, Pattern};
use vstd::prelude::*;

verus! {

/// A level as a mathematical value.
pub struct LevelModel {
    pub title: Seq<char>,
    pub items: Seq<ItemModel>,
    pub selected: Option<nat>,
}

/// A navigation state as a mathematical value. The last level of `history`
/// is the nearest ancestor of `current`.
pub struct NavModel {
    pub current: LevelModel,
    pub history: Seq<LevelModel>,
}

/// What an activation decides, as a mathematical value.
pub enum DispatchModel {
    Quit,
    RunCommand(Seq<char>),
    Descended,
    Nothing,
}

/// What a key press asks of the caller, as a mathematical value.
pub enum OutcomeModel {
    Ignored,
    Quit,
    RunCommand(Seq<char>),
    Redraw,
}

/// The selection of a fresh level over `n` items: the first item, or none
/// where there is no item.
pub open spec fn first_selection(n: nat) -> Option<nat> {
    if n == 0 {
        None
    } else {
        Some(0)
    }
}

/// A level is valid when nothing is selected exactly if it has no items, and
/// a selection is the index of one of its items.
pub open spec fn valid_level(m: LevelModel) -> bool {
    match m.selected {
        Some(i) => i < m.items.len(),
        None => m.items.len() == 0,
    }
}

/// The level that follows `history[k]` on the way down to `current`.
pub open spec fn level_below(m: NavModel, k: int) -> LevelModel {
    if k + 1 < m.history.len() {
        m.history[k + 1]
    } else {
        m.current
    }
}

/// Whether `child` is what opening the selected item of `parent` shows.
pub open spec fn opens(parent: LevelModel, child: LevelModel) -> bool {
    &&& parent.selected is Some
    &&& parent.selected->0 < parent.items.len()
    &&& parent.items[parent.selected->0 as int].label == child.title
    &&& parent.items[parent.selected->0 as int].action == ActionModel::OpenSubmenu(child.items)
}

/// A state is valid when every level is valid and the history is the chain
/// of ancestors of the current level, from the root down: each level of it
/// has a submenu selected, and the level below is that submenu.
pub open spec fn valid_nav(m: NavModel) -> bool {
    &&& valid_level(m.current)
    &&& forall|k: int|
        0 <= k < m.history.len() ==> valid_level(#[trigger] m.history[k]) && opens(
            m.history[k],
            level_below(m, k),
        )
}

/// The level with the selection moved one item down, from the last item to
/// the first.
pub open spec fn next_of(m: LevelModel) -> LevelModel {
    LevelModel {
        title: m.title,
        items: m.items,
        selected: match m.selected {
            Some(i) => Some(
                if i + 1 >= m.items.len() {
                    0
                } else {
                    i + 1
                },
            ),
            None => None,
        },
    }
}

/// The level with the selection moved one item up, from the first item to
/// the last.
pub open spec fn previous_of(m: LevelModel) -> LevelModel {
    LevelModel {
        title: m.title,
        items: m.items,
        selected: match m.selected {
            Some(i) => Some(
                if i == 0 {
                    (m.items.len() - 1) as nat
                } else {
                    (i - 1) as nat
                },
            ),
            None => None,
        },
    }
}

/// The level after `n` moves down.
pub open spec fn next_times(m: LevelModel, n: nat) -> LevelModel
    decreases n,
{
    if n == 0 {
        m
    } else {
        next_of(next_times(m, (n - 1) as nat))
    }
}

/// The word that, as a command, asks to leave the application.
pub open spec fn exit_word() -> Seq<char> {
    seq!['e', 'x', 'i', 't']
}

/// A command as it is compared and handed out: trimmed, then without the
/// double quotes at its ends.
pub open spec fn normalized(command: Seq<char>) -> Seq<char> {
    unquote(trim(command))
}

/// The item that is selected in `m`, if any.
pub open spec fn selected_item(m: LevelModel) -> Option<ItemModel> {
    match m.selected {
        Some(i) => if i < m.items.len() {
            Some(m.items[i as int])
        } else {
            None
        },
        None => None,
    }
}

/// What activating the selection of `m` decides.
pub open spec fn dispatch_of(m: NavModel) -> DispatchModel {
    match selected_item(m.current) {
        Some(item) => match item.action {
            ActionModel::Execute(command) => if normalized(command) == exit_word() {
                DispatchModel::Quit
            } else {
                DispatchModel::RunCommand(normalized(command))
            },
            ActionModel::OpenSubmenu(_) => DispatchModel::Descended,
        },
        None => DispatchModel::Nothing,
    }
}

/// The state after activating the selection of `m`: one level further down
/// where a submenu is selected, `m` itself otherwise.
pub open spec fn activated(m: NavModel) -> NavModel {
    match selected_item(m.current) {
        Some(item) => match item.action {
            ActionModel::Execute(_) => m,
            ActionModel::OpenSubmenu(children) => NavModel {
                current: LevelModel {
                    title: item.label,
                    items: children,
                    selected: first_selection(children.len()),
                },
                history: m.history.push(m.current),
            },
        },
        None => m,
    }
}

/// The state after going back: the nearest ancestor as it was left, or `m`
/// itself at the root.
pub open spec fn ascended(m: NavModel) -> NavModel {
    if m.history.len() == 0 {
        m
    } else {
        NavModel { current: m.history.last(), history: m.history.drop_last() }
    }
}

/// A key, as far as the navigation tells keys apart.
#[derive(Clone, Copy, Debug, PartialEq, Eq)]
pub enum Key {
    Down,
    Up,
    Enter,
    Right,
    Left,
    Escape,
    Quit,
    Other,
}

/// The state after a key press.
pub open spec fn state_after(m: NavModel, key: Key) -> NavModel {
    match key {
        Key::Down => NavModel { current: next_of(m.current), history: m.history },
        Key::Up => NavModel { current: previous_of(m.current), history: m.history },
        Key::Enter | Key::Right => activated(m),
        Key::Left | Key::Escape => ascended(m),
        Key::Quit | Key::Other => m,
    }
}

/// What a key press asks of the caller.
pub open spec fn outcome_of(m: NavModel, key: Key) -> OutcomeModel {
    match key {
        Key::Down | Key::Up | Key::Left | Key::Escape => OutcomeModel::Redraw,
        Key::Enter | Key::Right => match dispatch_of(m) {
            DispatchModel::Quit => OutcomeModel::Quit,
            DispatchModel::RunCommand(command) => OutcomeModel::RunCommand(command),
            DispatchModel::Descended => OutcomeModel::Redraw,
            DispatchModel::Nothing => OutcomeModel::Ignored,
        },
        Key::Quit => OutcomeModel::Quit,
        Key::Other => OutcomeModel::Ignored,
    }
}

/// The decision made when the selection is activated.
#[derive(Debug, PartialEq, Eq)]
pub enum DispatchResult {
    /// Leave the application.
    Quit,
    /// Run this command line; the caller does so.
    RunCommand(String),
    /// A submenu was opened and is now the current level.
    Descended,
    /// Nothing is selected.
    Nothing,
}

impl View for DispatchResult {
    type V = DispatchModel;

    open spec fn view(&self) -> DispatchModel {
        match self {
            DispatchResult::Quit => DispatchModel::Quit,
            DispatchResult::RunCommand(command) => DispatchModel::RunCommand(command@),
            DispatchResult::Descended => DispatchModel::Descended,
            DispatchResult::Nothing => DispatchModel::Nothing,
        }
    }
}

/// What the caller is to do after a key press.
#[derive(Debug, PartialEq, Eq)]
pub enum KeyOutcome {
    /// Nothing changed.
    Ignored,
    /// Leave the application.
    Quit,
    /// Run this command line, then draw the screen anew.
    RunCommand(String),
    /// Draw the screen anew.
    Redraw,
}

impl View for KeyOutcome {
    type V = OutcomeModel;

    open spec fn view(&self) -> OutcomeModel {
        match self {
            KeyOutcome::Ignored => OutcomeModel::Ignored,
            KeyOutcome::Quit => OutcomeModel::Quit,
            KeyOutcome::RunCommand(command) => OutcomeModel::RunCommand(command@),
            KeyOutcome::Redraw => OutcomeModel::Redraw,
        }
    }
}

/// A command as it is compared and handed out.
pub fn normalize(command: &str) -> (r: String)
    ensures
        r@ == normalized(command@),
{
    let chars = chars_of(command);
    let (a, b) = strip_range(&chars, 0, chars.len(), Pattern::Space);
    assert(chars@.subrange(0, chars.len() as int) =~= chars@);
    let (c, d) = strip_range(&chars, a, b, Pattern::Exactly('"'));
    slice_of(command, c, d)
}

/// Whether a command, once normalized, is the word `exit`.
pub fn is_exit(command: &str) -> (r: bool)
    ensures
        r == (normalized(command@) == exit_word()),
{
    let chars = chars_of(command);
    let (a, b) = strip_range(&chars, 0, chars.len(), Pattern::Space);
    assert(chars@.subrange(0, chars.len() as int) =~= chars@);
    let (c, d) = strip_range(&chars, a, b, Pattern::Exactly('"'));
    let ghost word = chars@.subrange(c as int, d as int);
    if d - c == 4 && chars[c] == 'e' && chars[c + 1] == 'x' && chars[c + 2] == 'i' && chars[c + 3]
        == 't' {
        assert(word =~= exit_word());
        true
    } else {
        assert(word.len() == 4 ==> word[0] == chars@[c as int] && word[1] == chars@[c + 1]
            && word[2] == chars@[c + 2] && word[3] == chars@[c + 3]);
        false
    }
}

/// The items on display with the selection among them.
#[derive(Debug, PartialEq, Eq)]
pub struct MenuLevel {
    title: String,
    items: Vec<MenuItem>,
    selected_index: Option<usize>,
}

impl View for MenuLevel {
    type V = LevelModel;

    closed spec fn view(&self) -> LevelModel {
        LevelModel {
            title: self.title@,
            items: models(self.items@),
            selected: match self.selected_index {
                Some(i) => Some(i as nat),
                None => None,
            },
        }
    }
}

impl MenuLevel {
    /// Whether the selection fits the items.
    pub open spec fn wf(&self) -> bool {
        valid_level(self@)
    }

    /// A level over `items` with its first item selected.
    pub fn new(title: String, items: Vec<MenuItem>) -> (r: Self)
        ensures
            r.wf(),
            r@ == (LevelModel {
                title: title@,
                items: models(items@),
                selected: first_selection(items@.len()),
            }),
    {
        let selected_index = if items.len() == 0 {
            None
        } else {
            Some(0)
        };
        MenuLevel { title, items, selected_index }
    }

    /// The level's title.
    pub fn title(&self) -> (r: &String)
        ensures
            r@ == self@.title,
    {
        &self.title
    }

    /// The level's items.
    pub fn items(&self) -> (r: &Vec<MenuItem>)
        ensures
            models(r@) == self@.items,
    {
        &self.items
    }

    /// The index of the selected item: none exactly if the level has no
    /// items, and otherwise the index of one of them.
    pub fn selected_index(&self) -> (r: Option<usize>)
        requires
            self.wf(),
        ensures
            r is None <==> self@.items.len() == 0,
            r matches Some(i) ==> i < self@.items.len() && self@.selected == Some(i as nat),
            r is None ==> self@.selected is None,
    {
        self.selected_index
    }

    /// Moves the selection one item down, from the last item to the first.
    /// A level without items is left as it is.
    pub fn select_next(&mut self)
        requires
            old(self).wf(),
        ensures
            final(self).wf(),
            final(self)@ == next_of(old(self)@),
    {
        match self.selected_index {
            Some(i) => {
                assert(i < self.items.len());
                let n: usize = if i + 1 >= self.items.len() {
                    0
                } else {
                    i + 1
                };
                self.selected_index = Some(n);
            },
            None => {},
        }
    }

    /// Moves the selection one item up, from the first item to the last.
    /// A level without items is left as it is.
    pub fn select_previous(&mut self)
        requires
            old(self).wf(),
        ensures
            final(self).wf(),
            final(self)@ == previous_of(old(self)@),
    {
        match self.selected_index {
            Some(i) => {
                assert(i < self.items.len());
                let n: usize = if i == 0 {
                    self.items.len() - 1
                } else {
                    i - 1
                };
                self.selected_index = Some(n);
            },
            None => {},
        }
    }
}

impl Clone for MenuLevel {
    fn clone(&self) -> (r: Self)
        ensures
            r@ == self@,
    {
        MenuLevel {
            title: self.title.clone(),
            items: copy_items(&self.items),
            selected_index: self.selected_index,
        }
    }
}

/// The current level and the levels above it.
#[derive(Debug, PartialEq, Eq)]
pub struct NavigationState {
    current: MenuLevel,
    history: Vec<MenuLevel>,
}

impl View for NavigationState {
    type V = NavModel;

    closed spec fn view(&self) -> NavModel {
        NavModel {
            current: self.current@,
            history: Seq::new(self.history@.len(), |k: int| self.history@[k]@),
        }
    }
}

impl NavigationState {
    /// Whether every level is valid and the history is the chain of
    /// ancestors of the current level.
    pub open spec fn wf(&self) -> bool {
        valid_nav(self@)
    }

    /// The state at the root of a menu: its first item selected, no history.
    pub fn new(title: String, items: Vec<MenuItem>) -> (r: Self)
        ensures
            r.wf(),
            r@ == (NavModel {
                current: LevelModel {
                    title: title@,
                    items: models(items@),
                    selected: first_selection(items@.len()),
                },
                history: Seq::empty(),
            }),
    {
        let r = NavigationState { current: MenuLevel::new(title, items), history: Vec::new() };
        assert(r@.history =~= Seq::empty());
        r
    }

    /// The level on display.
    pub fn current(&self) -> (r: &MenuLevel)
        requires
            self.wf(),
        ensures
            r@ == self@.current,
            r.wf(),
    {
        &self.current
    }

    /// What is to be drawn: the title, the items and the selection.
    pub fn current_view(&self) -> (r: (&String, &Vec<MenuItem>, Option<usize>))
        requires
            self.wf(),
        ensures
            r.0@ == self@.current.title,
            models(r.1@) == self@.current.items,
            r.2 is None <==> self@.current.items.len() == 0,
            r.2 matches Some(i) ==> i < self@.current.items.len() && self@.current.selected
                == Some(i as nat),
    {
        (&self.current.title, &self.current.items, self.current.selected_index)
    }

    /// How many levels lie above the current one; zero at the root.
    pub fn depth(&self) -> (r: usize)
        ensures
            r == self@.history.len(),
    {
        self.history.len()
    }

    /// Moves the selection one item down, with wraparound.
    pub fn move_next(&mut self)
        requires
            old(self).wf(),
        ensures
            final(self).wf(),
            final(self)@ == (NavModel {
                current: next_of(old(self)@.current),
                history: old(self)@.history,
            }),
    {
        self.current.select_next();
        proof {
            lemma_same_chain(old(self)@, final(self)@);
        }
    }

    /// Moves the selection one item up, with wraparound.
    pub fn move_previous(&mut self)
        requires
            old(self).wf(),
        ensures
            final(self).wf(),
            final(self)@ == (NavModel {
                current: previous_of(old(self)@.current),
                history: old(self)@.history,
            }),
    {
        self.current.select_previous();
        proof {
            lemma_same_chain(old(self)@, final(self)@);
        }
    }

    /// Activates the selection. On a command: `Quit` where the normalized
    /// command is the word `exit`, else `RunCommand` with the normalized
    /// command; the state stays as it is. On a submenu: the current level
    /// goes onto the history and the submenu becomes the current level, with
    /// its first item selected.
    pub fn activate(&mut self) -> (r: DispatchResult)
        requires
            old(self).wf(),
        ensures
            final(self).wf(),
            r@ == dispatch_of(old(self)@),
            final(self)@ == activated(old(self)@),
    {
        let index = match self.current.selected_index {
            Some(i) => i,
            None => {
                return DispatchResult::Nothing;
            },
        };
        let item = &self.current.items[index];
        assert(item@ == self@.current.items[index as int]);
        match &item.action {
            Action::Execute(command) => {
                if is_exit(command.as_str()) {
                    DispatchResult::Quit
                } else {
                    DispatchResult::RunCommand(normalize(command.as_str()))
                }
            },
            Action::OpenSubmenu(children) => {
                let mut level = MenuLevel::new(item.label.clone(), copy_items(children));
                core::mem::swap(&mut self.current, &mut level);
                self.history.push(level);
                proof {
                    assert(final(self)@.history =~= old(self)@.history.push(old(self)@.current));
                    lemma_activated_valid(old(self)@);
                }
                DispatchResult::Descended
            },
        }
    }

    /// Goes back to the nearest ancestor, which comes back as it was left.
    /// At the root nothing changes.
    pub fn ascend(&mut self)
        requires
            old(self).wf(),
        ensures
            final(self).wf(),
            final(self)@ == ascended(old(self)@),
    {
        match self.history.pop() {
            Some(level) => {
                self.current = level;
                proof {
                    assert(final(self)@.history =~= old(self)@.history.drop_last());
                    lemma_ascended_valid(old(self)@);
                }
            },
            None => {
                assert(final(self)@.history =~= old(self)@.history);
            },
        }
    }

    /// Handles one key press: down and up move the selection, enter and
    /// right activate it, left and escape go back, and the quit key asks to
    /// leave.
    pub fn handle_key(&mut self, key: Key) -> (r: KeyOutcome)
        requires
            old(self).wf(),
        ensures
            final(self).wf(),
            final(self)@ == state_after(old(self)@, key),
            r@ == outcome_of(old(self)@, key),
    {
        match key {
            Key::Down => {
                self.move_next();
                KeyOutcome::Redraw
            },
            Key::Up => {
                self.move_previous();
                KeyOutcome::Redraw
            },
            Key::Enter | Key::Right => match self.activate() {
                DispatchResult::Quit => KeyOutcome::Quit,
                DispatchResult::RunCommand(command) => KeyOutcome::RunCommand(command),
                DispatchResult::Descended => KeyOutcome::Redraw,
                DispatchResult::Nothing => KeyOutcome::Ignored,
            },
            Key::Left | Key::Escape => {
                self.ascend();
                KeyOutcome::Redraw
            },
            Key::Quit => KeyOutcome::Quit,
            Key::Other => KeyOutcome::Ignored,
        }
    }
}

/// A move of the selection within the current level keeps a valid state
/// valid: the items and the title, by which the chain holds, stay.
proof fn lemma_same_chain(a: NavModel, b: NavModel)
    requires
        valid_nav(a),
        valid_level(b.current),
        b.history == a.history,
        b.current.title == a.current.title,
        b.current.items == a.current.items,
    ensures
        valid_nav(b),
{
    assert forall|k: int| 0 <= k < b.history.len() implies valid_level(#[trigger] b.history[k])
        && opens(b.history[k], level_below(b, k)) by {
        assert(valid_level(a.history[k]) && opens(a.history[k], level_below(a, k)));
    }
}

/// Activation keeps a valid state valid.
pub proof fn lemma_activated_valid(m: NavModel)
    requires
        valid_nav(m),
    ensures
        valid_nav(activated(m)),
{
    let n = activated(m);
    if n != m {
        assert forall|k: int| 0 <= k < n.history.len() implies valid_level(#[trigger] n.history[k])
            && opens(n.history[k], level_below(n, k)) by {
            if k < m.history.len() {
                assert(valid_level(m.history[k]) && opens(m.history[k], level_below(m, k)));
            }
        }
    }
}

/// Going back keeps a valid state valid.
pub proof fn lemma_ascended_valid(m: NavModel)
    requires
        valid_nav(m),
    ensures
        valid_nav(ascended(m)),
{
    let n = ascended(m);
    if m.history.len() > 0 {
        assert(valid_level(m.history[m.history.len() - 1]));
        assert forall|k: int| 0 <= k < n.history.len() implies valid_level(#[trigger] n.history[k])
            && opens(n.history[k], level_below(n, k)) by {
            assert(valid_level(m.history[k]) && opens(m.history[k], level_below(m, k)));
        }
    }
}

} // verus!
