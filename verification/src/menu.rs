//! The menu tree: items, what each one does, and the model the contracts speak of.

use vstd::prelude::*;

verus! {

/// What an item does, as a mathematical value.
pub enum ActionModel {
    Execute(Seq<char>),
    OpenSubmenu(Seq<ItemModel>),
}

/// A menu item as a mathematical value.
pub struct ItemModel {
    pub label: Seq<char>,
    pub action: ActionModel,
}

/// What selecting an item does: run a command line, or open a nested list.
#[derive(Debug, PartialEq, Eq)]
pub enum Action {
    Execute(String),
    OpenSubmenu(Vec<MenuItem>),
}

/// One entry of a menu.
#[derive(Debug, PartialEq, Eq)]
pub struct MenuItem {
    pub label: String,
    pub action: Action,
}

/// The models of the items of a list, in order.
pub open spec fn models(items: Seq<MenuItem>) -> Seq<ItemModel>
    decreases items,
{
    Seq::new(
        items.len(),
        |i: int|
            if 0 <= i < items.len() {
                item_model(items[i])
            } else {
                arbitrary()
            },
    )
}

/// The model of one item.
pub open spec fn item_model(item: MenuItem) -> ItemModel
    decreases item,
{
    ItemModel { label: item.label@, action: action_model(item.action) }
}

/// The model of one action.
pub open spec fn action_model(action: Action) -> ActionModel
    decreases action,
{
    match action {
        Action::Execute(command) => ActionModel::Execute(command@),
        Action::OpenSubmenu(items) => ActionModel::OpenSubmenu(models(items@)),
    }
}

impl View for Action {
    type V = ActionModel;

    open spec fn view(&self) -> ActionModel {
        action_model(*self)
    }
}

impl View for MenuItem {
    type V = ItemModel;

    open spec fn view(&self) -> ItemModel {
        item_model(*self)
    }
}

/// A copy of a list of items, with the same model.
pub fn copy_items(items: &Vec<MenuItem>) -> (r: Vec<MenuItem>)
    ensures
        models(r@) == models(items@),
    decreases items,
{
    let mut out: Vec<MenuItem> = Vec::new();
    let mut i: usize = 0;
    while i < items.len()
        invariant
            i <= items.len(),
            out.len() == i,
            forall|j: int| 0 <= j < i ==> item_model(out[j]) == item_model(items[j]),
        decreases items.len() - i,
    {
        let item = copy_item(&items[i]);
        out.push(item);
        i += 1;
    }
    assert(models(out@) =~= models(items@));
    out
}

/// A copy of one item, with the same model.
pub fn copy_item(item: &MenuItem) -> (r: MenuItem)
    ensures
        r@ == item@,
    decreases item,
{
    let action = match &item.action {
        Action::Execute(command) => Action::Execute(command.clone()),
        Action::OpenSubmenu(items) => Action::OpenSubmenu(copy_items(items)),
    };
    MenuItem { label: item.label.clone(), action }
}

impl Clone for Action {
    fn clone(&self) -> (r: Self)
        ensures
            r@ == self@,
    {
        match self {
            Action::Execute(command) => Action::Execute(command.clone()),
            Action::OpenSubmenu(items) => Action::OpenSubmenu(copy_items(items)),
        }
    }
}

impl Clone for MenuItem {
    fn clone(&self) -> (r: Self)
        ensures
            r@ == self@,
    {
        copy_item(self)
    }
}

} // verus!
