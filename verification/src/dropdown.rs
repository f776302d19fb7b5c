//! A dropdown: the items it offers, the selected one, and whether its list
//! is open.

use vstd::prelude::*;
use vstd::std_specs::cmp::PartialEqSpec;

verus! {

/// An item that a dropdown can offer.
pub trait DropdownItem {
    type Value;

    /// The text shown for the item.
    spec fn spec_title(&self) -> Seq<char>;

    /// The value the item stands for.
    spec fn spec_value(&self) -> Self::Value;

    fn title(&self) -> (r: String)
        ensures
            r@ == self.spec_title(),
    ;

    fn value(&self) -> (r: &Self::Value)
        ensures
            *r == self.spec_value(),
    ;
}

impl DropdownItem for String {
    type Value = String;

    open spec fn spec_title(&self) -> Seq<char> {
        self@
    }

    open spec fn spec_value(&self) -> String {
        *self
    }

    fn title(&self) -> (r: String) {
        self.clone()
    }

    fn value(&self) -> (r: &String) {
        self
    }
}

/// The items of a dropdown.
pub trait DropdownDelegate {
    type Item: DropdownItem;

    /// The items, in order.
    spec fn spec_items(&self) -> Seq<Self::Item>;

    fn len(&self) -> (r: usize)
        ensures
            r == self.spec_items().len(),
    ;

    fn is_empty(&self) -> (r: bool)
        ensures
            r == (self.spec_items().len() == 0),
    {
        self.len() == 0
    }

    fn get(&self, ix: usize) -> (r: Option<&Self::Item>)
        ensures
            ix < self.spec_items().len() ==> r == Some(&self.spec_items()[ix as int]),
            ix >= self.spec_items().len() ==> r is None,
    ;

    /// The index of the first item whose value equals `value`.
    fn position<V: PartialEq>(&self, value: &V) -> (r: Option<usize>)
        where Self::Item: DropdownItem<Value = V>,
        ensures
            r matches Some(i) ==> i < self.spec_items().len(),
            V::obeys_eq_spec() ==> (r matches Some(i) ==> self.spec_items()[i as int].spec_value().eq_spec(value)
                && forall|j: int| 0 <= j < i ==> !(#[trigger] self.spec_items()[j]).spec_value().eq_spec(value)),
            V::obeys_eq_spec() ==> (r is None ==> forall|j: int|
                0 <= j < self.spec_items().len() ==> !(#[trigger] self.spec_items()[j]).spec_value().eq_spec(value)),
    {
        let n = self.len();
        let mut i: usize = 0;
        while i < n
            invariant
                n == self.spec_items().len(),
                i <= n,
                V::obeys_eq_spec() ==> forall|j: int| 0 <= j < i ==> !(#[trigger] self.spec_items()[j]).spec_value().eq_spec(value),
            decreases n - i,
        {
            match self.get(i) {
                Some(item) => {
                    if item.value() == value {
                        return Some(i);
                    }
                },
                None => {},
            }
            i += 1;
        }
        None
    }
}

impl<T: DropdownItem> DropdownDelegate for Vec<T> {
    type Item = T;

    open spec fn spec_items(&self) -> Seq<T> {
        self@
    }

    fn len(&self) -> (r: usize) {
        self.len()
    }

    fn get(&self, ix: usize) -> (r: Option<&T>) {
        if ix < self.len() {
            Some(&self[ix])
        } else {
            None
        }
    }
}

/// What a dropdown tells its subscribers: the value chosen, if any.
pub enum DropdownEvent<D: DropdownDelegate> {
    Confirm(Option<<D::Item as DropdownItem>::Value>),
}

/// A dropdown over the items of `D`.
pub struct Dropdown<D: DropdownDelegate> {
    delegate: D,
    selected_index: Option<usize>,
    open: bool,
    cleanable: bool,
    placeholder: String,
    title_prefix: Option<String>,
}

/// What a dropdown holds.
pub ghost struct DropdownView<Item> {
    pub items: Seq<Item>,
    pub selected_index: Option<usize>,
    pub open: bool,
    pub cleanable: bool,
    pub placeholder: Seq<char>,
    pub title_prefix: Option<Seq<char>>,
}

impl<D: DropdownDelegate> View for Dropdown<D> {
    type V = DropdownView<D::Item>;

    closed spec fn view(&self) -> DropdownView<D::Item> {
        DropdownView {
            items: self.delegate.spec_items(),
            selected_index: self.selected_index,
            open: self.open,
            cleanable: self.cleanable,
            placeholder: self.placeholder@,
            title_prefix: match &self.title_prefix {
                Some(p) => Some(p@),
                None => None,
            },
        }
    }
}

impl<D: DropdownDelegate> Dropdown<D> {
    /// A closed dropdown over `delegate`'s items with `selected_index`
    /// selected and the placeholder `Select...`.
    pub fn new(delegate: D, selected_index: Option<usize>) -> (r: Self)
        ensures
            r@.items == delegate.spec_items(),
            r@.selected_index == selected_index,
            !r@.open,
            !r@.cleanable,
            r@.placeholder == "Select..."@,
            r@.title_prefix is None,
    {
        Dropdown {
            delegate,
            selected_index,
            open: false,
            cleanable: false,
            placeholder: "Select...".to_string(),
            title_prefix: None,
        }
    }

    pub fn placeholder(self, placeholder: String) -> (r: Self)
        ensures
            r@ == (DropdownView { placeholder: placeholder@, ..self@ }),
    {
        Dropdown { placeholder, ..self }
    }

    pub fn title_prefix(self, prefix: String) -> (r: Self)
        ensures
            r@ == (DropdownView { title_prefix: Some(prefix@), ..self@ }),
    {
        Dropdown { title_prefix: Some(prefix), ..self }
    }

    pub fn cleanable(self, cleanable: bool) -> (r: Self)
        ensures
            r@ == (DropdownView { cleanable, ..self@ }),
    {
        Dropdown { cleanable, ..self }
    }

    pub fn set_selected_index(&mut self, selected_index: Option<usize>)
        ensures
            final(self)@ == (DropdownView { selected_index, ..old(self)@ }),
    {
        self.selected_index = selected_index;
    }

    /// Selects the first item whose value equals `value`, or nothing where
    /// none does.
    pub fn set_selected_value<V: PartialEq>(&mut self, value: &V)
        where D::Item: DropdownItem<Value = V>,
        ensures
            final(self)@ == (DropdownView { selected_index: final(self)@.selected_index, ..old(self)@ }),
            final(self)@.selected_index matches Some(i) ==> i < old(self)@.items.len(),
            V::obeys_eq_spec() ==> (final(self)@.selected_index matches Some(i) ==> old(self)@.items[i as int].spec_value().eq_spec(value)
                && forall|j: int| 0 <= j < i ==> !(#[trigger] old(self)@.items[j]).spec_value().eq_spec(value)),
            V::obeys_eq_spec() ==> (final(self)@.selected_index is None ==> forall|j: int|
                0 <= j < old(self)@.items.len() ==> !(#[trigger] old(self)@.items[j]).spec_value().eq_spec(value)),
    {
        let ix = self.delegate.position(value);
        self.set_selected_index(ix);
    }

    pub fn selected_index(&self) -> (r: Option<usize>)
        ensures
            r == self@.selected_index,
    {
        self.selected_index
    }

    /// Whether the list is open.
    pub fn is_open(&self) -> (r: bool)
        ensures
            r == self@.open,
    {
        self.open
    }

    /// The selected item, where the selection names one.
    pub fn selected_item(&self) -> (r: Option<&D::Item>)
        ensures
            r == match self@.selected_index {
                Some(i) => if i < self@.items.len() { Some(&self@.items[i as int]) } else { None },
                None => None,
            },
    {
        match self.selected_index {
            Some(ix) => self.delegate.get(ix),
            None => None,
        }
    }

    /// The value of the selected item, where the selection names one.
    pub fn selected_value(&self) -> (r: Option<&<D::Item as DropdownItem>::Value>)
        ensures
            r is Some <==> (self@.selected_index matches Some(i) && i < self@.items.len()),
            r matches Some(v) ==> *v == self@.items[self@.selected_index->Some_0 as int].spec_value(),
    {
        match self.selected_item() {
            Some(item) => Some(item.value()),
            None => None,
        }
    }

    /// The up key: while open, the list moves its selection up (returns
    /// whether to do so).
    pub fn up(&self) -> (r: bool)
        ensures
            r == self@.open,
    {
        self.open
    }

    /// The down key opens the list, which moves its selection down.
    pub fn down(&mut self)
        ensures
            final(self)@ == (DropdownView { open: true, ..old(self)@ }),
    {
        if !self.open {
            self.open = true;
        }
    }

    /// The enter key opens a closed list, and confirms in an open one
    /// (returns whether to confirm).
    pub fn enter(&mut self) -> (confirm: bool)
        ensures
            confirm == old(self)@.open,
            final(self)@ == (DropdownView { open: true, ..old(self)@ }),
    {
        if !self.open {
            self.open = true;
            false
        } else {
            true
        }
    }

    /// A click on the dropdown opens or closes the list.
    pub fn toggle_menu(&mut self)
        ensures
            final(self)@ == (DropdownView { open: !old(self)@.open, ..old(self)@ }),
    {
        self.open = !self.open;
    }

    /// Escape closes the list.
    pub fn escape(&mut self)
        ensures
            final(self)@ == (DropdownView { open: false, ..old(self)@ }),
    {
        self.open = false;
    }

    /// The clear button removes the selection.
    pub fn clean(&mut self)
        ensures
            final(self)@ == (DropdownView { selected_index: None, ..old(self)@ }),
    {
        self.set_selected_index(None);
    }

    /// The list confirmed `ix`: it becomes the selection and the list
    /// closes. Returns the event to send, with the chosen value, if any.
    pub fn confirm(&mut self, ix: Option<usize>) -> (event: DropdownEvent<D>)
        where <D::Item as DropdownItem>::Value: Clone,
        ensures
            final(self)@ == (DropdownView { selected_index: ix, open: false, ..old(self)@ }),
            match event {
                DropdownEvent::Confirm(v) => {
                    &&& v is Some <==> (ix matches Some(i) && i < old(self)@.items.len())
                    &&& v matches Some(x) ==> cloned(old(self)@.items[ix->Some_0 as int].spec_value(), x)
                },
            },
    {
        self.selected_index = ix;
        self.open = false;
        let value = match self.selected_item() {
            Some(item) => Some(item.value().clone()),
            None => None,
        };
        DropdownEvent::Confirm(value)
    }

    /// What the dropdown shows: the prefix and the selected item's title
    /// where something is selected (an unknown index shows an empty title),
    /// else `None`, for the placeholder.
    pub fn display_title(&self) -> (r: Option<(Option<String>, String)>)
        ensures
            r is Some <==> self@.selected_index is Some,
            r matches Some((p, t)) ==> (match p {
                Some(p) => self@.title_prefix == Some(p@),
                None => self@.title_prefix is None,
            }),
            r matches Some((p, t)) ==> (self@.selected_index matches Some(i) ==> (
                i < self@.items.len() ==> t@ == self@.items[i as int].spec_title())),
            r matches Some((p, t)) ==> (self@.selected_index matches Some(i) ==> (
                i >= self@.items.len() ==> t@.len() == 0)),
    {
        match self.selected_index {
            Some(ix) => {
                let title = match self.delegate.get(ix) {
                    Some(item) => item.title(),
                    None => String::new(),
                };
                let prefix = match &self.title_prefix {
                    Some(p) => Some(p.clone()),
                    None => None,
                };
                Some((prefix, title))
            },
            None => None,
        }
    }
}

impl Dropdown<Vec<String>> {
    /// A dropdown over a list of strings.
    pub fn string_list(items: Vec<String>, selected_index: Option<usize>) -> (r: Self)
        ensures
            r@.items == items@,
            r@.selected_index == selected_index,
            !r@.open,
            !r@.cleanable,
            r@.placeholder == "Select..."@,
            r@.title_prefix is None,
    {
        Self::new(items, selected_index)
    }
}

} // verus!
