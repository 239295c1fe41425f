//! The device menus of the status item: their entries and check marks.
use vstd::prelude::*;
use crate::config::schema::opt_view;
use crate::text::{chars_eq, chars_of, string_views};

verus! {

/// One entry of a device menu.
#[derive(Debug, Clone, PartialEq, Eq)]
pub enum MenuEntry {
    /// A device, checked when it is the selected one.
    Device { name: String, checked: bool },
    Separator,
    /// Back to the operating system's default, checked when nothing is
    /// selected.
    OsDefault { checked: bool },
}

pub enum EntryView {
    Device(Seq<char>, bool),
    Separator,
    OsDefault(bool),
}

pub open spec fn entry_view(e: MenuEntry) -> EntryView {
    match e {
        MenuEntry::Device { name, checked } => EntryView::Device(name@, checked),
        MenuEntry::Separator => EntryView::Separator,
        MenuEntry::OsDefault { checked } => EntryView::OsDefault(checked),
    }
}

/// The menu: each device, a separator, and the OS default.
pub open spec fn device_menu(devices: Seq<Seq<char>>, selected: Option<Seq<char>>) -> Seq<EntryView> {
    Seq::new(
        devices.len(),
        |i: int| EntryView::Device(devices[i], selected == Some(devices[i])),
    ) + seq![EntryView::Separator, EntryView::OsDefault(selected is None)]
}

fn is_selected(selected: &Option<String>, name: &String) -> (r: bool)
    ensures
        r == (opt_view(*selected) == Some(name@)),
{
    match selected {
        Some(s) => chars_eq(chars_of(s.as_str()).as_slice(), chars_of(name.as_str()).as_slice()),
        None => false,
    }
}

pub fn device_menu_entries(devices: &[String], selected: &Option<String>) -> (r: Vec<MenuEntry>)
    ensures
        r@.map_values(|e: MenuEntry| entry_view(e)) == device_menu(
            string_views(devices@),
            opt_view(*selected),
        ),
{
    let ghost target = device_menu(string_views(devices@), opt_view(*selected));
    let mut r: Vec<MenuEntry> = Vec::new();
    let mut i: usize = 0;
    while i < devices.len()
        invariant
            i <= devices@.len(),
            target == device_menu(string_views(devices@), opt_view(*selected)),
            r@.map_values(|e: MenuEntry| entry_view(e)) == target.take(i as int),
        decreases devices@.len() - i,
    {
        let ghost before = r@;
        let checked = is_selected(selected, &devices[i]);
        let name = devices[i].clone();
        r.push(MenuEntry::Device { name, checked });
        assert(r@.map_values(|e: MenuEntry| entry_view(e)) =~= before.map_values(
            |e: MenuEntry| entry_view(e),
        ).push(target[i as int]));
        assert(target.take(i as int + 1) =~= target.take(i as int).push(target[i as int]));
        i = i + 1;
    }
    let ghost before = r@.map_values(|e: MenuEntry| entry_view(e));
    let ghost n = devices@.len() as int;
    assert(target.take(n) =~= Seq::new(
        string_views(devices@).len(),
        |i: int| EntryView::Device(
            string_views(devices@)[i],
            opt_view(*selected) == Some(string_views(devices@)[i]),
        ),
    ));
    r.push(MenuEntry::Separator);
    r.push(MenuEntry::OsDefault { checked: selected.is_none() });
    assert(r@.map_values(|e: MenuEntry| entry_view(e)) =~= before + seq![
        EntryView::Separator,
        EntryView::OsDefault(opt_view(*selected) is None),
    ]);
    assert(r@.map_values(|e: MenuEntry| entry_view(e)) =~= target);
    r
}

/// Whether a menu item (its device name, or none for the OS default entry)
/// is checked when `selected` is the preference.
pub fn menu_item_checked(item: &Option<String>, selected: &Option<String>) -> (r: bool)
    ensures
        r == (opt_view(*item) == opt_view(*selected)),
{
    match (item, selected) {
        (Some(a), Some(b)) => chars_eq(chars_of(a.as_str()).as_slice(), chars_of(b.as_str()).as_slice()),
        (None, None) => true,
        _ => false,
    }
}

} // verus!
