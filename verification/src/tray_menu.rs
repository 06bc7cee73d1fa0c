//! What the status bar shows: the entries of the menu, the pixels of the
//! icon, and when the menu is built anew.
//!
//! Nothing here draws anything. The menu is a list of entries and the icon
//! a list of bytes, for the one who owns the status bar to show.

use crate::decimal::{
    decimal, parse_u32, parse_u32_chars, push_decimal, push_signed_decimal, signed_decimal,
};
use crate::text::chars_of;
use crate::types::{snapshot_view, ProcessInfo, ProcessInfoView};
use std::collections::HashMap;
use vstd::prelude::*;
use vstd::std_specs::hash::*;
use vstd::std_specs::iter::IteratorSpec;

verus! {

broadcast use group_hash_axioms;

/// How long the menu is left alone after it was built, in milliseconds.
pub const MENU_COOLDOWN_MS: u64 = 3000;

/// One entry of the menu.
#[derive(Debug, PartialEq, Eq)]
pub enum MenuEntry {
    /// An entry that can be chosen, with its label.
    Item(String),
    /// A line between two groups of entries.
    Separator,
}

/// What a `MenuEntry` holds, as plain values.
pub enum MenuEntryView {
    Item(Seq<char>),
    Separator,
}

impl View for MenuEntry {
    type V = MenuEntryView;

    open spec fn view(&self) -> MenuEntryView {
        match self {
            MenuEntry::Item(label) => MenuEntryView::Item(label@),
            MenuEntry::Separator => MenuEntryView::Separator,
        }
    }
}

/// The entries of `menu`, as plain values.
pub open spec fn entry_views(menu: Seq<MenuEntry>) -> Seq<MenuEntryView> {
    Seq::new(menu.len(), |i: int| menu[i]@)
}

/// The label of the entry that ends the process on `port`. It names the
/// container where both the identifier and the name of one are known.
pub open spec fn process_label(port: u16, process: ProcessInfoView) -> Seq<char> {
    let plain = "Kill: Port "@ + decimal(port as nat) + ": "@ + process.name + " (PID "@
        + signed_decimal(process.pid as int) + ")"@;
    if process.container_id is Some && process.container_name is Some {
        plain + " [Docker: "@ + process.container_name->0 + "]"@
    } else {
        plain
    }
}

/// The entries for the processes on the ports of `order`, in that order. A
/// port that holds no process has no entry.
pub open spec fn process_entries(
    processes: Map<u16, ProcessInfoView>,
    order: Seq<u16>,
) -> Seq<MenuEntryView>
    decreases order.len(),
{
    if order.len() == 0 {
        Seq::empty()
    } else if processes.contains_key(order.last()) {
        process_entries(processes, order.drop_last()).push(
            MenuEntryView::Item(process_label(order.last(), processes[order.last()])),
        )
    } else {
        process_entries(processes, order.drop_last())
    }
}

/// The menu for `processes`, with the processes in the order of `order`:
/// the entry that ends them all, a line, one entry for each process, a line
/// where there is any process at all, and the entry that quits.
pub open spec fn menu_layout(processes: Map<u16, ProcessInfoView>, order: Seq<u16>) -> Seq<
    MenuEntryView,
> {
    seq![MenuEntryView::Item("Kill All Processes"@), MenuEntryView::Separator] + process_entries(
        processes,
        order,
    ) + (if processes.dom().finite() && processes.len() > 0 {
        seq![MenuEntryView::Separator]
    } else {
        Seq::empty()
    }) + seq![MenuEntryView::Item("Quit"@)]
}

/// Whether `order` names each port of `processes` once, and no other.
pub open spec fn is_port_order(processes: Map<u16, ProcessInfo>, order: Seq<u16>) -> bool {
    &&& order.no_duplicates()
    &&& order.len() == processes.len()
    &&& forall|port: u16| order.contains(port) <==> processes.contains_key(port)
}

/// The ports of a snapshot, each once, in no particular order.
pub fn port_order(processes: &HashMap<u16, ProcessInfo>) -> (order: Vec<u16>)
    ensures
        is_port_order(processes@, order@),
{
    let mut order: Vec<u16> = Vec::new();
    let ghost entries = spec_hash_map_iter(processes).remaining();
    for entry in it: processes.iter()
        invariant
            it.seq() == entries,
            order@.len() == it.index(),
            forall|i: int| 0 <= i < order@.len() ==> #[trigger] order@[i] == *entries[i].0,
    {
        let (port, info) = entry;
        order.push(*port);
    }
    proof {
        assert(entries.no_duplicates());
        assert forall|i: int, j: int|
            0 <= i < order@.len() && 0 <= j < order@.len() && i != j implies order@[i]
            != order@[j] by {
            if order@[i] == order@[j] {
                assert(processes@[*entries[i].0] == *entries[i].1);
                assert(processes@[*entries[j].0] == *entries[j].1);
                assert(entries[i] == entries[j]);
            }
        }
        assert forall|port: u16| order@.contains(port) implies processes@.contains_key(port) by {
            let i = choose|i: int| 0 <= i < order@.len() && order@[i] == port;
            assert(processes@.contains_key(*entries[i].0));
        }
        assert forall|port: u16| processes@.contains_key(port) implies order@.contains(port) by {
            let pair = (&port, &processes@[port]);
            assert(entries.contains(pair));
            let i = choose|i: int| 0 <= i < entries.len() && entries[i] == pair;
            assert(order@[i] == port);
        }
    }
    order
}

/// The label of the entry that ends `process`, found on `port`.
pub fn label_of(port: u16, process: &ProcessInfo) -> (label: String)
    ensures
        label@ == process_label(port, process@),
{
    let mut label = "Kill: Port ".to_string();
    push_decimal(&mut label, port as u64);
    label.append(": ");
    label.append(process.name.as_str());
    label.append(" (PID ");
    push_signed_decimal(&mut label, process.pid);
    label.append(")");
    match (&process.container_id, &process.container_name) {
        (Some(_), Some(container_name)) => {
            label.append(" [Docker: ");
            label.append(container_name.as_str());
            label.append("]");
        },
        _ => {},
    }
    assert(label@ =~= process_label(port, process@));
    label
}

/// The menu for `processes`, with the processes in the order of `order`.
pub fn menu_in_order(processes: &HashMap<u16, ProcessInfo>, order: &Vec<u16>) -> (menu: Vec<
    MenuEntry,
>)
    ensures
        entry_views(menu@) == menu_layout(snapshot_view(processes@), order@),
{
    let ghost shown = snapshot_view(processes@);
    let ghost head = seq![MenuEntryView::Item("Kill All Processes"@), MenuEntryView::Separator];
    let mut menu: Vec<MenuEntry> = Vec::new();
    menu.push(MenuEntry::Item("Kill All Processes".to_string()));
    menu.push(MenuEntry::Separator);
    let mut i: usize = 0;
    assert(order@.take(0) =~= Seq::<u16>::empty());
    assert(entry_views(menu@) =~= head + process_entries(shown, order@.take(0)));
    while i < order.len()
        invariant
            i <= order.len(),
            shown == snapshot_view(processes@),
            head == seq![MenuEntryView::Item("Kill All Processes"@), MenuEntryView::Separator],
            entry_views(menu@) == head + process_entries(shown, order@.take(i as int)),
        decreases order.len() - i,
    {
        let ghost before = entry_views(menu@);
        assert(order@.take(i + 1).drop_last() =~= order@.take(i as int));
        assert(order@.take(i + 1).last() == order@[i as int]);
        let port = order[i];
        match processes.get(&port) {
            Some(process) => {
                let label = label_of(port, process);
                menu.push(MenuEntry::Item(label));
                assert(entry_views(menu@) =~= before.push(
                    MenuEntryView::Item(process_label(port, shown[port])),
                ));
                assert(entry_views(menu@) =~= head + process_entries(shown, order@.take(i + 1)));
            },
            None => {
                assert(!shown.contains_key(port));
            },
        }
        i += 1;
    }
    assert(order@.take(order.len() as int) =~= order@);
    assert(shown.dom() =~= processes@.dom());
    let ghost middle = entry_views(menu@);
    if processes.len() > 0 {
        menu.push(MenuEntry::Separator);
        assert(entry_views(menu@) =~= middle + seq![MenuEntryView::Separator]);
    } else {
        assert(entry_views(menu@) =~= middle + Seq::<MenuEntryView>::empty());
    }
    let ghost body = entry_views(menu@);
    menu.push(MenuEntry::Item("Quit".to_string()));
    assert(entry_views(menu@) =~= body + seq![MenuEntryView::Item("Quit"@)]);
    menu
}

/// The menu for `processes`: the entry that ends them all, a line, one entry
/// for each process, a line where there is any process at all, and the
/// entry that quits. The processes come in no particular order, each once.
pub fn create_menu(processes: &HashMap<u16, ProcessInfo>) -> (menu: Vec<MenuEntry>)
    ensures
        exists|order: Seq<u16>|
            is_port_order(processes@, order) && entry_views(menu@) == #[trigger] menu_layout(
                snapshot_view(processes@),
                order,
            ),
{
    let order = port_order(processes);
    menu_in_order(processes, &order)
}

/// Whether the standard library counts `c` among the numeric characters:
/// the digits of any script, and the other characters that Unicode puts in
/// one of its categories of numbers.
pub uninterp spec fn is_numeric(c: char) -> bool;

/// `char::is_numeric` tests whether a character is one of the numeric
/// characters of Unicode.
#[verifier::external_body]
fn char_is_numeric(c: char) -> (numeric: bool)
    ensures
        numeric == is_numeric(c),
{
    c.is_numeric()
}

/// The numeric characters of `s`, in order.
pub open spec fn numeric_chars(s: Seq<char>) -> Seq<char>
    decreases s.len(),
{
    if s.len() == 0 {
        Seq::empty()
    } else if is_numeric(s.last()) {
        numeric_chars(s.drop_last()).push(s.last())
    } else {
        numeric_chars(s.drop_last())
    }
}

/// The number that the icon is coloured for: the one that `numerals` write,
/// and zero where they write no `u32`.
pub open spec fn shown_number(numerals: Seq<char>) -> u32 {
    match parse_u32(numerals) {
        Some(number) => number,
        None => 0,
    }
}

/// The colour of the middle of the icon, as red, green, blue and opacity:
/// green for no process, red for up to nine, orange for more.
pub open spec fn number_colour(number: u32) -> Seq<u8> {
    if number == 0 {
        seq![0u8, 255u8, 0u8, 255u8]
    } else if number <= 9 {
        seq![255u8, 0u8, 0u8, 255u8]
    } else {
        seq![255u8, 165u8, 0u8, 255u8]
    }
}

/// Whether the pixel in column `x` of row `y` lies in the middle of the
/// icon, where the colour tells the number.
pub open spec fn in_number_area(x: int, y: int) -> bool {
    12 <= x <= 19 && 12 <= y <= 19
}

/// The colour of the pixel in column `x` of row `y`: white around the
/// middle.
pub open spec fn pixel_colour(number: u32, x: int, y: int) -> Seq<u8> {
    if in_number_area(x, y) {
        number_colour(number)
    } else {
        seq![255u8, 255u8, 255u8, 255u8]
    }
}

/// The icon for `number`: 32 rows of 32 pixels, row by row from the top,
/// four bytes to the pixel.
pub open spec fn icon_image(number: u32) -> Seq<u8> {
    Seq::new(4096, |i: int| pixel_colour(number, (i / 4) % 32, i / 128)[i % 4])
}

/// The numeric characters of `text`, in order.
pub fn numerals_of(text: &str) -> (numerals: Vec<char>)
    ensures
        numerals@ == numeric_chars(text@),
{
    let chars = chars_of(text);
    let mut numerals: Vec<char> = Vec::new();
    let mut i: usize = 0;
    assert(chars@.take(0) =~= Seq::<char>::empty());
    while i < chars.len()
        invariant
            i <= chars.len(),
            numerals@ == numeric_chars(chars@.take(i as int)),
        decreases chars.len() - i,
    {
        assert(chars@.take(i + 1).drop_last() =~= chars@.take(i as int));
        assert(chars@.take(i + 1).last() == chars@[i as int]);
        if char_is_numeric(chars[i]) {
            numerals.push(chars[i]);
        }
        i += 1;
    }
    assert(chars@.take(chars.len() as int) =~= chars@);
    numerals
}

/// The number that the icon is coloured for.
pub fn number_shown(numerals: &Vec<char>) -> (number: u32)
    ensures
        number == shown_number(numerals@),
{
    match parse_u32_chars(numerals) {
        Some(number) => number,
        None => 0,
    }
}

/// The icon for `number`.
pub fn icon_pixels(number: u32) -> (data: Vec<u8>)
    ensures
        data@ == icon_image(number),
{
    let mut data: Vec<u8> = Vec::new();
    let mut y: usize = 0;
    while y < 32
        invariant
            y <= 32,
            data@.len() == y * 128,
            forall|i: int| 0 <= i < data@.len() ==> data@[i] == #[trigger] icon_image(number)[i],
        decreases 32 - y,
    {
        let mut x: usize = 0;
        while x < 32
            invariant
                y < 32,
                x <= 32,
                data@.len() == y * 128 + x * 4,
                forall|i: int|
                    0 <= i < data@.len() ==> data@[i] == #[trigger] icon_image(number)[i],
            decreases 32 - x,
        {
            let is_number_area = x >= 12 && x <= 19 && y >= 12 && y <= 19;
            let (r, g, b, a): (u8, u8, u8, u8) = if is_number_area {
                if number == 0 {
                    (0, 255, 0, 255)
                } else if number <= 9 {
                    (255, 0, 0, 255)
                } else {
                    (255, 165, 0, 255)
                }
            } else {
                (255, 255, 255, 255)
            };
            let ghost base = data@.len() as int;
            assert(base == (y * 32 + x) * 4);
            assert((base / 4) % 32 == x && base / 128 == y);
            assert(((base + 1) / 4) % 32 == x && (base + 1) / 128 == y);
            assert(((base + 2) / 4) % 32 == x && (base + 2) / 128 == y);
            assert(((base + 3) / 4) % 32 == x && (base + 3) / 128 == y);
            data.push(r);
            data.push(g);
            data.push(b);
            data.push(a);
            x += 1;
        }
        y += 1;
    }
    assert(data@ =~= icon_image(number));
    data
}

/// The icon for the number that the numeric characters of `text` write:
/// white, with a square in the middle whose colour tells the number.
pub fn generate_visible_icon(text: &str) -> (data: Vec<u8>)
    ensures
        data@ == icon_image(shown_number(numeric_chars(text@))),
{
    let numerals = numerals_of(text);
    icon_pixels(number_shown(&numerals))
}

/// What the status bar remembers of its menu: the number of processes that
/// the menu was last built or cleared for.
#[derive(Debug, Clone, Copy, PartialEq, Eq, Structural)]
pub struct TrayState {
    pub last_process_count: usize,
}

/// What is to be done with the menu, given the number of processes to show.
#[derive(Debug, Clone, Copy, PartialEq, Eq, Structural)]
pub enum MenuRefresh {
    /// Leave the menu as it is, and remember nothing.
    Keep,
    /// Leave the menu as it is, as there is no process to show, and remember
    /// that, and when.
    Note,
    /// Build the menu anew, and remember the number of processes, and when.
    Rebuild,
}

/// What is to be done with the menu: nothing while the number of processes
/// is the one remembered, or the menu was dealt with a short while ago;
/// otherwise the menu is built anew where there is a process to show.
pub open spec fn menu_refresh(
    state: TrayState,
    process_count: usize,
    since_last_menu_update_ms: u64,
) -> MenuRefresh {
    if process_count == state.last_process_count || since_last_menu_update_ms < MENU_COOLDOWN_MS {
        MenuRefresh::Keep
    } else if process_count > 0 {
        MenuRefresh::Rebuild
    } else {
        MenuRefresh::Note
    }
}

/// What the status bar remembers after the menu was dealt with.
pub open spec fn state_after(state: TrayState, process_count: usize, refresh: MenuRefresh) -> TrayState {
    match refresh {
        MenuRefresh::Keep => state,
        _ => TrayState { last_process_count: process_count },
    }
}

impl TrayState {
    /// The state of a status bar that has shown nothing yet.
    pub fn new() -> (state: Self)
        ensures
            state.last_process_count == 0,
    {
        TrayState { last_process_count: 0 }
    }

    /// Decides what is to be done with the menu now that there are
    /// `process_count` processes to show, and remembers it.
    pub fn update_menu(&mut self, process_count: usize, since_last_menu_update_ms: u64) -> (refresh:
        MenuRefresh)
        ensures
            refresh == menu_refresh(*old(self), process_count, since_last_menu_update_ms),
            *final(self) == state_after(*old(self), process_count, refresh),
    {
        if process_count != self.last_process_count && since_last_menu_update_ms
            >= MENU_COOLDOWN_MS {
            self.last_process_count = process_count;
            if process_count > 0 {
                MenuRefresh::Rebuild
            } else {
                MenuRefresh::Note
            }
        } else {
            MenuRefresh::Keep
        }
    }
}

} // verus!
