use port_kill::tray_menu::{
    create_menu, generate_visible_icon, icon_pixels, label_of, menu_in_order, number_shown,
    numerals_of, port_order, MenuEntry, MenuRefresh, TrayState, MENU_COOLDOWN_MS,
};
use port_kill::types::ProcessInfo;
use std::collections::HashMap;

fn process(pid: i32, port: u16, name: &str) -> ProcessInfo {
    ProcessInfo {
        pid,
        port,
        command: format!("/usr/bin/{}", name),
        name: name.to_string(),
        container_id: None,
        container_name: None,
    }
}

fn item(label: &str) -> MenuEntry {
    MenuEntry::Item(label.to_string())
}

const WHITE: [u8; 4] = [255, 255, 255, 255];
const GREEN: [u8; 4] = [0, 255, 0, 255];
const RED: [u8; 4] = [255, 0, 0, 255];
const ORANGE: [u8; 4] = [255, 165, 0, 255];

fn pixel(data: &[u8], x: usize, y: usize) -> [u8; 4] {
    let at = (y * 32 + x) * 4;
    [data[at], data[at + 1], data[at + 2], data[at + 3]]
}

fn check_icon(data: &[u8], middle: [u8; 4]) {
    assert_eq!(data.len(), 32 * 32 * 4);
    for y in 0..32 {
        for x in 0..32 {
            let inside = (12..=19).contains(&x) && (12..=19).contains(&y);
            assert_eq!(pixel(data, x, y), if inside { middle } else { WHITE });
        }
    }
}

#[test]
fn the_menu_without_processes_has_three_entries() {
    assert_eq!(
        create_menu(&HashMap::new()),
        vec![item("Kill All Processes"), MenuEntry::Separator, item("Quit")]
    );
}

#[test]
fn the_menu_has_an_entry_for_each_process() {
    let mut processes = HashMap::new();
    processes.insert(3000, process(111, 3000, "node"));
    assert_eq!(
        create_menu(&processes),
        vec![
            item("Kill All Processes"),
            MenuEntry::Separator,
            item("Kill: Port 3000: node (PID 111)"),
            MenuEntry::Separator,
            item("Quit"),
        ]
    );

    processes.insert(8080, process(222, 8080, "python"));
    processes.insert(5000, process(333, 5000, "deno"));
    let menu = create_menu(&processes);
    assert_eq!(menu.len(), 7);
    assert_eq!(menu[0], item("Kill All Processes"));
    assert_eq!(menu[1], MenuEntry::Separator);
    assert_eq!(menu[5], MenuEntry::Separator);
    assert_eq!(menu[6], item("Quit"));
    let mut labels: Vec<&MenuEntry> = menu[2..5].iter().collect();
    labels.sort_by_key(|entry| format!("{:?}", entry));
    assert_eq!(
        labels,
        vec![
            &item("Kill: Port 3000: node (PID 111)"),
            &item("Kill: Port 5000: deno (PID 333)"),
            &item("Kill: Port 8080: python (PID 222)"),
        ]
    );
}

#[test]
fn the_menu_follows_the_order_given() {
    let mut processes = HashMap::new();
    processes.insert(3000, process(111, 3000, "node"));
    processes.insert(8080, process(222, 8080, "python"));
    assert_eq!(
        menu_in_order(&processes, &vec![8080, 4000, 3000]),
        vec![
            item("Kill All Processes"),
            MenuEntry::Separator,
            item("Kill: Port 8080: python (PID 222)"),
            item("Kill: Port 3000: node (PID 111)"),
            MenuEntry::Separator,
            item("Quit"),
        ]
    );
    let mut order = port_order(&processes);
    order.sort();
    assert_eq!(order, vec![3000, 8080]);
}

#[test]
fn a_label_names_the_container_if_it_is_known_by_name() {
    let mut contained = process(111, 3000, "nginx");
    assert_eq!(label_of(3000, &contained), "Kill: Port 3000: nginx (PID 111)");
    contained.container_id = Some("abc123".to_string());
    assert_eq!(label_of(3000, &contained), "Kill: Port 3000: nginx (PID 111)");
    contained.container_name = Some("web".to_string());
    assert_eq!(
        label_of(3000, &contained),
        "Kill: Port 3000: nginx (PID 111) [Docker: web]"
    );
    contained.container_id = None;
    assert_eq!(label_of(3000, &contained), "Kill: Port 3000: nginx (PID 111)");
    assert_eq!(label_of(80, &contained), "Kill: Port 80: nginx (PID 111)");
}

#[test]
fn the_icon_is_green_for_no_process() {
    check_icon(&generate_visible_icon("0"), GREEN);
    check_icon(&generate_visible_icon(""), GREEN);
    check_icon(&generate_visible_icon("none"), GREEN);
    check_icon(&generate_visible_icon("000"), GREEN);
    check_icon(&icon_pixels(0), GREEN);
}

#[test]
fn the_icon_is_red_for_a_few_processes() {
    check_icon(&generate_visible_icon("1"), RED);
    check_icon(&generate_visible_icon("9"), RED);
    check_icon(&generate_visible_icon("7 processes"), RED);
    check_icon(&generate_visible_icon("0 0 5"), RED);
    check_icon(&icon_pixels(9), RED);
}

#[test]
fn the_icon_is_orange_for_many_processes() {
    check_icon(&generate_visible_icon("10"), ORANGE);
    check_icon(&generate_visible_icon("1 and 2"), ORANGE);
    check_icon(&generate_visible_icon("4294967295"), ORANGE);
    check_icon(&icon_pixels(10), ORANGE);
    check_icon(&icon_pixels(u32::MAX), ORANGE);
}

#[test]
fn a_number_that_cannot_be_read_counts_as_zero() {
    check_icon(&generate_visible_icon("4294967296"), GREEN);
    check_icon(&generate_visible_icon("٣"), GREEN);
    check_icon(&generate_visible_icon("1²"), GREEN);
    assert_eq!(number_shown(&"4294967296".chars().collect()), 0);
    assert_eq!(number_shown(&"42".chars().collect()), 42);
    assert_eq!(number_shown(&Vec::new()), 0);
}

#[test]
fn numerals_are_what_std_calls_numeric() {
    assert_eq!(numerals_of("a1b2 ٣ ² c"), vec!['1', '2', '٣', '²']);
    assert_eq!(numerals_of("none"), Vec::<char>::new());
    let sample = "12 development process(es) running ⅷ";
    let expected: Vec<char> = sample.chars().filter(|c| c.is_numeric()).collect();
    assert_eq!(numerals_of(sample), expected);
}

#[test]
fn the_menu_is_built_anew_when_the_count_changes() {
    assert_eq!(MENU_COOLDOWN_MS, 3000);
    let mut state = TrayState::new();
    assert_eq!(state.last_process_count, 0);
    assert_eq!(state.update_menu(0, 10_000), MenuRefresh::Keep);
    assert_eq!(state.update_menu(2, 2_999), MenuRefresh::Keep);
    assert_eq!(state.last_process_count, 0);
    assert_eq!(state.update_menu(2, 3_000), MenuRefresh::Rebuild);
    assert_eq!(state.last_process_count, 2);
    assert_eq!(state.update_menu(2, 10_000), MenuRefresh::Keep);
    assert_eq!(state.update_menu(0, 10_000), MenuRefresh::Note);
    assert_eq!(state.last_process_count, 0);
    assert_eq!(state.update_menu(1, 0), MenuRefresh::Keep);
    assert_eq!(state.update_menu(1, 5_000), MenuRefresh::Rebuild);
}
