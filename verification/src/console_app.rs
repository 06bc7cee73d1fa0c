//! What the console shows: the lines that announce the monitor, and the
//! lines that report an update.
//!
//! Nothing here prints anything. The lines are handed out for the one who
//! owns the console to print.

use crate::decimal::{decimal, push_decimal, push_signed_decimal, signed_decimal};
use crate::probe::texts;
use crate::tray_menu::{is_port_order, port_order};
use crate::types::{
    snapshot_view, status_text, status_tooltip, ProcessInfo, ProcessInfoView, ProcessUpdate,
    StatusBarInfo,
};
use std::collections::HashMap;
use vstd::prelude::*;
use vstd::std_specs::hash::*;

verus! {

broadcast use group_hash_axioms;

/// The lines that announce the monitor of the ports that `description`
/// describes.
pub open spec fn banner_lines(description: Seq<char>) -> Seq<Seq<char>> {
    seq![
        "🚀 Port Kill Console Monitor Started!"@,
        "📡 Monitoring "@ + description + " every 2 seconds..."@,
        "💡 Press Ctrl+C to quit"@,
        ""@,
    ]
}

/// The line that gives the status: the label and the tooltip.
pub open spec fn status_line(text: Seq<char>, tooltip: Seq<char>) -> Seq<char> {
    "🔄 Port Status: "@ + text + " - "@ + tooltip
}

/// The line that reports the process on `port`. With `detailed`, it gives the
/// command too, and names the container where both the identifier and the
/// name of one are known.
pub open spec fn process_line(port: u16, process: ProcessInfoView, detailed: bool) -> Seq<char> {
    let brief = "   • Port "@ + decimal(port as nat) + ": "@ + process.name + " (PID "@
        + signed_decimal(process.pid as int) + ")"@;
    if !detailed {
        brief
    } else if process.container_id is Some && process.container_name is Some {
        brief + " - "@ + process.command + " [Docker: "@ + process.container_name->0 + "]"@
    } else {
        brief + " - "@ + process.command
    }
}

/// The lines that report the processes on the ports of `order`, in that
/// order. A port that holds no process has no line.
pub open spec fn process_lines(
    processes: Map<u16, ProcessInfoView>,
    order: Seq<u16>,
    detailed: bool,
) -> Seq<Seq<char>>
    decreases order.len(),
{
    if order.len() == 0 {
        Seq::empty()
    } else if processes.contains_key(order.last()) {
        process_lines(processes, order.drop_last(), detailed).push(
            process_line(order.last(), processes[order.last()], detailed),
        )
    } else {
        process_lines(processes, order.drop_last(), detailed)
    }
}

/// The lines that report a snapshot said to hold `count` processes, with
/// the processes in the order of `order`: the status; and, where the count
/// is above zero, a heading and one line for each process, with an empty
/// line after them in the detailed report.
pub open spec fn report_lines(
    processes: Map<u16, ProcessInfoView>,
    count: usize,
    order: Seq<u16>,
    detailed: bool,
) -> Seq<Seq<char>> {
    let status = seq![status_line(status_text(count as nat), status_tooltip(count as nat))];
    if count == 0 {
        status
    } else if detailed {
        status + seq!["📋 Detected Processes:"@] + process_lines(processes, order, detailed)
            + seq![""@]
    } else {
        status + seq!["📋 Detected Processes:"@] + process_lines(processes, order, detailed)
    }
}

/// The lines that announce the monitor of the ports that `description`
/// describes.
pub fn banner(description: &str) -> (lines: Vec<String>)
    ensures
        texts(lines@) == banner_lines(description@),
{
    let mut monitoring = "📡 Monitoring ".to_string();
    monitoring.append(description);
    monitoring.append(" every 2 seconds...");
    let mut lines: Vec<String> = Vec::new();
    lines.push("🚀 Port Kill Console Monitor Started!".to_string());
    lines.push(monitoring);
    lines.push("💡 Press Ctrl+C to quit".to_string());
    lines.push("".to_string());
    assert(texts(lines@) =~= banner_lines(description@));
    lines
}

/// The line that gives the status.
pub fn status_line_of(info: &StatusBarInfo) -> (line: String)
    ensures
        line@ == status_line(info.text@, info.tooltip@),
{
    let mut line = "🔄 Port Status: ".to_string();
    line.append(info.text.as_str());
    line.append(" - ");
    line.append(info.tooltip.as_str());
    line
}

/// The line that reports `process`, found on `port`.
pub fn process_line_of(port: u16, process: &ProcessInfo, detailed: bool) -> (line: String)
    ensures
        line@ == process_line(port, process@, detailed),
{
    let mut line = "   • Port ".to_string();
    push_decimal(&mut line, port as u64);
    line.append(": ");
    line.append(process.name.as_str());
    line.append(" (PID ");
    push_signed_decimal(&mut line, process.pid);
    line.append(")");
    if detailed {
        line.append(" - ");
        line.append(process.command.as_str());
        match (&process.container_id, &process.container_name) {
            (Some(_), Some(container_name)) => {
                line.append(" [Docker: ");
                line.append(container_name.as_str());
                line.append("]");
            },
            _ => {},
        }
    }
    assert(line@ =~= process_line(port, process@, detailed));
    line
}

/// The lines that report a snapshot said to hold `count` processes, with
/// the processes in the order of `order`.
pub fn report_in_order(
    processes: &HashMap<u16, ProcessInfo>,
    count: usize,
    order: &Vec<u16>,
    detailed: bool,
) -> (lines: Vec<String>)
    ensures
        texts(lines@) == report_lines(snapshot_view(processes@), count, order@, detailed),
{
    let ghost shown = snapshot_view(processes@);
    let info = StatusBarInfo::from_process_count(count);
    let mut lines: Vec<String> = Vec::new();
    lines.push(status_line_of(&info));
    let ghost status = texts(lines@);
    assert(status =~= seq![status_line(status_text(count as nat), status_tooltip(count as nat))]);
    if count == 0 {
        return lines;
    }
    lines.push("📋 Detected Processes:".to_string());
    let ghost head = texts(lines@);
    assert(head =~= status + seq!["📋 Detected Processes:"@]);
    let mut i: usize = 0;
    assert(order@.take(0) =~= Seq::<u16>::empty());
    assert(texts(lines@) =~= head + process_lines(shown, order@.take(0), detailed));
    while i < order.len()
        invariant
            i <= order.len(),
            shown == snapshot_view(processes@),
            texts(lines@) == head + process_lines(shown, order@.take(i as int), detailed),
        decreases order.len() - i,
    {
        let ghost before = texts(lines@);
        assert(order@.take(i + 1).drop_last() =~= order@.take(i as int));
        assert(order@.take(i + 1).last() == order@[i as int]);
        let port = order[i];
        match processes.get(&port) {
            Some(process) => {
                let line = process_line_of(port, process, detailed);
                lines.push(line);
                assert(texts(lines@) =~= before.push(process_line(port, shown[port], detailed)));
                assert(texts(lines@) =~= head + process_lines(
                    shown,
                    order@.take(i + 1),
                    detailed,
                ));
            },
            None => {
                assert(!shown.contains_key(port));
            },
        }
        i += 1;
    }
    assert(order@.take(order.len() as int) =~= order@);
    if detailed {
        let ghost body = texts(lines@);
        lines.push("".to_string());
        assert(texts(lines@) =~= body + seq![""@]);
    }
    lines
}

/// The lines that report `update` on the console, in detail. The processes
/// come in no particular order, each once.
pub fn console_report(update: &ProcessUpdate) -> (lines: Vec<String>)
    ensures
        exists|order: Seq<u16>|
            is_port_order(update.processes@, order) && texts(lines@) == #[trigger] report_lines(
                snapshot_view(update.processes@),
                update.count,
                order,
                true,
            ),
{
    let order = port_order(&update.processes);
    report_in_order(&update.processes, update.count, &order, true)
}

/// The lines that report `processes` in brief, for the status bar. The processes
/// come in no particular order, each once.
pub fn tray_report(processes: &HashMap<u16, ProcessInfo>) -> (lines: Vec<String>)
    ensures
        exists|order: Seq<u16>|
            is_port_order(processes@, order) && texts(lines@) == #[trigger] report_lines(
                snapshot_view(processes@),
                processes@.len() as usize,
                order,
                false,
            ),
{
    let order = port_order(processes);
    let count = processes.len();
    assert(count == processes@.len() as usize);
    report_in_order(processes, count, &order, false)
}

} // verus!
