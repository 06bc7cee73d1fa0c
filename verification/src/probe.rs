//! What the probes of the system print, and what that says: which process
//! owns a port, what a process is called, which containers run and which
//! processes run in one.
//!
//! A probe is a command run outside this library. Its outcome comes in as a
//! `CommandOutput`; nothing here runs anything.

use crate::decimal::{
    decimal, parse_i32, parse_i32_chars, parse_u16, parse_u16_chars, push_decimal,
    push_signed_decimal, signed_decimal,
};
use crate::text::{
    chars_of, first_index, lemma_first_index, lemma_split, lines, lines_of, split, split_on,
    string_of, trim, trimmed, views, words, words_of,
};
use crate::types::{snapshot_view, ProcessInfo, ProcessInfoView};
use std::collections::HashMap;
use vstd::prelude::*;
use vstd::std_specs::hash::*;

verus! {

broadcast use group_hash_axioms;

/// What a command left behind: whether it reported success, and what it
/// printed to its standard output and to its standard error.
#[derive(Debug, PartialEq, Eq)]
pub struct CommandOutput {
    pub success: bool,
    pub stdout: String,
    pub stderr: String,
}

/// What a `CommandOutput` holds, as plain values.
pub struct CommandOutputView {
    pub success: bool,
    pub stdout: Seq<char>,
    pub stderr: Seq<char>,
}

impl View for CommandOutput {
    type V = CommandOutputView;

    open spec fn view(&self) -> CommandOutputView {
        CommandOutputView { success: self.success, stdout: self.stdout@, stderr: self.stderr@ }
    }
}

impl Clone for CommandOutput {
    fn clone(&self) -> (copy: Self)
        ensures
            copy == *self,
    {
        CommandOutput {
            success: self.success,
            stdout: self.stdout.clone(),
            stderr: self.stderr.clone(),
        }
    }
}

/// A question to the system that a command answers. The one who runs the
/// library's state machines runs the command and hands back what it left
/// behind.
#[derive(Debug, PartialEq, Eq)]
pub enum Probe {
    /// Which process listens on this port?
    PortOwner(u16),
    /// What is the command of this process?
    ProcessCommand(i32),
    /// Which containers run?
    Containers,
    /// Which processes run in this container?
    ContainerProcesses(String),
    /// What is the name of this container?
    ContainerName(String),
    /// Stop this container.
    StopContainer(String),
    /// Remove this container by force.
    RemoveContainer(String),
    /// Does this process still run?
    ProcessAlive(i32),
}

/// What a `Probe` holds, as plain values.
pub enum ProbeView {
    PortOwner(u16),
    ProcessCommand(i32),
    Containers,
    ContainerProcesses(Seq<char>),
    ContainerName(Seq<char>),
    StopContainer(Seq<char>),
    RemoveContainer(Seq<char>),
    ProcessAlive(i32),
}

impl View for Probe {
    type V = ProbeView;

    open spec fn view(&self) -> ProbeView {
        match self {
            Probe::PortOwner(port) => ProbeView::PortOwner(*port),
            Probe::ProcessCommand(pid) => ProbeView::ProcessCommand(*pid),
            Probe::Containers => ProbeView::Containers,
            Probe::ContainerProcesses(id) => ProbeView::ContainerProcesses(id@),
            Probe::ContainerName(id) => ProbeView::ContainerName(id@),
            Probe::StopContainer(id) => ProbeView::StopContainer(id@),
            Probe::RemoveContainer(id) => ProbeView::RemoveContainer(id@),
            Probe::ProcessAlive(pid) => ProbeView::ProcessAlive(*pid),
        }
    }
}

/// The command that answers a probe: the program, then its arguments.
pub open spec fn probe_command(probe: ProbeView) -> Seq<Seq<char>> {
    match probe {
        ProbeView::PortOwner(port) => seq![
            "lsof"@,
            "-ti"@,
            ":"@ + decimal(port as nat),
            "-sTCP:LISTEN"@,
        ],
        ProbeView::ProcessCommand(pid) => seq![
            "ps"@,
            "-p"@,
            signed_decimal(pid as int),
            "-o"@,
            "comm="@,
        ],
        ProbeView::Containers => seq![
            "docker"@,
            "ps"@,
            "--format"@,
            "table {{.ID}}\t{{.Names}}\t{{.Ports}}"@,
        ],
        ProbeView::ContainerProcesses(id) => seq!["docker"@, "top"@, id],
        ProbeView::ContainerName(id) => seq![
            "docker"@,
            "inspect"@,
            "--format"@,
            "{{.Name}}"@,
            id,
        ],
        ProbeView::StopContainer(id) => seq!["docker"@, "stop"@, id],
        ProbeView::RemoveContainer(id) => seq!["docker"@, "rm"@, "-f"@, id],
        ProbeView::ProcessAlive(pid) => seq!["ps"@, "-p"@, signed_decimal(pid as int)],
    }
}

/// The command that lists the listeners on the ports from `start` to `end`:
/// as a table where `table` holds, and otherwise as process numbers alone,
/// one to the line.
pub open spec fn range_command(start: u16, end: u16, table: bool) -> Seq<Seq<char>> {
    let range = ":"@ + decimal(start as nat) + "-"@ + decimal(end as nat);
    if table {
        seq!["lsof"@, "-i"@, range, "-sTCP:LISTEN"@, "-P"@, "-n"@]
    } else {
        seq!["lsof"@, "-ti"@, range, "-sTCP:LISTEN"@]
    }
}

/// A probe that may be none, as plain values.
pub open spec fn probe_view(probe: Option<Probe>) -> Option<ProbeView> {
    match probe {
        Some(probe) => Some(probe@),
        None => None,
    }
}

/// The outcome of a probe that may not have run at all, as plain values.
pub open spec fn reply_view(reply: Option<CommandOutput>) -> Option<CommandOutputView> {
    match reply {
        Some(output) => Some(output@),
        None => None,
    }
}

/// The process that listens on a port, from the listing of the processes
/// that do: the listing succeeded and holds, whitespace aside, one process
/// number and nothing else.
pub open spec fn port_owner(output: CommandOutputView) -> Option<i32> {
    if output.success {
        parse_i32(trim(output.stdout))
    } else {
        None
    }
}

/// The command of a process, from the listing of its command: what was
/// printed, whitespace aside; `unknown` where the listing failed.
pub open spec fn command_name(output: CommandOutputView) -> Seq<char> {
    if output.success {
        trim(output.stdout)
    } else {
        "unknown"@
    }
}

/// What follows the last `/` of `command`; all of it where it holds none.
pub open spec fn base_name(command: Seq<char>) -> Seq<char> {
    split(command, '/').last()
}

/// The rows of a table: its lines but the first, which holds the headings.
pub open spec fn rows_of(table: Seq<char>) -> Seq<Seq<char>> {
    if lines(table).len() > 0 {
        lines(table).drop_first()
    } else {
        Seq::empty()
    }
}

/// The container that a row of the container listing names: the first of
/// its columns, whitespace aside. Tabs separate the columns, and a row with
/// fewer than three names none.
pub open spec fn row_container(row: Seq<char>) -> Option<Seq<char>> {
    if split(row, '\t').len() >= 3 {
        Some(trim(split(row, '\t')[0]))
    } else {
        None
    }
}

/// The containers that `rows` name, in order.
pub open spec fn row_containers(rows: Seq<Seq<char>>) -> Seq<Seq<char>>
    decreases rows.len(),
{
    if rows.len() == 0 {
        Seq::empty()
    } else {
        match row_container(rows.last()) {
            Some(id) => row_containers(rows.drop_last()).push(id),
            None => row_containers(rows.drop_last()),
        }
    }
}

/// The running containers, from the container listing; none where the
/// listing failed.
pub open spec fn listed_containers(output: CommandOutputView) -> Seq<Seq<char>> {
    if output.success {
        row_containers(rows_of(output.stdout))
    } else {
        Seq::empty()
    }
}

/// Whether a row of a container's process listing is about process `pid`:
/// its second word is that number.
pub open spec fn row_names_pid(row: Seq<char>, pid: i32) -> bool {
    words(row).len() >= 2 && parse_i32(words(row)[1]) == Some(pid)
}

/// Whether process `pid` runs in the container whose process listing
/// `output` is: the listing succeeded and one of its rows is about `pid`.
pub open spec fn lists_pid(output: CommandOutputView, pid: i32) -> bool {
    output.success && exists|i: int|
        0 <= i < rows_of(output.stdout).len() && row_names_pid(
            #[trigger] rows_of(output.stdout)[i],
            pid,
        )
}

/// `s` without the `c`s that it starts with.
pub open spec fn strip_leading(s: Seq<char>, c: char) -> Seq<char>
    decreases s.len(),
{
    if s.len() > 0 && s[0] == c {
        strip_leading(s.drop_first(), c)
    } else {
        s
    }
}

/// The name of container `id`, from the inspection of that container: what
/// was printed, without whitespace around it and slashes before it; the
/// identifier itself where the inspection failed.
pub open spec fn container_name(output: CommandOutputView, id: Seq<char>) -> Seq<char> {
    if output.success {
        strip_leading(trim(output.stdout), '/')
    } else {
        id
    }
}

/// Whether a liveness probe found the process: the probe ran and succeeded.
pub open spec fn is_running(reply: Option<CommandOutputView>) -> bool {
    reply matches Some(output) && output.success
}

/// The listener that a row of the listener table describes: the row has at
/// least nine words, the first is the command, the second the process
/// number, and the ninth ends, after its last colon, in the port.
pub open spec fn row_listener(row: Seq<char>) -> Option<ProcessInfoView> {
    if words(row).len() >= 9 && parse_i32(words(row)[1]) is Some && parse_u16(
        split(words(row)[8], ':').last(),
    ) is Some {
        Some(
            ProcessInfoView {
                pid: parse_i32(words(row)[1])->0,
                port: parse_u16(split(words(row)[8], ':').last())->0,
                command: words(row)[0],
                name: words(row)[0],
                container_id: None,
                container_name: None,
            },
        )
    } else {
        None
    }
}

/// The listeners that `rows` describe, by port. Where two rows give one
/// port, the later row stands.
pub open spec fn row_listeners(rows: Seq<Seq<char>>) -> Map<u16, ProcessInfoView>
    decreases rows.len(),
{
    if rows.len() == 0 {
        Map::empty()
    } else {
        match row_listener(rows.last()) {
            Some(found) => row_listeners(rows.drop_last()).insert(found.port, found),
            None => row_listeners(rows.drop_last()),
        }
    }
}

/// The listeners that a listener table describes, by port.
pub open spec fn listed_listeners(table: Seq<char>) -> Map<u16, ProcessInfoView> {
    row_listeners(rows_of(table))
}

/// The process numbers among `items`, in order: each item that is a number
/// and nothing else.
pub open spec fn item_pids(items: Seq<Seq<char>>) -> Seq<i32>
    decreases items.len(),
{
    if items.len() == 0 {
        Seq::empty()
    } else {
        match parse_i32(items.last()) {
            Some(pid) => item_pids(items.drop_last()).push(pid),
            None => item_pids(items.drop_last()),
        }
    }
}

/// The process numbers that a listing of one number per line holds.
pub open spec fn listed_pids(listing: Seq<char>) -> Seq<i32> {
    item_pids(lines(listing))
}

impl Probe {
    /// The command that answers the probe: the program, then its arguments.
    pub fn command_line(&self) -> (line: Vec<String>)
        ensures
            texts(line@) == probe_command(self@),
    {
        let mut line: Vec<String> = Vec::new();
        match self {
            Probe::PortOwner(port) => {
                let mut address = ":".to_string();
                push_decimal(&mut address, *port as u64);
                line.push("lsof".to_string());
                line.push("-ti".to_string());
                line.push(address);
                line.push("-sTCP:LISTEN".to_string());
            },
            Probe::ProcessCommand(pid) => {
                let mut number = String::new();
                push_signed_decimal(&mut number, *pid);
                assert(number@ =~= signed_decimal(*pid as int));
                line.push("ps".to_string());
                line.push("-p".to_string());
                line.push(number);
                line.push("-o".to_string());
                line.push("comm=".to_string());
            },
            Probe::Containers => {
                line.push("docker".to_string());
                line.push("ps".to_string());
                line.push("--format".to_string());
                line.push("table {{.ID}}\t{{.Names}}\t{{.Ports}}".to_string());
            },
            Probe::ContainerProcesses(id) => {
                line.push("docker".to_string());
                line.push("top".to_string());
                line.push(id.clone());
            },
            Probe::ContainerName(id) => {
                line.push("docker".to_string());
                line.push("inspect".to_string());
                line.push("--format".to_string());
                line.push("{{.Name}}".to_string());
                line.push(id.clone());
            },
            Probe::StopContainer(id) => {
                line.push("docker".to_string());
                line.push("stop".to_string());
                line.push(id.clone());
            },
            Probe::RemoveContainer(id) => {
                line.push("docker".to_string());
                line.push("rm".to_string());
                line.push("-f".to_string());
                line.push(id.clone());
            },
            Probe::ProcessAlive(pid) => {
                let mut number = String::new();
                push_signed_decimal(&mut number, *pid);
                assert(number@ =~= signed_decimal(*pid as int));
                line.push("ps".to_string());
                line.push("-p".to_string());
                line.push(number);
            },
        }
        assert(texts(line@) =~= probe_command(self@));
        line
    }
}

/// The command that lists the listeners on the ports from `start` to `end`.
pub fn range_command_line(start: u16, end: u16, table: bool) -> (line: Vec<String>)
    ensures
        texts(line@) == range_command(start, end, table),
{
    let mut range = ":".to_string();
    push_decimal(&mut range, start as u64);
    range.append("-");
    push_decimal(&mut range, end as u64);
    let mut line: Vec<String> = Vec::new();
    line.push("lsof".to_string());
    if table {
        line.push("-i".to_string());
        line.push(range);
        line.push("-sTCP:LISTEN".to_string());
        line.push("-P".to_string());
        line.push("-n".to_string());
    } else {
        line.push("-ti".to_string());
        line.push(range);
        line.push("-sTCP:LISTEN".to_string());
    }
    assert(texts(line@) =~= range_command(start, end, table));
    line
}

/// What follows the last `/` holds none, and the command ends with it; what
/// stands before it is nothing, or ends in `/`.
pub proof fn lemma_base_name(command: Seq<char>)
    ensures
        !base_name(command).contains('/'),
        base_name(command).len() <= command.len(),
        base_name(command) == command.skip(command.len() - base_name(command).len()),
        base_name(command).len() < command.len() ==> command[command.len() - base_name(
            command,
        ).len() - 1] == '/',
    decreases command.len(),
{
    lemma_split(command, '/');
    lemma_first_index(command, '/');
    let i = first_index(command, '/') as int;
    let name = base_name(command);
    assert(!name.contains('/')) by {
        if name.contains('/') {
            let k = choose|k: int| 0 <= k < name.len() && name[k] == '/';
            assert(split(command, '/')[split(command, '/').len() - 1][k] != '/');
        }
    }
    if i < command.len() {
        let rest = command.skip(i + 1);
        lemma_base_name(rest);
        lemma_split(rest, '/');
        assert(name == base_name(rest));
        assert(rest.skip(rest.len() - name.len()) =~= command.skip(command.len() - name.len()));
        if name.len() < rest.len() {
            assert(rest[rest.len() - name.len() - 1] == command[command.len() - name.len() - 1]);
        }
    } else {
        assert(command.skip(0) =~= command);
    }
}

/// The process that listens on a port, from the listing of the processes
/// that do.
pub fn parse_port_owner(output: &CommandOutput) -> (owner: Option<i32>)
    ensures
        owner == port_owner(output@),
{
    if !output.success {
        return None;
    }
    let text = trimmed(&chars_of(output.stdout.as_str()));
    parse_i32_chars(&text)
}

/// The command of a process, from the listing of its command.
pub fn parse_command_name(output: &CommandOutput) -> (command: String)
    ensures
        command@ == command_name(output@),
{
    if output.success {
        string_of(&trimmed(&chars_of(output.stdout.as_str())))
    } else {
        "unknown".to_string()
    }
}

/// What follows the last `/` of `command`.
pub fn parse_base_name(command: &str) -> (name: String)
    ensures
        name@ == base_name(command@),
{
    let fields = split_on(&chars_of(command), '/');
    proof {
        lemma_split(command@, '/');
    }
    string_of(&fields[fields.len() - 1])
}

/// What is known of the process `pid` that listens on `port`, given the
/// listing of its command and the container that it was found in.
pub fn describe_process(
    pid: i32,
    port: u16,
    listing: &CommandOutput,
    container_id: Option<String>,
    container_name: Option<String>,
) -> (info: ProcessInfo)
    ensures
        info.pid == pid,
        info.port == port,
        info.command@ == command_name(listing@),
        info.name@ == base_name(command_name(listing@)),
        info.container_id == container_id,
        info.container_name == container_name,
{
    let command = parse_command_name(listing);
    let name = parse_base_name(command.as_str());
    ProcessInfo { pid, port, command, name, container_id, container_name }
}

/// The rows of a table whose lines are `found`: all but the first.
fn table_rows(found: Vec<Vec<char>>) -> (rows: Vec<Vec<char>>)
    ensures
        views(rows@) == if found.len() > 0 {
            views(found@).drop_first()
        } else {
            Seq::empty()
        },
{
    let mut rows: Vec<Vec<char>> = Vec::new();
    let mut found = found;
    if found.len() > 0 {
        let ghost all = views(found@);
        found.remove(0);
        assert(views(found@) =~= all.drop_first());
        rows = found;
    } else {
        assert(views(rows@) =~= Seq::<Seq<char>>::empty());
    }
    rows
}

/// The rows of the table that `text` holds.
pub fn parse_rows(text: &str) -> (rows: Vec<Vec<char>>)
    ensures
        views(rows@) == rows_of(text@),
{
    table_rows(lines_of(&chars_of(text)))
}

/// The texts of `strings`, one for one.
pub open spec fn texts(strings: Seq<String>) -> Seq<Seq<char>> {
    Seq::new(strings.len(), |i: int| strings[i]@)
}

/// The running containers, from the container listing.
pub fn parse_listed_containers(output: &CommandOutput) -> (ids: Vec<String>)
    ensures
        texts(ids@) == listed_containers(output@),
{
    let mut ids: Vec<String> = Vec::new();
    if !output.success {
        assert(texts(ids@) =~= Seq::<Seq<char>>::empty());
        return ids;
    }
    let rows = parse_rows(output.stdout.as_str());
    let mut i: usize = 0;
    assert(views(rows@).take(0) =~= Seq::<Seq<char>>::empty());
    assert(texts(ids@) =~= Seq::<Seq<char>>::empty());
    while i < rows.len()
        invariant
            i <= rows.len(),
            texts(ids@) == row_containers(views(rows@).take(i as int)),
        decreases rows.len() - i,
    {
        let ghost done = views(rows@).take(i as int);
        let ghost next = views(rows@).take(i + 1);
        assert(next.drop_last() =~= done);
        assert(next.last() == rows[i as int]@);
        let columns = split_on(&rows[i], '\t');
        if columns.len() >= 3 {
            let ghost before = texts(ids@);
            let id = string_of(&trimmed(&columns[0]));
            ids.push(id);
            assert(texts(ids@) =~= before.push(id@));
        }
        i += 1;
    }
    assert(views(rows@).take(rows.len() as int) =~= views(rows@));
    ids
}

/// Tests whether a row of a container's process listing is about `pid`.
pub fn row_mentions_pid(row: &Vec<char>, pid: i32) -> (named: bool)
    ensures
        named == row_names_pid(row@, pid),
{
    let found = words_of(row);
    if found.len() >= 2 {
        match parse_i32_chars(&found[1]) {
            Some(listed) => listed == pid,
            None => false,
        }
    } else {
        false
    }
}

/// Tests whether process `pid` runs in the container whose process listing
/// `output` is.
pub fn container_has_pid(output: &CommandOutput, pid: i32) -> (listed: bool)
    ensures
        listed == lists_pid(output@, pid),
{
    if !output.success {
        return false;
    }
    let rows = parse_rows(output.stdout.as_str());
    let mut i: usize = 0;
    while i < rows.len()
        invariant
            i <= rows.len(),
            output.success,
            views(rows@) == rows_of(output.stdout@),
            forall|k: int| 0 <= k < i ==> !row_names_pid(#[trigger] views(rows@)[k], pid),
        decreases rows.len() - i,
    {
        if row_mentions_pid(&rows[i], pid) {
            assert(row_names_pid(rows_of(output@.stdout)[i as int], pid));
            return true;
        }
        i += 1;
    }
    false
}

/// The number of `c`s that `chars` starts with.
fn count_leading(chars: &Vec<char>, c: char) -> (n: usize)
    ensures
        n <= chars.len(),
        chars@.skip(n as int) == strip_leading(chars@, c),
{
    let mut n: usize = 0;
    assert(chars@.skip(0) =~= chars@);
    while n < chars.len() && chars[n] == c
        invariant
            n <= chars.len(),
            strip_leading(chars@, c) == strip_leading(chars@.skip(n as int), c),
        decreases chars.len() - n,
    {
        assert(chars@.skip(n as int).drop_first() =~= chars@.skip(n + 1));
        n += 1;
    }
    n
}

/// The name of container `id`, from the inspection of that container.
pub fn parse_container_name(output: &CommandOutput, id: &str) -> (name: String)
    ensures
        name@ == container_name(output@, id@),
{
    if output.success {
        let printed = trimmed(&chars_of(output.stdout.as_str()));
        let n = count_leading(&printed, '/');
        let kept = crate::text::slice_of(&printed, n, printed.len());
        assert(kept@ =~= printed@.skip(n as int));
        string_of(&kept)
    } else {
        id.to_string()
    }
}

/// Tests whether a liveness probe found the process.
pub fn probe_says_running(reply: &Option<CommandOutput>) -> (running: bool)
    ensures
        running == is_running(reply_view(*reply)),
{
    match reply {
        Some(output) => output.success,
        None => false,
    }
}

/// The listener that a row of the listener table describes.
pub fn parse_row_listener(row: &Vec<char>) -> (found: Option<ProcessInfo>)
    ensures
        found matches Some(info) ==> row_listener(row@) == Some(info@),
        found is None ==> row_listener(row@) is None,
{
    let parts = words_of(row);
    if parts.len() < 9 {
        return None;
    }
    let pid = parse_i32_chars(&parts[1]);
    let address = split_on(&parts[8], ':');
    proof {
        lemma_split(parts[8]@, ':');
    }
    let port = parse_u16_chars(&address[address.len() - 1]);
    match (pid, port) {
        (Some(pid), Some(port)) => {
            let command = string_of(&parts[0]);
            let name = string_of(&parts[0]);
            Some(ProcessInfo { pid, port, command, name, container_id: None, container_name: None })
        },
        _ => None,
    }
}

/// The listeners that a listener table describes, by port.
pub fn parse_listeners(table: &str) -> (found: HashMap<u16, ProcessInfo>)
    ensures
        snapshot_view(found@) == listed_listeners(table@),
{
    let rows = parse_rows(table);
    let mut found: HashMap<u16, ProcessInfo> = HashMap::new();
    let mut i: usize = 0;
    assert(views(rows@).take(0) =~= Seq::<Seq<char>>::empty());
    assert(snapshot_view(found@) =~= Map::<u16, ProcessInfoView>::empty());
    while i < rows.len()
        invariant
            i <= rows.len(),
            snapshot_view(found@) == row_listeners(views(rows@).take(i as int)),
        decreases rows.len() - i,
    {
        let ghost done = views(rows@).take(i as int);
        let ghost next = views(rows@).take(i + 1);
        assert(next.drop_last() =~= done);
        assert(next.last() == rows[i as int]@);
        match parse_row_listener(&rows[i]) {
            Some(info) => {
                let ghost before = snapshot_view(found@);
                let ghost seen = info@;
                found.insert(info.port, info);
                assert(snapshot_view(found@) =~= before.insert(seen.port, seen));
            },
            None => {},
        }
        i += 1;
    }
    assert(views(rows@).take(rows.len() as int) =~= views(rows@));
    found
}

/// The process numbers that a listing of one number per line holds.
pub fn parse_listed_pids(listing: &str) -> (pids: Vec<i32>)
    ensures
        pids@ == listed_pids(listing@),
{
    let items = lines_of(&chars_of(listing));
    let mut pids: Vec<i32> = Vec::new();
    let mut i: usize = 0;
    assert(views(items@).take(0) =~= Seq::<Seq<char>>::empty());
    while i < items.len()
        invariant
            i <= items.len(),
            pids@ == item_pids(views(items@).take(i as int)),
        decreases items.len() - i,
    {
        let ghost done = views(items@).take(i as int);
        let ghost next = views(items@).take(i + 1);
        assert(next.drop_last() =~= done);
        assert(next.last() == items[i as int]@);
        match parse_i32_chars(&items[i]) {
            Some(pid) => {
                pids.push(pid);
            },
            None => {},
        }
        i += 1;
    }
    assert(views(items@).take(items.len() as int) =~= views(items@));
    pids
}

} // verus!
