//! Which ports to monitor, and whether the choice is one that can be
//! monitored at all.

use crate::decimal::{decimal, push_decimal};
use crate::text::join;
use std::collections::HashSet;
use vstd::prelude::*;
use vstd::std_specs::hash::*;

verus! {

broadcast use group_hash_axioms;

/// The options of the monitor. The ports to monitor are those of `ports`
/// where it is given, and otherwise those from `start_port` to `end_port`,
/// both included.
#[derive(Debug)]
pub struct Args {
    pub start_port: u16,
    pub end_port: u16,
    pub ports: Option<Vec<u16>>,
    pub console: bool,
    pub verbose: bool,
    pub docker: bool,
    pub show_pid: bool,
}

/// The ports from `start` to `end`, both included, in rising order; none
/// where `start` is above `end`.
pub open spec fn port_range(start: u16, end: u16) -> Seq<u16> {
    if start <= end {
        Seq::new((end - start + 1) as nat, |i: int| (start + i) as u16)
    } else {
        Seq::empty()
    }
}

/// Each port of `ports` in base ten.
pub open spec fn port_texts(ports: Seq<u16>) -> Seq<Seq<char>> {
    Seq::new(ports.len(), |i: int| decimal(ports[i] as nat))
}

/// The ports of `ports` in base ten, with a comma and a space between each
/// two.
pub open spec fn port_list(ports: Seq<u16>) -> Seq<char> {
    join(port_texts(ports), ", "@)
}

/// Appends the ports of `ports` to `out`, with a comma and a space between
/// each two.
pub fn push_port_list(out: &mut String, ports: &Vec<u16>)
    ensures
        final(out)@ == old(out)@ + port_list(ports@),
{
    let mut i: usize = 0;
    assert(port_texts(ports@.take(0)) =~= Seq::<Seq<char>>::empty());
    assert(out@ =~= old(out)@ + port_list(ports@.take(0)));
    while i < ports.len()
        invariant
            i <= ports.len(),
            out@ == old(out)@ + port_list(ports@.take(i as int)),
        decreases ports.len() - i,
    {
        let ghost before = port_texts(ports@.take(i as int));
        let ghost after = port_texts(ports@.take(i + 1));
        assert(after.drop_last() =~= before);
        assert(after.last() == decimal(ports[i as int] as nat));
        if i > 0 {
            out.append(", ");
        }
        push_decimal(out, ports[i] as u64);
        assert(out@ =~= old(out)@ + port_list(ports@.take(i + 1)));
        i += 1;
    }
    assert(ports@.take(ports.len() as int) =~= ports@);
}

impl Args {
    /// The ports to monitor, in the order in which they are scanned.
    pub open spec fn monitored_ports(&self) -> Seq<u16> {
        match self.ports {
            Some(ports) => ports@,
            None => port_range(self.start_port, self.end_port),
        }
    }

    /// The configuration in words.
    pub open spec fn description(&self) -> Seq<char> {
        match self.ports {
            Some(ports) => "specific ports: "@ + port_list(ports@),
            None => "port range: "@ + decimal(self.start_port as nat) + "-"@ + decimal(
                self.end_port as nat,
            ),
        }
    }

    /// Why the configuration is refused, if it is: the range is checked
    /// first, also where explicit ports replace it; then that the explicit
    /// ports are not empty; then that none of them is port 0.
    pub open spec fn rejection(&self) -> Option<Seq<char>> {
        if self.start_port > self.end_port {
            Some("Start port cannot be greater than end port"@)
        } else if self.ports is Some && self.ports->0@.len() == 0 {
            Some("At least one port must be specified"@)
        } else if self.ports is Some && self.ports->0@.contains(0u16) {
            Some("Port 0 is not valid"@)
        } else {
            None
        }
    }

    /// The ports to monitor: the explicit ports where they are given, as
    /// given; otherwise the range.
    pub fn get_ports_to_monitor(&self) -> (ports: Vec<u16>)
        ensures
            ports@ == self.monitored_ports(),
    {
        match &self.ports {
            Some(specific_ports) => {
                let mut ports: Vec<u16> = Vec::new();
                let mut i: usize = 0;
                while i < specific_ports.len()
                    invariant
                        i <= specific_ports.len(),
                        ports@ == specific_ports@.take(i as int),
                    decreases specific_ports.len() - i,
                {
                    ports.push(specific_ports[i]);
                    i += 1;
                }
                assert(specific_ports@.take(specific_ports.len() as int) =~= specific_ports@);
                ports
            },
            None => {
                let mut ports: Vec<u16> = Vec::new();
                let start = self.start_port;
                let end = self.end_port;
                if start <= end {
                    let mut port: u16 = start;
                    while port < end
                        invariant
                            start <= port <= end,
                            ports@ == Seq::new((port - start) as nat, |i: int| (start + i) as u16),
                        decreases end - port,
                    {
                        ports.push(port);
                        port += 1;
                        assert(ports@ =~= Seq::new(
                            (port - start) as nat,
                            |i: int| (start + i) as u16,
                        ));
                    }
                    ports.push(end);
                    assert(ports@ =~= port_range(start, end));
                }
                ports
            },
        }
    }

    /// The ports to monitor as a set.
    pub fn get_ports_set(&self) -> (set: HashSet<u16>)
        ensures
            set@ == self.monitored_ports().to_set(),
    {
        let ports = self.get_ports_to_monitor();
        let mut set: HashSet<u16> = HashSet::new();
        let mut i: usize = 0;
        assert(ports@.take(0).to_set() =~= Set::<u16>::empty());
        while i < ports.len()
            invariant
                i <= ports.len(),
                set@ == ports@.take(i as int).to_set(),
            decreases ports.len() - i,
        {
            set.insert(ports[i]);
            assert(ports@.take(i + 1).to_set() =~= ports@.take(i as int).to_set().insert(
                ports[i as int],
            )) by {
                let longer = ports@.take(i + 1);
                let shorter = ports@.take(i as int);
                assert forall|p: u16| longer.to_set().contains(p) implies shorter.to_set().insert(
                    ports[i as int],
                ).contains(p) by {
                    let k = choose|k: int| 0 <= k < longer.len() && longer[k] == p;
                    if k < i {
                        assert(shorter[k] == p);
                    }
                }
                assert forall|p: u16|
                    shorter.to_set().insert(ports[i as int]).contains(
                        p,
                    ) implies longer.to_set().contains(p) by {
                    if p == ports[i as int] {
                        assert(longer[i as int] == p);
                    } else {
                        let k = choose|k: int| 0 <= k < shorter.len() && shorter[k] == p;
                        assert(longer[k] == p);
                    }
                }
            }
            i += 1;
        }
        assert(ports@.take(ports.len() as int) =~= ports@);
        set
    }

    /// The configuration in words: the explicit ports where they are given,
    /// otherwise the two ends of the range.
    pub fn get_port_description(&self) -> (text: String)
        ensures
            text@ == self.description(),
    {
        match &self.ports {
            Some(specific_ports) => {
                let mut text = "specific ports: ".to_string();
                push_port_list(&mut text, specific_ports);
                text
            },
            None => {
                let mut text = "port range: ".to_string();
                push_decimal(&mut text, self.start_port as u64);
                text.append("-");
                push_decimal(&mut text, self.end_port as u64);
                text
            },
        }
    }

    /// Accepts the configuration, or says why it is refused.
    #[verifier::loop_isolation(false)]
    pub fn validate(&self) -> (r: Result<(), String>)
        ensures
            r is Ok <==> self.rejection() is None,
            r matches Err(reason) ==> self.rejection() == Some(reason@),
    {
        if self.start_port > self.end_port {
            return Err("Start port cannot be greater than end port".to_string());
        }
        if let Some(specific_ports) = &self.ports {
            if specific_ports.len() == 0 {
                return Err("At least one port must be specified".to_string());
            }
            let mut i: usize = 0;
            while i < specific_ports.len()
                invariant
                    i <= specific_ports.len(),
                    forall|k: int| 0 <= k < i ==> specific_ports@[k] != 0,
                decreases specific_ports.len() - i,
            {
                if specific_ports[i] == 0 {
                    assert(specific_ports@.contains(0u16));
                    return Err("Port 0 is not valid".to_string());
                }
                i += 1;
            }
        }
        Ok(())
    }
}

} // verus!
