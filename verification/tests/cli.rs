use port_kill::cli::Args;

fn range_args(start_port: u16, end_port: u16) -> Args {
    Args {
        start_port,
        end_port,
        ports: None,
        console: false,
        verbose: false,
        docker: false,
        show_pid: false,
    }
}

fn specific_args(ports: Vec<u16>) -> Args {
    Args {
        start_port: 2000,
        end_port: 6000,
        ports: Some(ports),
        console: false,
        verbose: false,
        docker: false,
        show_pid: false,
    }
}

#[test]
fn test_get_ports_to_monitor_range() {
    let args = range_args(3000, 3005);

    let ports = args.get_ports_to_monitor();
    assert_eq!(ports, vec![3000, 3001, 3002, 3003, 3004, 3005]);
}

#[test]
fn test_get_ports_to_monitor_specific() {
    let args = specific_args(vec![3000, 8000, 8080]);

    let ports = args.get_ports_to_monitor();
    assert_eq!(ports, vec![3000, 8000, 8080]);
}

#[test]
fn test_get_port_description_range() {
    let args = range_args(3000, 3010);

    assert_eq!(args.get_port_description(), "port range: 3000-3010");
}

#[test]
fn test_get_port_description_specific() {
    let args = specific_args(vec![3000, 8000, 8080]);

    assert_eq!(
        args.get_port_description(),
        "specific ports: 3000, 8000, 8080"
    );
}

#[test]
fn test_validation_valid() {
    let args = range_args(3000, 3010);

    assert!(args.validate().is_ok());
}

#[test]
fn test_validation_invalid_range() {
    let args = range_args(3010, 3000);

    assert!(args.validate().is_err());
}

#[test]
fn test_validation_empty_specific_ports() {
    let args = specific_args(vec![]);

    assert!(args.validate().is_err());
}

#[test]
fn validation_names_each_reason() {
    assert_eq!(
        range_args(3010, 3000).validate(),
        Err("Start port cannot be greater than end port".to_string())
    );
    assert_eq!(
        specific_args(vec![]).validate(),
        Err("At least one port must be specified".to_string())
    );
    assert_eq!(
        specific_args(vec![3000, 0, 8080]).validate(),
        Err("Port 0 is not valid".to_string())
    );
    assert_eq!(specific_args(vec![3000, 8080]).validate(), Ok(()));
}

#[test]
fn validation_checks_the_range_before_the_explicit_ports() {
    let mut args = specific_args(vec![]);
    args.start_port = 7000;
    args.end_port = 6000;
    assert_eq!(
        args.validate(),
        Err("Start port cannot be greater than end port".to_string())
    );
}

#[test]
fn a_range_may_hold_port_zero_and_the_last_port() {
    assert_eq!(range_args(0, 2).validate(), Ok(()));
    assert_eq!(range_args(0, 2).get_ports_to_monitor(), vec![0, 1, 2]);
    assert_eq!(
        range_args(65533, 65535).get_ports_to_monitor(),
        vec![65533, 65534, 65535]
    );
    assert_eq!(range_args(443, 443).get_ports_to_monitor(), vec![443]);
    assert_eq!(range_args(65535, 65535).get_ports_to_monitor(), vec![65535]);
}

#[test]
fn a_reversed_range_holds_no_port() {
    assert_eq!(range_args(3010, 3000).get_ports_to_monitor(), Vec::<u16>::new());
    assert!(range_args(3010, 3000).get_ports_set().is_empty());
}

#[test]
fn the_whole_range_has_every_port() {
    let ports = range_args(0, 65535).get_ports_to_monitor();
    assert_eq!(ports.len(), 65536);
    assert_eq!(ports[0], 0);
    assert_eq!(ports[65535], 65535);
    assert!(ports.windows(2).all(|pair| pair[0] + 1 == pair[1]));
}

#[test]
fn explicit_ports_replace_the_range() {
    let args = specific_args(vec![8080, 3000, 8080]);
    assert_eq!(args.get_ports_to_monitor(), vec![8080, 3000, 8080]);
    let set = args.get_ports_set();
    assert_eq!(set.len(), 2);
    assert!(set.contains(&3000) && set.contains(&8080));
    assert!(!set.contains(&2000));
}

#[test]
fn the_set_of_a_range_holds_its_ports() {
    let set = range_args(3000, 3005).get_ports_set();
    assert_eq!(set.len(), 6);
    for port in 3000..=3005u16 {
        assert!(set.contains(&port));
    }
    assert!(!set.contains(&2999) && !set.contains(&3006));
}

#[test]
fn descriptions_of_edge_cases() {
    assert_eq!(specific_args(vec![]).get_port_description(), "specific ports: ");
    assert_eq!(specific_args(vec![80]).get_port_description(), "specific ports: 80");
    assert_eq!(range_args(0, 65535).get_port_description(), "port range: 0-65535");
}
