use blockkick::config::{parse_args, parse_decimal, ArgWarning, NodeConfig};

fn args(list: &[&str]) -> (Vec<String>, Vec<bool>) {
    let v: Vec<String> = list.iter().map(|s| s.to_string()).collect();
    // An address here is text with a colon followed by a port number.
    let ok = v
        .iter()
        .map(|s| s.rsplit_once(':').map(|(h, p)| !h.is_empty() && p.parse::<u16>().is_ok()) == Some(true))
        .collect();
    (v, ok)
}

#[test]
fn defaults() {
    let c = NodeConfig::default();
    assert_eq!((c.port, c.p2p_port, c.difficulty), (3000, 3001, 4));
    assert!(c.bootstrap_peers.is_empty());
    let (a, ok) = args(&["node"]);
    let p = parse_args(&a, &ok);
    assert_eq!((p.config.port, p.config.p2p_port, p.config.difficulty), (3000, 3001, 4));
    assert!(p.warnings.is_empty() && !p.show_help);
}

#[test]
fn all_options() {
    let (a, ok) = args(&[
        "node", "-p", "8080", "--p2p-port", "8081", "-d", "7", "--connect", "127.0.0.1:3001",
        "--bootstrap", "10.0.0.1:9",
    ]);
    let p = parse_args(&a, &ok);
    assert_eq!((p.config.port, p.config.p2p_port, p.config.difficulty), (8080, 8081, 7));
    assert_eq!(p.config.bootstrap_peers, vec!["127.0.0.1:3001".to_string(), "10.0.0.1:9".to_string()]);
    assert!(p.warnings.is_empty());
}

#[test]
fn invalid_values_warn_and_are_read_again() {
    let (a, ok) = args(&["node", "--port", "99999", "--connect", "nowhere", "--difficulty"]);
    let p = parse_args(&a, &ok);
    assert_eq!(p.config.port, 3000);
    assert_eq!(p.warnings.len(), 4);
    assert!(matches!(p.warnings[0], ArgWarning::InvalidPort));
    assert!(matches!(&p.warnings[1], ArgWarning::UnknownArgument(s) if s == "99999"));
    assert!(matches!(&p.warnings[2], ArgWarning::InvalidPeerAddress(s) if s == "nowhere"));
    assert!(matches!(&p.warnings[3], ArgWarning::UnknownArgument(s) if s == "nowhere"));
    assert!(p.config.bootstrap_peers.is_empty());
}

#[test]
fn help_stops_reading() {
    let (a, ok) = args(&["node", "bogus", "-h", "--port", "1"]);
    let p = parse_args(&a, &ok);
    assert!(p.show_help);
    assert_eq!(p.warnings.len(), 1);
    assert_eq!(p.config.port, 3000);
}

#[test]
fn bad_p2p_port_and_difficulty() {
    let (a, ok) = args(&["node", "--p2p-port", "x", "-d", "-1"]);
    let p = parse_args(&a, &ok);
    assert!(matches!(p.warnings[0], ArgWarning::InvalidP2pPort));
    assert!(matches!(p.warnings[2], ArgWarning::InvalidDifficulty));
    assert_eq!(p.config.difficulty, 4);
}

#[test]
fn decimal_reading_matches_std() {
    for s in ["0", "65535", "65536", "+1", "+", "", "-0", "007", "12a", "4294967295", "4294967296", " 1"] {
        assert_eq!(parse_decimal(s, 65535), s.parse::<u16>().ok().map(|v| v as u64), "{}", s);
        assert_eq!(parse_decimal(s, 4294967295), s.parse::<u32>().ok().map(|v| v as u64), "{}", s);
    }
}
