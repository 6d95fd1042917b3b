use carescanner::configuration::port_parsing::{parse_port_lines, parse_ports_string_to_vec};
use carescanner::configuration::proxy::parse_proxy_input;
use carescanner::configuration::target_parsing::{concat_addresses, item_expansion, parse_target_input};
use carescanner::configuration::{list_file_path, split_list, PortList};

#[test]
fn ports_singles_and_ranges() {
    assert_eq!(parse_ports_string_to_vec("80,443,22-25").unwrap(), vec![80, 443, 22, 23, 24, 25]);
    assert_eq!(parse_ports_string_to_vec(" 8080 , 1 - 3 ").unwrap(), vec![8080, 1, 2, 3]);
    assert_eq!(parse_ports_string_to_vec("65535").unwrap(), vec![65535]);
    assert_eq!(parse_ports_string_to_vec("65534-65535").unwrap(), vec![65534, 65535]);
    assert_eq!(parse_ports_string_to_vec("+80").unwrap(), vec![80]);
    assert_eq!(parse_ports_string_to_vec("007").unwrap(), vec![7]);
}

#[test]
fn ports_full_range() {
    let all = parse_ports_string_to_vec("1-65535").unwrap();
    assert_eq!(all.len(), 65535);
    assert_eq!(all[0], 1);
    assert_eq!(all[65534], 65535);
}

#[test]
fn ports_repeats_removed_first_kept() {
    assert_eq!(parse_ports_string_to_vec("443,80,79-81,443").unwrap(), vec![443, 80, 79, 81]);
}

#[test]
fn ports_errors() {
    assert!(parse_ports_string_to_vec("").is_err());
    assert!(parse_ports_string_to_vec("80,").is_err());
    assert!(parse_ports_string_to_vec("abc").is_err());
    assert!(parse_ports_string_to_vec("65536").is_err());
    assert!(parse_ports_string_to_vec("9-1").is_err());
    assert!(parse_ports_string_to_vec("-5").is_err());
    assert!(parse_ports_string_to_vec("1-2-3").is_err());
    assert!(parse_ports_string_to_vec("+").is_err());
    let e = parse_ports_string_to_vec("80,x1").unwrap_err();
    assert!(e.contains("x1"));
}

#[test]
fn port_list_from_str() {
    let l: PortList = "22,80".parse().unwrap();
    assert_eq!(l.vec(), vec![22, 80]);
    assert_eq!(l.len(), 2);
}

#[test]
fn port_file_lines() {
    let lines = vec!["80".to_string(), "   ".to_string(), " 20-21 ".to_string(), "80".to_string()];
    assert_eq!(parse_port_lines(&lines).unwrap(), vec![80, 20, 21]);
    assert!(parse_port_lines(&vec!["http".to_string()]).is_err());
    assert_eq!(parse_port_lines(&vec![]).unwrap(), Vec::<u16>::new());
}

#[test]
fn file_marker_detected() {
    assert_eq!(list_file_path("  file:ports.txt "), Some("ports.txt".to_string()));
    assert_eq!(list_file_path("file:"), Some(String::new()));
    assert_eq!(list_file_path("80,443"), None);
    assert_eq!(list_file_path("fil"), None);
}

#[test]
fn list_items_trimmed() {
    assert_eq!(split_list("  a , b,c  "), vec!["a".to_string(), "b".to_string(), "c".to_string()]);
    assert_eq!(split_list("a,,b"), vec!["a".to_string(), String::new(), "b".to_string()]);
}

#[test]
fn proxy_input() {
    let l = parse_proxy_input(" socks5://127.0.0.1:9050 , socks5://10.0.0.1:1080").unwrap();
    assert_eq!(l.vec(), vec!["socks5://127.0.0.1:9050".to_string(), "socks5://10.0.0.1:1080".to_string()]);
    assert_eq!(l.len(), 2);
    assert!(parse_proxy_input("   ").is_err());
}

#[test]
fn target_input_networks() {
    let l = parse_target_input("10.0.0.0/30, 192.168.5.8/31").unwrap();
    assert_eq!(
        l.vec(),
        vec!["10.0.0.0", "10.0.0.1", "10.0.0.2", "10.0.0.3", "192.168.5.8", "192.168.5.9"]
            .into_iter()
            .map(|s| s.to_string())
            .collect::<Vec<_>>()
    );
    assert_eq!(l.len(), 6);
    assert!(parse_target_input("10.0.0.0/33").is_err());
    assert!(parse_target_input("").is_err());
}

#[test]
fn target_input_literal_address() {
    let l = parse_target_input("127.0.0.1").unwrap();
    assert!(l.vec().contains(&"127.0.0.1".to_string()));
}

#[test]
fn target_input_messages() {
    assert_eq!(parse_target_input("   ").err(), Some("No target specified".to_string()));
    assert_eq!(parse_target_input("0.0.0.0/0").err(), Some("Network too large '0.0.0.0/0'".to_string()));
    assert_eq!(
        parse_target_input("10.0.0.0/30, 10.0.0.0/x").err(),
        Some("Invalid CIDR notation '10.0.0.0/x'".to_string())
    );
    assert_eq!(parse_target_input("::/127").unwrap().len(), 2);
}

#[test]
fn target_item_expansion() {
    let answer = Some(vec!["192.0.2.7".to_string(), "192.0.2.8".to_string()]);
    assert_eq!(item_expansion("example.test", answer.clone()), Ok(answer.clone().unwrap()));
    assert_eq!(
        item_expansion("example.test", None),
        Err("Failed to lookup host 'example.test'".to_string())
    );
    assert_eq!(
        item_expansion("10.1.1.0/31", None),
        Ok(vec!["10.1.1.0".to_string(), "10.1.1.1".to_string()])
    );
    assert_eq!(item_expansion("10.1.1.0/31", answer.clone()).unwrap().len(), 2);
    let lists = vec![vec!["a".to_string()], vec![], vec!["b".to_string(), "c".to_string()]];
    assert_eq!(concat_addresses(&lists), vec!["a".to_string(), "b".to_string(), "c".to_string()]);
}
