use shark_scan::parser::{parse_ports, Args, Verbosity};

#[test]
fn parser_test_parse_ports() {
    let port_range = "20:25,31,32,45:50";
    let ports = parse_ports(port_range).ok().unwrap();
    assert_eq!(
        ports,
        vec![20, 21, 22, 23, 24, 25, 31, 32, 45, 46, 47, 48, 49, 50]
    );
}

#[test]
fn test_parse_ports_list_trimmed() {
    let port_range = "14, 15, 29";
    let ports = parse_ports(port_range).ok().unwrap();
    assert_eq!(ports, vec![14, 15, 29]);
}

#[test]
fn test_parse_invalid_port_range() {
    let port_range = "14-15";
    let err = parse_ports(port_range).err().unwrap();
    assert_eq!(err.token, "14-15");
}

#[test]
fn test_parse_invalid_port_value() {
    let port_range = "14, a2";
    let err = parse_ports(port_range).err().unwrap();
    assert_eq!(err.token, "a2");
}

#[test]
fn parse_is_deterministic() {
    let spec = "20:25,31,32,45:50";
    assert_eq!(parse_ports(spec).ok(), parse_ports(spec).ok());
    let bad = "1, x, y";
    assert_eq!(parse_ports(bad).err().unwrap().token, parse_ports(bad).err().unwrap().token);
}

#[test]
fn parse_keeps_duplicates_in_order() {
    assert_eq!(parse_ports("80,79:81,80").ok().unwrap(), vec![80, 79, 80, 81, 80]);
}

#[test]
fn parse_reversed_range_is_empty() {
    assert_eq!(parse_ports("5:3").ok().unwrap(), Vec::<u16>::new());
    assert_eq!(parse_ports("1,5:3,2").ok().unwrap(), vec![1, 2]);
}

#[test]
fn parse_single_port_range() {
    assert_eq!(parse_ports("0:0").ok().unwrap(), vec![0]);
    assert_eq!(parse_ports("65534:65535").ok().unwrap(), vec![65534, 65535]);
}

#[test]
fn parse_bounds_of_a_port_number() {
    assert_eq!(parse_ports("65535").ok().unwrap(), vec![65535]);
    assert_eq!(parse_ports("65536").err().unwrap().token, "65536");
    assert_eq!(parse_ports("0").ok().unwrap(), vec![0]);
    assert_eq!(parse_ports("00080").ok().unwrap(), vec![80]);
    assert_eq!(parse_ports("+80").ok().unwrap(), vec![80]);
    assert_eq!(parse_ports("-80").err().unwrap().token, "-80");
    assert_eq!(parse_ports("+").err().unwrap().token, "+");
}

#[test]
fn parse_whitespace_only_around_tokens() {
    assert_eq!(parse_ports(" \t80 ,\n443 ").ok().unwrap(), vec![80, 443]);
    assert_eq!(parse_ports("20 : 25").err().unwrap().token, "20 : 25");
    assert_eq!(parse_ports("8 0").err().unwrap().token, "8 0");
}

#[test]
fn parse_malformed_ranges() {
    assert_eq!(parse_ports("1:2:3").err().unwrap().token, "1:2:3");
    assert_eq!(parse_ports(":5").err().unwrap().token, ":5");
    assert_eq!(parse_ports("5:").err().unwrap().token, "5:");
    assert_eq!(parse_ports("1:70000").err().unwrap().token, "1:70000");
}

#[test]
fn parse_empty_tokens_fail() {
    assert_eq!(parse_ports("").err().unwrap().token, "");
    assert_eq!(parse_ports("80,,81").err().unwrap().token, "");
    assert_eq!(parse_ports("80,").err().unwrap().token, "");
}

#[test]
fn parse_reports_first_bad_token() {
    assert_eq!(parse_ports("1, bad , worse").err().unwrap().token, "bad");
}

fn args_with_verbosity(v: &str) -> Args {
    Args {
        target: "127.0.0.1".to_string(),
        verbosity: v.to_string(),
        threads: 4,
        port_range: "1:1024".to_string(),
        timeout: 100,
        probe: false,
    }
}

#[test]
fn verbosity_names() {
    assert_eq!(args_with_verbosity("none").verbosity_level(), Verbosity::Quiet);
    assert_eq!(args_with_verbosity("low").verbosity_level(), Verbosity::Low);
    assert_eq!(args_with_verbosity("high").verbosity_level(), Verbosity::High);
    assert_eq!(args_with_verbosity("loud").verbosity_level(), Verbosity::Quiet);
    assert_eq!(args_with_verbosity("HIGH").verbosity_level(), Verbosity::Quiet);
}
