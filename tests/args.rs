use fileserver::args::ProgramArgs;
use fileserver::config::Config;
use fileserver::connection::ipv4_address_to_byte_vec;

fn civilize_vec(primitive_vec: Vec<&str>) -> Vec<String> {
    let mut vec = Vec::with_capacity(primitive_vec.len());
    for el in primitive_vec {
        vec.push(el.into());
    }
    vec
}

#[test]
fn command_line_arguments() {
    // the latter should take precedence
    let args = vec!["fs.exe", "-p", "1111", "2222", "-p", "5123", "-noise", "-ip", "10.0.0.200"];
    let args = civilize_vec(args);
    let program_args = ProgramArgs::parse(args);
    let Some(ip) = program_args.ip else {
        assert!(false);
        return;
    };
    let Some(port) = program_args.port else {
        assert!(false);
        return;
    };
    assert_eq!(ip, "10.0.0.200");
    assert_eq!(port, 5123);
}

#[test]
fn host_auto_accept_test() {
    let args = vec!["fs.exe", "-aa"];
    let args = civilize_vec(args);
    let program_args = ProgramArgs::parse(args);
    assert_eq!(program_args.host_auto_accept, Some(true));
}

#[test]
fn long_options_and_rest() {
    let args = civilize_vec(vec!["fs", "host", "--port=+80", "--ip=1.2.3.4", "--auto-accept", "-p"]);
    let program_args = ProgramArgs::parse(args);
    assert_eq!(program_args.exe, "fs");
    assert_eq!(program_args.args, vec!["host", "--port=+80", "--ip=1.2.3.4", "--auto-accept", "-p"]);
    assert_eq!(program_args.port, Some(80));
    assert_eq!(program_args.ip.as_deref(), Some("1.2.3.4"));
    assert_eq!(program_args.host_auto_accept, Some(true));
}

#[test]
fn no_options() {
    let program_args = ProgramArgs::parse(civilize_vec(vec!["fs", "-ip"]));
    assert!(program_args.ip.is_none() && program_args.port.is_none());
    assert!(program_args.host_auto_accept.is_none());
}

#[test]
fn ipv4_octets() {
    assert_eq!(ipv4_address_to_byte_vec("10.0.0.200"), [10, 0, 0, 200]);
    assert_eq!(ipv4_address_to_byte_vec("192.168"), [192, 168, 0, 0]);
    assert_eq!(ipv4_address_to_byte_vec("+7.255.1.0"), [7, 255, 1, 0]);
}

#[test]
fn config_text() {
    let text = "host=1.2.3.4\r\nhost_port=8080\nconnect=peer\nno pair here\nwrite_timeout=\n\
                read_timeout=30\nhost_auto_accept=true\nunknown=5\nconnect=10.0.0.1\n";
    let config = Config::parse_text(text).unwrap();
    assert_eq!(config.host_ip.as_deref(), Some("1.2.3.4"));
    assert_eq!(config.host_port, Some(8080));
    assert_eq!(config.connect_ip.as_deref(), Some("10.0.0.1"));
    assert_eq!(config.connect_port, None);
    assert_eq!(config.write_timeout, None);
    assert_eq!(config.read_timeout, Some(30));
    assert_eq!(config.auto_accept, Some(true));
}

#[test]
fn config_text_bad_values() {
    assert!(Config::parse_text("host_port=70000").is_none());
    assert!(Config::parse_text("host_auto_accept=yes\n").is_none());
    assert!(Config::parse_text("read_timeout=-1").is_none());
    let empty = Config::parse_text("").unwrap();
    assert!(empty.host_ip.is_none() && empty.read_timeout.is_none());
}
