use haproxy_stats::env::{EnvironmentVariables, EnvironmentVariablesFromKvBytesError};

const SHOW_ENV_TXT: &str = "\
HAPROXY_LOCALPEER=d3a1f0c2b7e4\n\
HAPROXY_CFGFILES=/usr/local/etc/haproxy/haproxy.cfg\n\
HAPROXY_MWORKER=1\n\
HAPROXY_CLI=unix@/var/run/haproxy.sock;sd105\n\
HAPROXY_MASTER_CLI=unix@/var/run/haproxy-master.sock\n\
HAPROXY_VERSION=2.5.5\n\
HOSTNAME=d3a1f0c2b7e4\n\
HOME=/var/lib/haproxy\n\
PATH=/usr/local/sbin:/usr/local/bin:/usr/sbin:/usr/bin:/sbin:/bin\n\
PWD=/var/lib/haproxy\n\
\n\
";

#[test]
fn env_test_info_from_kv_bytes() {
    let bytes = SHOW_ENV_TXT.as_bytes();

    let vars = EnvironmentVariables::from_kv_bytes(bytes).unwrap();

    assert_eq!(
        vars.get("HAPROXY_VERSION").cloned().unwrap(),
        "2.5.5".to_string()
    );
}

#[test]
fn env_of_one_line_has_one_variable() {
    let vars = EnvironmentVariables::from_kv_bytes(b"HAPROXY_VERSION=2.5.5\n").unwrap();
    assert_eq!(vars.len(), 1);
    assert!(!vars.is_empty());
    assert_eq!(vars.get("HAPROXY_VERSION").map(|v| v.as_str()), Some("2.5.5"));
    assert!(vars.contains_key("HAPROXY_VERSION"));
    assert!(!vars.contains_key("HAPROXY_VERSIO"));
    assert_eq!(vars.get("haproxy_version"), None);
    assert_eq!(
        vars.to_vec(),
        vec![("HAPROXY_VERSION".to_string(), "2.5.5".to_string())]
    );
    assert_eq!(vars.clone().to_vec(), vars.to_vec());
}

#[test]
fn env_lines_are_split_at_the_first_equals_sign() {
    let vars =
        EnvironmentVariables::from_kv_bytes(b"A=b=c\nEMPTY=\nBARE\n=nameless\nLAST=1").unwrap();
    assert_eq!(vars.len(), 5);
    assert_eq!(vars.get("A").unwrap(), "b=c");
    assert_eq!(vars.get("EMPTY").unwrap(), "");
    assert_eq!(vars.get("BARE").unwrap(), "");
    assert_eq!(vars.get("").unwrap(), "nameless");
    assert_eq!(vars.get("LAST").unwrap(), "1");
}

#[test]
fn env_later_line_of_a_name_wins() {
    let vars = EnvironmentVariables::from_kv_bytes(b"A=1\nB=2\nA=3\n").unwrap();
    assert_eq!(vars.len(), 2);
    assert_eq!(vars.get("A").unwrap(), "3");
    assert_eq!(vars.get("B").unwrap(), "2");
}

#[test]
fn env_of_nothing_is_empty() {
    let vars = EnvironmentVariables::from_kv_bytes(b"").unwrap();
    assert_eq!(vars.len(), 0);
    assert!(vars.is_empty());
    // an empty line sets the empty name
    let vars = EnvironmentVariables::from_kv_bytes(b"\n").unwrap();
    assert_eq!(vars.len(), 1);
    assert_eq!(vars.get("").unwrap(), "");
}

#[test]
fn env_line_ends_are_not_part_of_values() {
    let vars = EnvironmentVariables::from_kv_bytes(b"A=1\r\nB=2\r\n").unwrap();
    assert_eq!(vars.get("A").unwrap(), "1");
    assert_eq!(vars.get("B").unwrap(), "2");
    // without a line feed after it, a carriage return is a character like others
    let vars = EnvironmentVariables::from_kv_bytes(b"A=1\r").unwrap();
    assert_eq!(vars.get("A").unwrap(), "1\r");
    let vars = EnvironmentVariables::from_kv_bytes(b"A=1\r\r\n").unwrap();
    assert_eq!(vars.get("A").unwrap(), "1\r");
}

#[test]
fn env_that_is_not_utf8_is_refused() {
    assert_eq!(
        EnvironmentVariables::from_kv_bytes(b"A=1\nB=\xc3\nC=3\n").unwrap_err(),
        EnvironmentVariablesFromKvBytesError::LinesReadFailed(1)
    );
    assert_eq!(
        EnvironmentVariables::from_kv_bytes(b"\xff").unwrap_err(),
        EnvironmentVariablesFromKvBytesError::LinesReadFailed(0)
    );
    let vars = EnvironmentVariables::from_kv_bytes("K=h\u{e9}\n".as_bytes()).unwrap();
    assert_eq!(vars.get("K").unwrap(), "h\u{e9}");
}

#[test]
fn env_reference_output_is_decoded_whole() {
    let vars = EnvironmentVariables::from_kv_bytes(SHOW_ENV_TXT.as_bytes()).unwrap();
    assert_eq!(vars.len(), 11);
    assert_eq!(vars.get("HOME").unwrap(), "/var/lib/haproxy");
    assert_eq!(vars.get("HAPROXY_CLI").unwrap(), "unix@/var/run/haproxy.sock;sd105");
    assert_eq!(vars.get("").unwrap(), "");
}
