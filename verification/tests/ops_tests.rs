use patu::ops::{cni, ipam_outcome, version, CniCommand, CniPlan, EnvView, IpamRun, ParseError};
use patu::types::{Dns, Error, Interface, Ip, Route, Success};

fn full_env() -> EnvView {
    EnvView {
        command: Some("ADD".to_string()),
        container_id: Some("abc123".to_string()),
        netns: Some("/var/run/netns/test".to_string()),
        ifname: Some("eth0".to_string()),
        args: None,
        path: Some("/opt/cni/bin".to_string()),
    }
}

#[test]
fn commands_parse_exactly() {
    assert!(matches!(
        CniCommand::try_from("ADD".to_string()),
        Ok(CniCommand::Add)
    ));
    assert!(matches!(
        CniCommand::try_from("DEL".to_string()),
        Ok(CniCommand::Del)
    ));
    assert!(matches!(
        CniCommand::try_from("CHECK".to_string()),
        Ok(CniCommand::Check)
    ));
    assert!(matches!(
        CniCommand::try_from("VERSION".to_string()),
        Ok(CniCommand::Version)
    ));
}

#[test]
fn commands_are_case_sensitive_and_closed() {
    for s in ["add", "Add", "ADDX", "AD", "", "REMOVE", "version", " ADD"] {
        let r = CniCommand::try_from(s.to_string());
        match r {
            Err(ParseError::InvalidCommand(kept)) => assert_eq!(kept, s),
            Ok(_) => panic!("command {:?} must not parse", s),
        }
    }
}

#[test]
fn invalid_command_message_keeps_string() {
    let e = CniCommand::try_from("add".to_string()).unwrap_err();
    assert_eq!(e.message(), "Command add is not valid");
}

#[test]
fn version_is_fixed_document() {
    assert_eq!(
        version(),
        "{\"cniVersion\":\"1.0.0\",\"supportedVersions\":[\"1.0.0\"]}"
    );
}

#[test]
fn version_is_infallible_given_any_environment() {
    // once the command parses as the version request, the fixed document
    // comes back whatever else the environment holds
    let env = EnvView {
        command: Some("VERSION".to_string()),
        container_id: None,
        netns: None,
        ifname: None,
        args: None,
        path: None,
    };
    match cni(env) {
        Ok(CniPlan::Version { document }) => assert_eq!(document, version()),
        _ => panic!("version must not require any other variable"),
    }
    let mut env = full_env();
    env.command = Some("VERSION".to_string());
    match cni(env) {
        Ok(CniPlan::Version { document }) => assert_eq!(document, version()),
        _ => panic!("version must succeed in a full environment too"),
    }
}

#[test]
fn missing_command_fails() {
    let mut env = full_env();
    env.command = None;
    let e = cni(env).unwrap_err();
    assert_eq!(e.code, 4);
    assert_eq!(e.msg, "CNI_COMMAND was not provided");
    assert_eq!(e.details, None);
}

#[test]
fn invalid_command_fails_with_detail() {
    let mut env = full_env();
    env.command = Some("add".to_string());
    let e = cni(env).unwrap_err();
    assert_eq!(e.code, 4);
    assert_eq!(e.msg, "CNI_COMMAND is not valid");
    assert_eq!(e.details, Some("Command add is not valid".to_string()));
}

#[test]
fn missing_container_id_fails() {
    let mut env = full_env();
    env.container_id = None;
    let e = cni(env).unwrap_err();
    assert_eq!(e.code, 4);
    assert_eq!(e.msg, "CNI_CONTAINERID was not provided");
}

#[test]
fn missing_ifname_fails() {
    let mut env = full_env();
    env.ifname = None;
    let e = cni(env).unwrap_err();
    assert_eq!(e.code, 4);
    assert_eq!(e.msg, "CNI_IFNAME was not provided");
}

#[test]
fn missing_path_fails() {
    let mut env = full_env();
    env.path = None;
    let e = cni(env).unwrap_err();
    assert_eq!(e.code, 4);
    assert_eq!(e.msg, "CNI_PATH was not provided");
}

#[test]
fn missing_netns_fails_before_any_work() {
    // attach, detach and check all fail on the spot when the namespace
    // variable is absent: the returned plan is the only way any protocol
    // or delegate call can happen, and none is produced
    for cmd in ["ADD", "DEL", "CHECK"] {
        let mut env = full_env();
        env.command = Some(cmd.to_string());
        env.netns = None;
        let e = cni(env).unwrap_err();
        assert_eq!(e.code, 4);
        assert_eq!(e.msg, "CNI_NETNS is required but was not provided");
        assert_eq!(e.details, None);
    }
}

#[test]
fn add_plan_carries_parameters() {
    match cni(full_env()) {
        Ok(CniPlan::Attach {
            netns,
            ifname,
            path,
        }) => {
            assert_eq!(netns, "/var/run/netns/test");
            assert_eq!(ifname, "eth0");
            assert_eq!(path, "/opt/cni/bin");
        }
        _ => panic!("ADD must plan an attach"),
    }
}

#[test]
fn check_plan_is_empty_result() {
    let mut env = full_env();
    env.command = Some("CHECK".to_string());
    match cni(env) {
        Ok(CniPlan::Check { result }) => {
            assert_eq!(result.cni_version, "");
            assert!(result.interfaces.is_none());
            assert!(result.ips.is_empty());
            assert!(result.routes.is_empty());
        }
        _ => panic!("CHECK must plan an empty result"),
    }
}

#[test]
fn ipam_outcome_no_delegate_is_empty_success() {
    let r = ipam_outcome(IpamRun::NoDelegate, true).unwrap();
    assert!(r.ips.is_empty());
    assert!(r.interfaces.is_none());
}

#[test]
fn ipam_outcome_spawn_failure_is_delegate_error() {
    let e = ipam_outcome(IpamRun::SpawnFailed("no such file".to_string()), true).unwrap_err();
    assert_eq!(e.code, 101);
    assert_eq!(e.msg, "IPAM Error");
    assert_eq!(e.details, Some("no such file".to_string()));
}

#[test]
fn ipam_outcome_takes_result_verbatim() {
    let mut s = Success::default();
    s.cni_version = "1.0.0".to_string();
    let r = ipam_outcome(IpamRun::ExitOk(Ok(s)), true).unwrap();
    assert_eq!(r.cni_version, "1.0.0");
}

#[test]
fn ipam_outcome_release_ignores_output() {
    let r = ipam_outcome(IpamRun::ExitOk(Err("garbage".to_string())), false).unwrap();
    assert!(r.ips.is_empty());
}

#[test]
fn ipam_outcome_propagates_delegate_error_verbatim() {
    let own = Error::new_custom(
        7,
        "Invalid Configuration".to_string(),
        Some("Network 192.168.0.0/31 too small to allocate from.".to_string()),
    );
    let e = ipam_outcome(IpamRun::ExitErr(Ok(own)), true).unwrap_err();
    assert_eq!(e.code, 7);
    assert_eq!(e.msg, "Invalid Configuration");
    assert_eq!(
        e.details,
        Some("Network 192.168.0.0/31 too small to allocate from.".to_string())
    );
}

#[test]
fn ipam_outcome_unparseable_error_is_wrapped() {
    let e = ipam_outcome(IpamRun::ExitErr(Err("bad json".to_string())), true).unwrap_err();
    assert_eq!(e.code, 101);
    assert_eq!(e.details, Some("bad json".to_string()));
    let e = ipam_outcome(IpamRun::ExitErr(Err("bad json".to_string())), false).unwrap_err();
    assert_eq!(e.code, 101);
    assert_eq!(e.details, None);
}

#[test]
fn error_document_text_is_exact() {
    let e = Error::new_custom(
        102,
        "Error creating gateway".to_string(),
        Some("netlink error code -17".to_string()),
    );
    assert_eq!(
        patu::render::error_doc(&e),
        "{\"code\":102,\"msg\":\"Error creating gateway\",\"details\":\"netlink error code -17\"}"
    );
    let e = Error::new_custom(4, "CNI_COMMAND was not provided".to_string(), None);
    assert_eq!(
        patu::render::error_doc(&e),
        "{\"code\":4,\"msg\":\"CNI_COMMAND was not provided\"}"
    );
}

#[test]
fn error_document_escapes_strings() {
    let e = Error::new_custom(7, "a \"b\"\\\n\u{1}".to_string(), None);
    assert_eq!(
        patu::render::error_doc(&e),
        "{\"code\":7,\"msg\":\"a \\\"b\\\"\\\\\\n\\u0001\"}"
    );
}

#[test]
fn success_document_text_is_exact() {
    let s = Success {
        cni_version: "1.0.0".to_string(),
        interfaces: Some(vec![
            Interface {
                name: "patu0".to_string(),
                mac: Some("01:02:03:04:05:06".to_string()),
                sandbox: None,
            },
            Interface {
                name: "eth0".to_string(),
                mac: None,
                sandbox: Some("/var/run/netns/c1".to_string()),
            },
        ]),
        ips: vec![Ip {
            address: "10.10.1.4/24".to_string(),
            gateway: "10.10.1.1".to_string(),
            interface: Some(2),
        }],
        routes: vec![Route {
            dst: "0.0.0.0/0".to_string(),
            gw: None,
        }],
        dns: Dns {
            nameservers: Some(vec!["10.1.0.1".to_string(), "10.1.0.2".to_string()]),
            domain: None,
            search: Some(vec![]),
            options: None,
        },
    };
    let expected = "{\"cniVersion\":\"1.0.0\",\"interfaces\":[{\"name\":\"patu0\",\"mac\":\"01:02:03:04:05:06\"},{\"name\":\"eth0\",\"sandbox\":\"/var/run/netns/c1\"}],\"ips\":[{\"address\":\"10.10.1.4/24\",\"gateway\":\"10.10.1.1\",\"interface\":2}],\"routes\":[{\"dst\":\"0.0.0.0/0\"}],\"dns\":{\"nameservers\":[\"10.1.0.1\",\"10.1.0.2\"],\"search\":[]}}";
    assert_eq!(patu::render::success_doc(&s), expected);
    let empty = Success::default();
    assert_eq!(
        patu::render::success_doc(&empty),
        "{\"cniVersion\":\"\",\"ips\":[],\"routes\":[],\"dns\":{}}"
    );
}
