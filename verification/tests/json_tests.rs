use patu::json::{config_of_json, error_of_json, network_config_of_json, parse_json, success_of_json};
use patu::types::Json;

#[test]
fn test_parse_config_long() {
    // Example from CNI spec
    let data = r#"
        {
            "cniVersion": "1.0.0",
            "name": "dbnet",
            "plugins": [
              {
                "type": "bridge",
                "bridge": "cni0",
                "keyA": ["some more", "plugin specific", "configuration"],
                "ipam": {
                  "type": "host-local",
                  "subnet": "10.1.0.0/16",
                  "gateway": "10.1.0.1",
                  "routes": [
                      {"dst": "0.0.0.0/0"}
                  ]
                },
                "dns": {
                  "nameservers": [ "10.1.0.1" ]
                }
              },
              {
                "type": "tuning",
                "capabilities": {
                  "mac": true
                },
                "sysctl": {
                  "net.core.somaxconn": "500"
                }
              },
              {
                  "type": "portmap",
                  "capabilities": {"portMappings": true}
              }
            ]
          }"#;

    let j = parse_json(data.as_bytes()).unwrap();
    let c = config_of_json(j).unwrap();

    assert_eq!(c.plugins.len(), 3);
}

#[test]
fn test_parse_add_config() {
    let data = r#"{
            "cniVersion": "1.0.0",
            "name": "dbnet",
            "type": "bridge",
            "bridge": "cni0",
            "keyA": ["some more", "plugin specific", "configuration"],
            "ipam": {
                "type": "host-local",
                "subnet": "10.1.0.0/16",
                "gateway": "10.1.0.1",
                "routes": [
                    {"dst": "0.0.0.0/0"}
                ]
            },
            "dns": {
                "nameservers": [ "10.1.0.1" ]
            }
        }"#;

    let j = parse_json(data.as_bytes()).unwrap();
    let a = network_config_of_json(j).unwrap();

    if let Some(ipam) = a.plugin.ipam {
        assert_eq!(ipam.type_, "host-local");
    }
}

#[test]
fn test_parse_error() {
    let data = r#"{
            "code": 7,
            "msg": "Invalid Configuration",
            "details": "Network 192.168.0.0/31 too small to allocate from."
        }"#;

    let j = parse_json(data.as_bytes()).unwrap();
    let e = error_of_json(j).unwrap();
    assert_eq!(
        e.details,
        Some("Network 192.168.0.0/31 too small to allocate from.".to_string())
    )
}

#[test]
fn plugin_count_and_types_are_preserved() {
    // the declared number of entries comes back exactly, each type
    // string verbatim
    let data = r#"{
        "cniVersion": "0.4.0",
        "name": "n",
        "plugins": [
            {"type": "bridge"},
            {"type": "Bridge"},
            {"type": "portmap", "ipMasq": false}
        ]
    }"#;
    let j = parse_json(data.as_bytes()).unwrap();
    let c = config_of_json(j).unwrap();
    assert_eq!(c.plugins.len(), 3);
    assert_eq!(c.plugins[0].type_, "bridge");
    assert_eq!(c.plugins[1].type_, "Bridge");
    assert_eq!(c.plugins[2].type_, "portmap");
    assert_eq!(c.plugins[2].ip_masquerade, Some(false));
    assert_eq!(c.cni_version, "0.4.0");
    assert_eq!(c.name, "n");
}

#[test]
fn success_document_round_trips_addresses() {
    let data = r#"{
        "cniVersion": "1.0.0",
        "ips": [
            {"address": "10.10.1.4/24", "gateway": "10.10.1.1", "interface": 0}
        ],
        "routes": [{"dst": "0.0.0.0/0", "gw": "10.10.1.1"}],
        "dns": {}
    }"#;
    let j = parse_json(data.as_bytes()).unwrap();
    let s = success_of_json(j).unwrap();
    assert_eq!(s.ips.len(), 1);
    assert_eq!(s.ips[0].address, "10.10.1.4/24");
    assert_eq!(s.ips[0].gateway, "10.10.1.1");
    assert_eq!(s.ips[0].interface, Some(0));
    assert_eq!(s.routes[0].dst, "0.0.0.0/0");
    assert_eq!(s.routes[0].gw.as_deref(), Some("10.10.1.1"));
    assert!(s.interfaces.is_none());
}

#[test]
fn malformed_documents_are_rejected() {
    assert!(parse_json(b"").is_none());
    assert!(parse_json(b"{").is_none());
    assert!(parse_json(b"{} trailing").is_none());
    assert!(parse_json(b"{\"a\": }").is_none());
    assert!(parse_json(b"[1, 2,]").is_none());
    // a config without its plugin list is not a config
    let j = parse_json(b"{\"cniVersion\": \"1.0.0\", \"name\": \"x\"}").unwrap();
    assert!(config_of_json(j).is_none());
    // a result whose code is not a number is not an error document
    let j = parse_json(b"{\"code\": \"7\", \"msg\": \"m\"}").unwrap();
    assert!(error_of_json(j).is_none());
}

#[test]
fn parser_handles_literals_escapes_and_numbers() {
    let j = parse_json(b"[true, false, null, -1.5e3, \"a\\n\\\"b\"]").unwrap();
    match j {
        Json::Arr(items) => {
            assert!(matches!(items[0], Json::Bool(true)));
            assert!(matches!(items[1], Json::Bool(false)));
            assert!(matches!(items[2], Json::Null));
            match &items[3] {
                Json::Num(s) => assert_eq!(s, "-1.5e3"),
                _ => panic!("number token must be kept verbatim"),
            }
            match &items[4] {
                Json::Str(s) => assert_eq!(s, "a\n\"b"),
                _ => panic!("string escapes must decode"),
            }
        }
        _ => panic!("must parse an array"),
    }
}

fn get<'a>(fields: &'a [(String, Json)], key: &str) -> Option<&'a Json> {
    fields.iter().find(|(k, _)| k == key).map(|(_, v)| v)
}

#[test]
fn unknown_keys_survive_extraction() {
    // flattened document: unrecognized top-level keys stay with the
    // plugin entry, and the delegate's further keys stay with it
    let data = r#"{
        "cniVersion": "1.0.0",
        "name": "dbnet",
        "type": "bridge",
        "bridge": "cni0",
        "keyA": ["some more", "plugin specific", "configuration"],
        "ipam": {"type": "host-local", "subnet": "10.1.0.0/16"}
    }"#;
    let j = parse_json(data.as_bytes()).unwrap();
    let a = network_config_of_json(j).unwrap();
    match get(&a.plugin.extra, "bridge") {
        Some(Json::Str(s)) => assert_eq!(s, "cni0"),
        _ => panic!("the bridge key must be retained"),
    }
    match get(&a.plugin.extra, "keyA") {
        Some(Json::Arr(items)) => assert_eq!(items.len(), 3),
        _ => panic!("the keyA key must be retained"),
    }
    let ipam = a.plugin.ipam.unwrap();
    match get(&ipam.other, "subnet") {
        Some(Json::Str(s)) => assert_eq!(s, "10.1.0.0/16"),
        _ => panic!("the subnet key must be retained"),
    }

    // per-entry unknown keys in a multi-plugin document
    let data = r#"{
        "cniVersion": "1.0.0",
        "name": "n",
        "plugins": [{"type": "tuning", "sysctl": {"net.core.somaxconn": "500"}}]
    }"#;
    let j = parse_json(data.as_bytes()).unwrap();
    let c = config_of_json(j).unwrap();
    match get(&c.plugins[0].extra, "sysctl") {
        Some(Json::Obj(fields)) => assert_eq!(fields.len(), 1),
        _ => panic!("the sysctl key must be retained"),
    }
}

#[test]
fn error_document_round_trips() {
    // what one plugin renders on failure, the calling plugin parses and
    // extracts back unchanged through the recursive delegate protocol
    let cases = vec![
        patu::types::Error::new_custom(7, "Invalid Configuration".to_string(), None),
        patu::types::Error::new_custom(
            101,
            "IPAM Error".to_string(),
            Some("Network 192.168.0.0/31 too small to allocate from.".to_string()),
        ),
        patu::types::Error::new_custom(102, "a \"quoted\"\\\n detail".to_string(), None),
    ];
    for e in cases {
        let doc = patu::render::error_doc(&e);
        let j = parse_json(doc.as_bytes()).expect("a rendered error document must parse");
        let back = error_of_json(j).expect("and extract as an error document");
        assert_eq!(back.code, e.code);
        assert_eq!(back.msg, e.msg);
        assert_eq!(back.details, e.details);
    }
}

#[test]
fn success_document_round_trips() {
    let mut s = patu::types::Success::default();
    s.cni_version = "1.0.0".to_string();
    s.ips = vec![patu::types::Ip {
        address: "10.10.1.4/24".to_string(),
        gateway: "10.10.1.1".to_string(),
        interface: Some(2),
    }];
    s.interfaces = Some(vec![patu::types::Interface {
        name: "patu0".to_string(),
        mac: Some("01:02:03:04:05:06".to_string()),
        sandbox: None,
    }]);
    let doc = patu::render::success_doc(&s);
    let j = parse_json(doc.as_bytes()).expect("a rendered result document must parse");
    let back = success_of_json(j).expect("and extract as a result document");
    assert_eq!(back.cni_version, s.cni_version);
    assert_eq!(back.ips.len(), 1);
    assert_eq!(back.ips[0].address, "10.10.1.4/24");
    assert_eq!(back.ips[0].interface, Some(2));
    assert_eq!(back.interfaces.unwrap()[0].name, "patu0");
}
