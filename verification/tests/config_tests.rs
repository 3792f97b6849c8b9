use snimap::config::{Config, Group, Mapping, Sni};
use snimap::snimap::SniMap;

#[test]
fn dns_into_snimap() {
    let snimap: SniMap = SniMap::from_mapping(Mapping {
        enable: Some(false),
        enable_sni: Some(false),
        hostname: "hostname".to_string(),
        sni: Some("sni".to_string()),
    });
    assert_eq!(snimap.hostnames().len(), 0, "1");
    assert_eq!(snimap.get("hostname"), None);
    assert_eq!(snimap.get("hostname"), None);

    let snimap: SniMap = SniMap::from_mapping(Mapping {
        enable: Some(true),
        enable_sni: Some(false),
        hostname: "hostname".to_string(),
        sni: Some("sni".to_string()),
    });
    assert_eq!(snimap.get("hostname"), Some(&Sni::Disable));

    let snimap: SniMap = SniMap::from_mapping(Mapping {
        enable: Some(true),
        enable_sni: Some(true),
        hostname: "hostname".to_string(),
        sni: Some("sni".to_string()),
    });
    assert_eq!(
        snimap.get("hostname"),
        Some(&Sni::Override("sni".to_string()))
    );

    let snimap: SniMap = SniMap::from_mapping(Mapping {
        enable: Some(true),
        enable_sni: Some(true),
        hostname: "hostname".to_string(),
        sni: None,
    });
    assert_eq!(
        snimap.get("hostname"),
        Some(&Sni::Remain("hostname".to_string()))
    );
}

#[test]
fn group_into_config_map() {
    let snimap: SniMap = SniMap::from_group(Group {
        enable: Some(true),
        enable_sni: Some(false),
        name: "name".to_string(),
        sni: Some("group_sni".to_string()),
        mappings: vec![Mapping {
            enable: Some(true),
            enable_sni: Some(true),
            hostname: "hostname".to_string(),
            sni: Some("sni".to_string()),
        }],
    });
    assert_eq!(snimap.get("hostname"), Some(&Sni::Disable));
}

#[test]
fn config_into_config_map() {
    let snimap: SniMap = SniMap::from_config(Config {
        enable: Some(true),
        enable_sni: Some(true),
        groups: vec![Group {
            enable: Some(true),
            enable_sni: Some(false),
            name: "name".to_string(),
            sni: Some("group_sni".to_string()),
            mappings: vec![Mapping {
                enable: Some(true),
                enable_sni: Some(true),
                hostname: "hostname".to_string(),
                sni: Some("sni".to_string()),
            }],
        }],
    });
    assert_eq!(snimap.get("hostname"), Some(&Sni::Disable));
}

#[test]
fn group_sni_overrides_mapping() {
    let snimap = SniMap::from_group(Group {
        enable: None,
        enable_sni: None,
        name: "fronted".to_string(),
        sni: Some("front.example".to_string()),
        mappings: vec![Mapping::new("origin.example")],
    });
    assert_eq!(
        snimap.get("origin.example"),
        Some(&Sni::Override("front.example".to_string()))
    );
}

#[test]
fn default_config_decisions() {
    let snimap = SniMap::from_config(Config::default());
    assert_eq!(snimap.get("en.wikipedia.org"), Some(&Sni::Disable));
    assert_eq!(snimap.get("github.com"), Some(&Sni::Disable));
    assert_eq!(
        snimap.get("pixiv.net"),
        Some(&Sni::Override("www.fanbox.cc".to_string()))
    );
    assert_eq!(
        snimap.get("duck.com"),
        Some(&Sni::Remain("duck.com".to_string()))
    );
    assert_eq!(snimap.get("example.com"), None);
    assert_eq!(snimap.hostnames().len(), 38);
}

#[test]
fn root_disable_omits_everything() {
    let snimap = SniMap::from_config(Config {
        enable: Some(false),
        enable_sni: None,
        groups: vec![Group::new("g", vec![Mapping::new("a.test")])],
    });
    assert_eq!(snimap.hostnames().len(), 0);
    assert_eq!(snimap.get("a.test"), None);
}

#[test]
fn later_group_wins_on_duplicate_hostname() {
    let snimap = SniMap::from_config(Config::new(vec![
        Group::new("first", vec![Mapping::new("dup.test")]),
        Group::new("second", vec![Mapping::new("dup.test").disable_sni()]),
    ]));
    assert_eq!(snimap.get("dup.test"), Some(&Sni::Disable));
    assert_eq!(snimap.hostnames().len(), 1);
}

#[test]
fn snimap_insert_get_merge() {
    let mut a = SniMap::new();
    a.insert("a.test".to_string(), Sni::Disable);
    a.insert("b.test".to_string(), Sni::Remain("b.test".to_string()));
    let mut b = SniMap::new();
    b.insert(
        "a.test".to_string(),
        Sni::Override("front.test".to_string()),
    );
    a.merge(b);
    assert_eq!(
        a.get("a.test"),
        Some(&Sni::Override("front.test".to_string()))
    );
    assert_eq!(a.get("b.test"), Some(&Sni::Remain("b.test".to_string())));
    assert_eq!(a.hostnames().len(), 2);
    let overridden = a.overrided_sni();
    assert_eq!(overridden.len(), 1);
    assert_eq!(overridden[0], "front.test".to_string());
}

#[test]
fn flatten_round_trip_is_identity() {
    let snimap = SniMap::from_config(Config::default());
    let rebuilt = SniMap::from_config(snimap.to_config());
    let mut names = snimap.hostnames();
    let mut rebuilt_names = rebuilt.hostnames();
    names.sort();
    rebuilt_names.sort();
    assert_eq!(names, rebuilt_names);
    for h in names {
        assert_eq!(snimap.get(&h), rebuilt.get(&h));
    }
}

#[test]
fn mapping_sni_equal_to_hostname_is_remain() {
    let snimap = SniMap::from_mapping(Mapping::new("a.test").override_sni("a.test"));
    assert_eq!(snimap.get("a.test"), Some(&Sni::Remain("a.test".to_string())));
}

#[test]
fn empty_config_flattens_to_nothing() {
    let snimap = SniMap::from_config(Config::new(vec![]));
    assert_eq!(snimap.hostnames().len(), 0);
}

#[test]
fn root_sni_off_disables_every_entry() {
    let snimap = SniMap::from_config(Config {
        enable: None,
        enable_sni: Some(false),
        groups: vec![Group::new(
            "g",
            vec![
                Mapping::new("a.test").override_sni("front.test"),
                Mapping::new("b.test"),
            ],
        )],
    });
    assert_eq!(snimap.get("a.test"), Some(&Sni::Disable));
    assert_eq!(snimap.get("b.test"), Some(&Sni::Disable));
    assert_eq!(snimap.overrided_sni().len(), 0);
}
