use rmeter::inventory::{Auth, ClientInfo, Group, GroupHits, HostPattern, Member, PatternError, Server};

fn member(hostname: &str, ip: &str, valid: bool) -> Member {
    Member {
        hostname: hostname.to_string(),
        ip: ip.to_string(),
        port: 22,
        user: "cx".to_string(),
        auth: Auth::Password("pw".to_string()),
        valid,
    }
}

fn group(name: &str, members: Vec<Member>, valid: bool) -> Group {
    Group { name: name.to_string(), members, valid }
}

fn server() -> Server {
    Server {
        groups: vec![
            group("web", vec![member("nginx1", "10.0.0.1", true), member("nginx2", "10.0.0.2", false)], true),
            group("db", vec![member("redis", "10.0.1.5", true), member("mysql", "10.0.1.6", true)], true),
            group("old", vec![member("redis-old", "10.0.9.9", true)], false),
        ],
    }
}

fn hosts(c: &ClientInfo) -> Vec<String> {
    c.clone_info().iter().map(|i| format!("{}@{}", i.hostname_ip(), i.groupname())).collect()
}

#[test]
fn group_name_match_takes_all_enabled_members() {
    let p = HostPattern::new("web").unwrap();
    let c = server().client_info(&p).unwrap();
    assert_eq!(hosts(&c), vec!["nginx1_10.0.0.1@web"]);
}

#[test]
fn member_match_by_hostname_or_ip() {
    let p = HostPattern::new("redis|10\\.0\\.1\\.6").unwrap();
    let c = server().client_info(&p).unwrap();
    assert_eq!(hosts(&c), vec!["redis_10.0.1.5@db", "mysql_10.0.1.6@db"]);
}

#[test]
fn default_pattern_takes_every_enabled_host() {
    let p = HostPattern::new(".*").unwrap();
    let c = server().client_info(&p).unwrap();
    assert_eq!(hosts(&c), vec!["nginx1_10.0.0.1@web", "redis_10.0.1.5@db", "mysql_10.0.1.6@db"]);
}

#[test]
fn disabled_group_and_member_never_appear() {
    let p = HostPattern::new("old|nginx2").unwrap();
    assert!(server().client_info(&p).is_none());
}

#[test]
fn no_match_gives_none() {
    let p = HostPattern::new("^nothing$").unwrap();
    assert!(server().client_info(&p).is_none());
    assert!(server().find(&p).is_none());
}

#[test]
fn matching_is_case_sensitive() {
    let p = HostPattern::new("WEB").unwrap();
    assert!(server().client_info(&p).is_none());
}

#[test]
fn duplicates_across_groups_are_kept() {
    let s = Server {
        groups: vec![
            group("a", vec![member("h", "1.1.1.1", true)], true),
            group("b", vec![member("h", "1.1.1.1", true)], true),
        ],
    };
    let c = s.client_info(&HostPattern::new("h").unwrap()).unwrap();
    assert_eq!(hosts(&c), vec!["h_1.1.1.1@a", "h_1.1.1.1@b"]);
}

#[test]
fn invalid_pattern_is_rejected() {
    let r = HostPattern::new("(");
    assert_eq!(r.err(), Some(PatternError::Invalid { pattern: "(".to_string() }));
    assert_eq!(HostPattern::new("a.c").unwrap().source(), "a.c");
}

#[test]
fn resolution_from_given_hits() {
    let s = server();
    let hits = vec![
        GroupHits { name: false, members: vec![false, true] },
        GroupHits { name: true, members: vec![false, false] },
        GroupHits { name: true, members: vec![true] },
    ];
    let c = s.client_info_with(&hits).unwrap();
    assert_eq!(hosts(&c), vec!["redis_10.0.1.5@db", "mysql_10.0.1.6@db"]);
    let none = vec![
        GroupHits { name: false, members: vec![false, false] },
        GroupHits { name: false, members: vec![false, false] },
        GroupHits { name: true, members: vec![true] },
    ];
    assert!(s.client_info_with(&none).is_none());
}

#[test]
fn group_select_and_find() {
    let g = group("web", vec![member("nginx1", "10.0.0.1", true), member("nginx2", "10.0.0.2", true)], true);
    let picked = g.select(&GroupHits { name: false, members: vec![false, true] }).unwrap();
    assert_eq!(picked.members.len(), 1);
    assert_eq!(picked.members[0].hostname, "nginx2");
    let found = g.find(&HostPattern::new("10.0.0.1").unwrap()).unwrap();
    assert_eq!(found.members[0].hostname, "nginx1");
    assert!(group("x", vec![member("a", "b", true)], false).find(&HostPattern::new(".*").unwrap()).is_none());
}

#[test]
fn member_find_and_valid() {
    let m = member("redis", "10.0.1.5", true);
    assert!(m.valid());
    assert_eq!(m.find(&HostPattern::new("redis").unwrap()), Some(m.clone()));
    assert_eq!(m.find(&HostPattern::new("mysql").unwrap()), None);
    assert_eq!(member("redis", "1", false).find(&HostPattern::new("redis").unwrap()), None);
}

#[test]
fn info_accessors() {
    let c = ClientInfo::new(vec![group("g", vec![member("h", "1.2.3.4", true)], true)]);
    let infos = c.clone_info();
    assert_eq!(infos.len(), 1);
    let i = &infos[0];
    assert_eq!(i.hostname(), "h");
    assert_eq!(i.ip(), "1.2.3.4");
    assert_eq!(i.port(), 22);
    assert_eq!(i.username(), "cx");
    assert_eq!(i.groupname(), "g");
    assert_eq!(i.hostname_ip(), "h_1.2.3.4");
    assert_eq!(i.auth(), &Auth::Password("pw".to_string()));
}

#[test]
fn client_info_append_keeps_every_member() {
    let mut c = ClientInfo::new(vec![]);
    c.append(&group("g", vec![member("a", "1", false), member("b", "2", true)], true));
    assert_eq!(hosts(&c), vec!["a_1@g", "b_2@g"]);
}

#[test]
fn defaults() {
    let m = Member::default();
    assert_eq!(m.port, 22);
    assert_eq!(m.user, "cx");
    assert!(m.valid);
    assert_eq!(Group::default().members.len(), 1);
    assert_eq!(Server::default().groups.len(), 1);
}
