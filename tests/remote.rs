use rmeter::inventory::{Auth, ClientInfo, Group, Member};
use rmeter::remote::{
    download_target, exec_command, fix_backslashes, join, pick_local_output, pick_output, plan_tasks, remote_path, remote_source_path,
    upload_destination, upload_target, Credential, LocalSsh, SshOps,
};

fn info_with(auth: Auth) -> rmeter::inventory::Info {
    let m = Member { hostname: "redis".into(), ip: "192.168.1.2".into(), port: 22, user: "cx".into(), auth, valid: true };
    let c = ClientInfo::new(vec![Group { name: "g".into(), members: vec![m], valid: true }]);
    c.clone_info().remove(0)
}

#[test]
fn credentials_follow_auth() {
    assert_eq!(info_with(Auth::LocalSsh).auth_method("/home/u"), None);
    assert_eq!(info_with(Auth::Password("p".into())).auth_method("/home/u"), Some(Credential::Password("p".into())));
    assert_eq!(
        info_with(Auth::PrivateKey { key_data: "k".into(), key_pass: None }).auth_method("/h"),
        Some(Credential::PrivateKey { key_data: "k".into(), key_pass: None })
    );
    assert_eq!(
        info_with(Auth::PrivateKeyFile { key_file_path: None, key_pass: Some("x".into()) }).auth_method("/home/u"),
        Some(Credential::PrivateKeyFile { key_file_path: "/home/u/.ssh/id_ed25519".into(), key_pass: Some("x".into()) })
    );
    assert_eq!(
        info_with(Auth::PrivateKeyFile { key_file_path: Some("~/.ssh/k".into()), key_pass: None }).auth_method("/home/u/"),
        Some(Credential::PrivateKeyFile { key_file_path: "~/.ssh/k".into(), key_pass: None })
    );
}

#[test]
fn join_adds_one_separator() {
    assert_eq!(join("/home/u/", ".ssh"), "/home/u/.ssh");
    assert_eq!(join("/home/u", ".ssh"), "/home/u/.ssh");
    assert_eq!(join("", "a"), "a");
    assert_eq!(join("dir", "/abs"), "/abs");
}

#[test]
fn exec_command_prefixes_each_word() {
    let words = vec!["ls".to_string(), "-l".to_string(), "perf/".to_string()];
    assert_eq!(exec_command(&words), " ls -l perf/");
    assert_eq!(exec_command(&Vec::new()), "");
}

#[test]
fn output_prefers_stdout() {
    assert_eq!(pick_output("out".into(), "err".into()), "out");
    assert_eq!(pick_output("".into(), "err".into()), "err");
    assert_eq!(pick_local_output(b"o".to_vec(), b"e".to_vec()), b"o".to_vec());
    assert_eq!(pick_local_output(Vec::new(), b"e".to_vec()), b"e".to_vec());
}

#[test]
fn upload_into_directory_or_to_named_file() {
    assert_eq!(upload_target("local/run.sh", "perf"), Some("perf/run.sh".to_string()));
    assert_eq!(upload_target("local/run.sh", "perf/other.sh"), Some("perf/other.sh".to_string()));
    assert_eq!(upload_target("..", "perf"), None);
    assert_eq!(upload_destination("a\\b", false, Some("f")), Some("a/b/f".to_string()));
    assert_eq!(upload_destination("a\\b.txt", true, None), Some("ab.txt".to_string()));
    assert_eq!(fix_backslashes("x\\y", true), "x/y");
}

#[test]
fn download_renames_per_host() {
    let i = info_with(Auth::LocalSsh);
    assert_eq!(download_target(&i, "perf/res.nmon", "out", true), Some("out/redis_192.168.1.2_res.nmon".to_string()));
    assert_eq!(download_target(&i, "perf/res.nmon", "out/x.nmon", false), Some("out/x.nmon/redis_192.168.1.2_x.nmon".to_string()));
    assert_eq!(download_target(&i, "..", "out", true), None);
}

#[test]
fn remote_paths_under_home() {
    assert_eq!(remote_path("perf/a"), "~/perf/a");
    assert_eq!(remote_path("/tmp/a"), "/tmp/a");
    assert_eq!(remote_path("~/a"), "~/a");
    assert_eq!(remote_path("~x/a"), "~x/a");
    assert_eq!(remote_source_path("~x/a"), "~/~x/a");
    assert_eq!(remote_source_path("~/a"), "~/a");
    assert_eq!(remote_source_path("~"), "~");
    assert_eq!(remote_source_path("/a"), "/a");
    assert_eq!(remote_source_path("a"), "~/a");
    assert_eq!(info_with(Auth::LocalSsh).login(), "cx@192.168.1.2");
}

#[test]
fn one_task_per_host_with_its_transport() {
    let members = vec![
        Member { hostname: "a".into(), ip: "1".into(), port: 22, user: "u".into(), auth: Auth::LocalSsh, valid: true },
        Member { hostname: "b".into(), ip: "2".into(), port: 22, user: "u".into(), auth: Auth::Password("p".into()), valid: true },
        Member { hostname: "c".into(), ip: "3".into(), port: 22, user: "u".into(), auth: Auth::LocalSsh, valid: true },
    ];
    let c = ClientInfo::new(vec![Group { name: "g".into(), members, valid: true }]);
    let tasks = plan_tasks(&c, "/home/u");
    assert_eq!(tasks.len(), 3);
    assert!(tasks[0].credential.is_none());
    assert_eq!(tasks[1].credential, Some(Credential::Password("p".into())));
    assert_eq!(tasks[2].info.hostname(), "c");
    let _ = LocalSsh::new();
    let _ = SshOps::Print;
}
