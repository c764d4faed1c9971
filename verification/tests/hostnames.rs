use flyline::hostnames::get_all_hostnames;

#[test]
fn hostnames_from_all_three_files_sorted_and_unique() {
    let hosts = "127.0.0.1 localhost # loopback\n::1 localhost ip6-localhost\n# 10.0.0.1 commented\n\n10.0.0.2\tweb-prod-01 db";
    let ssh = "Host server1.example.com *.internal bastion?\n  HostName 10.0.0.9\nHost *\nHostName x\n  Host gateway\n";
    let known = "gateway,10.0.0.3 ssh-ed25519 AAAA\n|1|hashed= ssh-rsa BBBB\n# comment\n\nalpha,,|x ssh-rsa CCCC\n";
    let names = get_all_hostnames(Some(hosts), Some(ssh), Some(known));
    assert_eq!(
        names,
        vec![
            "10.0.0.3",
            "alpha",
            "db",
            "gateway",
            "ip6-localhost",
            "localhost",
            "server1.example.com",
            "web-prod-01"
        ]
    );
}

#[test]
fn hostnames_with_unreadable_files() {
    assert!(get_all_hostnames(None, None, None).is_empty());
    assert_eq!(get_all_hostnames(Some("1.2.3.4 b a b"), None, None), vec!["a", "b"]);
}
