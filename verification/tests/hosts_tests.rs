use snimap::hostlist::{Dns, Hosts};
use snimap::hosts::gen_hosts;

#[test]
fn gen_hosts_is_ok() {
    let old_hosts = "# ...
# ...
127.0.0.1\tlocalhost
";
    let hostnames = vec!["hostname1".to_string(), "hostname2".to_string()];
    let new_hosts = "# ...
# ...
127.0.0.1\tlocalhost
# Auto Generate by disable_sni_reverse_proxy
127.0.0.1\thostname1
127.0.0.1\thostname2
# Auto Generate by disable_sni_reverse_proxy";
    assert_eq!(gen_hosts(old_hosts, &hostnames), new_hosts);
    assert_eq!(gen_hosts(new_hosts, &hostnames), new_hosts);
}

#[test]
fn test_gen_hosts() {
    let old_hosts = "# ...
# ...
127.0.0.1\tlocalhost
";
    let hostnames = vec!["hostname1".to_string(), "hostname2".to_string()];
    let new_hosts = "# ...
# ...
127.0.0.1\tlocalhost
# Auto Generate by disable_sni_reverse_proxy
127.0.0.1\thostname1
127.0.0.1\thostname2
# Auto Generate by disable_sni_reverse_proxy";
    assert_eq!(gen_hosts(old_hosts, &hostnames), new_hosts);
    assert_eq!(gen_hosts(new_hosts, &hostnames), new_hosts);
}

#[test]
fn gen_hosts_with_no_hostnames_removes_the_block() {
    let with_block = "127.0.0.1\tlocalhost
# Auto Generate by disable_sni_reverse_proxy
127.0.0.1\thostname1
# Auto Generate by disable_sni_reverse_proxy";
    assert_eq!(gen_hosts(with_block, &vec![]), "127.0.0.1\tlocalhost");
}

#[test]
fn gen_hosts_keeps_lines_after_the_block() {
    let with_block = "before
# Auto Generate by disable_sni_reverse_proxy
127.0.0.1\tmanaged
# Auto Generate by disable_sni_reverse_proxy
after";
    let out = gen_hosts(with_block, &vec!["h".to_string()]);
    assert_eq!(
        out,
        "before
after
# Auto Generate by disable_sni_reverse_proxy
127.0.0.1\th
# Auto Generate by disable_sni_reverse_proxy"
    );
}

#[test]
fn dns_entry_keeps_its_first_address() {
    let mut dns = Dns::new("duckduckgo.com");
    assert_eq!(dns.address, None);
    dns.set_address_if_empty("1.2.3.4".to_string());
    assert_eq!(dns.address, Some("1.2.3.4".to_string()));
    dns.set_address_if_empty("5.6.7.8".to_string());
    assert_eq!(dns.address, Some("1.2.3.4".to_string()));
    let addr = dns.addr().unwrap();
    assert_eq!(addr.ip, "1.2.3.4".to_string());
    assert_eq!(addr.port, 0);
}

#[test]
fn empty_dns_entry_has_no_addr() {
    let dns = Dns::new("duckduckgo.com");
    assert!(dns.addr().is_none());
}

#[test]
fn hosts_without_list_stays_empty() {
    let mut hosts = Hosts { dns: None };
    hosts.lookup_all();
    assert!(hosts.dns.is_none());
}
