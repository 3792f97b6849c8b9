use snimap::config::{Mapping, Sni};
use snimap::http::{merge_header_values, upstream_uri};
use snimap::snimap::{route, Route, SniMap};

#[test]
fn route_without_host_is_not_found() {
    assert_eq!(route(None, None), Route::NoHost);
}

#[test]
fn route_of_unmapped_host_is_not_enabled() {
    assert_eq!(
        route(Some("example.com"), None),
        Route::NotEnabled("example.com".to_string())
    );
}

#[test]
fn route_follows_the_policy() {
    let snimap = SniMap::from_mapping(Mapping::new("pixiv.net").override_sni("www.fanbox.cc"));
    assert_eq!(
        route(Some("pixiv.net"), snimap.get("pixiv.net")),
        Route::UseSni("www.fanbox.cc".to_string())
    );
    assert_eq!(
        route(Some("a.test"), Some(&Sni::Disable)),
        Route::UseNoSni("a.test".to_string())
    );
    assert_eq!(
        route(Some("a.test"), Some(&Sni::Remain("a.test".to_string()))),
        Route::UseSni("a.test".to_string())
    );
}

#[test]
fn upstream_uri_fills_the_defaults() {
    assert_eq!(upstream_uri(None, "a.test", None), "https://a.test/");
    assert_eq!(
        upstream_uri(Some("http"), "a.test:8080", Some("/path?q=1")),
        "http://a.test:8080/path?q=1"
    );
}

#[test]
fn duplicate_header_values_merge_with_a_semicolon() {
    assert_eq!(merge_header_values("a=b", "c=d"), "a=b;c=d");
}
