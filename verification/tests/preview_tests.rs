use deck::deploy::deploy_arguments;
use deck::preview::{
    first_page_url, host, relay, HubItem, Relay, DEFAULT_PORT, HUB_CAPACITY, KEEP_ALIVE_SECS,
    REFRESH_DATA, REFRESH_PATH, REFRESH_SCRIPT, REFRESH_SCRIPT_FILE, REFRESH_SCRIPT_PATH,
};

#[test]
fn the_server_listens_on_the_loopback_address() {
    assert_eq!(host(3000), "127.0.0.1:3000");
    assert_eq!(host(8080), "127.0.0.1:8080");
    assert_eq!(host(0), "127.0.0.1:0");
    assert_eq!(host(u32::MAX), "127.0.0.1:4294967295");
}

#[test]
fn the_first_page_is_what_a_browser_opens() {
    assert_eq!(first_page_url("127.0.0.1:3000"), "http://127.0.0.1:3000/1.html");
    assert_eq!(first_page_url(&host(DEFAULT_PORT)), "http://127.0.0.1:3000/1.html");
}

#[test]
fn the_limits_of_the_preview() {
    assert_eq!(DEFAULT_PORT, 3000);
    assert_eq!(HUB_CAPACITY, 10);
    assert_eq!(KEEP_ALIVE_SECS, 1);
}

#[test]
fn the_paths_of_the_preview() {
    assert_eq!(REFRESH_PATH, "/refresh");
    assert_eq!(REFRESH_SCRIPT_PATH, "/refresh.js");
    assert_eq!(REFRESH_SCRIPT_FILE, "refresh.js");
    assert_eq!(REFRESH_DATA, "refresh");
}

#[test]
fn the_client_script_listens_and_reloads() {
    assert!(REFRESH_SCRIPT.contains("new EventSource(\"/refresh\")"));
    assert!(REFRESH_SCRIPT.contains("onmessage"));
    assert!(REFRESH_SCRIPT.contains("location.reload()"));
}

#[test]
fn a_signal_is_sent_on() {
    assert_eq!(relay(HubItem::Signal), Relay::Send);
}

#[test]
fn a_lag_is_reported_and_passed_over() {
    assert_eq!(relay(HubItem::Lagged { missed: 3 }), Relay::ReportLag { missed: 3 });
    assert_eq!(relay(HubItem::Lagged { missed: 0 }), Relay::ReportLag { missed: 0 });
}

#[test]
fn the_mirror_command_takes_options_source_and_destination() {
    assert_eq!(
        deploy_arguments("out", "host:/srv/deck"),
        vec!["-rutv".to_string(), "out/".to_string(), "host:/srv/deck".to_string()]
    );
}

#[test]
fn the_source_of_the_mirror_ends_with_a_slash() {
    assert_eq!(deploy_arguments("", "d")[1], "/");
    assert_eq!(deploy_arguments("a/b", "d")[1], "a/b/");
}
