use kobo_wifi_remote::config::{
    opts, restart_server, AppConfig, IndexOptions, PageTurnerOptions, RemoteOptions, VoiceActivationOptions,
};

#[test]
fn defaults() {
    let a = AppConfig::default();
    assert_eq!(a.port, 80);
    assert_eq!(a.user_dir, "/mnt/onboard/.adds/wifiremote");
    assert_eq!(PageTurnerOptions::default().next_color, "#33b249");
    assert_eq!(RemoteOptions::default().color1, "#5783db");
    assert_eq!(VoiceActivationOptions::default().language_code, "en-US");
    assert_eq!(restart_server(), "restart");
}

#[test]
fn index_items_are_visible_and_sorted() {
    let mut o = IndexOptions::default();
    let items = o.items();
    let hrefs: Vec<&str> = items.iter().map(|i| i.href.as_str()).collect();
    assert_eq!(
        hrefs,
        vec![
            "setup",
            "page-turner",
            "custom-actions",
            "remote-control",
            "screenshot",
            "edit-config",
            "auto-turner",
            "voice-activation",
            "developer-settings",
            "troubleshooting"
        ]
    );
    o.screenshot = opts("Screenshot", 5, false);
    o.troubleshooting = opts("Help", 1, true);
    o.setup = opts("Setup", 20, true);
    let items = o.items();
    assert_eq!(items.len(), 9);
    assert_eq!(items[0].name, "Help");
    assert_eq!(items[1].href, "setup");
    assert_eq!(items[2].href, "page-turner");
}
