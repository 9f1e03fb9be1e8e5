use ghaf_tools::config::{
    ChannelConfig, Config, GuestNotifyConfig, ScanningConfig, UserNotifyConfig,
};
use ghaf_tools::notify::{build_notifier, Notifier, NotifyTarget};

#[test]
fn test_disabled_notifier() {
    let notifier = Notifier::disabled();
    assert!(!notifier.has_targets());
}

#[test]
fn test_notifier_with_targets() {
    let targets = vec![("test".to_string(), vec![NotifyTarget::new(3, 3401)])];
    let notifier = Notifier::new(targets);
    assert!(notifier.has_targets());
}

fn channel_with_guests(guests: Vec<u32>, port: u32) -> ChannelConfig {
    ChannelConfig {
        base_path: "/tmp/n".to_string(),
        producers: vec!["vm1".to_string()],
        consumers: vec![],
        diode_producers: vec![],
        debounce_ms: 1000,
        scanning: ScanningConfig::default(),
        user_notify: UserNotifyConfig::default(),
        guest_notify: if guests.is_empty() {
            None
        } else {
            Some(GuestNotifyConfig { guests, port })
        },
    }
}

#[test]
fn build_notifier_collects_subscribed_guests() {
    let mut config = Config::new();
    config.insert("quiet".to_string(), channel_with_guests(vec![], 0));
    config.insert("loud".to_string(), channel_with_guests(vec![3, 4, 5], 9999));

    let notifier = build_notifier(&config);
    assert!(notifier.has_targets());
    assert_eq!(notifier.targets.len(), 1);
    assert_eq!(notifier.targets[0].0, "loud");
    assert_eq!(
        notifier.targets[0].1,
        vec![
            NotifyTarget::new(3, 9999),
            NotifyTarget::new(4, 9999),
            NotifyTarget::new(5, 9999)
        ]
    );
}

#[test]
fn build_notifier_empty_without_guests() {
    let mut config = Config::new();
    config.insert("quiet".to_string(), channel_with_guests(vec![], 0));
    let notifier = build_notifier(&config);
    assert!(!notifier.has_targets());
}

#[test]
fn targets_for_finds_channel() {
    let targets = vec![
        ("docs".to_string(), vec![NotifyTarget::new(3, 3401)]),
        ("media".to_string(), vec![NotifyTarget::new(4, 3401)]),
    ];
    let notifier = Notifier::new(targets);
    assert_eq!(
        notifier.targets_for("media"),
        Some(&vec![NotifyTarget::new(4, 3401)])
    );
    assert_eq!(notifier.targets_for("absent"), None);
}

#[test]
fn notify_message_is_channel_and_newline() {
    assert_eq!(Notifier::message_for("docs"), "docs\n");
}
