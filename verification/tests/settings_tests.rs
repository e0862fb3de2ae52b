use ip_gacha_roll::settings::{get_settings, Settings};

#[test]
fn default_settings_point_at_factory_router() {
    let s = Settings::new();
    assert_eq!(s.router_ip, "192.168.1.1");
    assert_eq!(s.user, "admin");
    assert_eq!(s.pass, "admin");
    assert!(!s.dry_run);
}

#[test]
fn given_settings_are_kept() {
    let given = Settings { router_ip: "10.0.0.1".to_string(), user: "u".to_string(), pass: "p".to_string(), dry_run: true };
    let s = get_settings(Some(given));
    assert_eq!(s.router_ip, "10.0.0.1");
    assert_eq!(s.user, "u");
    assert!(s.dry_run);
    let d = get_settings(None);
    assert_eq!(d.router_ip, "192.168.1.1");
}
