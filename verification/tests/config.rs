use port_browser::config::{AppConfig, Theme};

#[test]
fn test_default_config() {
    let c = AppConfig::load_default();
    assert_eq!(c.default_port, 8080);
    assert!(c.use_default_port);
    assert!(!c.auto_launch);
    assert!(!c.auto_close);
    assert_eq!(c.window_width, 400);
    assert_eq!(c.window_height, 500);
    assert_eq!(c.recent_ports, vec![3000, 8080, 5173, 3001, 4200]);
    assert!(matches!(c.theme, Theme::System));
}

#[test]
fn test_add_quick_port() {
    let mut c = AppConfig::load_default();
    c.add_quick_port(9000);
    assert_eq!(c.recent_ports, vec![3000, 8080, 5173, 3001, 4200, 9000]);
    // Already present: unchanged.
    c.add_quick_port(8080);
    assert_eq!(c.recent_ports, vec![3000, 8080, 5173, 3001, 4200, 9000]);
}

#[test]
fn test_add_quick_port_caps_at_ten() {
    let mut c = AppConfig::load_default();
    c.recent_ports = (1..=10).collect();
    c.add_quick_port(11);
    // The oldest entry is dropped to keep ten.
    assert_eq!(c.recent_ports, (2..=11).collect::<Vec<u16>>());
}

#[test]
fn test_quick_ports_tops_up_with_commons() {
    let mut c = AppConfig::load_default();
    c.recent_ports = vec![4000];
    assert_eq!(
        c.quick_ports(),
        vec![4000, 3000, 8080, 5173, 3001, 4200, 8000, 9000, 5500]
    );
}

#[test]
fn test_quick_ports_skips_present_and_caps() {
    let c = AppConfig::load_default();
    // The defaults already hold five of the common ports.
    assert_eq!(
        c.quick_ports(),
        vec![3000, 8080, 5173, 3001, 4200, 8000, 9000, 5500]
    );

    let mut full = AppConfig::load_default();
    full.recent_ports = (100..120).collect();
    // Fifteen entries at most, and nothing was added past the cap.
    assert_eq!(full.quick_ports(), (100..115).collect::<Vec<u16>>());
}

#[test]
fn test_config_clone() {
    let mut c = AppConfig::load_default();
    c.recent_ports = vec![1, 2, 3];
    c.theme = Theme::Dark;
    let d = c.clone();
    assert_eq!(d.default_port, c.default_port);
    assert_eq!(d.recent_ports, c.recent_ports);
    assert!(matches!(d.theme, Theme::Dark));
}
