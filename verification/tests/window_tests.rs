use audion::window::{WindowConfig, WindowStartMode};

#[test]
fn default_window_config() {
    assert_eq!(WindowConfig::default().start_mode, WindowStartMode::Normal);
}
