use steam_animation_daemon::config::{Config, RandomizeMode};

#[test]
fn test_config_default() {
    let config = Config::default();
    assert_eq!(config.randomize_mode, RandomizeMode::Disabled);
    assert_eq!(config.video_quality, 23);
    assert_eq!(config.target_width, 1280);
}

#[test]
fn default_config_has_every_default() {
    let config = Config::default();
    assert_eq!(
        config.animations_path,
        "/home/deck/.local/share/steam-animation-manager/animations"
    );
    assert_eq!(
        config.downloads_path,
        "/home/deck/.local/share/steam-animation-manager/downloads"
    );
    assert_eq!(config.steam_override_path, "/home/deck/.steam/root/config/uioverrides/movies");
    assert_eq!(config.animation_cache_path, "/tmp/steam-animation-cache");
    assert_eq!(config.current_boot_animation, None);
    assert_eq!(config.current_suspend_animation, None);
    assert_eq!(config.current_throbber_animation, None);
    assert!(config.shuffle_exclusions.is_empty());
    assert_eq!(config.max_animation_duration, 5);
    assert_eq!(config.target_height, 720);
    assert_eq!(config.max_cache_size_mb, 500);
    assert_eq!(config.cache_max_age_days, 30);
    assert!(!config.force_ipv4);
    assert_eq!(config.connection_timeout, 30);
    assert_eq!(config.process_check_interval, 1);
    assert_eq!(config.maintenance_interval, 300);
    assert_eq!(config.log_level, "info");
    assert!(!config.enable_debug);
}

#[test]
fn path_getters_return_configured_paths() {
    let mut config = Config::default();
    config.steam_override_path = "/o".to_string();
    config.animation_cache_path = "/c".to_string();
    assert_eq!(config.get_steam_override_path(), "/o");
    assert_eq!(config.get_animation_cache_path(), "/c");
}

#[test]
fn development_environment_moves_paths_and_enables_debug() {
    let config = Config::for_environment("development");
    assert_eq!(config.animations_path, "./test_animations");
    assert_eq!(config.downloads_path, "./test_downloads");
    assert_eq!(config.steam_override_path, "./test_overrides");
    assert_eq!(config.animation_cache_path, "./test_cache");
    assert!(config.enable_debug);
    assert_eq!(config.log_level, "debug");
    assert_eq!(config.max_animation_duration, 5);
}

#[test]
fn testing_environment_shortens_duration() {
    let config = Config::for_environment("testing");
    assert_eq!(config.animations_path, "/tmp/test_animations");
    assert_eq!(config.downloads_path, "/tmp/test_downloads");
    assert_eq!(config.steam_override_path, "/tmp/test_overrides");
    assert_eq!(config.animation_cache_path, "/tmp/test_cache");
    assert_eq!(config.max_animation_duration, 2);
    assert!(!config.enable_debug);
    assert_eq!(config.log_level, "info");
}

#[test]
fn other_environment_is_default() {
    let config = Config::for_environment("production");
    assert_eq!(config.animation_cache_path, "/tmp/steam-animation-cache");
    assert_eq!(config.max_animation_duration, 5);
    assert!(!config.enable_debug);
}

#[test]
fn validate_and_fix_repairs_out_of_range_values() {
    let mut config = Config::default();
    config.max_animation_duration = 0;
    config.video_quality = 9;
    config.target_width = 0;
    config.target_height = 400;
    config.max_cache_size_mb = 0;
    config.validate_and_fix();
    assert_eq!(config.max_animation_duration, 5);
    assert_eq!(config.video_quality, 23);
    assert_eq!(config.target_width, 1280);
    assert_eq!(config.target_height, 720);
    assert_eq!(config.max_cache_size_mb, 500);
}

#[test]
fn validate_and_fix_limits_long_duration() {
    let mut config = Config::default();
    config.max_animation_duration = 31;
    config.video_quality = 51;
    config.validate_and_fix();
    assert_eq!(config.max_animation_duration, 30);
    assert_eq!(config.video_quality, 23);
}

#[test]
fn validate_and_fix_keeps_values_in_range() {
    let mut config = Config::default();
    config.max_animation_duration = 30;
    config.video_quality = 10;
    config.target_width = 640;
    config.target_height = 480;
    config.max_cache_size_mb = 1;
    config.log_level = "warn".to_string();
    config.validate_and_fix();
    assert_eq!(config.max_animation_duration, 30);
    assert_eq!(config.video_quality, 10);
    assert_eq!(config.target_width, 640);
    assert_eq!(config.target_height, 480);
    assert_eq!(config.max_cache_size_mb, 1);
    assert_eq!(config.log_level, "warn");
    config.video_quality = 50;
    config.max_animation_duration = 1;
    config.validate_and_fix();
    assert_eq!(config.video_quality, 50);
    assert_eq!(config.max_animation_duration, 1);
}

#[test]
fn update_animations_sets_clears_and_keeps() {
    let mut config = Config::default();
    config.current_suspend_animation = Some("old".to_string());
    config.current_throbber_animation = Some("keep".to_string());
    config.update_animations(Some("a/deck_startup.webm".to_string()), Some(String::new()), None);
    assert_eq!(config.current_boot_animation, Some("a/deck_startup.webm".to_string()));
    assert_eq!(config.current_suspend_animation, None);
    assert_eq!(config.current_throbber_animation, Some("keep".to_string()));
}

#[test]
fn update_randomization_replaces_mode_and_exclusions() {
    let mut config = Config::default();
    config.update_randomization(RandomizeMode::PerBoot, vec!["x".to_string()]);
    assert_eq!(config.randomize_mode, RandomizeMode::PerBoot);
    assert_eq!(config.shuffle_exclusions, vec!["x".to_string()]);
    assert_eq!(config.video_quality, 23);
}
