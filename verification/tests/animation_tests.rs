use steam_animation_daemon::animation::{
    Animation, AnimationManager, AnimationSet, AnimationType, ApplyOutcome, ApplyStep,
    CatalogError, DownloadedFile, MountStep,
};
use steam_animation_daemon::config::{Config, RandomizeMode};
use steam_animation_daemon::daemon::{dispatch, DaemonAction};
use steam_animation_daemon::steam_monitor::{ProcessInfo, SteamMonitor};
use steam_animation_daemon::video_processor::CacheLookup;

fn test_config() -> Config {
    let mut config = Config::default();
    config.steam_override_path = "/overrides".to_string();
    config.animation_cache_path = "/cache".to_string();
    config
}

fn entry(id: &str, anim_type: AnimationType) -> Animation {
    Animation {
        id: id.to_string(),
        name: id.to_string(),
        path: format!("/src/{}", id),
        animation_type: anim_type,
        duration: None,
        optimized_path: None,
    }
}

fn set(name: &str, boot: bool, suspend: bool, throbber: bool) -> AnimationSet {
    AnimationSet {
        path: format!("/animations/{}", name),
        name: Some(name.to_string()),
        config_readable: true,
        has_boot: boot,
        has_suspend: suspend,
        has_throbber: throbber,
    }
}

fn download(stem: &str, extension: &str) -> DownloadedFile {
    DownloadedFile {
        path: format!("/downloads/{}.{}", stem, extension),
        stem: Some(stem.to_string()),
        extension: Some(extension.to_string()),
    }
}

#[test]
fn new_manager_is_empty() {
    let manager = AnimationManager::new(test_config());
    assert_eq!(manager.animation_count(), 0);
    assert_eq!(manager.current_animation(AnimationType::Boot), None);
    assert_eq!(manager.current_animation(AnimationType::Suspend), None);
    assert_eq!(manager.current_animation(AnimationType::Throbber), None);
    assert_eq!(manager.video_processor().config().animation_cache_path, "/cache");
}

#[test]
fn target_paths_are_fixed_per_type() {
    let manager = AnimationManager::new(test_config());
    assert_eq!(manager.get_steam_target_path(AnimationType::Boot), "/overrides/deck_startup.webm");
    assert_eq!(
        manager.get_steam_target_path(AnimationType::Suspend),
        "/overrides/steam_os_suspend.webm"
    );
    assert_eq!(
        manager.get_steam_target_path(AnimationType::Throbber),
        "/overrides/steam_os_suspend_from_throbber.webm"
    );
    assert_eq!(
        manager.cleanup(),
        vec![
            "/overrides/deck_startup.webm",
            "/overrides/steam_os_suspend.webm",
            "/overrides/steam_os_suspend_from_throbber.webm"
        ]
    );
}

#[test]
fn later_entry_with_the_same_id_wins() {
    let mut manager = AnimationManager::new(test_config());
    manager.insert_animation(entry("a", AnimationType::Boot));
    manager.insert_animation(entry("b", AnimationType::Boot));
    let mut again = entry("a", AnimationType::Suspend);
    again.name = "second".to_string();
    manager.insert_animation(again);
    assert_eq!(manager.animation_count(), 2);
    let found = manager.get_animation("a").unwrap();
    assert_eq!(found.name, "second");
    assert_eq!(found.animation_type, AnimationType::Suspend);
    assert!(manager.get_animation("c").is_none());
}

#[test]
fn animation_set_gives_one_entry_per_file() {
    let mut manager = AnimationManager::new(test_config());
    assert_eq!(manager.load_animation_set(&set("neon", true, true, true)), Ok(()));
    assert_eq!(manager.animation_count(), 3);
    let boot = manager.get_animation("neon/deck_startup.webm").unwrap();
    assert_eq!(boot.name, "neon");
    assert_eq!(boot.path, "/animations/neon/deck_startup.webm");
    assert_eq!(boot.animation_type, AnimationType::Boot);
    assert_eq!(boot.duration, None);
    assert_eq!(boot.optimized_path, None);
    let suspend = manager.get_animation("neon/steam_os_suspend.webm").unwrap();
    assert_eq!(suspend.name, "neon - Suspend");
    assert_eq!(suspend.animation_type, AnimationType::Suspend);
    let throbber = manager.get_animation("neon/steam_os_suspend_from_throbber.webm").unwrap();
    assert_eq!(throbber.name, "neon - Throbber");
    assert_eq!(throbber.path, "/animations/neon/steam_os_suspend_from_throbber.webm");
    assert_eq!(throbber.animation_type, AnimationType::Throbber);
}

#[test]
fn animation_set_without_files_or_name_gives_nothing() {
    let mut manager = AnimationManager::new(test_config());
    assert_eq!(manager.load_animation_set(&set("empty", false, false, false)), Ok(()));
    assert_eq!(manager.animation_count(), 0);
    let mut unnamed = set("x", true, true, true);
    unnamed.name = None;
    assert_eq!(manager.load_animation_set(&unnamed), Err(CatalogError::InvalidSetName));
    let mut broken = set("y", true, true, true);
    broken.config_readable = false;
    assert_eq!(manager.load_animation_set(&broken), Err(CatalogError::UnreadableSetConfig));
    assert_eq!(manager.animation_count(), 0);
}

#[test]
fn downloaded_animation_is_typed_by_its_name() {
    let mut manager = AnimationManager::new(test_config());
    assert_eq!(manager.load_downloaded_animation(&download("my_cool-suspend", "webm")), Ok(()));
    assert_eq!(manager.load_downloaded_animation(&download("boot_suspend", "webm")), Ok(()));
    assert_eq!(manager.load_downloaded_animation(&download("plain", "webm")), Ok(()));
    let suspend = manager.get_animation("downloaded/my_cool-suspend").unwrap();
    assert_eq!(suspend.name, "my cool suspend");
    assert_eq!(suspend.animation_type, AnimationType::Suspend);
    assert_eq!(suspend.path, "/downloads/my_cool-suspend.webm");
    assert_eq!(
        manager.get_animation("downloaded/boot_suspend").unwrap().animation_type,
        AnimationType::Boot
    );
    assert_eq!(manager.get_animation("downloaded/plain").unwrap().animation_type, AnimationType::Boot);
    let nameless = DownloadedFile { path: "/downloads/x".to_string(), stem: None, extension: None };
    assert_eq!(manager.load_downloaded_animation(&nameless), Err(CatalogError::InvalidFileName));
    assert_eq!(manager.animation_count(), 3);
}

#[test]
fn load_animations_rebuilds_the_catalog() {
    let mut manager = AnimationManager::new(test_config());
    manager.insert_animation(entry("stale", AnimationType::Boot));
    let mut unnamed = set("x", true, true, true);
    unnamed.name = None;
    let sets = vec![set("neon", true, false, false), unnamed, set("retro", false, true, false)];
    let downloads = vec![download("boot_one", "webm"), download("notes", "txt")];
    manager.load_animations(&sets, &downloads);
    assert_eq!(manager.animation_count(), 3);
    assert!(manager.get_animation("stale").is_none());
    assert!(manager.get_animation("neon/deck_startup.webm").is_some());
    assert!(manager.get_animation("retro/steam_os_suspend.webm").is_some());
    assert!(manager.get_animation("downloaded/boot_one").is_some());
    assert!(manager.get_animation("downloaded/notes").is_none());
}

#[test]
fn candidates_have_the_type_and_are_not_excluded() {
    let mut config = test_config();
    config.shuffle_exclusions = vec!["b".to_string()];
    let mut manager = AnimationManager::new(config);
    manager.insert_animation(entry("a", AnimationType::Boot));
    manager.insert_animation(entry("b", AnimationType::Boot));
    manager.insert_animation(entry("s", AnimationType::Suspend));
    manager.insert_animation(entry("c", AnimationType::Boot));
    assert_eq!(manager.candidates(AnimationType::Boot), vec!["a", "c"]);
    assert_eq!(manager.candidates(AnimationType::Suspend), vec!["s"]);
    assert!(manager.candidates(AnimationType::Throbber).is_empty());
}

#[test]
fn random_draw_never_returns_an_excluded_id() {
    let mut config = test_config();
    config.randomize_mode = RandomizeMode::PerBoot;
    config.shuffle_exclusions = vec!["b".to_string(), "d".to_string()];
    let mut manager = AnimationManager::new(config);
    for id in ["a", "b", "c", "d", "e"] {
        manager.insert_animation(entry(id, AnimationType::Boot));
    }
    manager.insert_animation(entry("s", AnimationType::Suspend));
    let mut seen = Vec::new();
    for _ in 0..300 {
        let id = manager.prepare_boot_animation().unwrap();
        assert!(id == "a" || id == "c" || id == "e");
        if !seen.contains(&id) {
            seen.push(id);
        }
    }
    assert!(seen.len() > 1);
    assert_eq!(manager.select_random_from_set(AnimationType::Suspend), Some("s".to_string()));
    assert_eq!(manager.select_random_animation(AnimationType::Throbber), None);
}

#[test]
fn random_draw_with_everything_excluded_gives_nothing() {
    let mut config = test_config();
    config.randomize_mode = RandomizeMode::PerSet;
    config.shuffle_exclusions = vec!["a".to_string()];
    let mut manager = AnimationManager::new(config);
    manager.insert_animation(entry("a", AnimationType::Boot));
    assert_eq!(manager.prepare_boot_animation(), None);
    assert_eq!(manager.prepare_resume_animation(), None);
}

#[test]
fn disabled_mode_uses_the_configured_animations() {
    let mut config = test_config();
    config.current_boot_animation = Some("a".to_string());
    let mut manager = AnimationManager::new(config);
    manager.insert_animation(entry("a", AnimationType::Boot));
    manager.insert_animation(entry("b", AnimationType::Boot));
    manager.insert_animation(entry("s", AnimationType::Suspend));
    assert_eq!(manager.prepare_boot_animation(), Some("a".to_string()));
    assert_eq!(manager.prepare_resume_animation(), Some("a".to_string()));
    assert_eq!(manager.prepare_suspend_animation(), None);
    let mut fixed = test_config();
    fixed.current_suspend_animation = Some("configured".to_string());
    let other = AnimationManager::new(fixed);
    assert_eq!(other.prepare_suspend_animation(), Some("configured".to_string()));
    assert_eq!(other.prepare_boot_animation(), None);
}

#[test]
fn suspend_animation_is_drawn_when_drawing_is_on() {
    let mut config = test_config();
    config.randomize_mode = RandomizeMode::PerBoot;
    config.current_suspend_animation = Some("configured".to_string());
    config.shuffle_exclusions = vec!["s2".to_string()];
    let mut manager = AnimationManager::new(config);
    manager.insert_animation(entry("a", AnimationType::Boot));
    manager.insert_animation(entry("s1", AnimationType::Suspend));
    manager.insert_animation(entry("s2", AnimationType::Suspend));
    for _ in 0..50 {
        assert_eq!(manager.prepare_suspend_animation(), Some("s1".to_string()));
    }
}

#[test]
fn mount_steps_are_in_order() {
    let manager = AnimationManager::new(test_config());
    assert_eq!(
        manager.mount_animation(true),
        vec![
            MountStep::Unmount,
            MountStep::RemovePlaceholder,
            MountStep::CreatePlaceholder,
            MountStep::Bind
        ]
    );
    assert_eq!(manager.mount_animation(false), vec![MountStep::CreatePlaceholder, MountStep::Bind]);
    assert_eq!(manager.unmount_animation(), vec![MountStep::Unmount, MountStep::RemovePlaceholder]);
}

#[test]
fn failed_transcode_leaves_the_active_table() {
    let mut manager = AnimationManager::new(test_config());
    manager.insert_animation(entry("a", AnimationType::Boot));
    manager.insert_animation(entry("b", AnimationType::Boot));
    manager.complete_apply(AnimationType::Boot, "a", ApplyOutcome::Mounted);
    assert_eq!(manager.current_animation(AnimationType::Boot), Some("a".to_string()));
    match manager.apply_animation(AnimationType::Boot, "b") {
        ApplyStep::Transcode { source, target } => {
            assert_eq!(source, "/src/b");
            assert_eq!(target, "/overrides/deck_startup.webm");
        }
        other => panic!("unexpected step {:?}", other),
    }
    manager.complete_apply(AnimationType::Boot, "b", ApplyOutcome::TranscodeFailed);
    assert_eq!(manager.current_animation(AnimationType::Boot), Some("a".to_string()));
    manager.complete_apply(AnimationType::Boot, "b", ApplyOutcome::MountFailed);
    assert_eq!(manager.current_animation(AnimationType::Boot), Some("a".to_string()));
    assert_eq!(manager.current_animation(AnimationType::Suspend), None);
    assert_eq!(manager.get_animation("b").unwrap().optimized_path, None);
}

#[test]
fn unknown_id_is_not_found() {
    let mut manager = AnimationManager::new(test_config());
    manager.insert_animation(entry("a", AnimationType::Boot));
    assert!(matches!(manager.apply_animation(AnimationType::Boot, "zz"), ApplyStep::NotFound));
    assert!(!manager.record_optimized("zz", "/cache/k.webm".to_string()));
    assert_eq!(manager.animation_count(), 1);
}

#[test]
fn starting_with_a_configured_boot_animation_binds_once() {
    let mut config = test_config();
    config.current_boot_animation = Some("neon/deck_startup.webm".to_string());
    let mut monitor = SteamMonitor::new(test_config());
    let mut manager = AnimationManager::new(config);
    manager.load_animations(&vec![set("neon", true, true, false)], &Vec::new());

    let snapshot = vec![ProcessInfo { pid: 7, cmdline: vec!["/usr/bin/steam".to_string()] }];
    let event = monitor.check_steam_processes(&snapshot).unwrap();
    assert_eq!(dispatch(event), DaemonAction::PrepareBoot);

    let id = manager.prepare_boot_animation().unwrap();
    assert_eq!(id, "neon/deck_startup.webm");
    let (source, target) = match manager.apply_animation(AnimationType::Boot, &id) {
        ApplyStep::Transcode { source, target } => (source, target),
        other => panic!("unexpected step {:?}", other),
    };
    assert_eq!(source, "/animations/neon/deck_startup.webm");
    assert_eq!(target, "/overrides/deck_startup.webm");

    let animation = manager.get_animation(&id).unwrap().clone();
    let cached = match manager.video_processor().optimize_animation(&animation, 10, Some(20), false) {
        CacheLookup::Miss { target, staging } => {
            assert_eq!(staging, format!("{}.partial", target));
            target
        }
        CacheLookup::Hit(_) => panic!("an empty cache cannot hit"),
    };
    let key = manager.video_processor().generate_cache_key(&animation.path, 10, Some(20));
    assert_eq!(cached, format!("/cache/{}", key));
    assert_eq!(key.len(), 16);
    assert!(manager.record_optimized(&id, cached.clone()));

    let steps = manager.mount_animation(false);
    let binds = steps.iter().filter(|s| **s == MountStep::Bind).count();
    assert_eq!(binds, 1);
    assert_eq!(steps.last(), Some(&MountStep::Bind));
    match manager.apply_animation(AnimationType::Boot, &id) {
        ApplyStep::Mount { source, target } => {
            assert_eq!(source, cached);
            assert_eq!(target, "/overrides/deck_startup.webm");
        }
        other => panic!("unexpected step {:?}", other),
    }
    manager.complete_apply(AnimationType::Boot, &id, ApplyOutcome::Mounted);
    assert_eq!(manager.current_animation(AnimationType::Boot), Some(id));
    assert_eq!(manager.current_animation(AnimationType::Suspend), None);
}

#[test]
fn maintenance_plans_the_sweep() {
    let mut config = test_config();
    config.max_cache_size_mb = 1;
    let manager = AnimationManager::new(config);
    let listing = vec![
        steam_animation_daemon::cache_sweep::CacheEntry {
            path: "/cache/a.webm".to_string(),
            size: 2 * 1024 * 1024,
            modified: 5,
        },
        steam_animation_daemon::cache_sweep::CacheEntry {
            path: "/cache/b.webm".to_string(),
            size: 10,
            modified: 6,
        },
    ];
    let mut walk = manager.maintenance(&listing, 10);
    let first = walk.step(true).unwrap();
    assert_eq!(first.path, "/cache/a.webm");
    assert!(walk.step(true).is_none());
    assert_eq!(manager.current_animation(AnimationType::Boot), None);
}
