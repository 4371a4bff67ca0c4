//! Daemon settings and the rules that keep them in range.

use vstd::prelude::*;
use crate::text::str_equals;

verus! {

/// How the boot animation is chosen when the client starts.
#[derive(Debug, Clone, Copy, PartialEq, Eq, Structural)]
pub enum RandomizeMode {
    /// Use the configured animation.
    Disabled,
    /// Draw a new animation on every start.
    PerBoot,
    /// Draw within a set; currently the same draw as `PerBoot`.
    PerSet,
}

/// The daemon's settings. Paths are plain strings and durations are whole
/// seconds.
#[derive(Debug, Clone)]
pub struct Config {
    pub animations_path: String,
    pub downloads_path: String,
    pub steam_override_path: String,
    pub animation_cache_path: String,
    pub current_boot_animation: Option<String>,
    pub current_suspend_animation: Option<String>,
    pub current_throbber_animation: Option<String>,
    pub randomize_mode: RandomizeMode,
    pub shuffle_exclusions: Vec<String>,
    /// Longest playing time kept by the transcoder, in seconds.
    pub max_animation_duration: u64,
    pub target_width: u32,
    pub target_height: u32,
    /// Constant-quality level handed to the encoder.
    pub video_quality: u32,
    pub max_cache_size_mb: u64,
    pub cache_max_age_days: u64,
    pub force_ipv4: bool,
    /// In seconds.
    pub connection_timeout: u64,
    /// In seconds.
    pub process_check_interval: u64,
    /// In seconds.
    pub maintenance_interval: u64,
    pub log_level: String,
    pub enable_debug: bool,
}

/// Seconds of playing time kept where none is configured.
pub const DEFAULT_MAX_ANIMATION_DURATION: u64 = 5;

/// The longest playing time that may be configured, in seconds.
pub const LONGEST_ANIMATION_DURATION: u64 = 30;

/// The quality level used where none in range is configured.
pub const DEFAULT_VIDEO_QUALITY: u32 = 23;

/// The lowest quality level that may be configured.
pub const LOWEST_VIDEO_QUALITY: u32 = 10;

/// The highest quality level that may be configured.
pub const HIGHEST_VIDEO_QUALITY: u32 = 50;

/// Frame width of the Steam Deck.
pub const DEFAULT_TARGET_WIDTH: u32 = 1280;

/// Frame height of the Steam Deck.
pub const DEFAULT_TARGET_HEIGHT: u32 = 720;

/// Cache budget in megabytes where none is configured.
pub const DEFAULT_MAX_CACHE_SIZE_MB: u64 = 500;

/// Days after which a cache entry is stale.
pub const DEFAULT_CACHE_MAX_AGE_DAYS: u64 = 30;

/// The duration limit after the range rule: zero becomes the default, more
/// than the longest allowed becomes the longest allowed.
pub open spec fn fixed_duration(secs: u64) -> u64 {
    if secs == 0 {
        DEFAULT_MAX_ANIMATION_DURATION
    } else if secs > LONGEST_ANIMATION_DURATION {
        LONGEST_ANIMATION_DURATION
    } else {
        secs
    }
}

/// The quality level after the range rule.
pub open spec fn fixed_quality(quality: u32) -> u32 {
    if quality < LOWEST_VIDEO_QUALITY || quality > HIGHEST_VIDEO_QUALITY {
        DEFAULT_VIDEO_QUALITY
    } else {
        quality
    }
}

/// The cache budget after the range rule.
pub open spec fn fixed_cache_size(mb: u64) -> u64 {
    if mb == 0 {
        DEFAULT_MAX_CACHE_SIZE_MB
    } else {
        mb
    }
}

/// What a configured animation becomes under an update: no update keeps it,
/// an empty id clears it, any other id replaces it.
pub open spec fn updated_animation(current: Option<String>, update: Option<String>) -> Option<
    String,
> {
    match update {
        None => current,
        Some(id) => if id@.len() == 0 {
            None
        } else {
            Some(id)
        },
    }
}

impl Config {
    /// The four directories are the given ones.
    pub open spec fn has_paths(
        &self,
        animations: Seq<char>,
        downloads: Seq<char>,
        overrides: Seq<char>,
        cache: Seq<char>,
    ) -> bool {
        &&& self.animations_path@ == animations
        &&& self.downloads_path@ == downloads
        &&& self.steam_override_path@ == overrides
        &&& self.animation_cache_path@ == cache
    }

    /// The directories are those of a Steam Deck installation.
    pub open spec fn has_default_paths(&self) -> bool {
        self.has_paths(
            "/home/deck/.local/share/steam-animation-manager/animations"@,
            "/home/deck/.local/share/steam-animation-manager/downloads"@,
            "/home/deck/.steam/root/config/uioverrides/movies"@,
            "/tmp/steam-animation-cache"@,
        )
    }

    /// Everything but the directories, the duration limit and the logging
    /// fields has its default value.
    pub open spec fn has_default_settings(&self) -> bool {
        &&& self.current_boot_animation is None
        &&& self.current_suspend_animation is None
        &&& self.current_throbber_animation is None
        &&& self.randomize_mode == RandomizeMode::Disabled
        &&& self.shuffle_exclusions@.len() == 0
        &&& self.target_width == DEFAULT_TARGET_WIDTH
        &&& self.target_height == DEFAULT_TARGET_HEIGHT
        &&& self.video_quality == DEFAULT_VIDEO_QUALITY
        &&& self.max_cache_size_mb == DEFAULT_MAX_CACHE_SIZE_MB
        &&& self.cache_max_age_days == DEFAULT_CACHE_MAX_AGE_DAYS
        &&& self.force_ipv4 == false
        &&& self.connection_timeout == 30
        &&& self.process_check_interval == 1
        &&& self.maintenance_interval == 300
    }

    /// Every field has its default value.
    pub open spec fn is_default(&self) -> bool {
        &&& self.has_default_paths()
        &&& self.has_default_settings()
        &&& self.max_animation_duration == DEFAULT_MAX_ANIMATION_DURATION
        &&& self.log_level@ == "info"@
        &&& self.enable_debug == false
    }

    /// The numeric settings are inside the ranges that `validate_and_fix`
    /// enforces.
    pub open spec fn in_range(&self) -> bool {
        &&& 1 <= self.max_animation_duration <= LONGEST_ANIMATION_DURATION
        &&& LOWEST_VIDEO_QUALITY <= self.video_quality <= HIGHEST_VIDEO_QUALITY
        &&& self.target_width > 0
        &&& self.target_height > 0
        &&& self.max_cache_size_mb > 0
    }

    /// The directory that holds the override files, one per animation type.
    pub fn get_steam_override_path(&self) -> (path: String)
        ensures
            path@ == self.steam_override_path@,
    {
        self.steam_override_path.clone()
    }

    /// The directory that holds the transcoded files.
    pub fn get_animation_cache_path(&self) -> (path: String)
        ensures
            path@ == self.animation_cache_path@,
    {
        self.animation_cache_path.clone()
    }

    /// The settings for a named environment: `development` and `testing`
    /// move the directories, any other name gives the defaults.
    pub fn for_environment(env: &str) -> (config: Config)
        ensures
            config.has_default_settings(),
            env@ == "development"@ ==> {
                &&& config.has_paths(
                    "./test_animations"@,
                    "./test_downloads"@,
                    "./test_overrides"@,
                    "./test_cache"@,
                )
                &&& config.enable_debug
                &&& config.log_level@ == "debug"@
                &&& config.max_animation_duration == DEFAULT_MAX_ANIMATION_DURATION
            },
            env@ != "development"@ && env@ == "testing"@ ==> {
                &&& config.has_paths(
                    "/tmp/test_animations"@,
                    "/tmp/test_downloads"@,
                    "/tmp/test_overrides"@,
                    "/tmp/test_cache"@,
                )
                &&& !config.enable_debug
                &&& config.log_level@ == "info"@
                &&& config.max_animation_duration == 2
            },
            env@ != "development"@ && env@ != "testing"@ ==> config.is_default(),
    {
        let mut config = Config::default();
        if str_equals(env, "development") {
            config.animations_path = String::from_str("./test_animations");
            config.downloads_path = String::from_str("./test_downloads");
            config.steam_override_path = String::from_str("./test_overrides");
            config.animation_cache_path = String::from_str("./test_cache");
            config.enable_debug = true;
            config.log_level = String::from_str("debug");
        } else if str_equals(env, "testing") {
            config.animations_path = String::from_str("/tmp/test_animations");
            config.downloads_path = String::from_str("/tmp/test_downloads");
            config.steam_override_path = String::from_str("/tmp/test_overrides");
            config.animation_cache_path = String::from_str("/tmp/test_cache");
            config.max_animation_duration = 2;
        }
        config
    }

    /// Brings the numeric settings back into range: each one that is out of
    /// range gets its default, a duration limit that is too long gets the
    /// longest allowed one. Nothing else changes.
    pub fn validate_and_fix(&mut self)
        ensures
            final(self).max_animation_duration == fixed_duration(old(self).max_animation_duration),
            final(self).video_quality == fixed_quality(old(self).video_quality),
            old(self).target_width == 0 || old(self).target_height == 0 ==> {
                &&& final(self).target_width == DEFAULT_TARGET_WIDTH
                &&& final(self).target_height == DEFAULT_TARGET_HEIGHT
            },
            old(self).target_width != 0 && old(self).target_height != 0 ==> {
                &&& final(self).target_width == old(self).target_width
                &&& final(self).target_height == old(self).target_height
            },
            final(self).max_cache_size_mb == fixed_cache_size(old(self).max_cache_size_mb),
            final(self).in_range(),
            final(self).same_outside_ranges(*old(self)),
    {
        if self.max_animation_duration == 0 {
            self.max_animation_duration = DEFAULT_MAX_ANIMATION_DURATION;
        }
        if self.max_animation_duration > LONGEST_ANIMATION_DURATION {
            self.max_animation_duration = LONGEST_ANIMATION_DURATION;
        }
        if self.video_quality < LOWEST_VIDEO_QUALITY || self.video_quality > HIGHEST_VIDEO_QUALITY {
            self.video_quality = DEFAULT_VIDEO_QUALITY;
        }
        if self.target_width == 0 || self.target_height == 0 {
            self.target_width = DEFAULT_TARGET_WIDTH;
            self.target_height = DEFAULT_TARGET_HEIGHT;
        }
        if self.max_cache_size_mb == 0 {
            self.max_cache_size_mb = DEFAULT_MAX_CACHE_SIZE_MB;
        }
    }

    /// The fields that no range rule touches are those of `other`.
    pub open spec fn same_outside_ranges(&self, other: Config) -> bool {
        &&& self.animations_path == other.animations_path
        &&& self.downloads_path == other.downloads_path
        &&& self.steam_override_path == other.steam_override_path
        &&& self.animation_cache_path == other.animation_cache_path
        &&& self.current_boot_animation == other.current_boot_animation
        &&& self.current_suspend_animation == other.current_suspend_animation
        &&& self.current_throbber_animation == other.current_throbber_animation
        &&& self.randomize_mode == other.randomize_mode
        &&& self.shuffle_exclusions == other.shuffle_exclusions
        &&& self.cache_max_age_days == other.cache_max_age_days
        &&& self.force_ipv4 == other.force_ipv4
        &&& self.connection_timeout == other.connection_timeout
        &&& self.process_check_interval == other.process_check_interval
        &&& self.maintenance_interval == other.maintenance_interval
        &&& self.log_level == other.log_level
        &&& self.enable_debug == other.enable_debug
    }

    /// The fields outside the three configured animations are those of
    /// `other`.
    pub open spec fn same_outside_animations(&self, other: Config) -> bool {
        &&& self.animations_path == other.animations_path
        &&& self.downloads_path == other.downloads_path
        &&& self.steam_override_path == other.steam_override_path
        &&& self.animation_cache_path == other.animation_cache_path
        &&& self.randomize_mode == other.randomize_mode
        &&& self.shuffle_exclusions == other.shuffle_exclusions
        &&& self.same_numbers(other)
        &&& self.log_level == other.log_level
    }

    /// The numeric and boolean settings are those of `other`.
    pub open spec fn same_numbers(&self, other: Config) -> bool {
        &&& self.max_animation_duration == other.max_animation_duration
        &&& self.target_width == other.target_width
        &&& self.target_height == other.target_height
        &&& self.video_quality == other.video_quality
        &&& self.max_cache_size_mb == other.max_cache_size_mb
        &&& self.cache_max_age_days == other.cache_max_age_days
        &&& self.force_ipv4 == other.force_ipv4
        &&& self.connection_timeout == other.connection_timeout
        &&& self.process_check_interval == other.process_check_interval
        &&& self.maintenance_interval == other.maintenance_interval
        &&& self.enable_debug == other.enable_debug
    }

    /// Replaces the configured animations. For each type, `None` keeps the
    /// current one, an empty id clears it and any other id becomes the new
    /// one.
    pub fn update_animations(
        &mut self,
        boot: Option<String>,
        suspend: Option<String>,
        throbber: Option<String>,
    )
        ensures
            final(self).current_boot_animation == updated_animation(
                old(self).current_boot_animation,
                boot,
            ),
            final(self).current_suspend_animation == updated_animation(
                old(self).current_suspend_animation,
                suspend,
            ),
            final(self).current_throbber_animation == updated_animation(
                old(self).current_throbber_animation,
                throbber,
            ),
            final(self).same_outside_animations(*old(self)),
    {
        if let Some(id) = boot {
            self.current_boot_animation = if id.as_str().is_empty() {
                None
            } else {
                Some(id)
            };
        }
        if let Some(id) = suspend {
            self.current_suspend_animation = if id.as_str().is_empty() {
                None
            } else {
                Some(id)
            };
        }
        if let Some(id) = throbber {
            self.current_throbber_animation = if id.as_str().is_empty() {
                None
            } else {
                Some(id)
            };
        }
    }

    /// Replaces the selection mode and the ids that a random draw leaves
    /// out.
    pub fn update_randomization(&mut self, mode: RandomizeMode, exclusions: Vec<String>)
        ensures
            final(self).randomize_mode == mode,
            final(self).shuffle_exclusions == exclusions,
            final(self).same_numbers(*old(self)),
            final(self).animations_path == old(self).animations_path,
            final(self).downloads_path == old(self).downloads_path,
            final(self).steam_override_path == old(self).steam_override_path,
            final(self).animation_cache_path == old(self).animation_cache_path,
            final(self).current_boot_animation == old(self).current_boot_animation,
            final(self).current_suspend_animation == old(self).current_suspend_animation,
            final(self).current_throbber_animation == old(self).current_throbber_animation,
            final(self).log_level == old(self).log_level,
    {
        self.randomize_mode = mode;
        self.shuffle_exclusions = exclusions;
    }
}

impl Default for Config {
    /// The settings of a Steam Deck installation.
    fn default() -> (config: Config)
        ensures
            config.is_default(),
    {
        Config {
            animations_path: String::from_str(
                "/home/deck/.local/share/steam-animation-manager/animations",
            ),
            downloads_path: String::from_str(
                "/home/deck/.local/share/steam-animation-manager/downloads",
            ),
            steam_override_path: String::from_str(
                "/home/deck/.steam/root/config/uioverrides/movies",
            ),
            animation_cache_path: String::from_str("/tmp/steam-animation-cache"),
            current_boot_animation: None,
            current_suspend_animation: None,
            current_throbber_animation: None,
            randomize_mode: RandomizeMode::Disabled,
            shuffle_exclusions: Vec::new(),
            max_animation_duration: DEFAULT_MAX_ANIMATION_DURATION,
            target_width: DEFAULT_TARGET_WIDTH,
            target_height: DEFAULT_TARGET_HEIGHT,
            video_quality: DEFAULT_VIDEO_QUALITY,
            max_cache_size_mb: DEFAULT_MAX_CACHE_SIZE_MB,
            cache_max_age_days: DEFAULT_CACHE_MAX_AGE_DAYS,
            force_ipv4: false,
            connection_timeout: 30,
            process_check_interval: 1,
            maintenance_interval: 300,
            log_level: String::from_str("info"),
            enable_debug: false,
        }
    }
}

} // verus!
