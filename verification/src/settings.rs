//! The viewer's settings.
use vstd::prelude::*;
use std::collections::BTreeMap;
use crate::playlist::PlaylistView;
use crate::sponsor::{SponsorBlockSettings, default_settings};

verus! {

/// The length buckets' edges, from the viewer's settings.
#[derive(Clone, Copy, Debug, PartialEq, Eq, Structural)]
pub struct DurationThresholds {
    pub video_short_max_seconds: u64,
    pub video_medium_max_seconds: u64,
    pub shorts_short_max_seconds: u64,
    pub shorts_medium_max_seconds: u64,
}

/// Which native design language the component library renders with.
/// Storing an explicit choice lets it be made once and kept.
#[derive(Clone, Copy, Debug, PartialEq, Eq, Structural)]
pub enum PlatformStyle {
    /// Follow the running platform, which is what an installed build wants.
    Auto,
    Ios,
    Material,
}

impl PlatformStyle {
    pub fn default() -> (r: PlatformStyle)
        ensures
            r == PlatformStyle::Auto,
    {
        PlatformStyle::Auto
    }
}

#[derive(Clone, Copy, Debug, PartialEq, Eq, Structural)]
pub enum Appearance {
    Dark,
    Light,
}

impl Appearance {
    pub fn default() -> (r: Appearance)
        ensures
            r == Appearance::Dark,
    {
        Appearance::Dark
    }
}

/// What a swipe on a video card does.
#[derive(Clone, Copy, Debug, PartialEq, Eq, Structural)]
pub enum SwipeActionKind {
    AddToPlaylist,
    AddToQueue,
    PlayNext,
    Share,
    MarkWatched,
}

impl SwipeActionKind {
    pub fn all() -> (r: Vec<SwipeActionKind>)
        ensures
            r@ == seq![
                SwipeActionKind::AddToPlaylist,
                SwipeActionKind::AddToQueue,
                SwipeActionKind::PlayNext,
                SwipeActionKind::Share,
                SwipeActionKind::MarkWatched,
            ],
    {
        let r = vec![
            SwipeActionKind::AddToPlaylist,
            SwipeActionKind::AddToQueue,
            SwipeActionKind::PlayNext,
            SwipeActionKind::Share,
            SwipeActionKind::MarkWatched,
        ];
        assert(r@ =~= seq![
            SwipeActionKind::AddToPlaylist,
            SwipeActionKind::AddToQueue,
            SwipeActionKind::PlayNext,
            SwipeActionKind::Share,
            SwipeActionKind::MarkWatched,
        ]);
        r
    }

    pub fn default() -> (r: SwipeActionKind)
        ensures
            r == SwipeActionKind::AddToPlaylist,
    {
        SwipeActionKind::AddToPlaylist
    }

    pub fn label(self) -> (r: &'static str)
        ensures
            r@ == (match self {
                SwipeActionKind::AddToPlaylist => "Add to playlist"@,
                SwipeActionKind::AddToQueue => "Add to queue"@,
                SwipeActionKind::PlayNext => "Play next"@,
                SwipeActionKind::Share => "Share"@,
                SwipeActionKind::MarkWatched => "Mark watched"@,
            }),
    {
        match self {
            SwipeActionKind::AddToPlaylist => "Add to playlist",
            SwipeActionKind::AddToQueue => "Add to queue",
            SwipeActionKind::PlayNext => "Play next",
            SwipeActionKind::Share => "Share",
            SwipeActionKind::MarkWatched => "Mark watched",
        }
    }

    /// Compact text for the closed selector; the full label stays in the
    /// menu where it has room to explain the action.
    pub fn trigger_label(self) -> (r: &'static str)
        ensures
            r@ == (match self {
                SwipeActionKind::AddToPlaylist => "Playlist"@,
                SwipeActionKind::AddToQueue => "Queue"@,
                SwipeActionKind::PlayNext => "Play next"@,
                SwipeActionKind::Share => "Share"@,
                SwipeActionKind::MarkWatched => "Watched"@,
            }),
    {
        match self {
            SwipeActionKind::AddToPlaylist => "Playlist",
            SwipeActionKind::AddToQueue => "Queue",
            SwipeActionKind::PlayNext => "Play next",
            SwipeActionKind::Share => "Share",
            SwipeActionKind::MarkWatched => "Watched",
        }
    }
}

/// The bit pattern of the `f64` 1.0: normal speed.
pub const NORMAL_SPEED_BITS: u64 = 0x3FF0_0000_0000_0000;

/// Everything the viewer sets. Playback speeds are `f64` values carried as
/// their IEEE 754 bit patterns: nothing here computes with them.
pub struct AppSettings {
    pub appearance: Appearance,
    pub platform_style: PlatformStyle,
    pub playback_speed_bits: u64,
    /// Shorts are watched at a different pace than long-form video, so the
    /// two speeds are remembered independently.
    pub shorts_playback_speed_bits: u64,
    pub swipe_right_playlist_id: String,
    pub swipe_left_playlist_id: String,
    /// What each swipe direction does. The playlist ids above are consulted
    /// only when the action is `AddToPlaylist`.
    pub swipe_right_action: SwipeActionKind,
    pub swipe_left_action: SwipeActionKind,
    pub hide_watched: bool,
    /// Long-form autoplay. Shorts get their own, for the same reason speed
    /// does.
    pub autoplay: bool,
    pub shorts_autoplay: bool,
    pub auto_landscape_fullscreen: bool,
    /// Whether a desktop player opens in theater mode.
    pub theater_mode: bool,
    pub video_short_max_seconds: u64,
    pub video_medium_max_seconds: u64,
    pub shorts_short_max_seconds: u64,
    pub shorts_medium_max_seconds: u64,
    pub sponsor_block: SponsorBlockSettings,
    /// BCP-47 tag the playback transport should prefer for dubbed uploads.
    pub preferred_audio_language: String,
    pub prefer_sabr: bool,
    pub po_token_provider_url: Option<String>,
    /// How each playlist is arranged, keyed by playlist id.
    pub playlist_views: BTreeMap<String, PlaylistView>,
}

pub fn default_speed_bits() -> (r: u64)
    ensures
        r == NORMAL_SPEED_BITS,
{
    NORMAL_SPEED_BITS
}

pub fn default_true() -> (r: bool)
    ensures
        r,
{
    true
}

pub fn default_audio_language() -> (r: String)
    ensures
        r@ == "en"@,
{
    "en".to_string()
}

pub fn default_video_short_max_seconds() -> (r: u64)
    ensures
        r == 600,
{
    10 * 60
}

pub fn default_video_medium_max_seconds() -> (r: u64)
    ensures
        r == 2100,
{
    35 * 60
}

pub fn default_shorts_short_max_seconds() -> (r: u64)
    ensures
        r == 30,
{
    30
}

pub fn default_shorts_medium_max_seconds() -> (r: u64)
    ensures
        r == 60,
{
    60
}

impl AppSettings {
    /// What a fresh install starts with.
    pub fn default() -> (r: AppSettings)
        ensures
            r.appearance == Appearance::Dark,
            r.platform_style == PlatformStyle::Auto,
            r.playback_speed_bits == NORMAL_SPEED_BITS,
            r.shorts_playback_speed_bits == NORMAL_SPEED_BITS,
            r.swipe_right_action == SwipeActionKind::AddToPlaylist,
            r.swipe_left_action == SwipeActionKind::AddToPlaylist,
            r.swipe_right_playlist_id@ == "watch-later"@,
            r.swipe_left_playlist_id@ == "deep-dives"@,
            !r.hide_watched,
            r.autoplay,
            r.shorts_autoplay,
            r.auto_landscape_fullscreen,
            !r.theater_mode,
            r.video_short_max_seconds == 600,
            r.video_medium_max_seconds == 2100,
            r.shorts_short_max_seconds == 30,
            r.shorts_medium_max_seconds == 60,
            r.sponsor_block.enabled,
            r.sponsor_block.notify_on_skip,
            r.sponsor_block.categories@ == default_settings(),
            r.preferred_audio_language@ == "en"@,
            r.prefer_sabr,
            r.po_token_provider_url is None,
            r.playlist_views@ == Map::<String, PlaylistView>::empty(),
    {
        AppSettings {
            appearance: Appearance::Dark,
            platform_style: PlatformStyle::Auto,
            playback_speed_bits: NORMAL_SPEED_BITS,
            shorts_playback_speed_bits: NORMAL_SPEED_BITS,
            swipe_right_action: SwipeActionKind::AddToPlaylist,
            swipe_left_action: SwipeActionKind::AddToPlaylist,
            swipe_right_playlist_id: "watch-later".to_string(),
            swipe_left_playlist_id: "deep-dives".to_string(),
            hide_watched: false,
            autoplay: true,
            shorts_autoplay: true,
            auto_landscape_fullscreen: true,
            theater_mode: false,
            video_short_max_seconds: default_video_short_max_seconds(),
            video_medium_max_seconds: default_video_medium_max_seconds(),
            shorts_short_max_seconds: default_shorts_short_max_seconds(),
            shorts_medium_max_seconds: default_shorts_medium_max_seconds(),
            sponsor_block: SponsorBlockSettings::default(),
            preferred_audio_language: default_audio_language(),
            prefer_sabr: true,
            po_token_provider_url: None,
            playlist_views: BTreeMap::new(),
        }
    }

    /// Whether this kind of video plays on by itself.
    pub fn autoplay_for(&self, is_short: bool) -> (r: bool)
        ensures
            r == (if is_short {
                self.shorts_autoplay
            } else {
                self.autoplay
            }),
    {
        if is_short {
            self.shorts_autoplay
        } else {
            self.autoplay
        }
    }

    pub fn set_autoplay_for(&mut self, is_short: bool, autoplay: bool)
        ensures
            *final(self) == (if is_short {
                AppSettings { shorts_autoplay: autoplay, ..*old(self) }
            } else {
                AppSettings { autoplay: autoplay, ..*old(self) }
            }),
    {
        if is_short {
            self.shorts_autoplay = autoplay;
        } else {
            self.autoplay = autoplay;
        }
    }

    /// The remembered speed for this kind of video, as `f64` bits.
    pub fn speed_for(&self, is_short: bool) -> (r: u64)
        ensures
            r == (if is_short {
                self.shorts_playback_speed_bits
            } else {
                self.playback_speed_bits
            }),
    {
        if is_short {
            self.shorts_playback_speed_bits
        } else {
            self.playback_speed_bits
        }
    }

    pub fn set_speed_for(&mut self, is_short: bool, speed_bits: u64)
        ensures
            *final(self) == (if is_short {
                AppSettings { shorts_playback_speed_bits: speed_bits, ..*old(self) }
            } else {
                AppSettings { playback_speed_bits: speed_bits, ..*old(self) }
            }),
    {
        if is_short {
            self.shorts_playback_speed_bits = speed_bits;
        } else {
            self.playback_speed_bits = speed_bits;
        }
    }

    /// Sets where a long-form Short ends, in whole minutes. Medium is lifted
    /// to end at least a minute later, so no length falls between the two.
    pub fn set_video_short_max_minutes(&mut self, minutes: u64)
        requires
            (minutes + 1) * 60 <= u64::MAX,
        ensures
            *final(self) == (AppSettings {
                video_short_max_seconds: (minutes * 60) as u64,
                video_medium_max_seconds: max_of(
                    old(self).video_medium_max_seconds as int,
                    (minutes + 1) * 60,
                ) as u64,
                ..*old(self)
            }),
            final(self).video_medium_max_seconds >= final(self).video_short_max_seconds + 60,
    {
        self.video_short_max_seconds = minutes * 60;
        let lifted = (minutes + 1) * 60;
        if self.video_medium_max_seconds < lifted {
            self.video_medium_max_seconds = lifted;
        }
    }

    /// Sets where a long-form Medium ends, in whole minutes, but never
    /// closer than a minute above where Short ends.
    pub fn set_video_medium_max_minutes(&mut self, minutes: u64)
        requires
            minutes * 60 <= u64::MAX,
            old(self).video_short_max_seconds + 60 <= u64::MAX,
        ensures
            *final(self) == (AppSettings {
                video_medium_max_seconds: max_of(
                    minutes * 60,
                    old(self).video_short_max_seconds + 60,
                ) as u64,
                ..*old(self)
            }),
            final(self).video_medium_max_seconds >= final(self).video_short_max_seconds + 60,
    {
        let floor = self.video_short_max_seconds + 60;
        let wanted = minutes * 60;
        self.video_medium_max_seconds = if wanted < floor {
            floor
        } else {
            wanted
        };
    }

    /// Sets where a Short's Short bucket ends, in seconds. Medium is lifted
    /// to end at least a second later.
    pub fn set_shorts_short_max_seconds(&mut self, seconds: u64)
        requires
            seconds < u64::MAX,
        ensures
            *final(self) == (AppSettings {
                shorts_short_max_seconds: seconds,
                shorts_medium_max_seconds: max_of(
                    old(self).shorts_medium_max_seconds as int,
                    seconds + 1,
                ) as u64,
                ..*old(self)
            }),
            final(self).shorts_medium_max_seconds >= final(self).shorts_short_max_seconds + 1,
    {
        self.shorts_short_max_seconds = seconds;
        if self.shorts_medium_max_seconds < seconds + 1 {
            self.shorts_medium_max_seconds = seconds + 1;
        }
    }

    /// Sets where a Short's Medium bucket ends, in seconds, but never
    /// closer than a second above where its Short bucket ends.
    pub fn set_shorts_medium_max_seconds(&mut self, seconds: u64)
        requires
            old(self).shorts_short_max_seconds < u64::MAX,
        ensures
            *final(self) == (AppSettings {
                shorts_medium_max_seconds: max_of(
                    seconds as int,
                    old(self).shorts_short_max_seconds + 1,
                ) as u64,
                ..*old(self)
            }),
            final(self).shorts_medium_max_seconds >= final(self).shorts_short_max_seconds + 1,
    {
        let floor = self.shorts_short_max_seconds + 1;
        self.shorts_medium_max_seconds = if seconds < floor {
            floor
        } else {
            seconds
        };
    }

    /// The length buckets' edges these settings draw.
    pub fn thresholds(&self) -> (r: DurationThresholds)
        ensures
            r == (DurationThresholds {
                video_short_max_seconds: self.video_short_max_seconds,
                video_medium_max_seconds: self.video_medium_max_seconds,
                shorts_short_max_seconds: self.shorts_short_max_seconds,
                shorts_medium_max_seconds: self.shorts_medium_max_seconds,
            }),
    {
        DurationThresholds {
            video_short_max_seconds: self.video_short_max_seconds,
            video_medium_max_seconds: self.video_medium_max_seconds,
            shorts_short_max_seconds: self.shorts_short_max_seconds,
            shorts_medium_max_seconds: self.shorts_medium_max_seconds,
        }
    }
}

/// The larger of two numbers.
pub open spec fn max_of(a: int, b: int) -> int {
    if a < b {
        b
    } else {
        a
    }
}

/// What one kind of video's setting is after it is set and read back: the
/// value set, and the other kind's untouched.
pub proof fn law_speed_set_then_read(settings: AppSettings, is_short: bool, bits: u64)
    ensures
        ({
            let after = if is_short {
                AppSettings { shorts_playback_speed_bits: bits, ..settings }
            } else {
                AppSettings { playback_speed_bits: bits, ..settings }
            };
            &&& (if is_short {
                after.shorts_playback_speed_bits
            } else {
                after.playback_speed_bits
            }) == bits
            &&& (if is_short {
                after.playback_speed_bits
            } else {
                after.shorts_playback_speed_bits
            }) == (if is_short {
                settings.playback_speed_bits
            } else {
                settings.shorts_playback_speed_bits
            })
        }),
{
}

} // verus!
