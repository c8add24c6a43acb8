//! Videos, and how their length and publish date are shown.
use vstd::prelude::*;
use crate::dates::{
    clock_now, publish_precision_at, publish_precision_of, published_epoch_at,
    published_epoch_of, published_label_of, published_label_text, slices_ten_bytes_cleanly,
    ten_bytes_slice_cleanly,
};
use crate::text::{
    decimal, decimal_of, decimal_two, decimal_two_of, push_all, push_str, string_of, trim,
    trimmed_chars,
};

verus! {

pub struct Video {
    pub id: String,
    pub title: String,
    pub channel_id: String,
    pub channel_name: String,
    pub thumbnail_url: String,
    pub published_at: String,
    pub duration_seconds: u64,
    pub view_count: String,
    pub progress_seconds: u64,
    pub watched: bool,
    pub is_live: bool,
    pub is_short: bool,
    /// Play this one without its video stream. Remembered per video, because
    /// it is a property of the thing being watched rather than a global mode.
    pub audio_only: bool,
    /// The channel's avatar, filled in by the server on every video it hands
    /// out so a card need not look the channel up.
    pub channel_avatar_url: Option<String>,
}

/// A copy of an optional text.
pub fn copy_text_option(o: &Option<String>) -> (r: Option<String>)
    ensures
        r == *o,
{
    match o {
        Some(s) => Some(s.clone()),
        None => None,
    }
}

impl Clone for Video {
    fn clone(&self) -> (r: Self)
        ensures
            r == *self,
    {
        Video {
            id: self.id.clone(),
            title: self.title.clone(),
            channel_id: self.channel_id.clone(),
            channel_name: self.channel_name.clone(),
            thumbnail_url: self.thumbnail_url.clone(),
            published_at: self.published_at.clone(),
            duration_seconds: self.duration_seconds,
            view_count: self.view_count.clone(),
            progress_seconds: self.progress_seconds,
            watched: self.watched,
            is_live: self.is_live,
            is_short: self.is_short,
            audio_only: self.audio_only,
            channel_avatar_url: copy_text_option(&self.channel_avatar_url),
        }
    }
}

/// A length in seconds as a clock reads it: "h:mm:ss" from an hour up,
/// "m:ss" below.
pub open spec fn clock_label(seconds: nat) -> Seq<char> {
    let hours = seconds / 3600;
    let minutes = (seconds % 3600) / 60;
    let secs = seconds % 60;
    if hours > 0 {
        decimal(hours) + ":"@ + decimal_two(minutes) + ":"@ + decimal_two(secs)
    } else {
        decimal(minutes) + ":"@ + decimal_two(secs)
    }
}

/// A length in seconds as a clock reads it.
pub fn clock_label_of(seconds: u64) -> (r: String)
    ensures
        r@ == clock_label(seconds as nat),
{
    let hours = seconds / 3600;
    let minutes = (seconds % 3600) / 60;
    let secs = seconds % 60;
    let mut out: Vec<char> = Vec::new();
    if hours > 0 {
        let h = decimal_of(hours);
        push_all(&mut out, &h);
        push_str(&mut out, ":");
        let m = decimal_two_of(minutes);
        push_all(&mut out, &m);
    } else {
        let m = decimal_of(minutes);
        push_all(&mut out, &m);
    }
    push_str(&mut out, ":");
    let s = decimal_two_of(secs);
    push_all(&mut out, &s);
    string_of(out.as_slice())
}

/// What a video's length label says: "LIVE" for a stream, else its clock
/// reading.
pub open spec fn duration_label_of(is_live: bool, seconds: nat) -> Seq<char> {
    if is_live {
        "LIVE"@
    } else {
        clock_label(seconds)
    }
}

/// The "views · date" line: either half is dropped when it is unknown, so
/// the separator never dangles.
pub open spec fn stats_label_of(view_count: Seq<char>, published_at: Seq<char>) -> Seq<char> {
    let views = trim(view_count);
    let date = published_label_of(published_at);
    if views.len() == 0 {
        date
    } else if date.len() == 0 {
        views
    } else {
        views + " · "@ + date
    }
}

impl Video {
    /// Whether reading this video's publish date is free of the panic that
    /// cutting its first ten bytes mid-character would cause.
    pub open spec fn dates_cleanly(&self) -> bool {
        ten_bytes_slice_cleanly(trim(self.published_at@))
    }

    /// Whether this video's publish date can be read at all: a caller
    /// tests this before asking for the date.
    pub fn date_reads_cleanly(&self) -> (r: bool)
        ensures
            r == self.dates_cleanly(),
    {
        let trimmed = trimmed_chars(self.published_at.as_str());
        slices_ten_bytes_cleanly(&trimmed)
    }

    pub fn duration_label(&self) -> (r: String)
        ensures
            r@ == duration_label_of(self.is_live, self.duration_seconds as nat),
    {
        if self.is_live {
            return "LIVE".to_string();
        }
        clock_label_of(self.duration_seconds)
    }

    /// The Unix timestamp this video's publish date stands for, relative
    /// dates read against `now`.
    pub fn published_epoch_at(&self, now: i64) -> (r: i64)
        requires
            self.dates_cleanly(),
            now >= i64::MIN + 86_400,
        ensures
            r == published_epoch_of(self.published_at@, now as int),
    {
        published_epoch_at(self.published_at.as_str(), now)
    }

    /// The Unix timestamp this video's publish date stands for, relative
    /// dates read against the system clock.
    pub fn published_epoch(&self) -> (r: i64)
        requires
            self.dates_cleanly(),
        ensures
            exists|now: int|
                i64::MIN + 86_400 <= now <= i64::MAX && r == published_epoch_of(
                    self.published_at@,
                    now,
                ),
    {
        let now = clock_now();
        self.published_epoch_at(now)
    }

    /// How exactly `published_at` pins the upload down, relative dates read
    /// against `now`: 3 for a timestamp, 2 for a calendar date, 1 for
    /// relative text, 0 for nothing usable.
    pub fn publish_precision_at(&self, now: i64) -> (r: u8)
        requires
            self.dates_cleanly(),
            now >= i64::MIN + 86_400,
        ensures
            r == publish_precision_of(self.published_at@, now as int),
    {
        publish_precision_at(self.published_at.as_str(), now)
    }

    /// How exactly `published_at` pins the upload down, relative dates read
    /// against the system clock.
    pub fn publish_precision(&self) -> (r: u8)
        requires
            self.dates_cleanly(),
        ensures
            exists|now: int|
                i64::MIN + 86_400 <= now <= i64::MAX && r == publish_precision_of(
                    self.published_at@,
                    now,
                ),
    {
        let now = clock_now();
        self.publish_precision_at(now)
    }

    /// Keep `previous`'s publish date when it is more exact than this one,
    /// with `previous`'s relative dates read at `now_previous` and this
    /// video's at `now_self`.
    pub fn keep_finer_publish_date_at(&mut self, previous: &Video, now_previous: i64, now_self: i64)
        requires
            old(self).dates_cleanly(),
            previous.dates_cleanly(),
            now_previous >= i64::MIN + 86_400,
            now_self >= i64::MIN + 86_400,
        ensures
            final(self).published_at == (if publish_precision_of(
                previous.published_at@,
                now_previous as int,
            ) > publish_precision_of(old(self).published_at@, now_self as int) {
                previous.published_at
            } else {
                old(self).published_at
            }),
            *final(self) == (Video { published_at: final(self).published_at, ..*old(self) }),
    {
        if previous.publish_precision_at(now_previous) > self.publish_precision_at(now_self) {
            self.published_at = previous.published_at.clone();
        }
    }

    /// Keep `previous`'s publish date when it is more exact than this one.
    ///
    /// A video's date does not change, but the sources describing it do: the
    /// feed gives a timestamp, the watch page a day, a related shelf "11
    /// months ago". Taking whichever arrived last would move a video within a
    /// newest-first playlist just for having been opened.
    pub fn keep_finer_publish_date(&mut self, previous: &Video)
        requires
            old(self).dates_cleanly(),
            previous.dates_cleanly(),
        ensures
            exists|now_previous: int, now_self: int|
                i64::MIN + 86_400 <= now_previous <= i64::MAX && i64::MIN + 86_400 <= now_self
                    <= i64::MAX && final(self).published_at == (if publish_precision_of(
                    previous.published_at@,
                    now_previous,
                ) > publish_precision_of(old(self).published_at@, now_self) {
                    previous.published_at
                } else {
                    old(self).published_at
                }),
            *final(self) == (Video { published_at: final(self).published_at, ..*old(self) }),
    {
        let now_previous = clock_now();
        let now_self = clock_now();
        self.keep_finer_publish_date_at(previous, now_previous, now_self);
    }

    /// The publish date as it should be shown: a machine date as "Mon D,
    /// YYYY", the "From YouTube" placeholder as nothing, and any other text
    /// as it came.
    pub fn published_label(&self) -> (r: String)
        ensures
            r@ == published_label_of(self.published_at@),
    {
        let label = published_label_text(self.published_at.as_str());
        string_of(label.as_slice())
    }

    /// The "views · date" line, dropping either half when it is unknown.
    pub fn stats_label(&self) -> (r: String)
        ensures
            r@ == stats_label_of(self.view_count@, self.published_at@),
    {
        let date = published_label_text(self.published_at.as_str());
        let views = trimmed_chars(self.view_count.as_str());
        if views.len() == 0 {
            return string_of(date.as_slice());
        }
        if date.len() == 0 {
            return string_of(views.as_slice());
        }
        let mut out = views;
        push_str(&mut out, " · ");
        push_all(&mut out, &date);
        string_of(out.as_slice())
    }
}

pub struct VideoChapter {
    pub title: String,
    pub start_seconds: u64,
}

impl VideoChapter {
    pub fn timestamp_label(&self) -> (r: String)
        ensures
            r@ == clock_label(self.start_seconds as nat),
    {
        clock_label_of(self.start_seconds)
    }
}

/// The publish date kept when a video's date `own` (relative text read
/// at `own_now`) meets `previous` (read at `previous_now`): the more exact
/// of the two, this video's own on a tie.
pub open spec fn finer_date(own: Seq<char>, own_now: int, previous: Seq<char>, previous_now: int) -> Seq<char> {
    if publish_precision_of(previous, previous_now) > publish_precision_of(own, own_now) {
        previous
    } else {
        own
    }
}

/// A finer date is never replaced by a coarser one: what is kept pins the
/// upload down at least as exactly as either date did.
pub proof fn law_a_finer_date_is_never_replaced_by_a_coarser(
    own: Seq<char>,
    own_now: int,
    previous: Seq<char>,
    previous_now: int,
)
    ensures
        ({
            let takes_previous = publish_precision_of(previous, previous_now) > publish_precision_of(
                own,
                own_now,
            );
            let kept_precision = if takes_previous {
                publish_precision_of(previous, previous_now)
            } else {
                publish_precision_of(own, own_now)
            };
            &&& finer_date(own, own_now, previous, previous_now) == if takes_previous {
                previous
            } else {
                own
            }
            &&& kept_precision >= publish_precision_of(own, own_now)
            &&& kept_precision >= publish_precision_of(previous, previous_now)
        }),
{
}

} // verus!
