//! SponsorBlock: community-submitted segments, and what the viewer wants
//! done with each category of them.
//!
//! The names on the wire are SponsorBlock's own, and the colours are the ones
//! its extension uses, so a viewer who knows what a green bar means need not
//! relearn it.
use vstd::prelude::*;
use crate::dates::spells;
use crate::text::chars_of;

verus! {

#[derive(Clone, Copy, Debug, PartialEq, Eq, Hash, Structural)]
pub enum SponsorCategory {
    Sponsor,
    SelfPromo,
    Interaction,
    Intro,
    Outro,
    Preview,
    MusicOfftopic,
    Filler,
    Highlight,
}

/// What to do when playback reaches a segment.
#[derive(Clone, Copy, Debug, PartialEq, Eq, Structural)]
pub enum SponsorAction {
    /// Jump past it, and say so.
    Skip,
    /// Mark it on the timeline and offer a button, without moving the
    /// playhead: the right default for anything that is sometimes the video.
    Show,
    /// Not fetched, not drawn, not skipped.
    Off,
}

/// Every category, in the order the settings list them.
pub open spec fn all_categories() -> Seq<SponsorCategory> {
    seq![
        SponsorCategory::Sponsor,
        SponsorCategory::SelfPromo,
        SponsorCategory::Interaction,
        SponsorCategory::Intro,
        SponsorCategory::Outro,
        SponsorCategory::Preview,
        SponsorCategory::MusicOfftopic,
        SponsorCategory::Filler,
        SponsorCategory::Highlight,
    ]
}

pub open spec fn api_name_of(category: SponsorCategory) -> Seq<char> {
    match category {
        SponsorCategory::Sponsor => "sponsor"@,
        SponsorCategory::SelfPromo => "selfpromo"@,
        SponsorCategory::Interaction => "interaction"@,
        SponsorCategory::Intro => "intro"@,
        SponsorCategory::Outro => "outro"@,
        SponsorCategory::Preview => "preview"@,
        SponsorCategory::MusicOfftopic => "music_offtopic"@,
        SponsorCategory::Filler => "filler"@,
        SponsorCategory::Highlight => "poi_highlight"@,
    }
}

/// The first category, from position `from` of the list on, whose API
/// name is `name`.
pub open spec fn category_named_from(name: Seq<char>, from: int) -> Option<SponsorCategory>
    decreases 9 - from,
{
    if from < 0 || from >= 9 {
        None
    } else if api_name_of(all_categories()[from]) == name {
        Some(all_categories()[from])
    } else {
        category_named_from(name, from + 1)
    }
}

/// The category SponsorBlock's API calls `name`.
pub open spec fn category_named(name: Seq<char>) -> Option<SponsorCategory> {
    category_named_from(name, 0)
}

/// What a fresh install does with each category, as the extension does:
/// the categories nobody wants are skipped, the ones that are sometimes
/// content are offered, and the rest stay off until asked for.
pub open spec fn default_action_of(category: SponsorCategory) -> SponsorAction {
    match category {
        SponsorCategory::Sponsor | SponsorCategory::SelfPromo | SponsorCategory::Interaction => {
            SponsorAction::Skip
        },
        SponsorCategory::Intro
        | SponsorCategory::Outro
        | SponsorCategory::Preview
        | SponsorCategory::MusicOfftopic => SponsorAction::Show,
        SponsorCategory::Filler | SponsorCategory::Highlight => SponsorAction::Off,
    }
}

pub open spec fn category_label_of(category: SponsorCategory) -> Seq<char> {
    match category {
        SponsorCategory::Sponsor => "Sponsor"@,
        SponsorCategory::SelfPromo => "Unpaid self-promotion"@,
        SponsorCategory::Interaction => "Interaction reminder"@,
        SponsorCategory::Intro => "Intermission / intro"@,
        SponsorCategory::Outro => "Endcards / credits"@,
        SponsorCategory::Preview => "Preview / recap"@,
        SponsorCategory::MusicOfftopic => "Non-music section"@,
        SponsorCategory::Filler => "Filler tangent"@,
        SponsorCategory::Highlight => "Highlight"@,
    }
}

pub open spec fn skip_message_of(category: SponsorCategory) -> Seq<char> {
    match category {
        SponsorCategory::Sponsor => "Skipped sponsor"@,
        SponsorCategory::SelfPromo => "Skipped self-promotion"@,
        SponsorCategory::Interaction => "Skipped interaction reminder"@,
        SponsorCategory::Intro => "Skipped intro"@,
        SponsorCategory::Outro => "Skipped endcards"@,
        SponsorCategory::Preview => "Skipped recap"@,
        SponsorCategory::MusicOfftopic => "Skipped non-music section"@,
        SponsorCategory::Filler => "Skipped filler"@,
        SponsorCategory::Highlight => "Jumped to the highlight"@,
    }
}

pub open spec fn color_of(category: SponsorCategory) -> Seq<char> {
    match category {
        SponsorCategory::Sponsor => "#00d400"@,
        SponsorCategory::SelfPromo => "#ffff00"@,
        SponsorCategory::Interaction => "#cc00ff"@,
        SponsorCategory::Intro => "#00ffff"@,
        SponsorCategory::Outro => "#0202ed"@,
        SponsorCategory::Preview => "#008fd6"@,
        SponsorCategory::MusicOfftopic => "#ff9900"@,
        SponsorCategory::Filler => "#7300ff"@,
        SponsorCategory::Highlight => "#ff1684"@,
    }
}

impl SponsorCategory {
    /// Every category Tawny asks the API for, in the order the settings
    /// list them.
    pub fn all() -> (r: Vec<SponsorCategory>)
        ensures
            r@ == all_categories(),
    {
        let r = vec![
            SponsorCategory::Sponsor,
            SponsorCategory::SelfPromo,
            SponsorCategory::Interaction,
            SponsorCategory::Intro,
            SponsorCategory::Outro,
            SponsorCategory::Preview,
            SponsorCategory::MusicOfftopic,
            SponsorCategory::Filler,
            SponsorCategory::Highlight,
        ];
        assert(r@ =~= all_categories());
        r
    }

    pub fn api_name(self) -> (r: &'static str)
        ensures
            r@ == api_name_of(self),
    {
        match self {
            SponsorCategory::Sponsor => "sponsor",
            SponsorCategory::SelfPromo => "selfpromo",
            SponsorCategory::Interaction => "interaction",
            SponsorCategory::Intro => "intro",
            SponsorCategory::Outro => "outro",
            SponsorCategory::Preview => "preview",
            SponsorCategory::MusicOfftopic => "music_offtopic",
            SponsorCategory::Filler => "filler",
            SponsorCategory::Highlight => "poi_highlight",
        }
    }

    pub fn from_api_name(name: &str) -> (r: Option<SponsorCategory>)
        ensures
            r == category_named(name@),
    {
        let all = SponsorCategory::all();
        let cs = chars_of(name);
        let mut i: usize = 0;
        while i < all.len()
            invariant
                all@ == all_categories(),
                cs@ == name@,
                i <= 9,
                category_named(name@) == category_named_from(name@, i as int),
            decreases 9 - i,
        {
            let category = all[i];
            if spells(&cs, category.api_name()) {
                return Some(category);
            }
            i = i + 1;
        }
        None
    }

    pub fn label(self) -> (r: &'static str)
        ensures
            r@ == category_label_of(self),
    {
        match self {
            SponsorCategory::Sponsor => "Sponsor",
            SponsorCategory::SelfPromo => "Unpaid self-promotion",
            SponsorCategory::Interaction => "Interaction reminder",
            SponsorCategory::Intro => "Intermission / intro",
            SponsorCategory::Outro => "Endcards / credits",
            SponsorCategory::Preview => "Preview / recap",
            SponsorCategory::MusicOfftopic => "Non-music section",
            SponsorCategory::Filler => "Filler tangent",
            SponsorCategory::Highlight => "Highlight",
        }
    }

    /// What the category actually covers. The names alone do not settle
    /// it, and choosing an action for one you have misread is how a viewer
    /// ends up skipping the video itself.
    pub fn description(self) -> (r: &'static str)
        ensures
            r@ == (match self {
                SponsorCategory::Sponsor => "Paid promotion, referral codes, and direct advertising."@,
                SponsorCategory::SelfPromo => "Unpaid plugs for the creator's own merch, Patreon, or other channels."@,
                SponsorCategory::Interaction => "Brief reminders to like, subscribe, or comment."@,
                SponsorCategory::Intro => "Title cards and animated openers with no content in them."@,
                SponsorCategory::Outro => "Endcards and credits, where the video is effectively over."@,
                SponsorCategory::Preview => "A recap of this video, or a run-through of what is coming later in it."@,
                SponsorCategory::MusicOfftopic => "The parts of a music video that are not the music."@,
                SponsorCategory::Filler => "Tangents and jokes the creator added that are not the subject."@,
                SponsorCategory::Highlight => "The moment the video is actually about. Jumped to, never over."@,
            }),
    {
        match self {
            SponsorCategory::Sponsor => "Paid promotion, referral codes, and direct advertising.",
            SponsorCategory::SelfPromo => "Unpaid plugs for the creator's own merch, Patreon, or other channels.",
            SponsorCategory::Interaction => "Brief reminders to like, subscribe, or comment.",
            SponsorCategory::Intro => "Title cards and animated openers with no content in them.",
            SponsorCategory::Outro => "Endcards and credits, where the video is effectively over.",
            SponsorCategory::Preview => "A recap of this video, or a run-through of what is coming later in it.",
            SponsorCategory::MusicOfftopic => "The parts of a music video that are not the music.",
            SponsorCategory::Filler => "Tangents and jokes the creator added that are not the subject.",
            SponsorCategory::Highlight => "The moment the video is actually about. Jumped to, never over.",
        }
    }

    /// What a skip toast says once it has happened.
    pub fn skip_message(self) -> (r: &'static str)
        ensures
            r@ == skip_message_of(self),
    {
        match self {
            SponsorCategory::Sponsor => "Skipped sponsor",
            SponsorCategory::SelfPromo => "Skipped self-promotion",
            SponsorCategory::Interaction => "Skipped interaction reminder",
            SponsorCategory::Intro => "Skipped intro",
            SponsorCategory::Outro => "Skipped endcards",
            SponsorCategory::Preview => "Skipped recap",
            SponsorCategory::MusicOfftopic => "Skipped non-music section",
            SponsorCategory::Filler => "Skipped filler",
            SponsorCategory::Highlight => "Jumped to the highlight",
        }
    }

    /// SponsorBlock's own palette, so the timeline reads the same as the
    /// extension's does.
    pub fn color(self) -> (r: &'static str)
        ensures
            r@ == color_of(self),
    {
        match self {
            SponsorCategory::Sponsor => "#00d400",
            SponsorCategory::SelfPromo => "#ffff00",
            SponsorCategory::Interaction => "#cc00ff",
            SponsorCategory::Intro => "#00ffff",
            SponsorCategory::Outro => "#0202ed",
            SponsorCategory::Preview => "#008fd6",
            SponsorCategory::MusicOfftopic => "#ff9900",
            SponsorCategory::Filler => "#7300ff",
            SponsorCategory::Highlight => "#ff1684",
        }
    }

    /// A highlight is a point, not a stretch: skipping to it is the whole
    /// action, so it is never skipped over and never auto-applied.
    pub fn is_point(self) -> (r: bool)
        ensures
            r == (self == SponsorCategory::Highlight),
    {
        match self {
            SponsorCategory::Highlight => true,
            _ => false,
        }
    }

    pub fn default_action(self) -> (r: SponsorAction)
        ensures
            r == default_action_of(self),
    {
        match self {
            SponsorCategory::Sponsor | SponsorCategory::SelfPromo | SponsorCategory::Interaction => {
                SponsorAction::Skip
            },
            SponsorCategory::Intro
            | SponsorCategory::Outro
            | SponsorCategory::Preview
            | SponsorCategory::MusicOfftopic => SponsorAction::Show,
            SponsorCategory::Filler | SponsorCategory::Highlight => SponsorAction::Off,
        }
    }
}

impl SponsorAction {
    pub fn all() -> (r: Vec<SponsorAction>)
        ensures
            r@ == seq![SponsorAction::Skip, SponsorAction::Show, SponsorAction::Off],
    {
        let r = vec![SponsorAction::Skip, SponsorAction::Show, SponsorAction::Off];
        assert(r@ =~= seq![SponsorAction::Skip, SponsorAction::Show, SponsorAction::Off]);
        r
    }

    pub fn label(self) -> (r: &'static str)
        ensures
            r@ == (match self {
                SponsorAction::Skip => "Skip automatically"@,
                SponsorAction::Show => "Show on the timeline"@,
                SponsorAction::Off => "Ignore"@,
            }),
    {
        match self {
            SponsorAction::Skip => "Skip automatically",
            SponsorAction::Show => "Show on the timeline",
            SponsorAction::Off => "Ignore",
        }
    }

    pub fn trigger_label(self) -> (r: &'static str)
        ensures
            r@ == (match self {
                SponsorAction::Skip => "Skip"@,
                SponsorAction::Show => "Show"@,
                SponsorAction::Off => "Off"@,
            }),
    {
        match self {
            SponsorAction::Skip => "Skip",
            SponsorAction::Show => "Show",
            SponsorAction::Off => "Off",
        }
    }

    /// A fresh setting shows the segment.
    pub fn default() -> (r: SponsorAction)
        ensures
            r == SponsorAction::Show,
    {
        SponsorAction::Show
    }
}

/// One category's behaviour. Stored as a list rather than a map so it
/// serialises stably.
#[derive(Clone, Copy, Debug, PartialEq, Eq, Structural)]
pub struct SponsorCategorySetting {
    pub category: SponsorCategory,
    pub action: SponsorAction,
}

/// Everything the viewer controls about SponsorBlock.
pub struct SponsorBlockSettings {
    pub enabled: bool,
    /// Whether a skip announces itself. On by default: a video that
    /// silently jumps looks broken until you know why.
    pub notify_on_skip: bool,
    pub categories: Vec<SponsorCategorySetting>,
}

/// The position of the first stored setting for `category`, from `from`
/// on.
pub open spec fn setting_index_from(
    settings: Seq<SponsorCategorySetting>,
    category: SponsorCategory,
    from: int,
) -> Option<int>
    decreases settings.len() - from,
{
    if from < 0 || from >= settings.len() {
        None
    } else if settings[from].category == category {
        Some(from)
    } else {
        setting_index_from(settings, category, from + 1)
    }
}

pub open spec fn setting_index(
    settings: Seq<SponsorCategorySetting>,
    category: SponsorCategory,
) -> Option<int> {
    setting_index_from(settings, category, 0)
}

/// What happens with `category`: nothing while SponsorBlock is off, else
/// the first stored choice for it, else - for a category the stored
/// settings predate - its default.
pub open spec fn action_of(
    enabled: bool,
    settings: Seq<SponsorCategorySetting>,
    category: SponsorCategory,
) -> SponsorAction {
    if !enabled {
        SponsorAction::Off
    } else {
        match setting_index(settings, category) {
            Some(i) => settings[i].action,
            None => default_action_of(category),
        }
    }
}

/// The stored choices once `category` is set to `action`: its first
/// stored choice replaced, or a new one added at the end.
pub open spec fn with_action(
    settings: Seq<SponsorCategorySetting>,
    category: SponsorCategory,
    action: SponsorAction,
) -> Seq<SponsorCategorySetting> {
    match setting_index(settings, category) {
        Some(i) => settings.update(i, SponsorCategorySetting { category, action }),
        None => settings.push(SponsorCategorySetting { category, action }),
    }
}

/// The categories of `categories` whose action is not `Off`, in order.
pub open spec fn requested_from(
    enabled: bool,
    settings: Seq<SponsorCategorySetting>,
    categories: Seq<SponsorCategory>,
) -> Seq<SponsorCategory>
    decreases categories.len(),
{
    if categories.len() == 0 {
        Seq::empty()
    } else {
        let rest = requested_from(enabled, settings, categories.drop_last());
        if action_of(enabled, settings, categories.last()) != SponsorAction::Off {
            rest.push(categories.last())
        } else {
            rest
        }
    }
}

/// The default choice for every category, in list order.
pub open spec fn default_settings() -> Seq<SponsorCategorySetting> {
    all_categories().map_values(
        |c: SponsorCategory| SponsorCategorySetting { category: c, action: default_action_of(c) },
    )
}

impl SponsorBlockSettings {
    /// On, announcing skips, with every category at its default.
    pub fn default() -> (r: SponsorBlockSettings)
        ensures
            r.enabled,
            r.notify_on_skip,
            r.categories@ == default_settings(),
    {
        let all = SponsorCategory::all();
        let mut categories: Vec<SponsorCategorySetting> = Vec::new();
        let mut i: usize = 0;
        while i < all.len()
            invariant
                all@ == all_categories(),
                i <= all@.len(),
                categories@ == default_settings().take(i as int),
            decreases all.len() - i,
        {
            let c = all[i];
            categories.push(SponsorCategorySetting { category: c, action: c.default_action() });
            assert(default_settings().take(i + 1) =~= default_settings().take(i as int).push(
                SponsorCategorySetting { category: c, action: default_action_of(c) },
            ));
            i = i + 1;
        }
        assert(default_settings().take(9) =~= default_settings());
        SponsorBlockSettings { enabled: true, notify_on_skip: true, categories }
    }

    /// Where the first stored choice for `category` is.
    fn find(&self, category: SponsorCategory) -> (r: Option<usize>)
        ensures
            r matches Some(i) ==> setting_index(self.categories@, category) == Some(i as int)
                && i < self.categories@.len(),
            r is None ==> setting_index(self.categories@, category) is None,
    {
        let mut i: usize = 0;
        while i < self.categories.len()
            invariant
                i <= self.categories@.len(),
                setting_index(self.categories@, category) == setting_index_from(
                    self.categories@,
                    category,
                    i as int,
                ),
            decreases self.categories.len() - i,
        {
            if self.categories[i].category == category {
                return Some(i);
            }
            i = i + 1;
        }
        None
    }

    pub fn action_for(&self, category: SponsorCategory) -> (r: SponsorAction)
        ensures
            r == action_of(self.enabled, self.categories@, category),
    {
        if !self.enabled {
            return SponsorAction::Off;
        }
        match self.find(category) {
            Some(i) => self.categories[i].action,
            None => category.default_action(),
        }
    }

    pub fn set_action(&mut self, category: SponsorCategory, action: SponsorAction)
        ensures
            final(self).enabled == old(self).enabled,
            final(self).notify_on_skip == old(self).notify_on_skip,
            final(self).categories@ == with_action(old(self).categories@, category, action),
    {
        match self.find(category) {
            Some(i) => {
                self.categories.set(i, SponsorCategorySetting { category, action });
            },
            None => {
                self.categories.push(SponsorCategorySetting { category, action });
            },
        }
    }

    /// The categories worth asking the API for: requesting the ignored
    /// ones would fetch data only to discard it.
    pub fn requested_categories(&self) -> (r: Vec<SponsorCategory>)
        ensures
            r@ == requested_from(self.enabled, self.categories@, all_categories()),
    {
        let all = SponsorCategory::all();
        let mut out: Vec<SponsorCategory> = Vec::new();
        let mut i: usize = 0;
        while i < all.len()
            invariant
                all@ == all_categories(),
                i <= all@.len(),
                out@ == requested_from(self.enabled, self.categories@, all@.take(i as int)),
            decreases all.len() - i,
        {
            let c = all[i];
            assert(all@.take(i + 1).drop_last() =~= all@.take(i as int));
            if self.action_for(c) != SponsorAction::Off {
                out.push(c);
            }
            i = i + 1;
        }
        assert(all@.take(9) =~= all@);
        out
    }
}

/// One segment of one video. Its times are seconds as `f64`, carried as
/// their IEEE 754 bit patterns: nothing here computes with them.
pub struct SponsorSegment {
    pub uuid: String,
    pub category: SponsorCategory,
    pub start_seconds_bits: u64,
    pub end_seconds_bits: u64,
    /// SponsorBlock's `locked` flag: a segment vetted by a moderator, the
    /// tie-breaker when two submissions overlap.
    pub locked: bool,
    pub votes: i64,
}

/// A segment in the shape the player wants: with the colour, the action
/// and the message the viewer's settings resolve for it.
pub struct SponsorTimelineSegment {
    pub uuid: String,
    pub start_seconds_bits: u64,
    pub end_seconds_bits: u64,
    pub color: &'static str,
    /// `"skip"` or `"show"`. Ignored categories never reach here.
    pub action: &'static str,
    pub message: &'static str,
    pub label: &'static str,
}

/// Whether `t` is segment `s` resolved under `action`.
pub open spec fn resolves(s: SponsorSegment, action: SponsorAction, t: SponsorTimelineSegment) -> bool {
    &&& t.uuid@ == s.uuid@
    &&& t.start_seconds_bits == s.start_seconds_bits
    &&& t.end_seconds_bits == s.end_seconds_bits
    &&& t.color@ == color_of(s.category)
    &&& t.action@ == (if action == SponsorAction::Skip {
        "skip"@
    } else {
        "show"@
    })
    &&& t.message@ == skip_message_of(s.category)
    &&& t.label@ == category_label_of(s.category)
}

/// The segments whose category is not ignored, in order.
pub open spec fn kept_segments(
    segments: Seq<SponsorSegment>,
    enabled: bool,
    settings: Seq<SponsorCategorySetting>,
) -> Seq<SponsorSegment>
    decreases segments.len(),
{
    if segments.len() == 0 {
        Seq::empty()
    } else {
        let rest = kept_segments(segments.drop_last(), enabled, settings);
        if action_of(enabled, settings, segments.last().category) != SponsorAction::Off {
            rest.push(segments.last())
        } else {
            rest
        }
    }
}

/// Resolve segments against the viewer's settings, dropping the ignored
/// ones.
pub fn timeline_segments(segments: &Vec<SponsorSegment>, settings: &SponsorBlockSettings) -> (r: Vec<
    SponsorTimelineSegment,
>)
    ensures
        r@.len() == kept_segments(segments@, settings.enabled, settings.categories@).len(),
        forall|k: int|
            0 <= k < r@.len() ==> resolves(
                kept_segments(segments@, settings.enabled, settings.categories@)[k],
                action_of(
                    settings.enabled,
                    settings.categories@,
                    kept_segments(segments@, settings.enabled, settings.categories@)[k].category,
                ),
                #[trigger] r@[k],
            ),
{
    let mut out: Vec<SponsorTimelineSegment> = Vec::new();
    let mut i: usize = 0;
    while i < segments.len()
        invariant
            i <= segments@.len(),
            out@.len() == kept_segments(
                segments@.take(i as int),
                settings.enabled,
                settings.categories@,
            ).len(),
            forall|k: int|
                0 <= k < out@.len() ==> resolves(
                    kept_segments(segments@.take(i as int), settings.enabled, settings.categories@)[k],
                    action_of(
                        settings.enabled,
                        settings.categories@,
                        kept_segments(
                            segments@.take(i as int),
                            settings.enabled,
                            settings.categories@,
                        )[k].category,
                    ),
                    #[trigger] out@[k],
                ),
        decreases segments.len() - i,
    {
        let segment = &segments[i];
        assert(segments@.take(i + 1).drop_last() =~= segments@.take(i as int));
        let action = settings.action_for(segment.category);
        let word = match action {
            SponsorAction::Off => "",
            SponsorAction::Skip => "skip",
            SponsorAction::Show => "show",
        };
        if action != SponsorAction::Off {
            out.push(
                SponsorTimelineSegment {
                    uuid: segment.uuid.clone(),
                    start_seconds_bits: segment.start_seconds_bits,
                    end_seconds_bits: segment.end_seconds_bits,
                    color: segment.category.color(),
                    action: word,
                    message: segment.category.skip_message(),
                    label: segment.category.label(),
                },
            );
        }
        i = i + 1;
    }
    assert(segments@.take(segments.len() as int) =~= segments@);
    out
}

/// A category's API name reads back as that category.
pub proof fn law_api_name_round_trip(category: SponsorCategory)
    ensures
        category_named(api_name_of(category)) == Some(category),
{
    reveal_strlit("sponsor");
    reveal_strlit("selfpromo");
    reveal_strlit("interaction");
    reveal_strlit("intro");
    reveal_strlit("outro");
    reveal_strlit("preview");
    reveal_strlit("music_offtopic");
    reveal_strlit("filler");
    reveal_strlit("poi_highlight");
    let all = all_categories();
    let i: int = match category {
        SponsorCategory::Sponsor => 0,
        SponsorCategory::SelfPromo => 1,
        SponsorCategory::Interaction => 2,
        SponsorCategory::Intro => 3,
        SponsorCategory::Outro => 4,
        SponsorCategory::Preview => 5,
        SponsorCategory::MusicOfftopic => 6,
        SponsorCategory::Filler => 7,
        SponsorCategory::Highlight => 8,
    };
    assert(all[i] == category);
    let name = api_name_of(category);
    assert forall|j: int| 0 <= j < i implies api_name_of(#[trigger] all[j]) != name by {
        let other = api_name_of(all[j]);
        if other.len() == name.len() {
            assert(other[0] != name[0] || other[1] != name[1]);
        }
    }
    lemma_named_at(name, 0, i);
}

pub proof fn lemma_named_at(name: Seq<char>, from: int, i: int)
    requires
        0 <= from <= i < 9,
        api_name_of(all_categories()[i]) == name,
        forall|j: int| from <= j < i ==> api_name_of(#[trigger] all_categories()[j]) != name,
    ensures
        category_named_from(name, from) == Some(all_categories()[i]),
    decreases i - from,
{
    if from < i {
        lemma_named_at(name, from + 1, i);
    }
}

/// Only a category's own API name reads as a category: a name that reads
/// back as `category` is that category's name.
pub proof fn law_only_api_names_are_read(name: Seq<char>, category: SponsorCategory)
    requires
        category_named(name) == Some(category),
    ensures
        name == api_name_of(category),
{
    lemma_named_from_matches(name, 0);
}

pub proof fn lemma_named_from_matches(name: Seq<char>, from: int)
    ensures
        category_named_from(name, from) matches Some(c) ==> api_name_of(c) == name,
    decreases 9 - from,
{
    if 0 <= from < 9 && api_name_of(all_categories()[from]) != name {
        lemma_named_from_matches(name, from + 1);
    }
}

/// With SponsorBlock off, every category is off and nothing is requested.
pub proof fn law_disabled_turns_everything_off(
    settings: Seq<SponsorCategorySetting>,
    categories: Seq<SponsorCategory>,
)
    ensures
        forall|c: SponsorCategory| action_of(false, settings, c) == SponsorAction::Off,
        requested_from(false, settings, categories) == Seq::<SponsorCategory>::empty(),
    decreases categories.len(),
{
    if categories.len() > 0 {
        law_disabled_turns_everything_off(settings, categories.drop_last());
    }
}

/// A choice once made is what the category does: after setting `category`
/// to `action`, an enabled SponsorBlock applies `action` to it and leaves
/// every other category as it was.
pub proof fn law_set_action_is_read_back(
    enabled: bool,
    settings: Seq<SponsorCategorySetting>,
    category: SponsorCategory,
    action: SponsorAction,
    other: SponsorCategory,
)
    ensures
        action_of(enabled, with_action(settings, category, action), category) == (if enabled {
            action
        } else {
            SponsorAction::Off
        }),
        other != category ==> action_of(enabled, with_action(settings, category, action), other)
            == action_of(enabled, settings, other),
{
    let updated = with_action(settings, category, action);
    lemma_index_after_set(settings, category, action, category, 0);
    lemma_index_after_set(settings, category, action, other, 0);
}

pub proof fn lemma_index_from_facts(
    settings: Seq<SponsorCategorySetting>,
    category: SponsorCategory,
    from: int,
)
    requires
        0 <= from,
    ensures
        setting_index_from(settings, category, from) matches Some(i) ==> from <= i
            < settings.len() && settings[i].category == category && forall|t: int|
            from <= t < i ==> (#[trigger] settings[t]).category != category,
        setting_index_from(settings, category, from) is None ==> forall|t: int|
            from <= t < settings.len() ==> (#[trigger] settings[t]).category != category,
    decreases settings.len() - from,
{
    if from < settings.len() && settings[from].category != category {
        lemma_index_from_facts(settings, category, from + 1);
    }
}

pub proof fn lemma_index_after_set(
    settings: Seq<SponsorCategorySetting>,
    category: SponsorCategory,
    action: SponsorAction,
    looked_up: SponsorCategory,
    from: int,
)
    requires
        from == 0,
    ensures
        looked_up == category ==> (match setting_index(
            with_action(settings, category, action),
            looked_up,
        ) {
            Some(i) => with_action(settings, category, action)[i].action == action,
            None => false,
        }),
        looked_up != category ==> (match (
            setting_index(with_action(settings, category, action), looked_up),
            setting_index(settings, looked_up),
        ) {
            (Some(i), Some(j)) => with_action(settings, category, action)[i] == settings[j],
            (None, None) => true,
            _ => false,
        }),
{
    let updated = with_action(settings, category, action);
    lemma_index_from_facts(settings, category, 0);
    lemma_index_from_facts(settings, looked_up, 0);
    lemma_index_from_facts(updated, looked_up, 0);
    match setting_index(settings, category) {
        Some(i) => {
            assert(updated[i].category == category);
        },
        None => {
            assert(updated[settings.len() as int].category == category);
        },
    }
    if looked_up != category {
        match (setting_index(updated, looked_up), setting_index(settings, looked_up)) {
            (Some(i), Some(j)) => {
                if i < j {
                    assert(updated[i].category == looked_up);
                    assert(settings[i].category != looked_up);
                } else if j < i {
                    assert(settings[j].category == looked_up);
                    assert(updated[j].category != looked_up);
                }
            },
            (Some(i), None) => {
                if i < settings.len() {
                    assert(settings[i].category != looked_up);
                }
            },
            (None, Some(j)) => {
                assert(updated[j].category == looked_up);
            },
            (None, None) => {},
        }
    }
}

/// What is requested is exactly the categories that are not off, in the
/// settings list's order.
pub proof fn law_requested_are_the_ones_in_use(
    enabled: bool,
    settings: Seq<SponsorCategorySetting>,
    categories: Seq<SponsorCategory>,
    c: SponsorCategory,
)
    requires
        categories.contains(c),
    ensures
        requested_from(enabled, settings, categories).contains(c) <==> action_of(
            enabled,
            settings,
            c,
        ) != SponsorAction::Off,
    decreases categories.len(),
{
    let rest = categories.drop_last();
    let last = categories.last();
    let req = requested_from(enabled, settings, categories);
    let req_rest = requested_from(enabled, settings, rest);
    lemma_requested_within(enabled, settings, rest, c);
    if rest.contains(c) {
        law_requested_are_the_ones_in_use(enabled, settings, rest, c);
    } else {
        let k = choose|k: int| 0 <= k < categories.len() && categories[k] == c;
        if k < rest.len() {
            assert(rest[k] == c);
        }
        assert(last == c);
    }
    if action_of(enabled, settings, last) != SponsorAction::Off {
        assert(req == req_rest.push(last));
        assert(req[req_rest.len() as int] == last);
        if req.contains(c) {
            let k = choose|k: int| 0 <= k < req.len() && req[k] == c;
            if k < req_rest.len() {
                assert(req_rest[k] == c);
            }
        }
        if req_rest.contains(c) {
            let k = choose|k: int| 0 <= k < req_rest.len() && req_rest[k] == c;
            assert(req[k] == c);
        }
    } else {
        assert(req == req_rest);
    }
}

pub proof fn lemma_requested_within(
    enabled: bool,
    settings: Seq<SponsorCategorySetting>,
    categories: Seq<SponsorCategory>,
    c: SponsorCategory,
)
    ensures
        requested_from(enabled, settings, categories).contains(c) ==> action_of(
            enabled,
            settings,
            c,
        ) != SponsorAction::Off,
    decreases categories.len(),
{
    if categories.len() > 0 {
        lemma_requested_within(enabled, settings, categories.drop_last(), c);
    }
}

/// No segment of an ignored category reaches the player: every segment
/// kept is one the viewer's settings skip or show.
pub proof fn law_ignored_categories_never_reach_the_player(
    segments: Seq<SponsorSegment>,
    enabled: bool,
    settings: Seq<SponsorCategorySetting>,
)
    ensures
        forall|k: int|
            0 <= k < kept_segments(segments, enabled, settings).len() ==> action_of(
                enabled,
                settings,
                (#[trigger] kept_segments(segments, enabled, settings)[k]).category,
            ) != SponsorAction::Off,
    decreases segments.len(),
{
    if segments.len() > 0 {
        law_ignored_categories_never_reach_the_player(segments.drop_last(), enabled, settings);
    }
}

/// Settings written before a category existed do not make it silently
/// off: with SponsorBlock on, a category without a stored choice gets its
/// default.
pub proof fn law_a_missing_category_falls_back_to_its_default(
    settings: Seq<SponsorCategorySetting>,
    category: SponsorCategory,
)
    requires
        setting_index(settings, category) is None,
    ensures
        action_of(true, settings, category) == default_action_of(category),
{
}

} // verus!
