use crate::listing::{find_groups, group_texts, parse_timestamp, parsed_timestamp};
use crate::single::Single;
use crate::text::{after_last, begins_with, last_section, parse_i64, spec_parse_i64, starts_with};
use crate::time::{minutes_between, whole_minutes};
use vstd::prelude::*;
use vstd::string::StringExecFns;

verus! {

/// The age, in minutes, below which a cached product goes into the placefile.
pub const RECENT_MINUTES: i64 = 20;

/// What has just happened in a round of updating.
#[derive(Debug, Clone, Copy, PartialEq, Eq, Structural)]
pub enum UpdateEvent {
    /// The round begins.
    Started,
    /// The cache has been brought up to date; `new_files` says whether a product
    /// replaced an older one.
    Downloaded { new_files: bool },
    /// The placefile has been written.
    PlacefileWritten,
}

/// What a round of updating does next.
#[derive(Debug, Clone, Copy, PartialEq, Eq, Structural)]
pub enum UpdateAction {
    /// Bring the cache up to date.
    DownloadNew,
    /// Write the placefile from the cache.
    CreatePlacefile,
    /// The round is over.
    Finish,
}

/// What to do about the cached product of one radar.
#[derive(Debug, Clone, Copy, PartialEq, Eq, Structural)]
pub enum CacheAction {
    /// Nothing is cached: fetch the product.
    Fetch,
    /// The cached product is older than the listed one: rename it, fetch the new one.
    Replace,
    /// The cached product is the listed one.
    Keep,
}

/// The colour in which the wind at an altitude is drawn, by altitude band.
pub open spec fn spec_color(altitude: Single) -> Seq<char> {
    if altitude.spec_lt(Single { bits: ONE_KM_BITS }) {
        "220 0 220"@
    } else if altitude.spec_lt(Single { bits: THREE_KM_BITS }) {
        "255 0 0"@
    } else if altitude.spec_lt(Single { bits: SIX_KM_BITS }) {
        "0 255 0"@
    } else if altitude.spec_lt(Single { bits: NINE_KM_BITS }) {
        "255 255 0"@
    } else {
        "0 255 255"@
    }
}

/// The bits of the number 1.
pub const ONE_KM_BITS: u32 = 0x3f80_0000;

/// The bits of the number 3.
pub const THREE_KM_BITS: u32 = 0x4040_0000;

/// The bits of the number 6.
pub const SIX_KM_BITS: u32 = 0x40c0_0000;

/// The bits of the number 9.
pub const NINE_KM_BITS: u32 = 0x4110_0000;

/// The colour in which the wind at an altitude is drawn.
pub fn get_color(altitude: Single) -> (color: String)
    ensures
        color@ == spec_color(altitude),
{
    if altitude.lt(Single { bits: ONE_KM_BITS }) {
        String::from_str("220 0 220")
    } else if altitude.lt(Single { bits: THREE_KM_BITS }) {
        String::from_str("255 0 0")
    } else if altitude.lt(Single { bits: SIX_KM_BITS }) {
        String::from_str("0 255 0")
    } else if altitude.lt(Single { bits: NINE_KM_BITS }) {
        String::from_str("255 255 0")
    } else {
        String::from_str("0 255 255")
    }
}

/// The step that follows an event in a round of updating: download first; write the
/// placefile only where the download replaced a product; then stop.
pub open spec fn spec_update(event: UpdateEvent) -> UpdateAction {
    match event {
        UpdateEvent::Started => UpdateAction::DownloadNew,
        UpdateEvent::Downloaded { new_files } => if new_files {
            UpdateAction::CreatePlacefile
        } else {
            UpdateAction::Finish
        },
        UpdateEvent::PlacefileWritten => UpdateAction::Finish,
    }
}

/// What to do about a radar whose cached product has the time `cached`, if any, and
/// whose listed product has the time `listed`.
pub open spec fn spec_cache_action(cached: Option<i64>, listed: i64) -> CacheAction {
    match cached {
        None => CacheAction::Fetch,
        Some(t) => if t != listed {
            CacheAction::Replace
        } else {
            CacheAction::Keep
        },
    }
}

/// Whether a span of `minutes` minutes from now to a product's time lets the product
/// into the placefile.
pub open spec fn spec_recent(minutes: int) -> bool {
    minutes < RECENT_MINUTES
}

impl CacheAction {
    /// Whether the action counts as a new file for the round.
    pub fn marks_new(&self) -> (b: bool)
        ensures
            b == (*self == CacheAction::Replace),
    {
        match self {
            CacheAction::Replace => true,
            _ => false,
        }
    }

    /// Whether the action fetches a product.
    pub fn fetches(&self) -> (b: bool)
        ensures
            b == (*self != CacheAction::Keep),
    {
        match self {
            CacheAction::Keep => false,
            _ => true,
        }
    }
}

/// The decisions of the program that keeps a placefile of wind profiles up to date.
/// It fetches and stores nothing itself.
#[derive(Debug, Clone, Copy, PartialEq, Eq, Structural)]
pub struct VadClient;

impl VadClient {
    /// The next step of a round of updating.
    pub fn update(&self, event: UpdateEvent) -> (action: UpdateAction)
        ensures
            action == spec_update(event),
    {
        match event {
            UpdateEvent::Started => UpdateAction::DownloadNew,
            UpdateEvent::Downloaded { new_files } => if new_files {
                UpdateAction::CreatePlacefile
            } else {
                UpdateAction::Finish
            },
            UpdateEvent::PlacefileWritten => UpdateAction::Finish,
        }
    }

    /// What to do about the cached product of one radar.
    pub fn cache_action(&self, cached: Option<i64>, listed: i64) -> (action: CacheAction)
        ensures
            action == spec_cache_action(cached, listed),
    {
        match cached {
            None => CacheAction::Fetch,
            Some(t) => if t != listed {
                CacheAction::Replace
            } else {
                CacheAction::Keep
            },
        }
    }

    /// Whether a span of `minutes` minutes lets a product into the placefile.
    pub fn recent_within(&self, minutes: i64) -> (b: bool)
        ensures
            b == spec_recent(minutes as int),
    {
        minutes < RECENT_MINUTES
    }

    /// Whether the product of time `stamp` goes into a placefile written at `now`,
    /// both in seconds since the Unix epoch. There is no answer where one of the two
    /// lies beyond the dates that can be represented.
    pub fn is_recent(&self, stamp: i64, now: i64) -> (r: Option<bool>)
        ensures
            r matches Some(b) ==> b == spec_recent(whole_minutes(stamp - now)),
            -1_000_000_000_000 <= stamp <= 1_000_000_000_000 && -1_000_000_000_000 <= now
                <= 1_000_000_000_000 ==> r is Some,
    {
        match minutes_between(now, stamp) {
            Some(minutes) => Some(self.recent_within(minutes)),
            None => None,
        }
    }
}

/// The character that parts the name of a cached product from its time.
pub const STAMP_SEPARATOR: char = '.';

/// The expression that finds the name of a radar in a listing; its group 1 is the
/// name.
pub open spec fn radar_pattern() -> Seq<char> {
    r">SI.(\w{4})"@
}

/// The expression that finds the date of a product in a listing.
pub open spec fn date_pattern() -> Seq<char> {
    r"\w{2}-\w{3}-\d{4} \d{2}:\d{2}"@
}

/// The format in which a listing writes the date of a product.
pub open spec fn date_format() -> Seq<char> {
    "%d-%b-%Y %H:%M"@
}

/// A radar and the time of its newest product, in seconds since the Unix epoch.
#[derive(Debug, Clone, PartialEq, Eq)]
pub struct RadarTime {
    pub radar: String,
    pub time: i64,
}

impl View for RadarTime {
    type V = (Seq<char>, i64);

    open spec fn view(&self) -> (Seq<char>, i64) {
        (self.radar@, self.time)
    }
}

/// The entries of `entries`, each by its content.
pub open spec fn entries_view(entries: Seq<RadarTime>) -> Seq<(Seq<char>, i64)> {
    Seq::new(entries.len(), |i: int| entries[i]@)
}

/// The radars with their times, pair by pair. There is no list where the two lists
/// differ in length or a time is missing.
pub open spec fn spec_pair_up(radars: Seq<Seq<char>>, times: Seq<Option<i64>>) -> Option<
    Seq<(Seq<char>, i64)>,
> {
    if radars.len() != times.len() || exists|i: int|
        0 <= i < times.len() && (#[trigger] times[i]) is None {
        None
    } else {
        Some(Seq::new(radars.len(), |i: int| (radars[i], times[i]->0)))
    }
}

/// The times that the dates of a listing stand for.
pub open spec fn spec_date_times(dates: Seq<Seq<char>>) -> Seq<Option<i64>> {
    Seq::new(dates.len(), |i: int| parsed_timestamp(dates[i], date_format()))
}

/// The radars of a listing with the times of their products: the names and the dates
/// that the two expressions find, pair by pair.
pub open spec fn spec_fetch_times(listing: Seq<char>) -> Option<Seq<(Seq<char>, i64)>> {
    match (group_texts(radar_pattern(), 1, listing), group_texts(date_pattern(), 0, listing)) {
        (Some(radars), Some(dates)) => spec_pair_up(radars, spec_date_times(dates)),
        _ => None,
    }
}

/// The first index at or after `from` of a name that begins with `radar`, or the
/// length where there is none.
pub open spec fn first_cached(files: Seq<Seq<char>>, radar: Seq<char>, from: int) -> int
    decreases files.len() - from,
{
    if 0 <= from < files.len() && !starts_with(files[from], radar) {
        first_cached(files, radar, from + 1)
    } else {
        from
    }
}

/// The time that the name of a cached product gives: the number behind its last
/// point, where a 64-bit integer is written there.
pub open spec fn spec_file_time(name: Seq<char>) -> Option<i64> {
    spec_parse_i64(last_section(name, STAMP_SEPARATOR))
}

/// What to do about one radar, and the index of its cached product where it has one.
#[derive(Debug, Clone, Copy, PartialEq, Eq, Structural)]
pub struct CachePlan {
    pub action: CacheAction,
    pub cached: Option<usize>,
}

/// The plan for the radar `radar`, whose listed product has the time `listed`, given
/// the names of the cached products: the first name that begins with the radar's is
/// its cached product, and the time of that product is the number behind the last
/// point of the name. A name that ends in no number fails the plan with its index.
pub open spec fn spec_plan_radar(files: Seq<Seq<char>>, radar: Seq<char>, listed: i64) -> Result<
    CachePlan,
    usize,
> {
    let i = first_cached(files, radar, 0);
    if i >= files.len() {
        Ok(CachePlan { action: CacheAction::Fetch, cached: None })
    } else {
        match spec_file_time(files[i]) {
            None => Err(i as usize),
            Some(t) => Ok(
                CachePlan { action: spec_cache_action(Some(t), listed), cached: Some(i as usize) },
            ),
        }
    }
}

/// Pairs the radars of a listing with the times of their products.
pub fn pair_up(radars: Vec<String>, times: Vec<Option<i64>>) -> (r: Option<Vec<RadarTime>>)
    ensures
        match r {
            Some(v) => spec_pair_up(radars.deep_view(), times@) == Some(entries_view(v@)),
            None => spec_pair_up(radars.deep_view(), times@) is None,
        },
{
    if radars.len() != times.len() {
        return None;
    }
    let ghost names = radars.deep_view();
    let mut out: Vec<RadarTime> = Vec::new();
    let mut i: usize = 0;
    while i < radars.len()
        invariant
            i <= radars.len(),
            radars.len() == times.len(),
            names == radars.deep_view(),
            out.len() == i,
            forall|k: int| 0 <= k < i ==> (#[trigger] times@[k]) is Some,
            forall|k: int| 0 <= k < i ==> (#[trigger] out@[k])@ == (names[k], times@[k]->0),
        decreases radars.len() - i,
    {
        match times[i] {
            None => {
                return None;
            },
            Some(time) => {
                let radar = radars[i].clone();
                assert(radar@ == names[i as int]);
                out.push(RadarTime { radar, time });
            },
        }
        i += 1;
    }
    assert(entries_view(out@) =~= Seq::new(names.len(), |i: int| (names[i], times@[i]->0)));
    Some(out)
}

impl VadClient {
    /// The radars of a listing with the times of their newest products.
    pub fn fetch_times(&self, listing: &str) -> (r: Option<Vec<RadarTime>>)
        ensures
            match r {
                Some(v) => spec_fetch_times(listing@) == Some(entries_view(v@)),
                None => spec_fetch_times(listing@) is None,
            },
    {
        let radars = match find_groups(r">SI.(\w{4})", 1, listing) {
            Some(v) => v,
            None => {
                return None;
            },
        };
        let dates = match find_groups(r"\w{2}-\w{3}-\d{4} \d{2}:\d{2}", 0, listing) {
            Some(v) => v,
            None => {
                return None;
            },
        };
        let ghost texts = dates.deep_view();
        let mut times: Vec<Option<i64>> = Vec::new();
        let mut i: usize = 0;
        while i < dates.len()
            invariant
                i <= dates.len(),
                texts == dates.deep_view(),
                times.len() == i,
                forall|k: int|
                    0 <= k < i ==> #[trigger] times@[k] == parsed_timestamp(texts[k], date_format()),
            decreases dates.len() - i,
        {
            let t = parse_timestamp(dates[i].as_str(), "%d-%b-%Y %H:%M");
            assert(dates@[i as int]@ == texts[i as int]);
            times.push(t);
            i += 1;
        }
        assert(times@ =~= spec_date_times(texts));
        pair_up(radars, times)
    }

    /// The time that the name of a cached product gives.
    pub fn file_time(&self, name: &str) -> (r: Option<i64>)
        ensures
            r == spec_file_time(name@),
    {
        let stamp = after_last(name, STAMP_SEPARATOR);
        parse_i64(stamp.as_str())
    }

    /// What to do about one radar, given the names of the cached products.
    pub fn plan_radar(&self, files: &Vec<String>, radar: &str, listed: i64) -> (r: Result<
        CachePlan,
        usize,
    >)
        ensures
            r == spec_plan_radar(files.deep_view(), radar@, listed),
    {
        let ghost names = files.deep_view();
        let mut i: usize = 0;
        while i < files.len() && !begins_with(files[i].as_str(), radar)
            invariant
                i <= files.len(),
                names == files.deep_view(),
                first_cached(names, radar@, 0) == first_cached(names, radar@, i as int),
            decreases files.len() - i,
        {
            assert(names[i as int] == files@[i as int]@);
            i += 1;
        }
        if i >= files.len() {
            return Ok(CachePlan { action: CacheAction::Fetch, cached: None });
        }
        assert(names[i as int] == files@[i as int]@);
        match self.file_time(files[i].as_str()) {
            None => Err(i),
            Some(t) => Ok(CachePlan { action: self.cache_action(Some(t), listed), cached: Some(i) }),
        }
    }
}

} // verus!
