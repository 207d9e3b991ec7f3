use crate::single::Single;
use vstd::prelude::*;
use vstd::seq_lib::{to_multiset_build, to_multiset_insert};

verus! {

/// The bits of the height, in kilometres, up to which storm motion takes the mean
/// wind and the shear: 6.
pub const STORM_LAYER_TOP_BITS: u32 = 0x40c0_0000;

/// The bits of the height at which the storm-motion shear layer begins: 0.
pub const STORM_LAYER_BOTTOM_BITS: u32 = 0;

/// One wind observation: the direction the wind blows from, in degrees clockwise
/// from north, its speed, and the altitude above ground in kilometres.
#[derive(Debug, Clone, Copy, PartialEq, Eq, Structural)]
pub struct VadMessage {
    pub wind_dir: Single,
    pub wind_spd: Single,
    pub altitude: Single,
}

/// Where a height falls among the altitudes of a profile: the index of the lower of
/// the two samples between which a value is interpolated, and the height at which it
/// is taken, which is the height asked for unless that lay below the first sample.
#[derive(Debug, Clone, Copy, PartialEq, Eq, Structural)]
pub struct Bracket {
    pub index: usize,
    pub at: Single,
}

/// The brackets from which the shear between two heights is taken.
#[derive(Debug, Clone, Copy, PartialEq, Eq, Structural)]
pub struct ShearBrackets {
    pub top: Bracket,
    pub bot: Bracket,
}

/// The whole kilometres at which the mean wind is sampled: `first`, `first + 1`, and
/// so on below `end`.
#[derive(Debug, Clone, Copy, PartialEq, Eq, Structural)]
pub struct Levels {
    pub first: i64,
    pub end: i64,
}

/// What the storm-motion estimate is computed from.
#[derive(Debug, Clone, Copy, PartialEq, Eq, Structural)]
pub struct StormInputs {
    pub mean_levels: Levels,
    pub shear: ShearBrackets,
}

/// Whether no observation has an altitude that is not a number.
pub open spec fn no_nan_altitude(s: Seq<VadMessage>) -> bool {
    forall|i: int| 0 <= i < s.len() ==> !(#[trigger] s[i]).altitude.spec_is_nan()
}

/// Whether the observations stand in non-decreasing order of altitude.
pub open spec fn sorted_by_altitude(s: Seq<VadMessage>) -> bool {
    forall|i: int, j: int|
        0 <= i <= j < s.len() ==> (#[trigger] s[i]).altitude.spec_key() <= (
        #[trigger] s[j]).altitude.spec_key()
}

/// The altitudes of the observations, in their order.
pub open spec fn altitudes(s: Seq<VadMessage>) -> Seq<Single> {
    Seq::new(s.len(), |i: int| s[i].altitude)
}

/// The height at which a value is taken: `x`, or the first altitude where `x` lies
/// below it.
pub open spec fn clamped(x: Single, xs: Seq<Single>) -> Single {
    if x.spec_lt(xs[0]) {
        xs[0]
    } else {
        x
    }
}

/// The first index at or after `from` whose altitude `x` reaches, or the length where
/// there is none.
pub open spec fn first_reached(x: Single, xs: Seq<Single>, from: int) -> int
    decreases xs.len() - from,
{
    if 0 <= from < xs.len() && !x.spec_ge(xs[from]) {
        first_reached(x, xs, from + 1)
    } else {
        from
    }
}

/// The bracket of the height `x` among the altitudes `xs`.
///
/// A height below the first altitude is moved up to it. The bracket begins at the
/// first altitude, scanning forward, that the height reaches. There is none where
/// there are no altitudes, where the height reaches the last altitude, or where it
/// reaches no altitude at all.
pub open spec fn spec_interp(x: Single, xs: Seq<Single>) -> Option<Bracket> {
    if xs.len() == 0 {
        None
    } else {
        let at = clamped(x, xs);
        let i = first_reached(at, xs, 0);
        if at.spec_ge(xs.last()) || i >= xs.len() {
            None
        } else {
            Some(Bracket { index: i as usize, at })
        }
    }
}

/// The levels at which the mean wind up to `top` is sampled: the whole kilometres
/// from the ceiling of the lowest altitude up to, and not including, `top`. There are
/// none where the profile is empty or `top` is not below the highest altitude.
pub open spec fn spec_mean_wind(prof: Seq<VadMessage>, top: Single) -> Option<Levels> {
    if prof.len() == 0 || !top.spec_lt(prof.last().altitude) {
        None
    } else {
        Some(Levels { first: prof[0].altitude.spec_ceil_i64(), end: top.spec_ceil_i64() })
    }
}

/// The brackets of the shear between `bot` and `top`: none where the profile is
/// empty or either height has no bracket.
pub open spec fn spec_wind_shear(prof: Seq<VadMessage>, bot: Single, top: Single) -> Option<
    ShearBrackets,
> {
    if prof.len() == 0 {
        None
    } else {
        match (
            spec_interp(top, altitudes(prof)),
            spec_interp(bot, altitudes(prof)),
        ) {
            (Some(t), Some(b)) => Some(ShearBrackets { top: t, bot: b }),
            _ => None,
        }
    }
}

/// What storm motion is computed from: the mean wind up to 6 km and the shear
/// between 0 and 6 km. There is nothing where either is undefined.
pub open spec fn spec_bunkers(prof: Seq<VadMessage>) -> Option<StormInputs> {
    let top = Single { bits: STORM_LAYER_TOP_BITS };
    let bot = Single { bits: STORM_LAYER_BOTTOM_BITS };
    match (spec_mean_wind(prof, top), spec_wind_shear(prof, bot, top)) {
        (Some(l), Some(s)) => Some(StormInputs { mean_levels: l, shear: s }),
        _ => None,
    }
}

/// Finds where a value at the height `x` is interpolated among the altitudes `xp`.
pub fn interp(x: Single, xp: &Vec<Single>) -> (r: Option<Bracket>)
    ensures
        r == spec_interp(x, xp@),
        r matches Some(b) ==> b.index + 1 < xp.len() && b.at.spec_ge(xp@[b.index as int])
            && !b.at.spec_ge(xp@[xp.len() - 1]),
{
    if xp.len() == 0 {
        return None;
    }
    let at = if x.lt(xp[0]) {
        xp[0]
    } else {
        x
    };
    if at.ge(xp[xp.len() - 1]) {
        return None;
    }
    let mut i: usize = 0;
    while i < xp.len() && !at.ge(xp[i])
        invariant
            i <= xp.len(),
            first_reached(at, xp@, 0) == first_reached(at, xp@, i as int),
        decreases xp.len() - i,
    {
        i += 1;
    }
    if i >= xp.len() {
        None
    } else {
        Some(Bracket { index: i, at })
    }
}

/// A wind profile: observations in non-decreasing order of altitude, none of them
/// with an altitude that is not a number.
#[derive(Debug)]
pub struct VadProfile {
    prof: Vec<VadMessage>,
}

impl View for VadProfile {
    type V = Seq<VadMessage>;

    closed spec fn view(&self) -> Seq<VadMessage> {
        self.prof@
    }
}

impl Default for VadProfile {
    fn default() -> (p: Self)
        ensures
            p@ == Seq::<VadMessage>::empty(),
    {
        Self::new()
    }
}

impl VadProfile {
    #[verifier::type_invariant]
    spec fn well_formed(self) -> bool {
        no_nan_altitude(self.prof@) && sorted_by_altitude(self.prof@)
    }

    /// The empty profile.
    pub fn new() -> (p: Self)
        ensures
            p@ == Seq::<VadMessage>::empty(),
    {
        VadProfile { prof: Vec::new() }
    }

    /// The profile of the given observations, put in order of altitude. There is none
    /// where an altitude is not a number.
    pub fn from_messages(messages: Vec<VadMessage>) -> (r: Option<Self>)
        ensures
            r is None <==> !no_nan_altitude(messages@),
            r matches Some(p) ==> sorted_by_altitude(p@) && no_nan_altitude(p@)
                && p@.to_multiset() == messages@.to_multiset(),
    {
        let mut out: Vec<VadMessage> = Vec::new();
        let mut i: usize = 0;
        assert(messages@.take(0) =~= Seq::empty());
        while i < messages.len()
            invariant
                i <= messages.len(),
                forall|t: int| 0 <= t < i ==> !(#[trigger] messages@[t]).altitude.spec_is_nan(),
                no_nan_altitude(out@),
                sorted_by_altitude(out@),
                out@.to_multiset() == messages@.take(i as int).to_multiset(),
            decreases messages.len() - i,
        {
            let m = messages[i];
            if m.altitude.is_nan() {
                return None;
            }
            let k = m.altitude.key();
            let mut j: usize = 0;
            while j < out.len() && out[j].altitude.key() <= k
                invariant
                    j <= out.len(),
                    k == m.altitude.spec_key(),
                    forall|t: int| 0 <= t < j ==> (#[trigger] out@[t]).altitude.spec_key() <= k,
                decreases out.len() - j,
            {
                j += 1;
            }
            let ghost before = out@;
            out.insert(j, m);
            proof {
                before.insert_ensures(j as int, m);
                to_multiset_insert(before, j as int, m);
                to_multiset_build(messages@.take(i as int), m);
                assert(messages@.take(i + 1) =~= messages@.take(i as int).push(m));
                assert forall|a: int| 0 <= a < out@.len() implies !(
                #[trigger] out@[a]).altitude.spec_is_nan() by {
                    if a < j {
                        assert(out@[a] == before[a]);
                    } else if a > j {
                        assert(out@[a] == before[a - 1]);
                    }
                }
                assert forall|a: int, b: int| 0 <= a <= b < out@.len() implies (
                #[trigger] out@[a]).altitude.spec_key() <= (#[trigger] out@[b]).altitude.spec_key() by {
                    if a < j {
                        assert(out@[a] == before[a]);
                    } else if a > j {
                        assert(out@[a] == before[a - 1]);
                        assert(before[j as int].altitude.spec_key() <= before[a
                            - 1].altitude.spec_key());
                    }
                    if b < j {
                        assert(out@[b] == before[b]);
                    } else if b > j {
                        assert(out@[b] == before[b - 1]);
                        assert(before[j as int].altitude.spec_key() <= before[b
                            - 1].altitude.spec_key());
                    }
                }
            }
            i += 1;
        }
        assert(messages@.take(i as int) =~= messages@);
        Some(VadProfile { prof: out })
    }

    /// The observations, lowest first.
    pub fn prof(&self) -> (v: &Vec<VadMessage>)
        ensures
            v@ == self@,
            sorted_by_altitude(v@),
            no_nan_altitude(v@),
    {
        proof {
            use_type_invariant(self);
        }
        &self.prof
    }

    /// The number of observations.
    pub fn len(&self) -> (n: usize)
        ensures
            n == self@.len(),
    {
        self.prof.len()
    }

    /// Whether there is no observation.
    pub fn is_empty(&self) -> (b: bool)
        ensures
            b == (self@.len() == 0),
    {
        self.prof.len() == 0
    }

    /// The altitudes of the observations, lowest first.
    pub fn altitude(&self) -> (v: Vec<Single>)
        ensures
            v@ == altitudes(self@),
    {
        let mut v: Vec<Single> = Vec::new();
        let mut i: usize = 0;
        while i < self.prof.len()
            invariant
                i <= self.prof.len(),
                v@ == altitudes(self.prof@.take(i as int)),
            decreases self.prof.len() - i,
        {
            v.push(self.prof[i].altitude);
            i += 1;
            assert(v@ =~= altitudes(self.prof@.take(i as int)));
        }
        assert(self.prof@.take(i as int) =~= self.prof@);
        v
    }

    /// The bracket of `height` among the altitudes of the profile.
    pub fn interp_height(&self, height: Single) -> (r: Option<Bracket>)
        ensures
            r == spec_interp(height, altitudes(self@)),
            r matches Some(b) ==> b.index + 1 < self@.len(),
    {
        let xs = self.altitude();
        interp(height, &xs)
    }

    /// What the mean wind up to `top` is taken from: the levels at which it is sampled.
    /// The mean is undefined for an empty profile and for a `top` that is not below the
    /// highest altitude, which in a profile is the last.
    pub fn mean_wind(&self, top: Single) -> (r: Option<Levels>)
        ensures
            r == spec_mean_wind(self@, top),
            r is None <==> self@.len() == 0 || !top.spec_lt(self@.last().altitude),
            forall|i: int|
                0 <= i < self@.len() ==> (#[trigger] self@[i]).altitude.spec_key()
                    <= self@.last().altitude.spec_key(),
    {
        proof {
            use_type_invariant(self);
        }
        let n = self.prof.len();
        if n == 0 || !top.lt(self.prof[n - 1].altitude) {
            return None;
        }
        Some(Levels { first: self.prof[0].altitude.ceil_i64(), end: top.ceil_i64() })
    }

    /// What the shear between `bot` and `top` is taken from: the bracket of either
    /// height. The shear is undefined for an empty profile and where either height has
    /// no bracket.
    pub fn wind_shear(&self, bot: Single, top: Single) -> (r: Option<ShearBrackets>)
        ensures
            r == spec_wind_shear(self@, bot, top),
            r matches Some(s) ==> s.top.index + 1 < self@.len() && s.bot.index + 1 < self@.len(),
    {
        if self.prof.len() == 0 {
            return None;
        }
        let t = match self.interp_height(top) {
            Some(t) => t,
            None => {
                return None;
            },
        };
        let b = match self.interp_height(bot) {
            Some(b) => b,
            None => {
                return None;
            },
        };
        Some(ShearBrackets { top: t, bot: b })
    }

    /// What the storm-motion estimate is computed from: the levels of the mean wind up
    /// to 6 km and the brackets of the shear between 0 and 6 km. The estimate is
    /// undefined where either is.
    pub fn bunkers(&self) -> (r: Option<StormInputs>)
        ensures
            r == spec_bunkers(self@),
    {
        if self.prof.len() == 0 {
            return None;
        }
        let top = Single { bits: STORM_LAYER_TOP_BITS };
        let bot = Single { bits: STORM_LAYER_BOTTOM_BITS };
        let mean_levels = match self.mean_wind(top) {
            Some(l) => l,
            None => {
                return None;
            },
        };
        let shear = match self.wind_shear(bot, top) {
            Some(s) => s,
            None => {
                return None;
            },
        };
        Some(StormInputs { mean_levels, shear })
    }
}

/// A forward scan stops inside the altitudes or at their end, at the first altitude
/// that the height reaches.
pub proof fn lemma_first_reached(x: Single, xs: Seq<Single>, from: int)
    requires
        0 <= from <= xs.len(),
    ensures
        from <= first_reached(x, xs, from) <= xs.len(),
        first_reached(x, xs, from) < xs.len() ==> x.spec_ge(xs[first_reached(x, xs, from)]),
        forall|t: int| from <= t < first_reached(x, xs, from) ==> !x.spec_ge(#[trigger] xs[t]),
    decreases xs.len() - from,
{
    if from < xs.len() && !x.spec_ge(xs[from]) {
        lemma_first_reached(x, xs, from + 1);
    }
}

/// A bracket always has a sample above it: its index is not the last one, its height
/// reaches the altitude at its index and stays below the last altitude.
pub proof fn lemma_bracket_in_range(x: Single, xs: Seq<Single>)
    requires
        xs.len() <= usize::MAX,
    ensures
        spec_interp(x, xs) matches Some(b) ==> b.index + 1 < xs.len() && b.at.spec_ge(
            xs[b.index as int],
        ) && !b.at.spec_ge(xs.last()) && forall|t: int|
            0 <= t < b.index ==> !b.at.spec_ge(#[trigger] xs[t]),
{
    if xs.len() > 0 {
        lemma_first_reached(clamped(x, xs), xs, 0);
    }
}

/// The three cases of interpolation.
///
/// A height from the first altitude up to, and not including, the last is kept, and
/// its bracket is the first that a forward scan finds, which is the one at index 0. A
/// height below the first altitude is moved up to it. A height at or above the last
/// altitude has no bracket: nothing is extrapolated.
pub proof fn lemma_interp_cases(x: Single, xs: Seq<Single>)
    requires
        xs.len() > 0,
    ensures
        x.spec_ge(xs[0]) && x.spec_lt(xs.last()) ==> spec_interp(x, xs) == Some(
            Bracket { index: 0, at: x },
        ),
        x.spec_lt(xs[0]) && xs[0].spec_lt(xs.last()) ==> spec_interp(x, xs) == Some(
            Bracket { index: 0, at: xs[0] },
        ),
        x.spec_lt(xs[0]) ==> clamped(x, xs) == xs[0],
        x.spec_ge(xs.last()) ==> spec_interp(x, xs) is None,
{
}

/// The mean wind is undefined for an empty profile, and wherever `top` is at or above
/// every observed altitude.
pub proof fn lemma_mean_wind_absent(prof: Seq<VadMessage>, top: Single)
    requires
        prof.len() == 0 || forall|i: int|
            0 <= i < prof.len() ==> top.spec_ge((#[trigger] prof[i]).altitude),
    ensures
        spec_mean_wind(prof, top) is None,
{
    if prof.len() > 0 {
        assert(top.spec_ge(prof[prof.len() - 1].altitude));
    }
}

/// In a profile in order of altitude the last observation is the highest and the
/// first the lowest.
pub proof fn lemma_sorted_extremes(prof: Seq<VadMessage>)
    requires
        sorted_by_altitude(prof),
        prof.len() > 0,
    ensures
        forall|i: int|
            0 <= i < prof.len() ==> prof[0].altitude.spec_key() <= (
            #[trigger] prof[i]).altitude.spec_key() <= prof.last().altitude.spec_key(),
{
}

/// Wherever the mean wind up to `top` is defined, every height from the lowest
/// altitude up to, and not including, `top` has a bracket, and it is the one that a
/// forward scan finds first: the one at index 0, with the height kept as it is.
pub proof fn lemma_mean_wind_samples(prof: Seq<VadMessage>, top: Single, x: Single)
    requires
        spec_mean_wind(prof, top) is Some,
        x.spec_ge(prof[0].altitude),
        x.spec_lt(top),
    ensures
        spec_interp(x, altitudes(prof)) == Some(Bracket { index: 0, at: x }),
{
    let xs = altitudes(prof);
    assert(xs[0] == prof[0].altitude);
    assert(xs.last() == prof.last().altitude);
    lemma_interp_cases(x, xs);
}

} // verus!
