//! Playback speed and repeat (loop/boomerang) effects.
//!
//! Colour correction works on floating-point values and is not part of this
//! library.
use vstd::prelude::*;

use crate::text::{decimal, join};


verus! {

/// Playback rate applied to both video and audio during preview and export.
#[derive(Debug, Clone, Copy, PartialEq, Eq, Structural)]
pub enum PlaybackSpeed {
    Normal,
    ThreeQuarter,
    Half,
    Quarter,
}

/// The speed factor as a fraction `(numerator, denominator)`: 1, 3/4, 1/2, 1/4.
pub open spec fn speed_ratio(speed: PlaybackSpeed) -> (int, int) {
    match speed {
        PlaybackSpeed::Normal => (1, 1),
        PlaybackSpeed::ThreeQuarter => (3, 4),
        PlaybackSpeed::Half => (1, 2),
        PlaybackSpeed::Quarter => (1, 4),
    }
}

/// `a / b` rounded to the nearest integer, halves rounded up.
pub open spec fn rounded_div(a: int, b: int) -> int
    recommends
        b > 0,
{
    (2 * a + b) / (2 * b)
}

/// `x` as a `u64`, saturating at `u64::MAX` (what a float-to-integer cast does).
pub open spec fn saturate(x: int) -> u64 {
    if x > u64::MAX {
        u64::MAX
    } else if x < 0 {
        0
    } else {
        x as u64
    }
}

/// Length of the output for `source_ms` of source played at `speed`:
/// the source length divided by the speed factor, rounded.
pub open spec fn speed_output_ms(speed: PlaybackSpeed, source_ms: u64) -> u64 {
    saturate(rounded_div(source_ms * speed_ratio(speed).1, speed_ratio(speed).0))
}

pub open spec fn speed_audio_filter(speed: PlaybackSpeed) -> Option<Seq<char>> {
    match speed {
        PlaybackSpeed::Normal => None,
        PlaybackSpeed::ThreeQuarter => Some("atempo=0.75"@),
        PlaybackSpeed::Half => Some("atempo=0.5"@),
        PlaybackSpeed::Quarter => Some("atempo=0.5,atempo=0.5"@),
    }
}

pub open spec fn all_speeds() -> Seq<PlaybackSpeed> {
    seq![
        PlaybackSpeed::Normal,
        PlaybackSpeed::ThreeQuarter,
        PlaybackSpeed::Half,
        PlaybackSpeed::Quarter,
    ]
}

impl PlaybackSpeed {
    pub fn get_all() -> (r: Vec<Self>)
        ensures
            r@ == all_speeds(),
    {
        let r = vec![Self::Normal, Self::ThreeQuarter, Self::Half, Self::Quarter];
        assert(r@ =~= all_speeds());
        r
    }

    /// The speed at `index` in `get_all`, or `Normal` past its end.
    pub fn from_index(index: u32) -> (r: Self)
        ensures
            r == (if index < 4 { all_speeds()[index as int] } else { PlaybackSpeed::Normal }),
    {
        match index {
            0 => Self::Normal,
            1 => Self::ThreeQuarter,
            2 => Self::Half,
            3 => Self::Quarter,
            _ => Self::Normal,
        }
    }

    /// The untranslated label of this speed.
    pub fn display_msgid(&self) -> (r: &'static str)
        ensures
            r@ == match *self {
                PlaybackSpeed::Normal => "Normal"@,
                PlaybackSpeed::ThreeQuarter => "0.75×"@,
                PlaybackSpeed::Half => "0.5×"@,
                PlaybackSpeed::Quarter => "0.25×"@,
            },
    {
        proof {
            reveal_strlit("Normal");
            reveal_strlit("0.75×");
            reveal_strlit("0.5×");
            reveal_strlit("0.25×");
        }
        match self {
            Self::Normal => "Normal",
            Self::ThreeQuarter => "0.75×",
            Self::Half => "0.5×",
            Self::Quarter => "0.25×",
        }
    }


    pub fn is_normal(&self) -> (r: bool)
        ensures
            r == (*self == PlaybackSpeed::Normal),
    {
        match self {
            Self::Normal => true,
            _ => false,
        }
    }

    /// Length of the exported file for a selection of `source_ms`.
    pub fn output_duration_ms(&self, source_ms: u64) -> (r: u64)
        ensures
            r == speed_output_ms(*self, source_ms),
    {
        let s = source_ms as u128;
        let exact: u128 = match self {
            Self::Normal => s,
            Self::ThreeQuarter => (8 * s + 3) / 6,
            Self::Half => 2 * s,
            Self::Quarter => 4 * s,
        };
        proof {
            let x = source_ms as int;
            assert((2 * (x * 1) + 1) / (2 * 1int) == x) by (nonlinear_arith);
            assert((2 * (x * 2) + 1) / (2 * 1int) == 2 * x) by (nonlinear_arith);
            assert((2 * (x * 4) + 1) / (2 * 1int) == 4 * x) by (nonlinear_arith);
            assert((2 * (x * 4) + 3) / (2 * 3int) == (8 * x + 3) / 6) by (nonlinear_arith);
            assert(exact == rounded_div(source_ms * speed_ratio(*self).1, speed_ratio(*self).0));
        }
        if exact > u64::MAX as u128 {
            u64::MAX
        } else {
            exact as u64
        }
    }

    /// FFmpeg's `atempo` accepts factors down to 0.5, so quarter speed needs
    /// two stages; the product of the stages is the speed factor.
    pub fn ffmpeg_audio_filter(&self) -> (r: Option<&'static str>)
        ensures
            match r {
                Some(f) => speed_audio_filter(*self) == Some(f@),
                None => speed_audio_filter(*self) is None,
            },
    {
        match self {
            Self::Normal => None,
            Self::ThreeQuarter => Some("atempo=0.75"),
            Self::Half => Some("atempo=0.5"),
            Self::Quarter => Some("atempo=0.5,atempo=0.5"),
        }
    }
}

/// The `atempo` stages of a speed's audio filter, each given by the digits
/// `p` of its factor `0.p`. ffmpeg's `atempo` takes factors from 0.5 to 2,
/// so quarter speed is two halves.
pub open spec fn atempo_stages(speed: PlaybackSpeed) -> Seq<nat> {
    match speed {
        PlaybackSpeed::Normal => seq![],
        PlaybackSpeed::ThreeQuarter => seq![75nat],
        PlaybackSpeed::Half => seq![5nat],
        PlaybackSpeed::Quarter => seq![5nat, 5nat],
    }
}

pub open spec fn pow10(k: nat) -> nat
    decreases k,
{
    if k == 0 {
        1
    } else {
        10 * pow10((k - 1) as nat)
    }
}

/// The factor `0.p` as a fraction `(p, 10^digits of p)`.
pub open spec fn stage_factor(p: nat) -> (nat, nat) {
    (p, pow10(decimal(p).len()))
}

/// How a stage is written in the filter: `atempo=0.p`.
pub open spec fn stage_text(p: nat) -> Seq<char> {
    seq!['a', 't', 'e', 'm', 'p', 'o', '=', '0', '.'] + decimal(p)
}

/// The product of the stages' factors, as a fraction.
pub open spec fn factor_product(stages: Seq<nat>) -> (nat, nat)
    decreases stages.len(),
{
    if stages.len() == 0 {
        (1, 1)
    } else {
        let rest = factor_product(stages.drop_last());
        let f = stage_factor(stages.last());
        (rest.0 * f.0, rest.1 * f.1)
    }
}

proof fn lemma_factor_product_push(stages: Seq<nat>, p: nat)
    ensures
        factor_product(stages.push(p)).0 == factor_product(stages).0 * stage_factor(p).0,
        factor_product(stages.push(p)).1 == factor_product(stages).1 * stage_factor(p).1,
{
    assert(stages.push(p).drop_last() =~= stages);
}

/// A speed's audio filter is its `atempo` stages joined by `,`, none at
/// normal speed; each stage's factor lies between 1/2 and 2, and the
/// factors multiply to the speed, so that sound and picture keep pace.
pub proof fn law_atempo_stages_make_the_speed(speed: PlaybackSpeed)
    ensures
        speed_audio_filter(speed) == if atempo_stages(speed).len() == 0 {
            None
        } else {
            Some(join(atempo_stages(speed).map_values(|p: nat| stage_text(p)), seq![',']))
        },
        speed_audio_filter(speed) is None <==> speed == PlaybackSpeed::Normal,
        forall|i: int|
            0 <= i < atempo_stages(speed).len() ==> {
                let f = stage_factor(#[trigger] atempo_stages(speed)[i]);
                f.1 <= 2 * f.0 && f.0 <= 2 * f.1
            },
        factor_product(atempo_stages(speed)).0 * speed_ratio(speed).1 == factor_product(
            atempo_stages(speed),
        ).1 * speed_ratio(speed).0,
{
    reveal_strlit("atempo=0.75");
    reveal_strlit("atempo=0.5");
    reveal_strlit("atempo=0.5,atempo=0.5");
    reveal_with_fuel(decimal, 2);
    reveal_with_fuel(pow10, 3);
    assert(decimal(5) =~= seq!['5']);
    assert(decimal(75) =~= seq!['7', '5']);
    assert(pow10(1) == 10);
    assert(pow10(2) == 100);
    let stages = atempo_stages(speed);
    let texts = stages.map_values(|p: nat| stage_text(p));
    match speed {
        PlaybackSpeed::Normal => {
            assert(factor_product(stages) == (1nat, 1nat));
        },
        PlaybackSpeed::ThreeQuarter => {
            lemma_factor_product_push(seq![], 75);
            assert(seq![75nat] =~= Seq::<nat>::empty().push(75));
            assert(stages == seq![75nat]);
            let e = factor_product(Seq::<nat>::empty());
            let f = factor_product(stages);
            assert(f.0 * 4 == f.1 * 3) by (nonlinear_arith)
                requires
                    f.0 == e.0 * 75,
                    f.1 == e.1 * 100,
                    e.0 == 1,
                    e.1 == 1,
            ;
            assert(texts =~= seq![stage_text(75)]);
            assert(stage_text(75) =~= "atempo=0.75"@);
        },
        PlaybackSpeed::Half => {
            lemma_factor_product_push(seq![], 5);
            assert(seq![5nat] =~= Seq::<nat>::empty().push(5));
            assert(stages == seq![5nat]);
            let e = factor_product(Seq::<nat>::empty());
            let f = factor_product(stages);
            assert(f.0 * 2 == f.1 * 1) by (nonlinear_arith)
                requires
                    f.0 == e.0 * 5,
                    f.1 == e.1 * 10,
                    e.0 == 1,
                    e.1 == 1,
            ;
            assert(texts =~= seq![stage_text(5)]);
            assert(stage_text(5) =~= "atempo=0.5"@);
        },
        PlaybackSpeed::Quarter => {
            lemma_factor_product_push(seq![], 5);
            assert(seq![5nat] =~= Seq::<nat>::empty().push(5));
            lemma_factor_product_push(seq![5nat], 5);
            assert(seq![5nat, 5nat] =~= seq![5nat].push(5));
            assert(stages == seq![5nat, 5nat]);
            let e = factor_product(Seq::<nat>::empty());
            let g = factor_product(seq![5nat]);
            let f = factor_product(stages);
            assert(f.0 * 4 == f.1 * 1) by (nonlinear_arith)
                requires
                    f.0 == g.0 * 5,
                    f.1 == g.1 * 10,
                    g.0 == e.0 * 5,
                    g.1 == e.1 * 10,
                    e.0 == 1,
                    e.1 == 1,
            ;
            assert(texts =~= seq![stage_text(5), stage_text(5)]);
            assert(texts.drop_last() =~= seq![stage_text(5)]);
            assert(join(texts.drop_last(), seq![',']) == stage_text(5));
            assert(texts.last() == stage_text(5));
            assert(join(texts, seq![',']) =~= stage_text(5) + seq![','] + stage_text(5));
            assert(stage_text(5) + seq![','] + stage_text(5) =~= "atempo=0.5,atempo=0.5"@);
        },
    }
}

/// How the trimmed selection is repeated in the exported file.
#[derive(Debug, Clone, Copy, PartialEq, Eq, Structural)]
pub enum RepeatMode {
    /// Export the selection once.
    Off,
    /// Play the selection back to back.
    Loop,
    /// Play the selection forwards, then backwards.
    Boomerang,
}

pub open spec fn all_repeat_modes() -> Seq<RepeatMode> {
    seq![RepeatMode::Off, RepeatMode::Loop, RepeatMode::Boomerang]
}

impl RepeatMode {
    pub fn get_all() -> (r: Vec<RepeatMode>)
        ensures
            r@ == all_repeat_modes(),
    {
        let r = vec![RepeatMode::Off, RepeatMode::Loop, RepeatMode::Boomerang];
        assert(r@ =~= all_repeat_modes());
        r
    }

    /// The mode at `index` in `get_all`, or `Off` past its end.
    pub fn from_index(index: u32) -> (r: Self)
        ensures
            r == (if index < 3 { all_repeat_modes()[index as int] } else { RepeatMode::Off }),
    {
        match index {
            0 => RepeatMode::Off,
            1 => RepeatMode::Loop,
            2 => RepeatMode::Boomerang,
            _ => RepeatMode::Off,
        }
    }

    /// The untranslated label of this mode.
    pub fn display_msgid(&self) -> (r: &'static str)
        ensures
            r@ == match *self {
                RepeatMode::Off => "None"@,
                RepeatMode::Loop => "Loop"@,
                RepeatMode::Boomerang => "Boomerang"@,
            },
    {
        proof {
            reveal_strlit("None");
            reveal_strlit("Loop");
            reveal_strlit("Boomerang");
        }
        match self {
            RepeatMode::Off => "None",
            RepeatMode::Loop => "Loop",
            RepeatMode::Boomerang => "Boomerang",
        }
    }

}

/// A repeat effect: a mode plus how many cycles of it to emit.
#[derive(Debug, Clone, Copy, PartialEq, Eq, Structural)]
pub struct Repeat {
    pub mode: RepeatMode,
    /// Number of cycles, at least 1. One cycle is the selection for
    /// `RepeatMode::Loop`, or forwards+backwards for `RepeatMode::Boomerang`.
    pub count: u32,
}

/// The cycle count, floored at 1.
pub open spec fn repeat_cycles(r: Repeat) -> u32 {
    if r.count >= 1 {
        r.count
    } else {
        1
    }
}

/// Whether the repeat produces exactly the trimmed selection.
pub open spec fn repeat_is_off(r: Repeat) -> bool {
    match r.mode {
        RepeatMode::Off => true,
        RepeatMode::Loop => repeat_cycles(r) <= 1,
        RepeatMode::Boomerang => false,
    }
}

/// Length of the exported file for a selection of `source_ms`.
pub open spec fn repeat_output_ms(r: Repeat, source_ms: u64) -> int {
    match r.mode {
        RepeatMode::Off => source_ms as int,
        RepeatMode::Loop => source_ms * repeat_cycles(r),
        RepeatMode::Boomerang => source_ms * 2 * repeat_cycles(r),
    }
}

impl Default for Repeat {
    fn default() -> (r: Self)
        ensures
            r == (Repeat { mode: RepeatMode::Off, count: 1 }),
    {
        Repeat { mode: RepeatMode::Off, count: 1 }
    }
}

impl Repeat {
    /// Whether this would produce exactly the trimmed selection, so the
    /// exporter can take the single-pass path.
    pub fn is_off(&self) -> (r: bool)
        ensures
            r == repeat_is_off(*self),
    {
        match self.mode {
            RepeatMode::Off => true,
            RepeatMode::Loop => self.cycles() <= 1,
            RepeatMode::Boomerang => false,
        }
    }

    pub fn cycles(&self) -> (r: u32)
        ensures
            r == repeat_cycles(*self),
    {
        if self.count >= 1 {
            self.count
        } else {
            1
        }
    }

    /// Whether the reversed pass is needed.
    pub fn is_boomerang(&self) -> (r: bool)
        ensures
            r == (self.mode == RepeatMode::Boomerang),
    {
        match self.mode {
            RepeatMode::Boomerang => true,
            _ => false,
        }
    }

    /// Length of the exported file for a selection of `source_ms`.
    pub fn output_duration_ms(&self, source_ms: u64) -> (r: u64)
        requires
            repeat_output_ms(*self, source_ms) <= u64::MAX,
        ensures
            r == repeat_output_ms(*self, source_ms),
    {
        match self.mode {
            RepeatMode::Off => source_ms,
            RepeatMode::Loop => source_ms * self.cycles() as u64,
            RepeatMode::Boomerang => {
                let c = self.cycles() as u64;
                proof {
                    assert(source_ms * 2 * c == (source_ms * 2) * c);
                    assert(source_ms * 2 <= source_ms * 2 * c) by (nonlinear_arith)
                        requires
                            c >= 1,
                    ;
                }
                source_ms * 2 * c
            },
        }
    }
}

// ---------------------------------------------------------------------------
// Laws
// ---------------------------------------------------------------------------

/// `from_index` picks the speed that `get_all` lists at that index.
pub proof fn law_speed_from_index_matches_list(index: u32)
    requires
        index < all_speeds().len(),
    ensures
        (if index < 4 { all_speeds()[index as int] } else { PlaybackSpeed::Normal }) == all_speeds()[index as int],
{
}

/// Only normal speed plays the audio unchanged, and slowing down never
/// shortens the output.
pub proof fn law_speed_filter_and_length(speed: PlaybackSpeed, source_ms: u64)
    ensures
        (speed == PlaybackSpeed::Normal) <==> speed_audio_filter(speed) is None,
        speed_output_ms(speed, source_ms) >= source_ms,
        speed == PlaybackSpeed::Normal ==> speed_output_ms(speed, source_ms) == source_ms,
{
    let num = speed_ratio(speed).0;
    let den = speed_ratio(speed).1;
    let a = source_ms * den;
    assert((2 * (source_ms * 1) + 1) / (2 * 1int) == source_ms) by (nonlinear_arith);
    assert(rounded_div(a, num) >= source_ms) by (nonlinear_arith)
        requires
            num >= 1,
            den >= num,
            a == source_ms * den,
    {
        assert(a >= source_ms * num);
    };
}

/// A repeat that is off leaves the selection as long as it was, and any
/// other repeat makes a non-empty selection longer.
pub proof fn law_repeat_off_iff_single_pass(r: Repeat, source_ms: u64)
    ensures
        repeat_is_off(r) ==> repeat_output_ms(r, source_ms) == source_ms,
        !repeat_is_off(r) && source_ms > 0 ==> repeat_output_ms(r, source_ms) > source_ms,
{
    let c = repeat_cycles(r);
    assert(c == 1 ==> source_ms * c == source_ms) by (nonlinear_arith);
    assert(source_ms * c >= source_ms) by (nonlinear_arith)
        requires
            c >= 1,
    ;
    assert(c >= 2 && source_ms > 0 ==> source_ms * c > source_ms) by (nonlinear_arith);
    assert(source_ms * 2 * c >= source_ms * 2) by (nonlinear_arith)
        requires
            c >= 1,
    ;
}

} // verus!
