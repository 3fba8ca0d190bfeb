//! Transition shapes: the 24 easing curves used as LFO waveforms and
//! response curves, grouped into categories for the UI, each with a
//! display name and a compact name understood by the engine's parser.

use vstd::prelude::*;
use crate::text::str_eq;

verus! {

/// Shape categories for UI grouping.
#[derive(Debug, Clone, Copy, PartialEq, Eq, Structural)]
pub enum ShapeCategory {
    Bloom,
    Bounce,
    Chaos,
    Circular,
    Direct,
    Exponential,
    Linear,
    SCurve,
    Timing,
}

/// The 24 transition shapes.
#[derive(Debug, Clone, Copy, PartialEq, Eq, Structural)]
pub enum TransitionShape {
    BloomIn,
    BloomOut,
    BounceIn,
    BounceOut,
    ChaosHeavy,
    ChaosLight,
    CircularIn,
    CircularInOut,
    CircularOut,
    CircularOutIn,
    DC,
    ExpAttack,
    ExpDecay,
    FastEnd,
    FastStart,
    LinearDown,
    LinearUp,
    LogAttack,
    LogDecay,
    Random,
    SCurveSharp,
    SCurveSmooth,
    SlowEnd,
    SlowStart,
}

/// Per shape: its category, its display name, and its compact name.
pub open spec fn shape_info(s: TransitionShape) -> (ShapeCategory, Seq<char>, Seq<char>) {
    match s {
        TransitionShape::BloomIn => (ShapeCategory::Bloom, "Unfurl"@, "Unfurl"@),
        TransitionShape::BloomOut => (ShapeCategory::Bloom, "Chunk Wedge"@, "ChunkWedge"@),
        TransitionShape::BounceIn => (ShapeCategory::Bounce, "Trampoline"@, "Trampoline"@),
        TransitionShape::BounceOut => (ShapeCategory::Bounce, "Overshoot"@, "Overshoot"@),
        TransitionShape::ChaosHeavy => (ShapeCategory::Chaos, "Caffeinated"@, "Caffeinated"@),
        TransitionShape::ChaosLight => (ShapeCategory::Chaos, "Jitters"@, "Jitters"@),
        TransitionShape::CircularIn => (ShapeCategory::Circular, "Molasses"@, "Molasses"@),
        TransitionShape::CircularInOut => (ShapeCategory::Circular, "Switchback"@, "Switchback"@),
        TransitionShape::CircularOut => (ShapeCategory::Circular, "Catapult"@, "Catapult"@),
        TransitionShape::CircularOutIn => (ShapeCategory::Circular, "Foothill"@, "Foothill"@),
        TransitionShape::DC => (ShapeCategory::Direct, "Guillotine"@, "Guillotine"@),
        TransitionShape::ExpAttack => (ShapeCategory::Exponential, "Slow Burn"@, "SlowBurn"@),
        TransitionShape::ExpDecay => (ShapeCategory::Exponential, "Freefall"@, "Freefall"@),
        TransitionShape::FastEnd => (ShapeCategory::Timing, "Coasting"@, "Coasting"@),
        TransitionShape::FastStart => (ShapeCategory::Timing, "Eager Beaver"@, "EagerBeaver"@),
        TransitionShape::LinearDown => (ShapeCategory::Linear, "Ramp Down"@, "RampDown"@),
        TransitionShape::LinearUp => (ShapeCategory::Linear, "Ramp Up"@, "RampUp"@),
        TransitionShape::LogAttack => (ShapeCategory::Exponential, "Quick Draw"@, "QuickDraw"@),
        TransitionShape::LogDecay => (ShapeCategory::Exponential, "Long Tail"@, "LongTail"@),
        TransitionShape::Random => (ShapeCategory::Chaos, "Dice Roll"@, "DiceRoll"@),
        TransitionShape::SCurveSharp => (ShapeCategory::SCurve, "Whiplash"@, "Whiplash"@),
        TransitionShape::SCurveSmooth => (ShapeCategory::SCurve, "Silk"@, "Silk"@),
        TransitionShape::SlowEnd => (ShapeCategory::Timing, "Lazy Landing"@, "LazyLanding"@),
        TransitionShape::SlowStart => (ShapeCategory::Timing, "Reluctant"@, "Reluctant"@),
    }
}

/// The category each shape is grouped under in the UI.
pub open spec fn spec_category(s: TransitionShape) -> ShapeCategory {
    shape_info(s).0
}

/// The display name of each shape in the UI.
pub open spec fn spec_name(s: TransitionShape) -> Seq<char> {
    shape_info(s).1
}

/// The compact name of each shape (LFO picker, engine parser).
pub open spec fn spec_short_name(s: TransitionShape) -> Seq<char> {
    shape_info(s).2
}

impl TransitionShape {
    /// Category, display name and compact name, in one table.
    fn info(&self) -> (r: (ShapeCategory, &'static str, &'static str))
        ensures
            r.0 == shape_info(*self).0,
            r.1@ == shape_info(*self).1,
            r.2@ == shape_info(*self).2,
    {
        match self {
            TransitionShape::BloomIn => (ShapeCategory::Bloom, "Unfurl", "Unfurl"),
            TransitionShape::BloomOut => (ShapeCategory::Bloom, "Chunk Wedge", "ChunkWedge"),
            TransitionShape::BounceIn => (ShapeCategory::Bounce, "Trampoline", "Trampoline"),
            TransitionShape::BounceOut => (ShapeCategory::Bounce, "Overshoot", "Overshoot"),
            TransitionShape::ChaosHeavy => (ShapeCategory::Chaos, "Caffeinated", "Caffeinated"),
            TransitionShape::ChaosLight => (ShapeCategory::Chaos, "Jitters", "Jitters"),
            TransitionShape::CircularIn => (ShapeCategory::Circular, "Molasses", "Molasses"),
            TransitionShape::CircularInOut => (ShapeCategory::Circular, "Switchback", "Switchback"),
            TransitionShape::CircularOut => (ShapeCategory::Circular, "Catapult", "Catapult"),
            TransitionShape::CircularOutIn => (ShapeCategory::Circular, "Foothill", "Foothill"),
            TransitionShape::DC => (ShapeCategory::Direct, "Guillotine", "Guillotine"),
            TransitionShape::ExpAttack => (ShapeCategory::Exponential, "Slow Burn", "SlowBurn"),
            TransitionShape::ExpDecay => (ShapeCategory::Exponential, "Freefall", "Freefall"),
            TransitionShape::FastEnd => (ShapeCategory::Timing, "Coasting", "Coasting"),
            TransitionShape::FastStart => (ShapeCategory::Timing, "Eager Beaver", "EagerBeaver"),
            TransitionShape::LinearDown => (ShapeCategory::Linear, "Ramp Down", "RampDown"),
            TransitionShape::LinearUp => (ShapeCategory::Linear, "Ramp Up", "RampUp"),
            TransitionShape::LogAttack => (ShapeCategory::Exponential, "Quick Draw", "QuickDraw"),
            TransitionShape::LogDecay => (ShapeCategory::Exponential, "Long Tail", "LongTail"),
            TransitionShape::Random => (ShapeCategory::Chaos, "Dice Roll", "DiceRoll"),
            TransitionShape::SCurveSharp => (ShapeCategory::SCurve, "Whiplash", "Whiplash"),
            TransitionShape::SCurveSmooth => (ShapeCategory::SCurve, "Silk", "Silk"),
            TransitionShape::SlowEnd => (ShapeCategory::Timing, "Lazy Landing", "LazyLanding"),
            TransitionShape::SlowStart => (ShapeCategory::Timing, "Reluctant", "Reluctant"),
        }
    }

    /// Returns the UI grouping category for this shape.
    pub fn category(&self) -> (c: ShapeCategory)
        ensures
            c == spec_category(*self),
    {
        self.info().0
    }

    /// Display name for the UI.
    pub fn name(&self) -> (r: &'static str)
        ensures
            r@ == spec_name(*self),
    {
        self.info().1
    }
}

impl Default for TransitionShape {
    fn default() -> (s: Self)
        ensures
            s == TransitionShape::ChaosHeavy,
    {
        TransitionShape::ChaosHeavy
    }
}

/// The compact name of a shape, as the LFO picker shows it.
pub fn shape_display_name(s: TransitionShape) -> (r: &'static str)
    ensures
        r@ == spec_short_name(s),
{
    s.info().2
}

/// The shape a compact name denotes; unknown names fall back to
/// `LinearUp`.
pub open spec fn spec_shape_named(name: Seq<char>) -> TransitionShape {
    if name == "Caffeinated"@ {
        TransitionShape::ChaosHeavy
    } else if name == "Catapult"@ {
        TransitionShape::CircularOut
    } else if name == "ChunkWedge"@ {
        TransitionShape::BloomOut
    } else if name == "Coasting"@ {
        TransitionShape::FastEnd
    } else if name == "DiceRoll"@ {
        TransitionShape::Random
    } else if name == "EagerBeaver"@ {
        TransitionShape::FastStart
    } else if name == "Foothill"@ {
        TransitionShape::CircularOutIn
    } else if name == "Freefall"@ {
        TransitionShape::ExpDecay
    } else if name == "Guillotine"@ {
        TransitionShape::DC
    } else if name == "Jitters"@ {
        TransitionShape::ChaosLight
    } else if name == "LazyLanding"@ {
        TransitionShape::SlowEnd
    } else if name == "LongTail"@ {
        TransitionShape::LogDecay
    } else if name == "Molasses"@ {
        TransitionShape::CircularIn
    } else if name == "Overshoot"@ {
        TransitionShape::BounceOut
    } else if name == "QuickDraw"@ {
        TransitionShape::LogAttack
    } else if name == "RampDown"@ {
        TransitionShape::LinearDown
    } else if name == "RampUp"@ {
        TransitionShape::LinearUp
    } else if name == "Reluctant"@ {
        TransitionShape::SlowStart
    } else if name == "Silk"@ {
        TransitionShape::SCurveSmooth
    } else if name == "SlowBurn"@ {
        TransitionShape::ExpAttack
    } else if name == "Switchback"@ {
        TransitionShape::CircularInOut
    } else if name == "Trampoline"@ {
        TransitionShape::BounceIn
    } else if name == "Unfurl"@ {
        TransitionShape::BloomIn
    } else if name == "Whiplash"@ {
        TransitionShape::SCurveSharp
    } else {
        TransitionShape::LinearUp
    }
}

/// The shape a compact name denotes; unknown names give `LinearUp`.
pub fn shape_from_name(name: &str) -> (s: TransitionShape)
    ensures
        s == spec_shape_named(name@),
{
    if str_eq(name, "Caffeinated") {
        TransitionShape::ChaosHeavy
    } else if str_eq(name, "Catapult") {
        TransitionShape::CircularOut
    } else if str_eq(name, "ChunkWedge") {
        TransitionShape::BloomOut
    } else if str_eq(name, "Coasting") {
        TransitionShape::FastEnd
    } else if str_eq(name, "DiceRoll") {
        TransitionShape::Random
    } else if str_eq(name, "EagerBeaver") {
        TransitionShape::FastStart
    } else if str_eq(name, "Foothill") {
        TransitionShape::CircularOutIn
    } else if str_eq(name, "Freefall") {
        TransitionShape::ExpDecay
    } else if str_eq(name, "Guillotine") {
        TransitionShape::DC
    } else if str_eq(name, "Jitters") {
        TransitionShape::ChaosLight
    } else if str_eq(name, "LazyLanding") {
        TransitionShape::SlowEnd
    } else if str_eq(name, "LongTail") {
        TransitionShape::LogDecay
    } else if str_eq(name, "Molasses") {
        TransitionShape::CircularIn
    } else if str_eq(name, "Overshoot") {
        TransitionShape::BounceOut
    } else if str_eq(name, "QuickDraw") {
        TransitionShape::LogAttack
    } else if str_eq(name, "RampDown") {
        TransitionShape::LinearDown
    } else if str_eq(name, "RampUp") {
        TransitionShape::LinearUp
    } else if str_eq(name, "Reluctant") {
        TransitionShape::SlowStart
    } else if str_eq(name, "Silk") {
        TransitionShape::SCurveSmooth
    } else if str_eq(name, "SlowBurn") {
        TransitionShape::ExpAttack
    } else if str_eq(name, "Switchback") {
        TransitionShape::CircularInOut
    } else if str_eq(name, "Trampoline") {
        TransitionShape::BounceIn
    } else if str_eq(name, "Unfurl") {
        TransitionShape::BloomIn
    } else if str_eq(name, "Whiplash") {
        TransitionShape::SCurveSharp
    } else {
        TransitionShape::LinearUp
    }
}

/// `s` with its spaces removed.
pub open spec fn without_spaces(s: Seq<char>) -> Seq<char>
    decreases s.len(),
{
    if s.len() == 0 {
        s
    } else if s[0] == ' ' {
        without_spaces(s.drop_first())
    } else {
        seq![s[0]] + without_spaces(s.drop_first())
    }
}

/// Law: every display name is non-empty, and with its spaces removed
/// it is the shape's compact name.
#[verifier::rlimit(50)]
pub proof fn lemma_display_name_compacts(s: TransitionShape)
    ensures
        spec_name(s).len() > 0,
        without_spaces(spec_name(s)) == spec_short_name(s),
{
    reveal_strlit("Caffeinated");
    reveal_strlit("Catapult");
    reveal_strlit("Chunk Wedge");
    reveal_strlit("ChunkWedge");
    reveal_strlit("Coasting");
    reveal_strlit("Dice Roll");
    reveal_strlit("DiceRoll");
    reveal_strlit("Eager Beaver");
    reveal_strlit("EagerBeaver");
    reveal_strlit("Foothill");
    reveal_strlit("Freefall");
    reveal_strlit("Guillotine");
    reveal_strlit("Jitters");
    reveal_strlit("Lazy Landing");
    reveal_strlit("LazyLanding");
    reveal_strlit("Long Tail");
    reveal_strlit("LongTail");
    reveal_strlit("Molasses");
    reveal_strlit("Overshoot");
    reveal_strlit("Quick Draw");
    reveal_strlit("QuickDraw");
    reveal_strlit("Ramp Down");
    reveal_strlit("Ramp Up");
    reveal_strlit("RampDown");
    reveal_strlit("RampUp");
    reveal_strlit("Reluctant");
    reveal_strlit("Silk");
    reveal_strlit("Slow Burn");
    reveal_strlit("SlowBurn");
    reveal_strlit("Switchback");
    reveal_strlit("Trampoline");
    reveal_strlit("Unfurl");
    reveal_strlit("Whiplash");
    reveal_with_fuel(without_spaces, 13);
    match s {
        TransitionShape::BloomIn => {
            assert(without_spaces("Unfurl"@) =~= "Unfurl"@);
        },
        TransitionShape::BloomOut => {
            assert(without_spaces("Chunk Wedge"@) =~= "ChunkWedge"@);
        },
        TransitionShape::BounceIn => {
            assert(without_spaces("Trampoline"@) =~= "Trampoline"@);
        },
        TransitionShape::BounceOut => {
            assert(without_spaces("Overshoot"@) =~= "Overshoot"@);
        },
        TransitionShape::ChaosHeavy => {
            assert(without_spaces("Caffeinated"@) =~= "Caffeinated"@);
        },
        TransitionShape::ChaosLight => {
            assert(without_spaces("Jitters"@) =~= "Jitters"@);
        },
        TransitionShape::CircularIn => {
            assert(without_spaces("Molasses"@) =~= "Molasses"@);
        },
        TransitionShape::CircularInOut => {
            assert(without_spaces("Switchback"@) =~= "Switchback"@);
        },
        TransitionShape::CircularOut => {
            assert(without_spaces("Catapult"@) =~= "Catapult"@);
        },
        TransitionShape::CircularOutIn => {
            assert(without_spaces("Foothill"@) =~= "Foothill"@);
        },
        TransitionShape::DC => {
            assert(without_spaces("Guillotine"@) =~= "Guillotine"@);
        },
        TransitionShape::ExpAttack => {
            assert(without_spaces("Slow Burn"@) =~= "SlowBurn"@);
        },
        TransitionShape::ExpDecay => {
            assert(without_spaces("Freefall"@) =~= "Freefall"@);
        },
        TransitionShape::FastEnd => {
            assert(without_spaces("Coasting"@) =~= "Coasting"@);
        },
        TransitionShape::FastStart => {
            assert(without_spaces("Eager Beaver"@) =~= "EagerBeaver"@);
        },
        TransitionShape::LinearDown => {
            assert(without_spaces("Ramp Down"@) =~= "RampDown"@);
        },
        TransitionShape::LinearUp => {
            assert(without_spaces("Ramp Up"@) =~= "RampUp"@);
        },
        TransitionShape::LogAttack => {
            assert(without_spaces("Quick Draw"@) =~= "QuickDraw"@);
        },
        TransitionShape::LogDecay => {
            assert(without_spaces("Long Tail"@) =~= "LongTail"@);
        },
        TransitionShape::Random => {
            assert(without_spaces("Dice Roll"@) =~= "DiceRoll"@);
        },
        TransitionShape::SCurveSharp => {
            assert(without_spaces("Whiplash"@) =~= "Whiplash"@);
        },
        TransitionShape::SCurveSmooth => {
            assert(without_spaces("Silk"@) =~= "Silk"@);
        },
        TransitionShape::SlowEnd => {
            assert(without_spaces("Lazy Landing"@) =~= "LazyLanding"@);
        },
        TransitionShape::SlowStart => {
            assert(without_spaces("Reluctant"@) =~= "Reluctant"@);
        },
    }
}

/// Law: parsing a display name with its spaces removed gives back the
/// shape, for every one of the 24 shapes.
pub proof fn lemma_display_name_parses(s: TransitionShape)
    ensures
        spec_shape_named(without_spaces(spec_name(s))) == s,
{
    lemma_display_name_compacts(s);
    lemma_short_name_roundtrip(s);
}

/// Law: the 24 display names are pairwise distinct.
pub proof fn lemma_display_names_distinct(s1: TransitionShape, s2: TransitionShape)
    requires
        s1 != s2,
    ensures
        spec_name(s1) != spec_name(s2),
{
    lemma_display_name_parses(s1);
    lemma_display_name_parses(s2);
}

/// Law: parsing a shape's compact name gives back the shape, for every
/// one of the 24 shapes.
pub proof fn lemma_short_name_roundtrip(s: TransitionShape)
    ensures
        spec_shape_named(spec_short_name(s)) == s,
{
    reveal_strlit("Caffeinated");
    reveal_strlit("Catapult");
    reveal_strlit("ChunkWedge");
    reveal_strlit("Coasting");
    reveal_strlit("DiceRoll");
    reveal_strlit("EagerBeaver");
    reveal_strlit("Foothill");
    reveal_strlit("Freefall");
    reveal_strlit("Guillotine");
    reveal_strlit("Jitters");
    reveal_strlit("LazyLanding");
    reveal_strlit("LongTail");
    reveal_strlit("Molasses");
    reveal_strlit("Overshoot");
    reveal_strlit("QuickDraw");
    reveal_strlit("RampDown");
    reveal_strlit("RampUp");
    reveal_strlit("Reluctant");
    reveal_strlit("Silk");
    reveal_strlit("SlowBurn");
    reveal_strlit("Switchback");
    reveal_strlit("Trampoline");
    reveal_strlit("Unfurl");
    reveal_strlit("Whiplash");
    match s {
        TransitionShape::ChaosHeavy => {

        },
        TransitionShape::CircularOut => {
            assert("Catapult"@.len() != "Caffeinated"@.len());
        },
        TransitionShape::BloomOut => {
            assert("ChunkWedge"@.len() != "Caffeinated"@.len());
            assert("ChunkWedge"@.len() != "Catapult"@.len());
        },
        TransitionShape::FastEnd => {
            assert("Coasting"@.len() != "Caffeinated"@.len());
            assert("Coasting"@[1] != "Catapult"@[1]);
            assert("Coasting"@.len() != "ChunkWedge"@.len());
        },
        TransitionShape::Random => {
            assert("DiceRoll"@.len() != "Caffeinated"@.len());
            assert("DiceRoll"@[0] != "Catapult"@[0]);
            assert("DiceRoll"@.len() != "ChunkWedge"@.len());
            assert("DiceRoll"@[0] != "Coasting"@[0]);
        },
        TransitionShape::FastStart => {
            assert("EagerBeaver"@[0] != "Caffeinated"@[0]);
            assert("EagerBeaver"@.len() != "Catapult"@.len());
            assert("EagerBeaver"@.len() != "ChunkWedge"@.len());
            assert("EagerBeaver"@.len() != "Coasting"@.len());
            assert("EagerBeaver"@.len() != "DiceRoll"@.len());
        },
        TransitionShape::CircularOutIn => {
            assert("Foothill"@.len() != "Caffeinated"@.len());
            assert("Foothill"@[0] != "Catapult"@[0]);
            assert("Foothill"@.len() != "ChunkWedge"@.len());
            assert("Foothill"@[0] != "Coasting"@[0]);
            assert("Foothill"@[0] != "DiceRoll"@[0]);
            assert("Foothill"@.len() != "EagerBeaver"@.len());
        },
        TransitionShape::ExpDecay => {
            assert("Freefall"@.len() != "Caffeinated"@.len());
            assert("Freefall"@[0] != "Catapult"@[0]);
            assert("Freefall"@.len() != "ChunkWedge"@.len());
            assert("Freefall"@[0] != "Coasting"@[0]);
            assert("Freefall"@[0] != "DiceRoll"@[0]);
            assert("Freefall"@.len() != "EagerBeaver"@.len());
            assert("Freefall"@[1] != "Foothill"@[1]);
        },
        TransitionShape::DC => {
            assert("Guillotine"@.len() != "Caffeinated"@.len());
            assert("Guillotine"@.len() != "Catapult"@.len());
            assert("Guillotine"@[0] != "ChunkWedge"@[0]);
            assert("Guillotine"@.len() != "Coasting"@.len());
            assert("Guillotine"@.len() != "DiceRoll"@.len());
            assert("Guillotine"@.len() != "EagerBeaver"@.len());
            assert("Guillotine"@.len() != "Foothill"@.len());
            assert("Guillotine"@.len() != "Freefall"@.len());
        },
        TransitionShape::ChaosLight => {
            assert("Jitters"@.len() != "Caffeinated"@.len());
            assert("Jitters"@.len() != "Catapult"@.len());
            assert("Jitters"@.len() != "ChunkWedge"@.len());
            assert("Jitters"@.len() != "Coasting"@.len());
            assert("Jitters"@.len() != "DiceRoll"@.len());
            assert("Jitters"@.len() != "EagerBeaver"@.len());
            assert("Jitters"@.len() != "Foothill"@.len());
            assert("Jitters"@.len() != "Freefall"@.len());
            assert("Jitters"@.len() != "Guillotine"@.len());
        },
        TransitionShape::SlowEnd => {
            assert("LazyLanding"@[0] != "Caffeinated"@[0]);
            assert("LazyLanding"@.len() != "Catapult"@.len());
            assert("LazyLanding"@.len() != "ChunkWedge"@.len());
            assert("LazyLanding"@.len() != "Coasting"@.len());
            assert("LazyLanding"@.len() != "DiceRoll"@.len());
            assert("LazyLanding"@[0] != "EagerBeaver"@[0]);
            assert("LazyLanding"@.len() != "Foothill"@.len());
            assert("LazyLanding"@.len() != "Freefall"@.len());
            assert("LazyLanding"@.len() != "Guillotine"@.len());
            assert("LazyLanding"@.len() != "Jitters"@.len());
        },
        TransitionShape::LogDecay => {
            assert("LongTail"@.len() != "Caffeinated"@.len());
            assert("LongTail"@[0] != "Catapult"@[0]);
            assert("LongTail"@.len() != "ChunkWedge"@.len());
            assert("LongTail"@[0] != "Coasting"@[0]);
            assert("LongTail"@[0] != "DiceRoll"@[0]);
            assert("LongTail"@.len() != "EagerBeaver"@.len());
            assert("LongTail"@[0] != "Foothill"@[0]);
            assert("LongTail"@[0] != "Freefall"@[0]);
            assert("LongTail"@.len() != "Guillotine"@.len());
            assert("LongTail"@.len() != "Jitters"@.len());
            assert("LongTail"@.len() != "LazyLanding"@.len());
        },
        TransitionShape::CircularIn => {
            assert("Molasses"@.len() != "Caffeinated"@.len());
            assert("Molasses"@[0] != "Catapult"@[0]);
            assert("Molasses"@.len() != "ChunkWedge"@.len());
            assert("Molasses"@[0] != "Coasting"@[0]);
            assert("Molasses"@[0] != "DiceRoll"@[0]);
            assert("Molasses"@.len() != "EagerBeaver"@.len());
            assert("Molasses"@[0] != "Foothill"@[0]);
            assert("Molasses"@[0] != "Freefall"@[0]);
            assert("Molasses"@.len() != "Guillotine"@.len());
            assert("Molasses"@.len() != "Jitters"@.len());
            assert("Molasses"@.len() != "LazyLanding"@.len());
            assert("Molasses"@[0] != "LongTail"@[0]);
        },
        TransitionShape::BounceOut => {
            assert("Overshoot"@.len() != "Caffeinated"@.len());
            assert("Overshoot"@.len() != "Catapult"@.len());
            assert("Overshoot"@.len() != "ChunkWedge"@.len());
            assert("Overshoot"@.len() != "Coasting"@.len());
            assert("Overshoot"@.len() != "DiceRoll"@.len());
            assert("Overshoot"@.len() != "EagerBeaver"@.len());
            assert("Overshoot"@.len() != "Foothill"@.len());
            assert("Overshoot"@.len() != "Freefall"@.len());
            assert("Overshoot"@.len() != "Guillotine"@.len());
            assert("Overshoot"@.len() != "Jitters"@.len());
            assert("Overshoot"@.len() != "LazyLanding"@.len());
            assert("Overshoot"@.len() != "LongTail"@.len());
            assert("Overshoot"@.len() != "Molasses"@.len());
        },
        TransitionShape::LogAttack => {
            assert("QuickDraw"@.len() != "Caffeinated"@.len());
            assert("QuickDraw"@.len() != "Catapult"@.len());
            assert("QuickDraw"@.len() != "ChunkWedge"@.len());
            assert("QuickDraw"@.len() != "Coasting"@.len());
            assert("QuickDraw"@.len() != "DiceRoll"@.len());
            assert("QuickDraw"@.len() != "EagerBeaver"@.len());
            assert("QuickDraw"@.len() != "Foothill"@.len());
            assert("QuickDraw"@.len() != "Freefall"@.len());
            assert("QuickDraw"@.len() != "Guillotine"@.len());
            assert("QuickDraw"@.len() != "Jitters"@.len());
            assert("QuickDraw"@.len() != "LazyLanding"@.len());
            assert("QuickDraw"@.len() != "LongTail"@.len());
            assert("QuickDraw"@.len() != "Molasses"@.len());
            assert("QuickDraw"@[0] != "Overshoot"@[0]);
        },
        TransitionShape::LinearDown => {
            assert("RampDown"@.len() != "Caffeinated"@.len());
            assert("RampDown"@[0] != "Catapult"@[0]);
            assert("RampDown"@.len() != "ChunkWedge"@.len());
            assert("RampDown"@[0] != "Coasting"@[0]);
            assert("RampDown"@[0] != "DiceRoll"@[0]);
            assert("RampDown"@.len() != "EagerBeaver"@.len());
            assert("RampDown"@[0] != "Foothill"@[0]);
            assert("RampDown"@[0] != "Freefall"@[0]);
            assert("RampDown"@.len() != "Guillotine"@.len());
            assert("RampDown"@.len() != "Jitters"@.len());
            assert("RampDown"@.len() != "LazyLanding"@.len());
            assert("RampDown"@[0] != "LongTail"@[0]);
            assert("RampDown"@[0] != "Molasses"@[0]);
            assert("RampDown"@.len() != "Overshoot"@.len());
            assert("RampDown"@.len() != "QuickDraw"@.len());
        },
        TransitionShape::LinearUp => {
            assert("RampUp"@.len() != "Caffeinated"@.len());
            assert("RampUp"@.len() != "Catapult"@.len());
            assert("RampUp"@.len() != "ChunkWedge"@.len());
            assert("RampUp"@.len() != "Coasting"@.len());
            assert("RampUp"@.len() != "DiceRoll"@.len());
            assert("RampUp"@.len() != "EagerBeaver"@.len());
            assert("RampUp"@.len() != "Foothill"@.len());
            assert("RampUp"@.len() != "Freefall"@.len());
            assert("RampUp"@.len() != "Guillotine"@.len());
            assert("RampUp"@.len() != "Jitters"@.len());
            assert("RampUp"@.len() != "LazyLanding"@.len());
            assert("RampUp"@.len() != "LongTail"@.len());
            assert("RampUp"@.len() != "Molasses"@.len());
            assert("RampUp"@.len() != "Overshoot"@.len());
            assert("RampUp"@.len() != "QuickDraw"@.len());
            assert("RampUp"@.len() != "RampDown"@.len());
        },
        TransitionShape::SlowStart => {
            assert("Reluctant"@.len() != "Caffeinated"@.len());
            assert("Reluctant"@.len() != "Catapult"@.len());
            assert("Reluctant"@.len() != "ChunkWedge"@.len());
            assert("Reluctant"@.len() != "Coasting"@.len());
            assert("Reluctant"@.len() != "DiceRoll"@.len());
            assert("Reluctant"@.len() != "EagerBeaver"@.len());
            assert("Reluctant"@.len() != "Foothill"@.len());
            assert("Reluctant"@.len() != "Freefall"@.len());
            assert("Reluctant"@.len() != "Guillotine"@.len());
            assert("Reluctant"@.len() != "Jitters"@.len());
            assert("Reluctant"@.len() != "LazyLanding"@.len());
            assert("Reluctant"@.len() != "LongTail"@.len());
            assert("Reluctant"@.len() != "Molasses"@.len());
            assert("Reluctant"@[0] != "Overshoot"@[0]);
            assert("Reluctant"@[0] != "QuickDraw"@[0]);
            assert("Reluctant"@.len() != "RampDown"@.len());
            assert("Reluctant"@.len() != "RampUp"@.len());
        },
        TransitionShape::SCurveSmooth => {
            assert("Silk"@.len() != "Caffeinated"@.len());
            assert("Silk"@.len() != "Catapult"@.len());
            assert("Silk"@.len() != "ChunkWedge"@.len());
            assert("Silk"@.len() != "Coasting"@.len());
            assert("Silk"@.len() != "DiceRoll"@.len());
            assert("Silk"@.len() != "EagerBeaver"@.len());
            assert("Silk"@.len() != "Foothill"@.len());
            assert("Silk"@.len() != "Freefall"@.len());
            assert("Silk"@.len() != "Guillotine"@.len());
            assert("Silk"@.len() != "Jitters"@.len());
            assert("Silk"@.len() != "LazyLanding"@.len());
            assert("Silk"@.len() != "LongTail"@.len());
            assert("Silk"@.len() != "Molasses"@.len());
            assert("Silk"@.len() != "Overshoot"@.len());
            assert("Silk"@.len() != "QuickDraw"@.len());
            assert("Silk"@.len() != "RampDown"@.len());
            assert("Silk"@.len() != "RampUp"@.len());
            assert("Silk"@.len() != "Reluctant"@.len());
        },
        TransitionShape::ExpAttack => {
            assert("SlowBurn"@.len() != "Caffeinated"@.len());
            assert("SlowBurn"@[0] != "Catapult"@[0]);
            assert("SlowBurn"@.len() != "ChunkWedge"@.len());
            assert("SlowBurn"@[0] != "Coasting"@[0]);
            assert("SlowBurn"@[0] != "DiceRoll"@[0]);
            assert("SlowBurn"@.len() != "EagerBeaver"@.len());
            assert("SlowBurn"@[0] != "Foothill"@[0]);
            assert("SlowBurn"@[0] != "Freefall"@[0]);
            assert("SlowBurn"@.len() != "Guillotine"@.len());
            assert("SlowBurn"@.len() != "Jitters"@.len());
            assert("SlowBurn"@.len() != "LazyLanding"@.len());
            assert("SlowBurn"@[0] != "LongTail"@[0]);
            assert("SlowBurn"@[0] != "Molasses"@[0]);
            assert("SlowBurn"@.len() != "Overshoot"@.len());
            assert("SlowBurn"@.len() != "QuickDraw"@.len());
            assert("SlowBurn"@[0] != "RampDown"@[0]);
            assert("SlowBurn"@.len() != "RampUp"@.len());
            assert("SlowBurn"@.len() != "Reluctant"@.len());
            assert("SlowBurn"@.len() != "Silk"@.len());
        },
        TransitionShape::CircularInOut => {
            assert("Switchback"@.len() != "Caffeinated"@.len());
            assert("Switchback"@.len() != "Catapult"@.len());
            assert("Switchback"@[0] != "ChunkWedge"@[0]);
            assert("Switchback"@.len() != "Coasting"@.len());
            assert("Switchback"@.len() != "DiceRoll"@.len());
            assert("Switchback"@.len() != "EagerBeaver"@.len());
            assert("Switchback"@.len() != "Foothill"@.len());
            assert("Switchback"@.len() != "Freefall"@.len());
            assert("Switchback"@[0] != "Guillotine"@[0]);
            assert("Switchback"@.len() != "Jitters"@.len());
            assert("Switchback"@.len() != "LazyLanding"@.len());
            assert("Switchback"@.len() != "LongTail"@.len());
            assert("Switchback"@.len() != "Molasses"@.len());
            assert("Switchback"@.len() != "Overshoot"@.len());
            assert("Switchback"@.len() != "QuickDraw"@.len());
            assert("Switchback"@.len() != "RampDown"@.len());
            assert("Switchback"@.len() != "RampUp"@.len());
            assert("Switchback"@.len() != "Reluctant"@.len());
            assert("Switchback"@.len() != "Silk"@.len());
            assert("Switchback"@.len() != "SlowBurn"@.len());
        },
        TransitionShape::BounceIn => {
            assert("Trampoline"@.len() != "Caffeinated"@.len());
            assert("Trampoline"@.len() != "Catapult"@.len());
            assert("Trampoline"@[0] != "ChunkWedge"@[0]);
            assert("Trampoline"@.len() != "Coasting"@.len());
            assert("Trampoline"@.len() != "DiceRoll"@.len());
            assert("Trampoline"@.len() != "EagerBeaver"@.len());
            assert("Trampoline"@.len() != "Foothill"@.len());
            assert("Trampoline"@.len() != "Freefall"@.len());
            assert("Trampoline"@[0] != "Guillotine"@[0]);
            assert("Trampoline"@.len() != "Jitters"@.len());
            assert("Trampoline"@.len() != "LazyLanding"@.len());
            assert("Trampoline"@.len() != "LongTail"@.len());
            assert("Trampoline"@.len() != "Molasses"@.len());
            assert("Trampoline"@.len() != "Overshoot"@.len());
            assert("Trampoline"@.len() != "QuickDraw"@.len());
            assert("Trampoline"@.len() != "RampDown"@.len());
            assert("Trampoline"@.len() != "RampUp"@.len());
            assert("Trampoline"@.len() != "Reluctant"@.len());
            assert("Trampoline"@.len() != "Silk"@.len());
            assert("Trampoline"@.len() != "SlowBurn"@.len());
            assert("Trampoline"@[0] != "Switchback"@[0]);
        },
        TransitionShape::BloomIn => {
            assert("Unfurl"@.len() != "Caffeinated"@.len());
            assert("Unfurl"@.len() != "Catapult"@.len());
            assert("Unfurl"@.len() != "ChunkWedge"@.len());
            assert("Unfurl"@.len() != "Coasting"@.len());
            assert("Unfurl"@.len() != "DiceRoll"@.len());
            assert("Unfurl"@.len() != "EagerBeaver"@.len());
            assert("Unfurl"@.len() != "Foothill"@.len());
            assert("Unfurl"@.len() != "Freefall"@.len());
            assert("Unfurl"@.len() != "Guillotine"@.len());
            assert("Unfurl"@.len() != "Jitters"@.len());
            assert("Unfurl"@.len() != "LazyLanding"@.len());
            assert("Unfurl"@.len() != "LongTail"@.len());
            assert("Unfurl"@.len() != "Molasses"@.len());
            assert("Unfurl"@.len() != "Overshoot"@.len());
            assert("Unfurl"@.len() != "QuickDraw"@.len());
            assert("Unfurl"@.len() != "RampDown"@.len());
            assert("Unfurl"@[0] != "RampUp"@[0]);
            assert("Unfurl"@.len() != "Reluctant"@.len());
            assert("Unfurl"@.len() != "Silk"@.len());
            assert("Unfurl"@.len() != "SlowBurn"@.len());
            assert("Unfurl"@.len() != "Switchback"@.len());
            assert("Unfurl"@.len() != "Trampoline"@.len());
        },
        TransitionShape::SCurveSharp => {
            assert("Whiplash"@.len() != "Caffeinated"@.len());
            assert("Whiplash"@[0] != "Catapult"@[0]);
            assert("Whiplash"@.len() != "ChunkWedge"@.len());
            assert("Whiplash"@[0] != "Coasting"@[0]);
            assert("Whiplash"@[0] != "DiceRoll"@[0]);
            assert("Whiplash"@.len() != "EagerBeaver"@.len());
            assert("Whiplash"@[0] != "Foothill"@[0]);
            assert("Whiplash"@[0] != "Freefall"@[0]);
            assert("Whiplash"@.len() != "Guillotine"@.len());
            assert("Whiplash"@.len() != "Jitters"@.len());
            assert("Whiplash"@.len() != "LazyLanding"@.len());
            assert("Whiplash"@[0] != "LongTail"@[0]);
            assert("Whiplash"@[0] != "Molasses"@[0]);
            assert("Whiplash"@.len() != "Overshoot"@.len());
            assert("Whiplash"@.len() != "QuickDraw"@.len());
            assert("Whiplash"@[0] != "RampDown"@[0]);
            assert("Whiplash"@.len() != "RampUp"@.len());
            assert("Whiplash"@.len() != "Reluctant"@.len());
            assert("Whiplash"@.len() != "Silk"@.len());
            assert("Whiplash"@[0] != "SlowBurn"@[0]);
            assert("Whiplash"@.len() != "Switchback"@.len());
            assert("Whiplash"@.len() != "Trampoline"@.len());
            assert("Whiplash"@.len() != "Unfurl"@.len());
        },
    }
}

} // verus!

verus! {

/// A transition between two values over a number of samples, shaped by
/// a `TransitionShape`. The shaped value at each step is computed by
/// the caller from `progress()` (the shape curve is floating point);
/// the interpolator owns the sample clock and the lifecycle: it runs
/// for exactly the transition's duration, then holds the end value.
pub struct ShapeInterpolator<V> {
    shape: TransitionShape,
    start_value: V,
    end_value: V,
    duration_samples: u32,
    position: u32,
    active: bool,
    current_value: V,
}

impl<V: Copy> ShapeInterpolator<V> {
    /// The shape in use.
    pub closed spec fn shape_view(&self) -> TransitionShape {
        self.shape
    }

    /// Whether a transition is running.
    pub closed spec fn running(&self) -> bool {
        self.active
    }

    /// The value last produced.
    pub closed spec fn current(&self) -> V {
        self.current_value
    }

    /// The value the running (or last) transition ends at.
    pub closed spec fn target(&self) -> V {
        self.end_value
    }

    /// The value the running transition started from.
    pub closed spec fn origin(&self) -> V {
        self.start_value
    }

    /// Samples already produced by the running transition.
    pub closed spec fn elapsed(&self) -> nat {
        self.position as nat
    }

    /// Length of the running transition, in samples.
    pub closed spec fn length(&self) -> nat {
        self.duration_samples as nat
    }

    /// A running transition has produced fewer samples than its length,
    /// which is at least one.
    pub closed spec fn wf(&self) -> bool {
        &&& self.duration_samples >= 1
        &&& (self.active ==> self.position < self.duration_samples)
    }

    /// An idle interpolator with the given shape, holding `value`.
    pub fn new(shape: TransitionShape, value: V) -> (r: Self)
        ensures
            r.wf(),
            r.shape_view() == shape,
            !r.running(),
            r.current() == value,
            r.target() == value,
            r.origin() == value,
    {
        ShapeInterpolator {
            shape,
            start_value: value,
            end_value: value,
            duration_samples: 1,
            position: 0,
            active: false,
            current_value: value,
        }
    }

    /// Starts a transition from `from` to `to` over `duration_samples`
    /// samples (at least one).
    pub fn start_transition(&mut self, from: V, to: V, duration_samples: u32)
        ensures
            final(self).wf(),
            final(self).running(),
            final(self).origin() == from,
            final(self).target() == to,
            final(self).current() == from,
            final(self).elapsed() == 0,
            final(self).length() == (if duration_samples < 1 {
                1
            } else {
                duration_samples
            }),
            final(self).shape_view() == old(self).shape_view(),
    {
        self.start_value = from;
        self.end_value = to;
        self.duration_samples = if duration_samples < 1 {
            1
        } else {
            duration_samples
        };
        self.position = 0;
        self.active = true;
        self.current_value = from;
    }

    /// Starts a transition with a new shape.
    pub fn start_transition_with_shape(&mut self, from: V, to: V, duration_samples: u32, shape: TransitionShape)
        ensures
            final(self).wf(),
            final(self).running(),
            final(self).origin() == from,
            final(self).target() == to,
            final(self).current() == from,
            final(self).elapsed() == 0,
            final(self).length() == (if duration_samples < 1 {
                1
            } else {
                duration_samples
            }),
            final(self).shape_view() == shape,
    {
        self.shape = shape;
        self.start_transition(from, to, duration_samples);
    }

    /// Where the running transition stands: (samples produced, length).
    /// The next shaped value is the shape applied at
    /// `produced / length` between the origin and the target.
    pub fn progress(&self) -> (p: Option<(u32, u32)>)
        ensures
            p == (if self.running() {
                Some((self.elapsed() as u32, self.length() as u32))
            } else {
                None::<(u32, u32)>
            }),
    {
        if self.active {
            Some((self.position, self.duration_samples))
        } else {
            None
        }
    }

    /// Advances one sample. `shaped` is the shaped value for the
    /// position `progress()` reported. While running, the value becomes
    /// `shaped`, except on the last sample, where it becomes the
    /// target and the transition ends. When idle the value holds.
    pub fn process(&mut self, shaped: V) -> (v: V)
        requires
            old(self).wf(),
        ensures
            final(self).wf(),
            v == final(self).current(),
            final(self).target() == old(self).target(),
            final(self).origin() == old(self).origin(),
            final(self).length() == old(self).length(),
            final(self).shape_view() == old(self).shape_view(),
            (final(self).running(), final(self).elapsed(), final(self).current()) == interp_step(
                (old(self).running(), old(self).elapsed(), old(self).current()),
                old(self).length(),
                old(self).target(),
                shaped,
            ),
            !old(self).running() ==> final(self).current() == old(self).current() && !final(self).running()
                && final(self).elapsed() == old(self).elapsed(),
            old(self).running() ==> final(self).elapsed() == old(self).elapsed() + 1 && final(self).running()
                == (old(self).elapsed() + 1 < old(self).length()) && final(self).current() == (if old(
                self,
            ).elapsed() + 1 < old(self).length() {
                shaped
            } else {
                old(self).target()
            }),
    {
        if !self.active {
            return self.current_value;
        }
        self.current_value = shaped;
        self.position = self.position + 1;
        if self.position >= self.duration_samples {
            self.active = false;
            self.current_value = self.end_value;
        }
        self.current_value
    }

    /// Whether a transition is running.
    pub fn is_active(&self) -> (b: bool)
        ensures
            b == self.running(),
    {
        self.active
    }

    /// The current value.
    pub fn value(&self) -> (v: V)
        ensures
            v == self.current(),
    {
        self.current_value
    }

    /// The origin of the running transition.
    pub fn start_value(&self) -> (v: V)
        ensures
            v == self.origin(),
    {
        self.start_value
    }

    /// The target of the running transition.
    pub fn end_value(&self) -> (v: V)
        ensures
            v == self.target(),
    {
        self.end_value
    }

    /// Jumps to `value` and cancels any running transition.
    pub fn set_value(&mut self, value: V)
        requires
            old(self).wf(),
        ensures
            final(self).wf(),
            !final(self).running(),
            final(self).current() == value,
            final(self).target() == value,
            final(self).shape_view() == old(self).shape_view(),
    {
        self.current_value = value;
        self.end_value = value;
        self.active = false;
    }

    /// Sets the shape used by later transitions.
    pub fn set_shape(&mut self, shape: TransitionShape)
        requires
            old(self).wf(),
        ensures
            final(self).wf(),
            final(self).shape_view() == shape,
            final(self).running() == old(self).running(),
            final(self).current() == old(self).current(),
            final(self).target() == old(self).target(),
            final(self).elapsed() == old(self).elapsed(),
    {
        self.shape = shape;
    }

    /// The shape in use.
    pub fn shape(&self) -> (s: TransitionShape)
        ensures
            s == self.shape_view(),
    {
        self.shape
    }
}

/// One sample of an interpolator seen as (running, produced, value):
/// an idle one holds; a running one takes `shaped`, or the target on
/// its last sample, when it stops.
pub open spec fn interp_step<V>(state: (bool, nat, V), length: nat, target: V, shaped: V) -> (bool, nat, V) {
    let (running, produced, value) = state;
    if !running {
        state
    } else if produced + 1 < length {
        (true, produced + 1, shaped)
    } else {
        (false, produced + 1, target)
    }
}

/// The interpolator state after one sample per element of `shaped`,
/// taken in order.
pub open spec fn interp_run<V>(state: (bool, nat, V), length: nat, target: V, shaped: Seq<V>) -> (bool, nat, V)
    decreases shaped.len(),
{
    if shaped.len() == 0 {
        state
    } else {
        interp_step(interp_run(state, length, target, shaped.drop_last()), length, target, shaped.last())
    }
}

/// Law: a transition started over `length >= 1` samples is running
/// for exactly `length` samples; then it has stopped, holds the target,
/// and further samples change nothing. Before the end, its value is the
/// last shaped value it was given.
pub proof fn lemma_transition_runs_exactly_its_length<V>(length: nat, from: V, target: V, shaped: Seq<V>)
    requires
        length >= 1,
    ensures
        ({
            let (running, produced, value) = interp_run((true, 0nat, from), length, target, shaped);
            &&& running == (shaped.len() < length)
            &&& produced == (if shaped.len() < length { shaped.len() } else { length })
            &&& shaped.len() >= length ==> value == target
            &&& 0 < shaped.len() < length ==> value == shaped.last()
        }),
    decreases shaped.len(),
{
    if shaped.len() > 0 {
        lemma_transition_runs_exactly_its_length(length, from, target, shaped.drop_last());
    }
}

} // verus!
