use vstd::prelude::*;

verus! {

pub const BEACON: &'static str = "* * . .\n* . . *\n. . * *\n";

pub const BEEHIVE: &'static str = ". * * .\n* . . *\n. * * .\n";

pub const BLINKER: &'static str = "* * *\n";

pub const BLOCK: &'static str = "* *\n* *\n";

pub const BOAT: &'static str = "* * .\n* . *\n. * .\n";

pub const GLIDER: &'static str = "* * *\n. . *\n. * .\n";

pub const GOSPER_GLIDER_GUN: &'static str =
    ". . . . . . . . . . . . . . . . . . . . . . . . * . . . . . . . . . . .\n. . . . . . . . . . . . . . . . . . . . . . * . * . . . . . . . . . . .\n. . . . . . . . . . . . * * . . . . . . * * . . . . . . . . . . . . * *\n. . . . . . . . . . . * . . . * . . . . * * . . . . . . . . . . . . * *\n* * . . . . . . . . * . . . . . * . . . * * . . . . . . . . . . . . . .\n* * . . . . . . . . * . . . * . * * . . . . * . * . . . . . . . . . . .\n. . . . . . . . . . * . . . . . * . . . . . . . * . . . . . . . . . . .\n. . . . . . . . . . . * . . . * . . . . . . . . . . . . . . . . . . . .\n. . . . . . . . . . . . * * . . . . . . . . . . . . . . . . . . . . . .\n";

pub const LOAF: &'static str = ". * * .\n* . . *\n. * . *\n. . * .\n";

pub const PENTA_DECATHLON: &'static str = "* * *\n* . *\n* * *\n* * *\n* * *\n* . *\n* * *\n";

pub const PULSAR: &'static str =
    ". . * * * . . . * * * . .\n. . . . . . . . . . . . .\n* . . . . * . * . . . . *\n* . . . . * . * . . . . *\n* . . . . * . * . . . . *\n. . * * * . . . * * * . .\n. . . . . . . . . . . . .\n. . * * * . . . * * * . .\n* . . . . * . * . . . . *\n* . . . . * . * . . . . *\n* . . . . * . * . . . . *\n. . . . . . . . . . . . .\n. . * * * . . . * * * . .\n";

pub const SPACESHIP_LIGHTWEIGHT: &'static str = "* . . * .\n. . . . *\n* . . . *\n. * * * *\n";

pub const TOAD: &'static str = ". * * *\n* * * .\n";

pub const TUB: &'static str = ". * .\n* . *\n. * .\n";

/// The patterns that come with the library.
#[derive(Clone, Copy, Debug, PartialEq, Eq, Structural)]
pub enum Pattern {
    Beacon,
    Beehive,
    Blinker,
    Block,
    Boat,
    Glider,
    GosperGliderGun,
    Loaf,
    PentaDecathlon,
    Pulsar,
    SpaceshipLightweight,
    Toad,
    Tub,
}

impl Pattern {
    /// The pattern text of each pattern.
    pub open spec fn text(self) -> Seq<char> {
        match self {
            Pattern::Beacon => BEACON@,
            Pattern::Beehive => BEEHIVE@,
            Pattern::Blinker => BLINKER@,
            Pattern::Block => BLOCK@,
            Pattern::Boat => BOAT@,
            Pattern::Glider => GLIDER@,
            Pattern::GosperGliderGun => GOSPER_GLIDER_GUN@,
            Pattern::Loaf => LOAF@,
            Pattern::PentaDecathlon => PENTA_DECATHLON@,
            Pattern::Pulsar => PULSAR@,
            Pattern::SpaceshipLightweight => SPACESHIP_LIGHTWEIGHT@,
            Pattern::Toad => TOAD@,
            Pattern::Tub => TUB@,
        }
    }

    pub fn cells_str(&self) -> (text: &'static str)
        ensures
            text@ == self.text(),
    {
        match self {
            Pattern::Beacon => BEACON,
            Pattern::Beehive => BEEHIVE,
            Pattern::Blinker => BLINKER,
            Pattern::Block => BLOCK,
            Pattern::Boat => BOAT,
            Pattern::Glider => GLIDER,
            Pattern::GosperGliderGun => GOSPER_GLIDER_GUN,
            Pattern::Loaf => LOAF,
            Pattern::PentaDecathlon => PENTA_DECATHLON,
            Pattern::Pulsar => PULSAR,
            Pattern::SpaceshipLightweight => SPACESHIP_LIGHTWEIGHT,
            Pattern::Toad => TOAD,
            Pattern::Tub => TUB,
        }
    }
}

} // verus!
