//! The pictures that a front end shows, and where their files lie.

use vstd::prelude::*;

verus! {

/// A picture of the game.
#[derive(Clone, Copy, Debug, PartialEq, Eq, Hash, Structural)]
pub enum Icon {
    Bomb,
    Dead,
    Fire,
    Flag,
    Happy,
    Party,
}

impl Icon {
    /// The path of the picture's file.
    pub open spec fn path(self) -> Seq<char> {
        match self {
            Icon::Bomb => "resources/icons/1F4A3_color.png"@,
            Icon::Dead => "resources/icons/1F635_color.png"@,
            Icon::Fire => "resources/icons/1F525_color.png"@,
            Icon::Flag => "resources/icons/E091_color.png"@,
            Icon::Happy => "resources/icons/1F600_color.png"@,
            Icon::Party => "resources/icons/1F973_color.png"@,
        }
    }

    /// The path of the picture's file.
    pub fn resource(&self) -> (path: &'static str)
        ensures
            path@ == self.path(),
    {
        match self {
            Icon::Bomb => "resources/icons/1F4A3_color.png",
            Icon::Dead => "resources/icons/1F635_color.png",
            Icon::Fire => "resources/icons/1F525_color.png",
            Icon::Flag => "resources/icons/E091_color.png",
            Icon::Happy => "resources/icons/1F600_color.png",
            Icon::Party => "resources/icons/1F973_color.png",
        }
    }
}

/// The pictures in the order in which a front end loads them.
pub open spec fn all_icons() -> Seq<Icon> {
    seq![Icon::Bomb, Icon::Dead, Icon::Fire, Icon::Flag, Icon::Happy, Icon::Party]
}

/// Every picture with the path of its file.
pub fn k_v() -> (pairs: Vec<(Icon, &'static str)>)
    ensures
        pairs.len() == all_icons().len(),
        forall|i: int|
            0 <= i < pairs.len() ==> (#[trigger] pairs[i]).0 == all_icons()[i] && pairs[i].1@
                == all_icons()[i].path(),
{
    let mut pairs: Vec<(Icon, &'static str)> = Vec::new();
    pairs.push((Icon::Bomb, Icon::Bomb.resource()));
    pairs.push((Icon::Dead, Icon::Dead.resource()));
    pairs.push((Icon::Fire, Icon::Fire.resource()));
    pairs.push((Icon::Flag, Icon::Flag.resource()));
    pairs.push((Icon::Happy, Icon::Happy.resource()));
    pairs.push((Icon::Party, Icon::Party.resource()));
    pairs
}

} // verus!
