//! Caller privilege tiers, gating which command trees a caller may trigger.

use vstd::prelude::*;

use crate::text::str_eq;

verus! {

/// A caller's privilege tier, in ascending order of authority.
#[derive(Debug, Clone, Copy, PartialEq, Eq, Structural)]
pub enum AuthorityLevel {
    Viewer,
    Subscriber,
    Moderator,
    Broadcaster,
    /// The host machine running the bot.
    Host,
}

/// The authority conferred by one badge name.
pub open spec fn spec_from_badge(name: Seq<char>) -> AuthorityLevel {
    if name == "subscriber"@ {
        AuthorityLevel::Subscriber
    } else if name == "broadcaster"@ {
        AuthorityLevel::Broadcaster
    } else if name == "moderator"@ {
        AuthorityLevel::Moderator
    } else {
        AuthorityLevel::Viewer
    }
}

/// The authority conferred by a list of badge names: the highest tier among
/// them, `Viewer` when there is none.
pub open spec fn spec_from_badges(names: Seq<Seq<char>>) -> AuthorityLevel
    decreases names.len(),
{
    if names.len() == 0 {
        AuthorityLevel::Viewer
    } else {
        spec_max(spec_from_badges(names.drop_last()), spec_from_badge(names.last()))
    }
}

/// The higher of two authority tiers.
pub open spec fn spec_max(a: AuthorityLevel, b: AuthorityLevel) -> AuthorityLevel {
    if a.spec_rank() >= b.spec_rank() {
        a
    } else {
        b
    }
}

impl AuthorityLevel {
    /// The tier's position in the ascending order.
    pub open spec fn spec_rank(self) -> int {
        match self {
            AuthorityLevel::Viewer => 0,
            AuthorityLevel::Subscriber => 1,
            AuthorityLevel::Moderator => 2,
            AuthorityLevel::Broadcaster => 3,
            AuthorityLevel::Host => 4,
        }
    }

    /// The tier's position in the ascending order.
    pub fn rank(&self) -> (r: u8)
        ensures
            r as int == self.spec_rank(),
    {
        match self {
            AuthorityLevel::Viewer => 0,
            AuthorityLevel::Subscriber => 1,
            AuthorityLevel::Moderator => 2,
            AuthorityLevel::Broadcaster => 3,
            AuthorityLevel::Host => 4,
        }
    }

    /// The authority conferred by one badge name.
    pub fn from_badge(name: &str) -> (r: Self)
        ensures
            r == spec_from_badge(name@),
    {
        if str_eq(name, "subscriber") {
            AuthorityLevel::Subscriber
        } else if str_eq(name, "broadcaster") {
            AuthorityLevel::Broadcaster
        } else if str_eq(name, "moderator") {
            AuthorityLevel::Moderator
        } else {
            AuthorityLevel::Viewer
        }
    }

    /// The highest authority conferred by any of the badge names.
    pub fn from_badges(names: &Vec<String>) -> (r: Self)
        ensures
            r == spec_from_badges(names.deep_view()),
    {
        let mut level = AuthorityLevel::Viewer;
        let mut i: usize = 0;
        while i < names.len()
            invariant
                i <= names@.len(),
                level == spec_from_badges(names.deep_view().take(i as int)),
            decreases names@.len() - i,
        {
            let badge_level = Self::from_badge(names[i].as_str());
            if badge_level.rank() > level.rank() {
                level = badge_level;
            }
            proof {
                let dv = names.deep_view();
                assert(dv.take(i + 1).drop_last() =~= dv.take(i as int));
                assert(dv.take(i + 1).last() == dv[i as int]);
            }
            i += 1;
        }
        proof {
            assert(names.deep_view().take(names@.len() as int) =~= names.deep_view());
        }
        level
    }
}

} // verus!
