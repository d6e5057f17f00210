use vstd::prelude::*;

use crate::text::str_equal;

verus! {

/// One of the fixed set of build configurations this system produces.
#[derive(Clone, Copy, Debug, PartialEq, Eq, Structural)]
pub enum Target {
    Alurya,
    Gilarabrywn,
    Esrahaddon,
}

/// The identifier under which a target is requested and built.
pub open spec fn target_name(t: Target) -> Seq<char> {
    match t {
        Target::Alurya => "alurya"@,
        Target::Gilarabrywn => "gilarabrywn"@,
        Target::Esrahaddon => "esrahaddon"@,
    }
}

/// The target whose name is `s`, if there is one.
pub open spec fn target_named(s: Seq<char>) -> Option<Target> {
    if s == "alurya"@ {
        Some(Target::Alurya)
    } else if s == "gilarabrywn"@ {
        Some(Target::Gilarabrywn)
    } else if s == "esrahaddon"@ {
        Some(Target::Esrahaddon)
    } else {
        None
    }
}

/// Directory that receives the target's source snapshot.
pub open spec fn input_dir_of(t: Target) -> Seq<char> {
    target_name(t) + "/in"@
}

/// Directory in which the build tool leaves the target's output.
pub open spec fn output_dir_of(t: Target) -> Seq<char> {
    target_name(t) + "/out"@
}

/// Every target, in the order in which a rebuild enqueues them.
pub open spec fn all_targets() -> Seq<Target> {
    seq![Target::Alurya, Target::Gilarabrywn, Target::Esrahaddon]
}

impl Target {
    pub fn name(self) -> (r: &'static str)
        ensures
            r@ == target_name(self),
    {
        match self {
            Target::Alurya => "alurya",
            Target::Gilarabrywn => "gilarabrywn",
            Target::Esrahaddon => "esrahaddon",
        }
    }

    pub fn input_dir(self) -> (r: &'static str)
        ensures
            r@ == input_dir_of(self),
    {
        proof {
            reveal_strlit("/in");
            reveal_strlit("alurya");
            reveal_strlit("gilarabrywn");
            reveal_strlit("esrahaddon");
        }
        match self {
            Target::Alurya => {
                proof { reveal_strlit("alurya/in"); }
                assert("alurya/in"@ =~= "alurya"@ + "/in"@);
                "alurya/in"
            },
            Target::Gilarabrywn => {
                proof { reveal_strlit("gilarabrywn/in"); }
                assert("gilarabrywn/in"@ =~= "gilarabrywn"@ + "/in"@);
                "gilarabrywn/in"
            },
            Target::Esrahaddon => {
                proof { reveal_strlit("esrahaddon/in"); }
                assert("esrahaddon/in"@ =~= "esrahaddon"@ + "/in"@);
                "esrahaddon/in"
            },
        }
    }

    pub fn output_dir(self) -> (r: &'static str)
        ensures
            r@ == output_dir_of(self),
    {
        proof {
            reveal_strlit("/out");
            reveal_strlit("alurya");
            reveal_strlit("gilarabrywn");
            reveal_strlit("esrahaddon");
        }
        match self {
            Target::Alurya => {
                proof { reveal_strlit("alurya/out"); }
                assert("alurya/out"@ =~= "alurya"@ + "/out"@);
                "alurya/out"
            },
            Target::Gilarabrywn => {
                proof { reveal_strlit("gilarabrywn/out"); }
                assert("gilarabrywn/out"@ =~= "gilarabrywn"@ + "/out"@);
                "gilarabrywn/out"
            },
            Target::Esrahaddon => {
                proof { reveal_strlit("esrahaddon/out"); }
                assert("esrahaddon/out"@ =~= "esrahaddon"@ + "/out"@);
                "esrahaddon/out"
            },
        }
    }

    /// The target whose name is `s`, if any.
    pub fn from_name(s: &str) -> (r: Option<Target>)
        ensures
            r == target_named(s@),
    {
        if str_equal(s, "alurya") {
            Some(Target::Alurya)
        } else if str_equal(s, "gilarabrywn") {
            Some(Target::Gilarabrywn)
        } else if str_equal(s, "esrahaddon") {
            Some(Target::Esrahaddon)
        } else {
            None
        }
    }

    /// The targets a rebuild covers, in order.
    pub fn all() -> (r: Vec<Target>)
        ensures
            r@ == all_targets(),
    {
        let r = vec![Target::Alurya, Target::Gilarabrywn, Target::Esrahaddon];
        assert(r@ =~= all_targets());
        r
    }
}

} // verus!
