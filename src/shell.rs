use vstd::prelude::*;

verus! {

/// Shells for which a completion script can be generated.
#[derive(Debug, Clone, Copy, PartialEq, Eq)]
pub enum Shell {
    Fish,
}

impl Shell {
    /// The shell's name.
    pub open spec fn spec_name(self) -> Seq<char> {
        match self {
            Shell::Fish => "fish"@,
        }
    }

    /// Parses a shell name; only `fish` is known.
    pub fn from_name(s: &str) -> (r: Option<Shell>)
        ensures
            r == (if s@ == "fish"@ {
                Some(Shell::Fish)
            } else {
                None
            }),
    {
        let given = String::from_str(s);
        let fish = String::from_str("fish");
        if given == fish {
            Some(Shell::Fish)
        } else {
            None
        }
    }

    /// The shell's name.
    pub fn name(&self) -> (r: String)
        ensures
            r@ == self.spec_name(),
    {
        match self {
            Shell::Fish => String::from_str("fish"),
        }
    }
}

} // verus!
