//! Version control systems known to the library.

use vstd::prelude::*;

verus! {

/// Error returned when a string is not the lower-case name of a known VCS.
#[derive(Debug, Clone, Copy, PartialEq, Eq)]
pub struct VcsParseError;

/// VCS type.
///
/// Variants are declared in the alphabetical order of their names, so the
/// derived order compares VCS types by `name_lower()`.
#[derive(Debug, Clone, Copy, PartialEq, Eq, PartialOrd, Ord, Hash, Structural)]
#[non_exhaustive]
pub enum Vcs {
    /// Git.
    Git,
}

/// The lower-case name of a VCS.
pub open spec fn vcs_name(v: Vcs) -> Seq<char> {
    match v {
        Vcs::Git => seq!['g', 'i', 't'],
    }
}

/// Every VCS type, in alphabetical order of their names.
pub open spec fn all_vcs() -> Seq<Vcs> {
    seq![Vcs::Git]
}

impl Vcs {
    /// Returns the VCS name in lower case.
    pub fn name_lower(&self) -> (r: &'static str)
        ensures
            r@ == vcs_name(*self),
    {
        proof {
            reveal_strlit("git");
            assert("git"@ =~= vcs_name(Vcs::Git));
        }
        match self {
            Vcs::Git => "git",
        }
    }

    /// Parses the VCS name in lower case.
    pub fn try_from_name_lower(s: &str) -> (r: Result<Vcs, VcsParseError>)
        ensures
            match r {
                Ok(v) => vcs_name(v) == s@,
                Err(_) => forall|v: Vcs| vcs_name(v) != s@,
            },
    {
        proof {
            reveal_strlit("git");
            assert("git"@ =~= vcs_name(Vcs::Git));
        }
        if crate::text::str_eq(s, "git") {
            Ok(Vcs::Git)
        } else {
            Err(VcsParseError)
        }
    }

    /// Returns the sequence of all VCS types.
    pub fn variants() -> (r: VcsVariants)
        ensures
            r@ == all_vcs(),
    {
        VcsVariants { next: Some(Vcs::Git) }
    }
}

impl std::str::FromStr for Vcs {
    type Err = VcsParseError;

    /// Parses the VCS name in lower case.
    fn from_str(s: &str) -> Result<Vcs, VcsParseError> {
        Vcs::try_from_name_lower(s)
    }
}

impl<'a> TryFrom<&'a str> for Vcs {
    type Error = VcsParseError;

    /// Parses the VCS name in lower case.
    fn try_from(s: &'a str) -> Result<Vcs, VcsParseError> {
        let r = Vcs::try_from_name_lower(s);
        proof {
            match r {
                Ok(v) => {
                    assert(v == Vcs::Git);
                },
                Err(e) => {
                    assert(vcs_name(Vcs::Git) != s@);
                    assert(e == VcsParseError);
                },
            }
        }
        r
    }
}

impl<'a> vstd::std_specs::convert::TryFromSpecImpl<&'a str> for Vcs {
    open spec fn obeys_try_from_spec() -> bool {
        true
    }

    open spec fn try_from_spec(s: &'a str) -> Result<Vcs, VcsParseError> {
        if s@ == vcs_name(Vcs::Git) {
            Ok(Vcs::Git)
        } else {
            Err(VcsParseError)
        }
    }
}

/// The variants of `Vcs` that are still to come.
#[derive(Debug, Clone)]
pub struct VcsVariants {
    /// Next variant.
    next: Option<Vcs>,
}

impl View for VcsVariants {
    type V = Seq<Vcs>;

    closed spec fn view(&self) -> Seq<Vcs> {
        match self.next {
            Some(Vcs::Git) => seq![Vcs::Git],
            None => Seq::empty(),
        }
    }
}

impl VcsVariants {
    /// Returns the variant that `next()` would return, without advancing.
    pub fn peek(&mut self) -> (r: Option<Vcs>)
        ensures
            *final(self) == *old(self),
            r == (if old(self)@.len() > 0 { Some(old(self)@[0]) } else { None::<Vcs> }),
    {
        self.next
    }

    /// Returns the next variant and advances.
    pub fn next(&mut self) -> (r: Option<Vcs>)
        ensures
            old(self)@.len() > 0 ==> r == Some(old(self)@[0]) && final(self)@
                == old(self)@.drop_first(),
            old(self)@.len() == 0 ==> r is None && final(self)@ == old(self)@,
    {
        let current = self.next;
        match current {
            Some(Vcs::Git) => {
                self.next = None;
            },
            None => {},
        }
        current
    }

    /// Returns the number of variants still to come.
    pub fn len(&self) -> (r: usize)
        ensures
            r == self@.len(),
    {
        match self.next {
            Some(_) => 1,
            None => 0,
        }
    }
}

} // verus!
