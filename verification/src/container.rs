//! Container kinds: the closed set of file collections a title can have.

use vstd::prelude::*;
use crate::text::{eq_ignore_ascii_case, lower_text, upper_text};

verus! {

/// A kind of container under a title.
#[derive(Clone, Copy, Debug, PartialEq, Eq, Structural)]
pub enum Container {
    SAVE,
    EXTDATA,
}

/// The canonical upper-case name of a kind.
pub open spec fn kind_name(c: Container) -> Seq<char> {
    match c {
        Container::SAVE => seq!['S', 'A', 'V', 'E'],
        Container::EXTDATA => seq!['E', 'X', 'T', 'D', 'A', 'T', 'A'],
    }
}

/// The directory name of a kind: its name in lower case.
pub open spec fn kind_dir_name(c: Container) -> Seq<char> {
    match c {
        Container::SAVE => seq!['s', 'a', 'v', 'e'],
        Container::EXTDATA => seq!['e', 'x', 't', 'd', 'a', 't', 'a'],
    }
}

/// The kind a text names, letter case ignored, if it names one.
pub open spec fn parse_kind(s: Seq<char>) -> Option<Container> {
    if upper_text(s) == kind_name(Container::SAVE) {
        Some(Container::SAVE)
    } else if upper_text(s) == kind_name(Container::EXTDATA) {
        Some(Container::EXTDATA)
    } else {
        None
    }
}

impl Container {
    /// Reads a kind from its name, ignoring letter case. Any other text is
    /// refused.
    pub fn from_str(s: &str) -> (r: Option<Container>)
        ensures
            r == parse_kind(s@),
    {
        proof {
            reveal_strlit("SAVE");
            reveal_strlit("EXTDATA");
            assert(upper_text("SAVE"@) =~= kind_name(Container::SAVE));
            assert(upper_text("EXTDATA"@) =~= kind_name(Container::EXTDATA));
        }
        if eq_ignore_ascii_case(s, "SAVE") {
            Some(Container::SAVE)
        } else if eq_ignore_ascii_case(s, "EXTDATA") {
            Some(Container::EXTDATA)
        } else {
            None
        }
    }

    /// The canonical upper-case name.
    pub fn to_string(&self) -> (r: String)
        ensures
            r@ == kind_name(*self),
    {
        proof {
            reveal_strlit("SAVE");
            reveal_strlit("EXTDATA");
            assert("SAVE"@ =~= kind_name(Container::SAVE));
            assert("EXTDATA"@ =~= kind_name(Container::EXTDATA));
        }
        match self {
            Container::SAVE => String::from_str("SAVE"),
            Container::EXTDATA => String::from_str("EXTDATA"),
        }
    }

    /// The name of the kind's directory on disk.
    pub fn dir_name(&self) -> (r: String)
        ensures
            r@ == kind_dir_name(*self),
    {
        proof {
            reveal_strlit("save");
            reveal_strlit("extdata");
            assert("save"@ =~= kind_dir_name(Container::SAVE));
            assert("extdata"@ =~= kind_dir_name(Container::EXTDATA));
        }
        match self {
            Container::SAVE => String::from_str("save"),
            Container::EXTDATA => String::from_str("extdata"),
        }
    }
}

/// The directory name of a kind is its canonical name in lower case, and
/// reading either form gives the kind back.
pub proof fn lemma_kind_names_round_trip(c: Container)
    ensures
        kind_dir_name(c) == lower_text(kind_name(c)),
        parse_kind(kind_name(c)) == Some(c),
        parse_kind(kind_dir_name(c)) == Some(c),
{
    assert(kind_dir_name(c) =~= lower_text(kind_name(c)));
    assert(upper_text(kind_name(Container::SAVE)) =~= kind_name(Container::SAVE));
    assert(upper_text(kind_name(Container::EXTDATA)) =~= kind_name(Container::EXTDATA));
    assert(upper_text(kind_dir_name(Container::SAVE)) =~= kind_name(Container::SAVE));
    assert(upper_text(kind_dir_name(Container::EXTDATA)) =~= kind_name(Container::EXTDATA));
    assert(kind_name(Container::SAVE).len() != kind_name(Container::EXTDATA).len());
}

} // verus!
