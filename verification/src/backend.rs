//! The representation that a result is materialised in.
use vstd::prelude::*;
use vstd::string::StringExecFns;

verus! {

/// The target of materialisation: a flat sequence, an n-dimensional array
/// in one of two host styles, or a column of a dataframe.
#[derive(Clone, Copy, Debug, PartialEq, Eq, Structural)]
pub enum Backend {
    Vec,
    Numpy,
    Pandas,
    Polars,
}

impl Default for Backend {
    /// The flat sequence.
    fn default() -> (r: Self)
        ensures
            r == Backend::Vec,
    {
        Backend::Vec
    }
}

impl Backend {
    /// The backend that an alias names, `None` for a word that names none.
    pub open spec fn spec_from_alias(s: Seq<char>) -> Option<Backend> {
        if s == "vec"@ || s == "list"@ {
            Some(Backend::Vec)
        } else if s == "numpy"@ || s == "np"@ {
            Some(Backend::Numpy)
        } else if s == "pandas"@ || s == "pd"@ {
            Some(Backend::Pandas)
        } else {
            None
        }
    }

    /// Reads a backend from its alias: `vec` or `list`, `numpy` or `np`,
    /// `pandas` or `pd`. The dataframe backend has no alias.
    pub fn from_alias(s: &str) -> (r: Option<Backend>)
        ensures
            r == Self::spec_from_alias(s@),
    {
        let word = String::from_str(s);
        if word == String::from_str("vec") || word == String::from_str("list") {
            Some(Backend::Vec)
        } else if word == String::from_str("numpy") || word == String::from_str("np") {
            Some(Backend::Numpy)
        } else if word == String::from_str("pandas") || word == String::from_str("pd") {
            Some(Backend::Pandas)
        } else {
            None
        }
    }

    /// Whether results for this backend are arrays.
    pub open spec fn spec_is_array(self) -> bool {
        self == Backend::Numpy || self == Backend::Pandas
    }

    #[verifier::when_used_as_spec(spec_is_array)]
    pub fn is_array(self) -> (r: bool)
        ensures
            r == self.spec_is_array(),
    {
        matches!(self, Backend::Numpy | Backend::Pandas)
    }
}

} // verus!
