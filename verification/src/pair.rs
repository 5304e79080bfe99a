//! A key with its value, and the line that stores them.

use vstd::prelude::*;
use vstd::string::StringExecFns;

verus! {

/// A key and the value stored under it.
#[derive(Debug, PartialEq, Eq)]
pub struct EnvPair {
    pub key: String,
    pub value: String,
}

/// The mathematical content of an `EnvPair`.
pub struct PairView {
    pub key: Seq<char>,
    pub value: Seq<char>,
}

impl View for EnvPair {
    type V = PairView;

    open spec fn view(&self) -> PairView {
        PairView { key: self.key@, value: self.value@ }
    }
}

impl DeepView for EnvPair {
    type V = PairView;

    open spec fn deep_view(&self) -> PairView {
        self@
    }
}

impl PairView {
    /// A key holds no `=`: the first `=` of a line ends the key.
    pub open spec fn wf(self) -> bool {
        !self.key.contains('=')
    }

    /// The line that stores the pair: the key, `=`, the value.
    pub open spec fn line(self) -> Seq<char> {
        self.key + seq!['='] + self.value
    }
}

impl EnvPair {
    /// The line that stores this pair.
    pub fn to_line(&self) -> (line: String)
        ensures
            line@ == self@.line(),
    {
        proof {
            reveal_strlit("=");
        }
        self.key.clone().concat("=").concat(self.value.as_str())
    }
}

} // verus!
