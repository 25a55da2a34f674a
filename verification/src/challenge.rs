//! The challenges and languages a player can pick.

use vstd::prelude::*;
use vstd::string::StringExecFns;

verus! {

/// A challenge of the game; `Unselected` stands for "nothing chosen".
#[derive(Clone, Copy, PartialEq, Eq, Structural, Debug, Hash)]
pub enum Challenges {
    C2331,
    C2332,
    C2333,
    Unselected,
}

impl Challenges {
    /// The challenge's name as the server's paths spell it.
    pub open spec fn label_spec(self) -> Seq<char> {
        match self {
            Challenges::C2331 => "2331"@,
            Challenges::C2332 => "2332"@,
            Challenges::C2333 => "2333"@,
            Challenges::Unselected => "None"@,
        }
    }

    pub fn label(self) -> (text: String)
        ensures
            text@ == self.label_spec(),
    {
        match self {
            Challenges::C2331 => String::from_str("2331"),
            Challenges::C2332 => String::from_str("2332"),
            Challenges::C2333 => String::from_str("2333"),
            Challenges::Unselected => String::from_str("None"),
        }
    }

    /// Every challenge, in the order in which a panel lists them.
    pub open spec fn all_spec() -> Seq<Challenges> {
        seq![Challenges::C2331, Challenges::C2332, Challenges::C2333, Challenges::Unselected]
    }

    pub fn iter() -> (all: Vec<Challenges>)
        ensures
            all@ == Self::all_spec(),
    {
        vec![Challenges::C2331, Challenges::C2332, Challenges::C2333, Challenges::Unselected]
    }
}

impl Default for Challenges {
    fn default() -> (c: Self)
        ensures
            c == Challenges::C2331,
    {
        Challenges::C2331
    }
}

/// The language a submission is written in.
#[derive(Clone, Copy, PartialEq, Eq, Structural, Debug, Hash)]
pub enum Languages {
    Python,
    Rust,
    Go,
    C,
    Cpp,
}

impl Languages {
    pub open spec fn label_spec(self) -> Seq<char> {
        match self {
            Languages::Python => "Python"@,
            Languages::Rust => "Rust"@,
            Languages::Go => "Go"@,
            Languages::C => "C"@,
            Languages::Cpp => "C++"@,
        }
    }

    pub fn label(self) -> (text: String)
        ensures
            text@ == self.label_spec(),
    {
        match self {
            Languages::Python => String::from_str("Python"),
            Languages::Rust => String::from_str("Rust"),
            Languages::Go => String::from_str("Go"),
            Languages::C => String::from_str("C"),
            Languages::Cpp => String::from_str("C++"),
        }
    }
}

impl Default for Languages {
    fn default() -> (l: Self)
        ensures
            l == Languages::Python,
    {
        Languages::Python
    }
}

} // verus!
