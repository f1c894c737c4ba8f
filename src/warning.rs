//! Non-fatal conditions, collected during a run and reported after it.
use vstd::prelude::*;

verus! {

/// A condition that does not stop the expansion.
#[derive(Debug, PartialEq, Eq, Clone)]
pub enum Warning {
    /// A pattern selected no file, or a file it selected could not be read.
    FileNotFound { path: String },
}

impl View for Warning {
    /// The path or pattern that the warning reports.
    type V = Seq<char>;

    open spec fn view(&self) -> Seq<char> {
        match self {
            Warning::FileNotFound { path } => path@,
        }
    }
}

impl Warning {
    /// The one-line message of the warning.
    pub fn message(&self) -> (r: String)
        ensures
            r@ == "File not found: "@ + self@,
    {
        match self {
            Warning::FileNotFound { path } => {
                let mut r = String::from_str("File not found: ");
                r.append(path.as_str());
                r
            },
        }
    }
}

/// The warnings of a run, in the order they were raised.
pub struct Warnings(Vec<Warning>);

impl View for Warnings {
    type V = Seq<Seq<char>>;

    closed spec fn view(&self) -> Seq<Seq<char>> {
        self.0@.map_values(|w: Warning| w@)
    }
}

impl Warnings {
    /// No warnings.
    pub fn new() -> (r: Warnings)
        ensures
            r@ == Seq::<Seq<char>>::empty(),
    {
        let r = Warnings(Vec::new());
        assert(r@ =~= Seq::<Seq<char>>::empty());
        r
    }

    /// Records one more warning, after the others.
    pub fn push(&mut self, warning: Warning)
        ensures
            final(self)@ == old(self)@.push(warning@),
    {
        self.0.push(warning);
        assert(self@ =~= old(self)@.push(warning@));
    }

    /// Records the warnings of `other` after these.
    pub fn extend(&mut self, other: Warnings)
        ensures
            final(self)@ == old(self)@ + other@,
    {
        let mut o = other;
        self.0.append(&mut o.0);
        assert(self@ =~= old(self)@ + other@);
    }

    /// The number of warnings.
    pub fn len(&self) -> (r: usize)
        ensures
            r == self@.len(),
    {
        self.0.len()
    }

    /// Whether there is no warning.
    pub fn is_empty(&self) -> (r: bool)
        ensures
            r == (self@.len() == 0),
    {
        self.0.len() == 0
    }

    /// The warnings, in order.
    pub fn as_slice(&self) -> (r: &[Warning])
        ensures
            r@.map_values(|w: Warning| w@) == self@,
    {
        self.0.as_slice()
    }

    /// The warnings, in order, handed over.
    pub fn into_vec(self) -> (r: Vec<Warning>)
        ensures
            r@.map_values(|w: Warning| w@) == self@,
    {
        self.0
    }
}

impl Default for Warnings {
    fn default() -> (r: Warnings)
        ensures
            r@ == Seq::<Seq<char>>::empty(),
    {
        Warnings::new()
    }
}

} // verus!
