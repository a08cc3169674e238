//! The value of one spectrum: a quadrant, unknown, or a number.
use vstd::prelude::*;

verus! {

/// One of the five positions a quadrant spectrum can take; `M` lies in the middle.
#[derive(Clone, Copy, PartialEq, Eq, Structural, Debug)]
pub enum Quadrant {
    Q1,
    Q2,
    M,
    Q3,
    Q4,
}

impl Quadrant {
    /// The text that names the quadrant.
    pub open spec fn label_spec(self) -> Seq<char> {
        match self {
            Quadrant::Q1 => "Q1"@,
            Quadrant::Q2 => "Q2"@,
            Quadrant::M => "M"@,
            Quadrant::Q3 => "Q3"@,
            Quadrant::Q4 => "Q4"@,
        }
    }

    /// The text that names the quadrant ("Q1", "Q2", "M", "Q3" or "Q4").
    pub fn label(&self) -> (text: String)
        ensures
            text@ == self.label_spec(),
            *self == Quadrant::Q1 ==> text@ == "Q1"@,
            *self == Quadrant::Q2 ==> text@ == "Q2"@,
            *self == Quadrant::M ==> text@ == "M"@,
            *self == Quadrant::Q3 ==> text@ == "Q3"@,
            *self == Quadrant::Q4 ==> text@ == "Q4"@,
    {
        match self {
            Quadrant::Q1 => String::from_str("Q1"),
            Quadrant::Q2 => String::from_str("Q2"),
            Quadrant::M => String::from_str("M"),
            Quadrant::Q3 => String::from_str("Q3"),
            Quadrant::Q4 => String::from_str("Q4"),
        }
    }
}

impl Default for Quadrant {
    /// A new quadrant spectrum starts in the middle.
    fn default() -> (q: Quadrant)
        ensures
            q == Quadrant::M,
    {
        Quadrant::M
    }
}

/// The value of one spectrum.
///
/// A number lies in `0.0..=1.0`; it is held as the bit pattern of the `f32`
/// that the user chose, so that the value passes through unchanged.
#[derive(Clone, Copy, PartialEq, Eq, Structural, Debug)]
pub enum Spectrum {
    Quadrants(Quadrant),
    Unknown,
    Number(u32),
}

impl Spectrum {
    /// The text that names the kind of the spectrum.
    pub open spec fn label_spec(self) -> Seq<char> {
        match self {
            Spectrum::Quadrants(_) => "Quadrants"@,
            Spectrum::Unknown => "Unknown"@,
            Spectrum::Number(_) => "Number"@,
        }
    }

    /// The text that names the kind of the spectrum ("Quadrants", "Unknown"
    /// or "Number"); the quadrant or the number itself is not part of it.
    pub fn label(&self) -> (text: String)
        ensures
            text@ == self.label_spec(),
            *self is Quadrants ==> text@ == "Quadrants"@,
            *self is Unknown ==> text@ == "Unknown"@,
            *self is Number ==> text@ == "Number"@,
    {
        match self {
            Spectrum::Quadrants(_) => String::from_str("Quadrants"),
            Spectrum::Unknown => String::from_str("Unknown"),
            Spectrum::Number(_) => String::from_str("Number"),
        }
    }
}

impl Default for Spectrum {
    /// A spectrum that nobody has filled in is unknown.
    fn default() -> (s: Spectrum)
        ensures
            s == Spectrum::Unknown,
    {
        Spectrum::Unknown
    }
}

/// Each quadrant is named by its own text: "Q1", "Q2", "M", "Q3", "Q4", and
/// no two quadrants share a name.
pub proof fn law_quadrant_labels()
    ensures
        Quadrant::Q1.label_spec() == "Q1"@,
        Quadrant::Q2.label_spec() == "Q2"@,
        Quadrant::M.label_spec() == "M"@,
        Quadrant::Q3.label_spec() == "Q3"@,
        Quadrant::Q4.label_spec() == "Q4"@,
        forall|p: Quadrant, q: Quadrant| p != q ==> p.label_spec() != q.label_spec(),
{
    reveal_strlit("Q1");
    reveal_strlit("Q2");
    reveal_strlit("M");
    reveal_strlit("Q3");
    reveal_strlit("Q4");
    assert forall|p: Quadrant, q: Quadrant| p != q implies p.label_spec() != q.label_spec() by {
        if p.label_spec().len() == q.label_spec().len() && p.label_spec().len() == 2 {
            assert(p.label_spec()[1] != q.label_spec()[1]);
        }
    }
}

/// The name of a spectrum's kind depends on its kind alone: every quadrant
/// spectrum is "Quadrants", every number (zero included) is "Number", and an
/// unknown spectrum is "Unknown".
pub proof fn law_kind_labels()
    ensures
        forall|q: Quadrant| #[trigger] Spectrum::Quadrants(q).label_spec() == "Quadrants"@,
        forall|bits: u32| #[trigger] Spectrum::Number(bits).label_spec() == "Number"@,
        Spectrum::Unknown.label_spec() == "Unknown"@,
{
}

} // verus!
