use vstd::prelude::*;
use crate::error::PapError;
use crate::text::str_equals;

verus! {

/// How far the reading of a paper has come, from first contact (`I`) to
/// feedback from the publication venue (`IV`).
#[derive(Debug, Clone, Copy, PartialEq, Eq, Structural)]
pub enum Progress {
    I,
    II,
    III,
    IV,
}

/// The stage that a token names, if it names one.
pub open spec fn stage_named(t: Seq<char>) -> Option<Progress> {
    if t == seq!['I'] {
        Some(Progress::I)
    } else if t == seq!['I', 'I'] {
        Some(Progress::II)
    } else if t == seq!['I', 'I', 'I'] {
        Some(Progress::III)
    } else if t == seq!['I', 'V'] {
        Some(Progress::IV)
    } else {
        None
    }
}

impl Progress {
    /// The stage's number, from 1 to 4.
    pub open spec fn level(self) -> nat {
        match self {
            Progress::I => 1,
            Progress::II => 2,
            Progress::III => 3,
            Progress::IV => 4,
        }
    }

    /// Reads a stage token: one of `I`, `II`, `III` and `IV`.
    pub fn parse(input: &str) -> (r: Result<Progress, PapError>)
        ensures
            stage_named(input@) matches Some(p) ==> r == Ok::<Progress, PapError>(p),
            stage_named(input@) is None ==> (r matches Err(PapError::InvalidStage(s)) && s@ == input@),
    {
        proof {
            reveal_strlit("I");
            reveal_strlit("II");
            reveal_strlit("III");
            reveal_strlit("IV");
            assert("I"@ =~= seq!['I']);
            assert("II"@ =~= seq!['I', 'I']);
            assert("III"@ =~= seq!['I', 'I', 'I']);
            assert("IV"@ =~= seq!['I', 'V']);
        }
        if str_equals(input, "I") {
            Ok(Progress::I)
        } else if str_equals(input, "II") {
            Ok(Progress::II)
        } else if str_equals(input, "III") {
            Ok(Progress::III)
        } else if str_equals(input, "IV") {
            Ok(Progress::IV)
        } else {
            Err(PapError::InvalidStage(input.to_owned()))
        }
    }

    /// The stage's number, from 1 to 4.
    pub fn number(&self) -> (r: u8)
        ensures
            r as nat == self.level(),
    {
        match self {
            Progress::I => 1,
            Progress::II => 2,
            Progress::III => 3,
            Progress::IV => 4,
        }
    }
}

impl std::str::FromStr for Progress {
    type Err = PapError;

    fn from_str(input: &str) -> (r: Result<Progress, PapError>)
        ensures
            stage_named(input@) matches Some(p) ==> r == Ok::<Progress, PapError>(p),
            stage_named(input@) is None ==> (r matches Err(PapError::InvalidStage(s)) && s@ == input@),
    {
        Progress::parse(input)
    }
}

} // verus!
