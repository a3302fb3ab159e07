//! What a guess is answered with: each field of the guessed character with how
//! well it matches the answer.
use vstd::prelude::*;
use crate::json::{Json, JsonV};

verus! {

/// The id of a profile entry, as a request names it.
#[derive(Debug, Clone, Copy, PartialEq, Eq, Structural)]
pub struct EntryId {
    pub id: u8,
}

/// How well one field of a guess matches the answer.
#[derive(Debug, Clone, Copy, PartialEq, Eq, Structural)]
pub enum Correctness {
    Correct,
    PartiallyCorrect,
    Incorrect,
}

impl Correctness {
    /// The name of the verdict in a response: its variant in lower case.
    pub open spec fn wire_name_spec(self) -> Seq<char> {
        match self {
            Correctness::Correct => "correct"@,
            Correctness::PartiallyCorrect => "partiallycorrect"@,
            Correctness::Incorrect => "incorrect"@,
        }
    }

    /// The name of the verdict in a response.
    pub fn wire_name(&self) -> (r: &'static str)
        ensures
            r@ == self.wire_name_spec(),
    {
        match self {
            Correctness::Correct => "correct",
            Correctness::PartiallyCorrect => "partiallycorrect",
            Correctness::Incorrect => "incorrect",
        }
    }
}

/// One field of a guessed character, its value, and its verdict.
#[derive(Debug)]
pub struct FieldComparison {
    pub field: String,
    pub value: Json,
    pub correct: Correctness,
}

/// The mathematical model of a [`FieldComparison`].
pub struct FieldComparisonV {
    pub field: Seq<char>,
    pub value: JsonV,
    pub correct: Correctness,
}

impl View for FieldComparison {
    type V = FieldComparisonV;

    open spec fn view(&self) -> FieldComparisonV {
        FieldComparisonV { field: self.field@, value: self.value@, correct: self.correct }
    }
}

/// The answer to a guess: the guessed character's name and its fields.
#[derive(Debug)]
pub struct GuessResponse {
    pub name: String,
    pub fields: Vec<FieldComparison>,
}

/// The mathematical model of a [`GuessResponse`].
pub struct GuessResponseV {
    pub name: Seq<char>,
    pub fields: Seq<FieldComparisonV>,
}

/// The models of a list of field comparisons.
pub open spec fn comparison_views(s: Seq<FieldComparison>) -> Seq<FieldComparisonV> {
    Seq::new(s.len(), |i: int| s[i]@)
}

impl View for GuessResponse {
    type V = GuessResponseV;

    open spec fn view(&self) -> GuessResponseV {
        GuessResponseV { name: self.name@, fields: comparison_views(self.fields@) }
    }
}

impl FieldComparison {
    /// A copy with the same model.
    pub fn duplicate(&self) -> (r: FieldComparison)
        ensures
            r@ == self@,
    {
        FieldComparison {
            field: self.field.clone(),
            value: self.value.duplicate(),
            correct: self.correct,
        }
    }
}

impl GuessResponse {
    /// A copy with the same model.
    pub fn duplicate(&self) -> (r: GuessResponse)
        ensures
            r@ == self@,
    {
        let mut fields: Vec<FieldComparison> = Vec::new();
        let mut i: usize = 0;
        while i < self.fields.len()
            invariant
                0 <= i <= self.fields.len(),
                fields.len() == i,
                forall|j: int| 0 <= j < i ==> fields[j]@ == self.fields[j]@,
            decreases self.fields.len() - i,
        {
            fields.push(self.fields[i].duplicate());
            i += 1;
        }
        let r = GuessResponse { name: self.name.clone(), fields };
        assert(comparison_views(r.fields@) =~= comparison_views(self.fields@));
        r
    }
}

/// Each verdict is written as its own variant name in lower case, so
/// different verdicts are written differently.
pub proof fn lemma_correctness_names(a: Correctness, b: Correctness)
    ensures
        Correctness::Correct.wire_name_spec() =~= seq!['c', 'o', 'r', 'r', 'e', 'c', 't'],
        Correctness::PartiallyCorrect.wire_name_spec() =~= seq![
            'p', 'a', 'r', 't', 'i', 'a', 'l', 'l', 'y', 'c', 'o', 'r', 'r', 'e', 'c', 't',
        ],
        Correctness::Incorrect.wire_name_spec() =~= seq!['i', 'n', 'c', 'o', 'r', 'r', 'e', 'c', 't'],
        a.wire_name_spec() == b.wire_name_spec() <==> a == b,
{
    reveal_strlit("correct");
    reveal_strlit("partiallycorrect");
    reveal_strlit("incorrect");
    assert(Correctness::Correct.wire_name_spec() =~= seq!['c', 'o', 'r', 'r', 'e', 'c', 't']);
    assert(Correctness::PartiallyCorrect.wire_name_spec() =~= seq![
        'p', 'a', 'r', 't', 'i', 'a', 'l', 'l', 'y', 'c', 'o', 'r', 'r', 'e', 'c', 't',
    ]);
    assert(Correctness::Incorrect.wire_name_spec() =~= seq!['i', 'n', 'c', 'o', 'r', 'r', 'e', 'c', 't']);
    if a != b {
        assert(a.wire_name_spec()[0] != b.wire_name_spec()[0]);
    }
}

} // verus!
