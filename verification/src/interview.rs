//! Interviews of the wizard derive: named questions in sections, with
//! suggested answers written into their defaults.
use vstd::prelude::*;

verus! {

/// A value suggested for a question; floating-point numbers are carried as
/// `f64` bit patterns.
#[derive(Debug)]
pub enum SuggestedAnswer {
    String(String),
    Int(i64),
    Float(u64),
    Bool(bool),
}

/// A value assumed for a question, which skips it; floating-point numbers are
/// carried as `f64` bit patterns.
#[derive(Debug)]
pub enum AssumedAnswer {
    String(String),
    Int(i64),
    Float(u64),
    Bool(bool),
}

/// A sequence of sections, which contain questions.
#[derive(Debug)]
pub struct Interview {
    pub sections: Vec<Question>,
}

/// A question of an interview.
#[derive(Debug)]
pub struct Question {
    id: Option<String>,
    name: String,
    prompt: String,
    kind: QuestionKind,
}

/// The kinds of questions a wizard may ask.
#[derive(Debug)]
pub enum QuestionKind {
    /// Single-line text.
    Input(InputQuestion),
    /// Multi-line text.
    Multiline(MultilineQuestion),
    /// Hidden text, for passwords.
    Masked(MaskedQuestion),
    /// An integer.
    Int(IntQuestion),
    /// A floating-point number.
    Float(FloatQuestion),
    /// Yes or no.
    Confirm(ConfirmQuestion),
    /// Questions asked one after the other.
    Sequence(Vec<Question>),
    /// One of several alternatives, the first number being the default.
    Alternative(usize, Vec<Question>),
}

/// Text input.
#[derive(Debug)]
pub struct InputQuestion {
    pub default: Option<String>,
    /// Validation function called on each keystroke.
    pub validate_on_key: Option<String>,
    /// Validation function called on submission.
    pub validate_on_submit: Option<String>,
}

/// Multi-line text input.
#[derive(Debug)]
pub struct MultilineQuestion {
    pub default: Option<String>,
    pub validate_on_key: Option<String>,
    pub validate_on_submit: Option<String>,
}

/// Hidden text input.
#[derive(Debug)]
pub struct MaskedQuestion {
    /// The masking character.
    pub mask: Option<char>,
    pub validate_on_key: Option<String>,
    pub validate_on_submit: Option<String>,
}

/// Integer input.
#[derive(Debug)]
pub struct IntQuestion {
    pub default: Option<i64>,
    pub min: Option<i64>,
    pub max: Option<i64>,
    pub validate_on_key: Option<String>,
    pub validate_on_submit: Option<String>,
}

/// Floating-point input; numbers are `f64` bit patterns.
#[derive(Debug)]
pub struct FloatQuestion {
    pub default: Option<u64>,
    pub min: Option<u64>,
    pub max: Option<u64>,
    pub validate_on_key: Option<String>,
    pub validate_on_submit: Option<String>,
}

/// Yes/no confirmation.
#[derive(Debug)]
pub struct ConfirmQuestion {
    /// The default answer (true for yes).
    pub default: bool,
}

/// The kind `k` with the suggestion `v` written into its default, when `v`
/// fits the kind (text for text inputs, integers for integer inputs, ...);
/// otherwise `k` unchanged. Masked inputs take no suggestion.
pub open spec fn spec_suggest(k: QuestionKind, v: SuggestedAnswer) -> QuestionKind {
    match (k, v) {
        (QuestionKind::Input(q), SuggestedAnswer::String(s)) => QuestionKind::Input(
            InputQuestion { default: Some(s), ..q },
        ),
        (QuestionKind::Multiline(q), SuggestedAnswer::String(s)) => QuestionKind::Multiline(
            MultilineQuestion { default: Some(s), ..q },
        ),
        (QuestionKind::Int(q), SuggestedAnswer::Int(i)) => QuestionKind::Int(
            IntQuestion { default: Some(i), ..q },
        ),
        (QuestionKind::Float(q), SuggestedAnswer::Float(f)) => QuestionKind::Float(
            FloatQuestion { default: Some(f), ..q },
        ),
        (QuestionKind::Confirm(q), SuggestedAnswer::Bool(b)) => QuestionKind::Confirm(
            ConfirmQuestion { default: b },
        ),
        _ => k,
    }
}

impl Question {
    /// The identifier.
    pub closed spec fn spec_id(&self) -> Option<String> {
        self.id
    }

    /// The field name.
    pub closed spec fn spec_name(&self) -> Seq<char> {
        self.name@
    }

    /// The prompt.
    pub closed spec fn spec_prompt(&self) -> Seq<char> {
        self.prompt@
    }

    /// The kind.
    pub closed spec fn spec_kind(&self) -> QuestionKind {
        self.kind
    }

    /// A question with the given identifier, field name, prompt and kind.
    pub fn new(id: Option<String>, name: String, prompt: String, kind: QuestionKind) -> (r: Self)
        ensures
            r.spec_id() == id,
            r.spec_name() == name@,
            r.spec_prompt() == prompt@,
            r.spec_kind() == kind,
    {
        Question { id, name, prompt, kind }
    }

    /// The identifier, if any.
    pub fn id(&self) -> (r: Option<&str>)
        ensures
            match self.spec_id() {
                Some(s) => r is Some && r->0@ == s@,
                None => r is None,
            },
    {
        match &self.id {
            Some(s) => Some(s.as_str()),
            None => None,
        }
    }

    /// The field name.
    pub fn name(&self) -> (r: &str)
        ensures
            r@ == self.spec_name(),
    {
        self.name.as_str()
    }

    /// The prompt message.
    pub fn prompt(&self) -> (r: &str)
        ensures
            r@ == self.spec_prompt(),
    {
        self.prompt.as_str()
    }

    /// The kind.
    pub fn kind(&self) -> (r: &QuestionKind)
        ensures
            *r == self.spec_kind(),
    {
        &self.kind
    }

    /// Write the suggestion `value` into the default of this question, when
    /// it fits the question's kind.
    pub fn set_suggestion(&mut self, value: SuggestedAnswer)
        ensures
            final(self).spec_kind() == spec_suggest(old(self).spec_kind(), value),
            final(self).spec_id() == old(self).spec_id(),
            final(self).spec_name() == old(self).spec_name(),
            final(self).spec_prompt() == old(self).spec_prompt(),
    {
        let mut kind = QuestionKind::Sequence(Vec::new());
        std::mem::swap(&mut kind, &mut self.kind);
        let kind = match (kind, value) {
            (QuestionKind::Input(q), SuggestedAnswer::String(s)) => QuestionKind::Input(
                InputQuestion { default: Some(s), ..q },
            ),
            (QuestionKind::Multiline(q), SuggestedAnswer::String(s)) => QuestionKind::Multiline(
                MultilineQuestion { default: Some(s), ..q },
            ),
            (QuestionKind::Int(q), SuggestedAnswer::Int(i)) => QuestionKind::Int(
                IntQuestion { default: Some(i), ..q },
            ),
            (QuestionKind::Float(q), SuggestedAnswer::Float(f)) => QuestionKind::Float(
                FloatQuestion { default: Some(f), ..q },
            ),
            (QuestionKind::Confirm(_), SuggestedAnswer::Bool(b)) => QuestionKind::Confirm(
                ConfirmQuestion { default: b },
            ),
            (k, _) => k,
        };
        self.kind = kind;
    }
}

} // verus!
