//! Errors of survey runs, of the backends, and of the wizard derive.
use vstd::prelude::*;

verus! {

/// `anyhow::Error`, the error type that backend failures are carried in.
#[verifier::external_type_specification]
#[verifier::external_body]
pub struct ExAnyhowError(anyhow::Error);

/// `std::io::Error`, carried by terminal failures.
#[verifier::external_type_specification]
#[verifier::external_body]
pub struct ExIoError(std::io::Error);

/// Error type for survey operations.
#[derive(Debug)]
pub enum SurveyError {
    /// The user cancelled the survey.
    Cancelled,
    /// The backend failed (I/O, UI framework, ...).
    Backend(anyhow::Error),
}

impl SurveyError {
    /// A backend error carrying `err`.
    pub fn backend(err: anyhow::Error) -> (r: Self)
        ensures
            r == SurveyError::Backend(err),
    {
        SurveyError::Backend(err)
    }

    /// Whether the survey was cancelled by the user.
    pub fn is_cancelled(&self) -> (r: bool)
        ensures
            r == (self is Cancelled),
    {
        match self {
            SurveyError::Cancelled => true,
            _ => false,
        }
    }
}

/// Error type of the prompt-by-prompt command-line backend.
#[derive(Debug)]
pub enum RequesttyError {
    /// The user cancelled the survey.
    Cancelled,
    /// A prompt failed.
    PromptError(String),
    /// The prompt returned another kind of answer than asked for.
    UnexpectedAnswerType { expected: String, got: String },
}

/// The message of a prompt-backend error, as it is displayed.
pub open spec fn spec_requestty_message(e: RequesttyError) -> Seq<char> {
    match e {
        RequesttyError::Cancelled => "Survey cancelled by user"@,
        RequesttyError::PromptError(m) => "Prompt error: "@ + m@,
        RequesttyError::UnexpectedAnswerType { expected, got } => "Unexpected answer type: expected "@
            + expected@ + ", got "@ + got@,
    }
}

impl RequesttyError {
    /// The message of this error, as it is displayed.
    pub fn message(&self) -> (r: String)
        ensures
            r@ == spec_requestty_message(*self),
    {
        match self {
            RequesttyError::Cancelled => "Survey cancelled by user".to_owned(),
            RequesttyError::PromptError(m) => {
                let mut out = "Prompt error: ".to_owned();
                out.append(m.as_str());
                out
            },
            RequesttyError::UnexpectedAnswerType { expected, got } => {
                let mut out = "Unexpected answer type: expected ".to_owned();
                out.append(expected.as_str());
                out.append(", got ");
                out.append(got.as_str());
                out
            },
        }
    }
}

/// Error type of the terminal wizard backend.
#[derive(Debug)]
pub enum RatatuiError {
    /// The user cancelled the survey.
    Cancelled,
    /// An I/O error occurred.
    Io(std::io::Error),
    /// Setting up or restoring the terminal failed.
    Terminal(String),
}

impl RatatuiError {
    /// The message of a cancellation or terminal error, as it is displayed
    /// (an I/O error is displayed by the error it carries).
    pub fn message(&self) -> (r: Option<String>)
        ensures
            match *self {
                RatatuiError::Cancelled => r is Some && r->0@ == "Survey cancelled by user"@,
                RatatuiError::Terminal(m) => r is Some && r->0@ == "Terminal error: "@ + m@,
                RatatuiError::Io(_) => r is None,
            },
    {
        match self {
            RatatuiError::Cancelled => Some("Survey cancelled by user".to_owned()),
            RatatuiError::Terminal(m) => {
                let mut out = "Terminal error: ".to_owned();
                out.append(m.as_str());
                Some(out)
            },
            RatatuiError::Io(_) => None,
        }
    }
}

/// Errors that the wizard derive reports.
#[derive(Debug, PartialEq, Eq, Structural)]
pub enum WizardError {
    MissingPrompt,
    InvalidPromptAttribute,
    ConflictingAttributes,
    UnnamedField,
    UnionsNotSupported,
    UnsupportedTypeForPrompting,
    MissingPromptAttributes,
}

/// The message of a wizard-derive error, as it is displayed.
pub open spec fn spec_wizard_message(e: WizardError) -> Seq<char> {
    match e {
        WizardError::MissingPrompt => "Missing required #[prompt(\"...\")] or #[prompt] attribute"@,
        WizardError::InvalidPromptAttribute => "Expected #[prompt] or #[prompt(\"...\")]"@,
        WizardError::ConflictingAttributes => "Cannot use both #[mask] and #[editor] - they are mutually exclusive"@,
        WizardError::UnnamedField => "Field must have a name"@,
        WizardError::UnionsNotSupported => "Wizard can only be derived for structs and enums"@,
        WizardError::UnsupportedTypeForPrompting => "Unsupported type for prompting"@,
        WizardError::MissingPromptAttributes => "Missing required prompt attributes on one or more fields"@,
    }
}

impl WizardError {
    /// The message of this error, as it is displayed.
    pub fn message(&self) -> (r: &'static str)
        ensures
            r@ == spec_wizard_message(*self),
    {
        match self {
            WizardError::MissingPrompt => "Missing required #[prompt(\"...\")] or #[prompt] attribute",
            WizardError::InvalidPromptAttribute => "Expected #[prompt] or #[prompt(\"...\")]",
            WizardError::ConflictingAttributes => "Cannot use both #[mask] and #[editor] - they are mutually exclusive",
            WizardError::UnnamedField => "Field must have a name",
            WizardError::UnionsNotSupported => "Wizard can only be derived for structs and enums",
            WizardError::UnsupportedTypeForPrompting => "Unsupported type for prompting",
            WizardError::MissingPromptAttributes => "Missing required prompt attributes on one or more fields",
        }
    }
}

} // verus!
