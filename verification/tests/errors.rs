use derive_survey::cli::RequesttyBackend;
use derive_survey::error::{RatatuiError, RequesttyError, SurveyError, WizardError};

#[test]
fn test_backend_creation() {
    let _backend = RequesttyBackend::new();
}

#[test]
fn test_error_types() {
    let err = RequesttyError::Cancelled;
    assert_eq!(err.message(), "Survey cancelled by user");

    let err = RequesttyError::PromptError("test error".to_string());
    assert_eq!(err.message(), "Prompt error: test error");

    let err = RequesttyError::UnexpectedAnswerType {
        expected: "String".to_string(),
        got: "Int".to_string(),
    };
    assert_eq!(
        err.message(),
        "Unexpected answer type: expected String, got Int"
    );
}

#[test]
fn error_types() {
    let err = RatatuiError::Cancelled;
    assert_eq!(err.message().unwrap(), "Survey cancelled by user");

    let err = RatatuiError::Terminal("test error".to_string());
    assert_eq!(err.message().unwrap(), "Terminal error: test error");
}

#[test]
fn survey_error_kinds() {
    assert!(SurveyError::Cancelled.is_cancelled());
    let err = SurveyError::backend(anyhow::Error::msg("disk full"));
    assert!(!err.is_cancelled());
}

#[test]
fn wizard_error_messages() {
    assert_eq!(WizardError::UnnamedField.message(), "Field must have a name");
    assert_eq!(
        WizardError::MissingPrompt.message(),
        "Missing required #[prompt(\"...\")] or #[prompt] attribute"
    );
    assert_eq!(
        WizardError::ConflictingAttributes.message(),
        "Cannot use both #[mask] and #[editor] - they are mutually exclusive"
    );
}
