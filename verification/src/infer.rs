//! The prompt and the answer conversion that the wizard derive picks for a
//! field, from the field's type as written (its path segments joined by
//! `::`, or nothing for a type that is no path) and its attributes.
use vstd::prelude::*;
use crate::error::WizardError;
use crate::text::{is_prefix, starts_with, str_eq};

verus! {

/// The prompt a field is asked with.
#[derive(Debug, PartialEq, Eq, Structural)]
pub enum PromptKind {
    Editor,
    Password,
    Input,
    Confirm,
    Int,
    Float,
    Select,
    Expand,
    MultiSelect,
}

/// How the answer is turned into the field's value.
#[derive(Debug, PartialEq, Eq, Structural)]
pub enum AnswerKind {
    /// A string, made into a path.
    Path,
    Text,
    Bool,
    ListItem,
    ExpandItem,
    ListItems,
    /// An integer, cast to the field's integer type.
    Int,
    /// A float, cast to the field's float type.
    Float,
}

/// `t` names a signed integer type.
pub open spec fn signed_name(t: Seq<char>) -> bool {
    t == "i8"@ || t == "i16"@ || t == "i32"@ || t == "i64"@ || t == "isize"@
}

/// `t` names an unsigned integer type answered as an integer.
pub open spec fn unsigned_name(t: Seq<char>) -> bool {
    t == "u8"@ || t == "u16"@ || t == "u32"@ || t == "u64"@ || t == "usize"@
}

/// `t` names a float type.
pub open spec fn float_name(t: Seq<char>) -> bool {
    t == "f32"@ || t == "f64"@
}

/// The prompt for a field of type `ty`: the editor or the password prompt
/// when the field asks for one, else by the type's name.
pub open spec fn spec_question_type(ty: Option<Seq<char>>, has_mask: bool, has_editor: bool) -> PromptKind {
    if has_editor {
        PromptKind::Editor
    } else if has_mask {
        PromptKind::Password
    } else {
        match ty {
            None => PromptKind::Input,
            Some(t) => if t == "PathBuf"@ || t == "String"@ {
                PromptKind::Input
            } else if t == "bool"@ {
                PromptKind::Confirm
            } else if signed_name(t) || t == "i128"@ || unsigned_name(t) || t == "u128"@ {
                PromptKind::Int
            } else if float_name(t) {
                PromptKind::Float
            } else if t == "ListItem"@ {
                PromptKind::Select
            } else if t == "ExpandItem"@ {
                PromptKind::Expand
            } else if is_prefix("Vec"@, t) {
                PromptKind::MultiSelect
            } else {
                PromptKind::Input
            },
        }
    }
}

/// The answer conversion for a field of type `ty`, or the error for a type
/// that cannot be prompted for.
pub open spec fn spec_target_type(ty: Option<Seq<char>>) -> Result<AnswerKind, WizardError> {
    match ty {
        None => Err(WizardError::UnsupportedTypeForPrompting),
        Some(t) => if t == "PathBuf"@ {
            Ok(AnswerKind::Path)
        } else if t == "String"@ {
            Ok(AnswerKind::Text)
        } else if t == "bool"@ {
            Ok(AnswerKind::Bool)
        } else if t == "ListItem"@ {
            Ok(AnswerKind::ListItem)
        } else if t == "ExpandItem"@ {
            Ok(AnswerKind::ExpandItem)
        } else if is_prefix("Vec"@, t) {
            Ok(AnswerKind::ListItems)
        } else if signed_name(t) || unsigned_name(t) {
            Ok(AnswerKind::Int)
        } else if float_name(t) {
            Ok(AnswerKind::Float)
        } else {
            Err(WizardError::UnsupportedTypeForPrompting)
        },
    }
}

fn is_signed_name(t: &str) -> (r: bool)
    ensures
        r == signed_name(t@),
{
    str_eq(t, "i8") || str_eq(t, "i16") || str_eq(t, "i32") || str_eq(t, "i64") || str_eq(t, "isize")
}

fn is_unsigned_name(t: &str) -> (r: bool)
    ensures
        r == unsigned_name(t@),
{
    str_eq(t, "u8") || str_eq(t, "u16") || str_eq(t, "u32") || str_eq(t, "u64") || str_eq(t, "usize")
}

fn is_float_name(t: &str) -> (r: bool)
    ensures
        r == float_name(t@),
{
    str_eq(t, "f32") || str_eq(t, "f64")
}

/// The prompt for a field of type `ty` with the `#[mask]` and `#[editor]`
/// attributes as given.
pub fn infer_question_type(ty: Option<&str>, has_mask: bool, has_editor: bool) -> (r: PromptKind)
    ensures
        r == spec_question_type(
            match ty {
                Some(t) => Some(t@),
                None => None,
            },
            has_mask,
            has_editor,
        ),
{
    if has_editor {
        return PromptKind::Editor;
    }
    if has_mask {
        return PromptKind::Password;
    }
    let t = match ty {
        None => {
            return PromptKind::Input;
        },
        Some(t) => t,
    };
    if str_eq(t, "PathBuf") || str_eq(t, "String") {
        PromptKind::Input
    } else if str_eq(t, "bool") {
        PromptKind::Confirm
    } else if is_signed_name(t) || str_eq(t, "i128") || is_unsigned_name(t) || str_eq(t, "u128") {
        PromptKind::Int
    } else if is_float_name(t) {
        PromptKind::Float
    } else if str_eq(t, "ListItem") {
        PromptKind::Select
    } else if str_eq(t, "ExpandItem") {
        PromptKind::Expand
    } else if starts_with(t, "Vec") {
        PromptKind::MultiSelect
    } else {
        PromptKind::Input
    }
}

/// The answer conversion for a field of type `ty`.
pub fn infer_target_type(ty: Option<&str>) -> (r: Result<AnswerKind, WizardError>)
    ensures
        r == spec_target_type(
            match ty {
                Some(t) => Some(t@),
                None => None,
            },
        ),
{
    let t = match ty {
        None => {
            return Err(WizardError::UnsupportedTypeForPrompting);
        },
        Some(t) => t,
    };
    if str_eq(t, "PathBuf") {
        Ok(AnswerKind::Path)
    } else if str_eq(t, "String") {
        Ok(AnswerKind::Text)
    } else if str_eq(t, "bool") {
        Ok(AnswerKind::Bool)
    } else if str_eq(t, "ListItem") {
        Ok(AnswerKind::ListItem)
    } else if str_eq(t, "ExpandItem") {
        Ok(AnswerKind::ExpandItem)
    } else if starts_with(t, "Vec") {
        Ok(AnswerKind::ListItems)
    } else if is_signed_name(t) || is_unsigned_name(t) {
        Ok(AnswerKind::Int)
    } else if is_float_name(t) {
        Ok(AnswerKind::Float)
    } else {
        Err(WizardError::UnsupportedTypeForPrompting)
    }
}

} // verus!
