//! What keeps an instance from being created or a font from being registered.
use vstd::prelude::*;
use vstd::string::StringExecFns;

verus! {

/// Error that kept an instance from being created.
#[derive(Debug)]
pub enum InstanceError {
    /// The script context failed.
    JsContext(String),
    /// The component could not be compiled.
    CompileComponent(String),
    /// The component source could not be read.
    Io(String),
    BaseUrl { value: String, error: String },
    UnsupportedJsxModule { path: String },
    MissingVirtualEntrypoint { path: String },
}

/// The message of an instance error.
pub open spec fn instance_error_text(error: InstanceError) -> Seq<char> {
    match error {
        InstanceError::JsContext(text) => text@,
        InstanceError::CompileComponent(text) => text@,
        InstanceError::Io(text) => "failed to read component source: "@ + text@,
        InstanceError::BaseUrl { value, error } => "invalid base URL `"@ + value@ + "`: "@
            + error@,
        InstanceError::UnsupportedJsxModule { path } =>
            "JSX/TSX/TS component loading requires the `jsx-compiler` feature: "@ + path@,
        InstanceError::MissingVirtualEntrypoint { path } =>
            "missing virtual entrypoint source for `"@ + path@ + "`"@,
    }
}

impl InstanceError {
    /// The message of the error.
    pub fn message(&self) -> (text: String)
        ensures
            text@ == instance_error_text(*self),
    {
        match self {
            InstanceError::JsContext(text) => text.clone(),
            InstanceError::CompileComponent(text) => text.clone(),
            InstanceError::Io(text) => {
                let mut message = "failed to read component source: ".to_owned();
                message.append(text.as_str());
                message
            },
            InstanceError::BaseUrl { value, error } => {
                let mut message = "invalid base URL `".to_owned();
                message.append(value.as_str());
                message.append("`: ");
                message.append(error.as_str());
                message
            },
            InstanceError::UnsupportedJsxModule { path } => {
                let mut message =
                    "JSX/TSX/TS component loading requires the `jsx-compiler` feature: ".to_owned();
                message.append(path.as_str());
                message
            },
            InstanceError::MissingVirtualEntrypoint { path } => {
                let mut message = "missing virtual entrypoint source for `".to_owned();
                message.append(path.as_str());
                message.append("`");
                message
            },
        }
    }
}

/// Error of registering a font from a file.
#[derive(Debug)]
pub enum RegisterFontError {
    /// The file extension is not one of `.ttf`, `.otf`, `.woff`, `.woff2`.
    UnknownFormat,
    /// Reading the font file failed.
    Io(String),
}

/// The message of a font registration error.
pub open spec fn font_error_text(error: RegisterFontError) -> Seq<char> {
    match error {
        RegisterFontError::UnknownFormat =>
            "unknown font format: expected file extension `.ttf`, `.otf`, `.woff`, or `.woff2`"@,
        RegisterFontError::Io(text) => "failed to read font file: "@ + text@,
    }
}

impl RegisterFontError {
    /// The message of the error.
    pub fn message(&self) -> (text: String)
        ensures
            text@ == font_error_text(*self),
    {
        match self {
            RegisterFontError::UnknownFormat =>
                "unknown font format: expected file extension `.ttf`, `.otf`, `.woff`, or `.woff2`".to_owned(),
            RegisterFontError::Io(text) => {
                let mut message = "failed to read font file: ".to_owned();
                message.append(text.as_str());
                message
            },
        }
    }
}

/// Messages name what failed: a script or compile error speaks for itself, and the
/// others give the text, path or URL that they are about.
pub proof fn messages_name_what_failed(text: String, value: String)
    ensures
        instance_error_text(InstanceError::JsContext(text)) == text@,
        instance_error_text(InstanceError::CompileComponent(text)) == text@,
        instance_error_text(InstanceError::Io(text)) == "failed to read component source: "@
            + text@,
        instance_error_text(InstanceError::BaseUrl { value, error: text }) == "invalid base URL `"@
            + value@ + "`: "@ + text@,
        instance_error_text(InstanceError::UnsupportedJsxModule { path: value })
            == "JSX/TSX/TS component loading requires the `jsx-compiler` feature: "@ + value@,
        instance_error_text(InstanceError::MissingVirtualEntrypoint { path: value })
            == "missing virtual entrypoint source for `"@ + value@ + "`"@,
        font_error_text(RegisterFontError::Io(text)) == "failed to read font file: "@ + text@,
{
}

} // verus!
