//! The error taxonomy: every failure of a build is one of these values;
//! nothing panics and nothing retries.

use vstd::prelude::*;

verus! {

/// A fatal build failure.
#[derive(Debug)]
pub enum Error {
    /// The requested target language has no registered backend.
    NotSupportedLanguage(String),
    /// The language exists but the driver flavour does not.
    UnsupportedDriver { language: String, driver: String },
    /// A target needs a configuration option that was not supplied.
    MissingConfigurationOption { language: String, option: String },
    /// A template failed to parse or render; an internal defect.
    TemplateError(String),
}

impl Error {
    /// A human-readable description of the failure.
    pub fn message(&self) -> (r: String)
        ensures
            self matches Error::NotSupportedLanguage(l) ==> r@ == "language "@ + l@
                + " is not supported."@,
            self matches Error::UnsupportedDriver { language, driver } ==> r@ == "driver "@
                + driver@ + " is not supported for language "@ + language@ + "."@,
            self matches Error::MissingConfigurationOption { language, option } ==> r@
                == "missing required option "@ + option@ + " for language "@ + language@ + "."@,
            self matches Error::TemplateError(msg) ==> r@
                == "failed to render or parse a template: "@ + msg@,
    {
        match self {
            Error::NotSupportedLanguage(l) => {
                let mut s = String::from_str("language ");
                s.append(l.as_str());
                s.append(" is not supported.");
                s
            },
            Error::UnsupportedDriver { language, driver } => {
                let mut s = String::from_str("driver ");
                s.append(driver.as_str());
                s.append(" is not supported for language ");
                s.append(language.as_str());
                s.append(".");
                s
            },
            Error::MissingConfigurationOption { language, option } => {
                let mut s = String::from_str("missing required option ");
                s.append(option.as_str());
                s.append(" for language ");
                s.append(language.as_str());
                s.append(".");
                s
            },
            Error::TemplateError(msg) => {
                let mut s = String::from_str("failed to render or parse a template: ");
                s.append(msg.as_str());
                s
            },
        }
    }
}

} // verus!
