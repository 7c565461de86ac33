//! The adapter of a language server whose binary is known beforehand, such as one that was
//! set up for a remote host.
use vstd::prelude::*;

use crate::lsp_store::binary::LanguageServerBinary;
use crate::text::text_view;

verus! {

/// Why a text is no JSON, as `serde_json` reports it.
#[verifier::external_type_specification]
#[verifier::external_body]
pub struct ExJsonError(serde_json::Error);

/// What `serde_json::from_str` makes of a text that is read as an optional JSON value, the
/// value written compactly: nothing where the text is no JSON, and no value where it is `null`.
pub uninterp spec fn parsed_json(text: Seq<char>) -> Option<Option<Seq<char>>>;

/// Calls `serde_json::from_str`, whose result depends on the text alone, and writes the value
/// that it read as compact JSON. Which texts are JSON, and how a value is written, the JSON
/// standard and the crate say at length.
#[verifier::external_body]
fn parse_json(text: &str) -> (value: Result<Option<String>, serde_json::Error>)
    ensures
        match value {
            Ok(value) => parsed_json(text@) == Some(text_view(value)),
            Err(_) => parsed_json(text@) is None,
        },
{
    match serde_json::from_str::<Option<serde_json::Value>>(text) {
        Ok(value) => Ok(value.map(|value| value.to_string())),
        Err(error) => Err(error),
    }
}

/// Why the adapter cannot do what it is asked for.
#[derive(Clone, Copy, Debug, PartialEq, Eq, Structural)]
pub enum SshAdapterError {
    NoLatestVersion,
    NoServerBinary,
    /// The initialization options are no JSON.
    InvalidOptions,
}

impl SshAdapterError {
    pub fn message(&self) -> (message: &'static str)
        ensures
            message@ == (match *self {
                SshAdapterError::NoLatestVersion => {
                    "SshLspAdapter does not support fetch_latest_server_version"@
                },
                SshAdapterError::NoServerBinary => {
                    "SshLspAdapter does not support fetch_server_binary"@
                },
                SshAdapterError::InvalidOptions => "invalid initialization options"@,
            }),
    {
        match self {
            SshAdapterError::NoLatestVersion => {
                "SshLspAdapter does not support fetch_latest_server_version"
            },
            SshAdapterError::NoServerBinary => {
                "SshLspAdapter does not support fetch_server_binary"
            },
            SshAdapterError::InvalidOptions => "invalid initialization options",
        }
    }
}

#[derive(Debug)]
pub struct SshLspAdapter {
    name: String,
    binary: LanguageServerBinary,
    initialization_options: Option<String>,
}

impl SshLspAdapter {
    pub closed spec fn server_name(&self) -> Seq<char> {
        self.name@
    }

    pub closed spec fn own_binary(&self) -> LanguageServerBinary {
        self.binary
    }

    pub closed spec fn options_text(&self) -> Option<Seq<char>> {
        text_view(self.initialization_options)
    }

    pub fn new(
        name: String,
        binary: LanguageServerBinary,
        initialization_options: Option<String>,
    ) -> (adapter: Self)
        ensures
            adapter.server_name() == name@,
            adapter.own_binary() == binary,
            adapter.options_text() == text_view(initialization_options),
    {
        SshLspAdapter { name, binary, initialization_options }
    }

    pub fn name(&self) -> (name: &str)
        ensures
            name@ == self.server_name(),
    {
        self.name.as_str()
    }

    /// The binary counts as one that the user installed.
    pub fn check_if_user_installed(&self) -> (binary: Option<&LanguageServerBinary>)
        ensures
            binary == Some(&self.own_binary()),
    {
        Some(&self.binary)
    }

    /// Nothing is fetched, so nothing is kept either.
    pub fn cached_server_binary(&self) -> (binary: Option<&LanguageServerBinary>)
        ensures
            binary is None,
    {
        None
    }

    pub fn fetch_latest_server_version(&self) -> (version: Result<(), SshAdapterError>)
        ensures
            version == Err::<(), SshAdapterError>(SshAdapterError::NoLatestVersion),
    {
        Err(SshAdapterError::NoLatestVersion)
    }

    pub fn fetch_server_binary(&self) -> (binary: Result<LanguageServerBinary, SshAdapterError>)
        ensures
            binary == Err::<LanguageServerBinary, SshAdapterError>(SshAdapterError::NoServerBinary),
    {
        Err(SshAdapterError::NoServerBinary)
    }

    /// The options that the server is initialized with, as compact JSON.
    pub fn initialization_options(&self) -> (options: Result<Option<String>, SshAdapterError>)
        ensures
            match (self.options_text(), options) {
                (None, options) => options == Ok::<Option<String>, SshAdapterError>(None),
                (Some(text), Ok(options)) => parsed_json(text) == Some(text_view(options)),
                (Some(text), Err(error)) => {
                    &&& parsed_json(text) is None
                    &&& error == SshAdapterError::InvalidOptions
                },
            },
    {
        match &self.initialization_options {
            None => Ok(None),
            Some(text) => options_read(parse_json(text.as_str())),
        }
    }
}

/// What reading the options comes to.
pub fn options_read(parsed: Result<Option<String>, serde_json::Error>) -> (options: Result<
    Option<String>,
    SshAdapterError,
>)
    ensures
        options == (match parsed {
            Ok(options) => Ok(options),
            Err(_) => Err(SshAdapterError::InvalidOptions),
        }),
{
    match parsed {
        Ok(options) => Ok(options),
        Err(_) => Err(SshAdapterError::InvalidOptions),
    }
}
/// The adapter offers the binary that it was made with, and no other: none is kept and none is
/// fetched.
pub proof fn the_binary_is_the_given_one(
    name: String,
    binary: LanguageServerBinary,
    options: Option<String>,
    adapter: SshLspAdapter,
    offered: Option<&LanguageServerBinary>,
    cached: Option<&LanguageServerBinary>,
    version: Result<(), SshAdapterError>,
    fetched: Result<LanguageServerBinary, SshAdapterError>,
    shown: &str,
)
    requires
        call_ensures(SshLspAdapter::new, (name, binary, options), adapter),
        call_ensures(SshLspAdapter::check_if_user_installed, (&adapter,), offered),
        call_ensures(SshLspAdapter::cached_server_binary, (&adapter,), cached),
        call_ensures(SshLspAdapter::fetch_latest_server_version, (&adapter,), version),
        call_ensures(SshLspAdapter::fetch_server_binary, (&adapter,), fetched),
        call_ensures(SshLspAdapter::name, (&adapter,), shown),
    ensures
        offered == Some(&binary),
        cached is None,
        version matches Err(error) && error is NoLatestVersion,
        fetched matches Err(error) && error is NoServerBinary,
        shown@ == name@,
{
}

/// An adapter without options gives none; one whose options cannot be read says so.
pub proof fn options_are_given_as_read(
    name: String,
    binary: LanguageServerBinary,
    text: Option<String>,
    adapter: SshLspAdapter,
    options: Result<Option<String>, SshAdapterError>,
)
    requires
        call_ensures(SshLspAdapter::new, (name, binary, text), adapter),
        call_ensures(SshLspAdapter::initialization_options, (&adapter,), options),
    ensures
        text is None ==> options matches Ok(None),
        text is Some ==> (options is Err <==> parsed_json(text->0@) is None),
        options is Err ==> options->Err_0 is InvalidOptions,
        text is Some && options is Ok ==> (parsed_json(text->0@)->0 is None <==> options->Ok_0
            is None),
        text is Some ==> (options matches Ok(Some(value)) ==> parsed_json(text->0@) == Some(
            Some(value@),
        )),
{
}

/// What was read is given as it was read, and what could not be read is an error.
pub proof fn readings_are_passed_on(
    parsed: Result<Option<String>, serde_json::Error>,
    options: Result<Option<String>, SshAdapterError>,
)
    requires
        call_ensures(options_read, (parsed,), options),
    ensures
        parsed is Ok ==> options is Ok && options->Ok_0 == parsed->Ok_0,
        parsed is Err ==> options is Err && options->Err_0 is InvalidOptions,
{
}
/// Each error says what the adapter does not do.
pub proof fn adapter_errors_say_what_is_not_done(error: SshAdapterError, message: &'static str)
    requires
        call_ensures(SshAdapterError::message, (&error,), message),
    ensures
        error is NoLatestVersion ==> message@
            == "SshLspAdapter does not support fetch_latest_server_version"@,
        error is NoServerBinary ==> message@
            == "SshLspAdapter does not support fetch_server_binary"@,
{
}

} // verus!
