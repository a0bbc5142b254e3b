use vstd::prelude::*;
use vstd::string::*;

verus! {

/// A text as `Debug` writes a string: between double quotes, with what
/// cannot stand there escaped.
pub uninterp spec fn debug_quoted(text: Seq<char>) -> Seq<char>;

/// `Debug` of `str`, through `format!`: the quoted text.
#[verifier::external_body]
fn quoted(text: &str) -> (r: String)
    ensures
        r@ == debug_quoted(text@),
{
    format!("{:?}", text)
}

/// The message for a template that is not configured, around its quoted
/// name.
pub fn template_not_found(quoted_name: &str) -> (text: String)
    ensures
        text@ == "The requested image template "@ + quoted_name@ + " is not found"@,
{
    let mut text = String::from_str("The requested image template ");
    text.append(quoted_name);
    text.append(" is not found");
    text
}

/// Every way a request can fail.
#[derive(Debug)]
pub enum Errors {
    /// The request body could not be read.
    JsonIo(String),
    /// The request body is not the expected JSON.
    JsonParse(String),
    /// The request is malformed or asks for something that is not allowed.
    InvalidInput(String),
    /// A remote asset is larger than the fixed maximum.
    SizeLimit(String),
    /// No template of this name is configured.
    InvalidTemplate(String),
    /// A network fetch failed.
    Transport(String),
    /// Bytes were not recognised as an image.
    Decode(String),
    /// The work dispatch layer failed.
    InternalError(String),
}

impl Errors {
    /// The HTTP status code that answers a request failing with this error.
    pub open spec fn status_spec(self) -> u16 {
        match self {
            Errors::JsonIo(_) => 400,
            Errors::JsonParse(_) => 422,
            Errors::InvalidInput(_) => 422,
            Errors::SizeLimit(_) => 422,
            Errors::Decode(_) => 422,
            Errors::InvalidTemplate(_) => 404,
            Errors::Transport(_) => 422,
            Errors::InternalError(_) => 500,
        }
    }

    /// The name under which a client is told the kind of the error.
    pub open spec fn kind_text(self) -> Seq<char> {
        match self {
            Errors::JsonIo(_) => "json_io"@,
            Errors::JsonParse(_) => "json_parse"@,
            Errors::InvalidInput(_) => "invalid_input"@,
            Errors::SizeLimit(_) => "size_limit"@,
            Errors::InvalidTemplate(_) => "template_not_found"@,
            Errors::Transport(_) => "transport"@,
            Errors::Decode(_) => "decode"@,
            Errors::InternalError(_) => "internal_error"@,
        }
    }

    /// The text carried by the error.
    pub open spec fn text(self) -> Seq<char> {
        match self {
            Errors::JsonIo(s) => s@,
            Errors::JsonParse(s) => s@,
            Errors::InvalidInput(s) => s@,
            Errors::SizeLimit(s) => s@,
            Errors::InvalidTemplate(s) => s@,
            Errors::Transport(s) => s@,
            Errors::Decode(s) => s@,
            Errors::InternalError(s) => s@,
        }
    }

    /// The HTTP status code of the error.
    pub fn status(&self) -> (code: u16)
        ensures
            code == self.status_spec(),
    {
        match self {
            Errors::JsonIo(_) => 400,
            Errors::JsonParse(_)
            | Errors::InvalidInput(_)
            | Errors::SizeLimit(_)
            | Errors::Decode(_)
            | Errors::Transport(_) => 422,
            Errors::InvalidTemplate(_) => 404,
            Errors::InternalError(_) => 500,
        }
    }

    /// The text that the error carries.
    pub fn message(&self) -> (text: &String)
        ensures
            text@ == self.text(),
    {
        match self {
            Errors::JsonIo(s) => s,
            Errors::JsonParse(s) => s,
            Errors::InvalidInput(s) => s,
            Errors::SizeLimit(s) => s,
            Errors::InvalidTemplate(s) => s,
            Errors::Transport(s) => s,
            Errors::Decode(s) => s,
            Errors::InternalError(s) => s,
        }
    }

    /// The message that a client is shown: the carried text, but for an
    /// unknown template a sentence around its quoted name, and for an
    /// internal error a fixed sentence that gives nothing away.
    pub open spec fn public_text(self) -> Seq<char> {
        match self {
            Errors::InvalidTemplate(name) => "The requested image template "@ + debug_quoted(
                name@,
            ) + " is not found"@,
            Errors::InternalError(_) => "An unknown internal error occurred."@,
            _ => self.text(),
        }
    }

    /// The message that a client is shown.
    pub fn public_message(&self) -> (text: String)
        ensures
            text@ == self.public_text(),
    {
        match self {
            Errors::InvalidTemplate(name) => {
                let name = quoted(name.as_str());
                template_not_found(name.as_str())
            },
            Errors::InternalError(_) => String::from_str("An unknown internal error occurred."),
            _ => self.message().clone(),
        }
    }

    /// The error as one line of text, for logs: the carried text, but for an
    /// unknown template its quoted name after a few words.
    pub open spec fn display_text(self) -> Seq<char> {
        match self {
            Errors::InvalidTemplate(name) => "Invalid template name: "@ + debug_quoted(name@),
            _ => self.text(),
        }
    }

    /// The error as one line of text.
    pub fn describe(&self) -> (text: String)
        ensures
            text@ == self.display_text(),
    {
        match self {
            Errors::InvalidTemplate(name) => {
                let name = quoted(name.as_str());
                let mut text = String::from_str("Invalid template name: ");
                text.append(name.as_str());
                text
            },
            _ => self.message().clone(),
        }
    }

    /// The name of the error's kind.
    pub fn kind(&self) -> (name: &'static str)
        ensures
            name@ == self.kind_text(),
    {
        match self {
            Errors::JsonIo(_) => "json_io",
            Errors::JsonParse(_) => "json_parse",
            Errors::InvalidInput(_) => "invalid_input",
            Errors::SizeLimit(_) => "size_limit",
            Errors::InvalidTemplate(_) => "template_not_found",
            Errors::Transport(_) => "transport",
            Errors::Decode(_) => "decode",
            Errors::InternalError(_) => "internal_error",
        }
    }
}

} // verus!
