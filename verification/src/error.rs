//! The errors a command can end in, and how the bot reports them.

use vstd::prelude::*;
use crate::response::{Embed, EmbedView, MessageView, ResponseMessage};
use crate::text::{owned, push_str};

verus! {

/// The colour of error embeds (serenity's `Colour::RED`).
pub const ERROR_COLOR: u32 = 0xE74C3C;

/// Why a command failed.
#[derive(Debug)]
pub enum Error {
    /// An expected option didn't resolve
    OptionResolve,
    /// Invalid Date
    InvalidDate(String),
    /// File System Error
    FileSystem(String),
    /// Toml Serialization
    Toml(String),
    /// Reqwest Error
    Reqwest(String),
    /// Jikan API rate limit
    RateLimit,
    /// Jikan API error
    Jikan(String),
    /// Unathorized action
    Unauthorized,
    /// Command/Interaction not found
    NotFound,
}

/// The view of an [`Error`].
pub enum ErrorView {
    OptionResolve,
    InvalidDate(Seq<char>),
    FileSystem(Seq<char>),
    Toml(Seq<char>),
    Reqwest(Seq<char>),
    RateLimit,
    Jikan(Seq<char>),
    Unauthorized,
    NotFound,
}

impl View for Error {
    type V = ErrorView;

    open spec fn view(&self) -> ErrorView {
        match self {
            Error::OptionResolve => ErrorView::OptionResolve,
            Error::InvalidDate(s) => ErrorView::InvalidDate(s@),
            Error::FileSystem(s) => ErrorView::FileSystem(s@),
            Error::Toml(s) => ErrorView::Toml(s@),
            Error::Reqwest(s) => ErrorView::Reqwest(s@),
            Error::RateLimit => ErrorView::RateLimit,
            Error::Jikan(s) => ErrorView::Jikan(s@),
            Error::Unauthorized => ErrorView::Unauthorized,
            Error::NotFound => ErrorView::NotFound,
        }
    }
}

/// The title of the embed that reports `e`.
pub open spec fn error_title(e: ErrorView) -> Seq<char> {
    match e {
        ErrorView::OptionResolve => "Got invalid option!"@,
        ErrorView::InvalidDate(s) => "Invalid Date: "@ + s + "!"@,
        ErrorView::FileSystem(s) => "File System Error: "@ + s + "!"@,
        ErrorView::Toml(s) => "Toml Serialization Error: "@ + s + "!"@,
        ErrorView::Reqwest(s) => "Reqwest Error: "@ + s + "!"@,
        ErrorView::RateLimit => "API rate limit reached. Calm down and continue in a few seconds!"@,
        ErrorView::Jikan(s) => "Jikan API Error: "@ + s + "!"@,
        ErrorView::Unauthorized => "You are unauthorized to do that action!"@,
        ErrorView::NotFound => "Command/Interaction not found!"@,
    }
}

/// The message that reports `e`: only to the user who asked, one red embed
/// with the error as its title.
pub open spec fn error_report(e: ErrorView) -> MessageView {
    MessageView {
        content: None,
        embeds: seq![EmbedView::empty().with_title(error_title(e)).with_color(ERROR_COLOR)],
        components: None,
        ephemeral: true,
    }
}

/// `prefix`, then `s`, then `!`.
fn framed(prefix: &str, s: String) -> (r: String)
    ensures
        r@ == prefix@ + s@ + "!"@,
{
    let mut r = owned(prefix);
    push_str(&mut r, s.as_str());
    push_str(&mut r, "!");
    r
}

impl Error {
    /// The message that reports this error to the user.
    pub fn error_message(self) -> (m: ResponseMessage)
        ensures
            m@ == error_report(self@),
    {
        let ghost v = self@;
        let title = match self {
            Error::OptionResolve => owned("Got invalid option!"),
            Error::InvalidDate(e) => framed("Invalid Date: ", e),
            Error::FileSystem(e) => framed("File System Error: ", e),
            Error::Toml(e) => framed("Toml Serialization Error: ", e),
            Error::Reqwest(e) => framed("Reqwest Error: ", e),
            Error::RateLimit => owned(
                "API rate limit reached. Calm down and continue in a few seconds!",
            ),
            Error::Jikan(e) => framed("Jikan API Error: ", e),
            Error::Unauthorized => owned("You are unauthorized to do that action!"),
            Error::NotFound => owned("Command/Interaction not found!"),
        };
        let embed = Embed::new().title(title).color(ERROR_COLOR);
        let mut m = ResponseMessage::only_embed(embed);
        m.ephemeral = true;
        m
    }
}

} // verus!
