//! The Jikan API's answer for a random character, and what the bot makes
//! of it.

use vstd::prelude::*;
use crate::db::{image_key_of_url, Character, CharacterView};
use crate::error::{Error, ErrorView};
use crate::response::opt_view;
use crate::text::owned;

verus! {

/// Where the images of MyAnimeList characters are.
pub const IMAGE_BASE: &'static str = "https://cdn.myanimelist.net/images/characters/";

/// The file extension of the character images the bot shows.
pub const IMAGE_EXTENSION: &'static str = ".webp";

/// The address of a character's page on MyAnimeList, before its id.
pub const MAL_PAGE: &'static str = "https://myanimelist.net/character";

/// The Jikan answer for `/random/characters`.
#[derive(Debug)]
pub struct RadomCharacterResponse {
    pub data: CharacterData,
}

/// The character in a Jikan answer.
#[derive(Debug)]
pub struct CharacterData {
    pub mal_id: u32,
    pub images: Images,
    pub name: String,
    pub favorites: u32,
}

/// The images of a character in a Jikan answer.
#[derive(Debug)]
pub struct Images {
    pub webp: WebpImages,
}

/// The WebP image of a character in a Jikan answer.
#[derive(Debug)]
pub struct WebpImages {
    /// The image's address.
    pub image_url: String,
}

/// The path of the URL `url` (`url::Url::parse(url)` then `Url::path`),
/// `None` if `url` is no URL. How URLs are parsed takes pages, so the result
/// is named.
pub uninterp spec fn url_path_of(url: Seq<char>) -> Option<Seq<char>>;

/// `url::Url::parse(url)`, then `path()` of the result: the path of the
/// URL, `None` where `url` does not parse.
#[verifier::external_body]
pub(crate) fn url_path(url: &str) -> (r: Option<String>)
    ensures
        opt_view(r) == url_path_of(url@),
{
    url::Url::parse(url).ok().map(|u| u.path().to_string())
}

/// The character that a Jikan answer describes.
pub open spec fn response_character(r: RadomCharacterResponse) -> CharacterView {
    CharacterView {
        mal_id: r.data.mal_id,
        name: r.data.name@,
        goon_credits: r.data.favorites,
        image_key: match image_key_of_url(r.data.images.webp.image_url@) {
            Some(k) => k,
            None => Seq::empty(),
        },
    }
}

impl Character {
    /// The character of a Jikan answer; its favorites count becomes its
    /// goon credits, and its image key is empty where the image address
    /// has none.
    pub fn from_response(r: RadomCharacterResponse) -> (c: Character)
        ensures
            c@ == response_character(r),
    {
        let key = match Character::image_key_from_url(r.data.images.webp.image_url.as_str()) {
            Some(k) => k,
            None => String::new(),
        };
        Character {
            mal_id: r.data.mal_id,
            name: r.data.name,
            goon_credits: r.data.favorites,
            image_key: key,
        }
    }
}

/// The error for a failed Jikan request: the rate limit where the status
/// is 429 or Jikan names a `RateLimitException`, else the error type Jikan
/// names, or the status line where it names none.
pub open spec fn jikan_failure(
    status: u16,
    status_text: Seq<char>,
    error_type: Option<Seq<char>>,
) -> ErrorView {
    let t = match error_type {
        Some(t) => t,
        None => status_text,
    };
    if status == 429 || t == "RateLimitException"@ {
        ErrorView::RateLimit
    } else {
        ErrorView::Jikan(t)
    }
}

/// The error for a failed Jikan request with HTTP status `status`, whose
/// status line is `status_text`, and whose body names the error type
/// `error_type`, if it could be read.
pub fn jikan_error(status: u16, status_text: &str, error_type: Option<String>) -> (e: Error)
    ensures
        e@ == jikan_failure(status, status_text@, opt_view(error_type)),
{
    let t = match error_type {
        Some(t) => t,
        None => owned(status_text),
    };
    if status == 429 || t == owned("RateLimitException") {
        Error::RateLimit
    } else {
        Error::Jikan(t)
    }
}

} // verus!
