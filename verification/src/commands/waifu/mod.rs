//! `/waifu`: roll MyAnimeList characters, keep them in a collection, and
//! compare collections on a leaderboard.

pub mod collection;
pub mod leaderboard;
pub mod roll;

use vstd::prelude::*;
use crate::api::MAL_PAGE;
use crate::commands::{
    CommandSpec, CommandView, OptionKind, OptionSpec, ResolvedOption, ResolvedValue, plain_option,
};
use crate::db::{image_url_of, Character, CharacterView, Database};
use crate::error::{Error, ErrorView};
use crate::response::{Embed, EmbedView, Response, ResponseView};
use crate::text::{dec, dec_string, owned, push_dec, push_str};
use crate::util::{color_goon_credits, goon_credits_color};

verus! {

/// The embed that shows a character: name, goon credits, a link to its
/// MyAnimeList page, its image if it has one, and its rarity colour.
pub open spec fn character_embed(c: CharacterView) -> EmbedView {
    let e = EmbedView::empty().with_title(c.name).with_field(
        "Goon Credits"@,
        dec(c.goon_credits as nat),
        true,
    ).with_url(MAL_PAGE@ + "/"@ + dec(c.mal_id as nat));
    let e = match image_url_of(c.image_key) {
        Some(u) => e.with_image(u),
        None => e,
    };
    match goon_credits_color(c.goon_credits) {
        Some(col) => e.with_color(col),
        None => e,
    }
}

/// The embed that shows `character`.
pub fn create_character_embed(character: &Character) -> (e: Embed)
    ensures
        e@ == character_embed(character@),
{
    let mut url = owned(MAL_PAGE);
    push_str(&mut url, "/");
    push_dec(&mut url, character.mal_id as u64);
    let mut embed = Embed::new().title(character.name.clone()).field(
        owned("Goon Credits"),
        dec_string(character.goon_credits as u64),
        true,
    ).url(url);
    match character.image_url() {
        Some(image_url) => {
            embed = embed.image(image_url);
        },
        None => {},
    }
    match color_goon_credits(character.goon_credits) {
        Some(color) => {
            embed = embed.color(color);
        },
        None => {},
    }
    embed
}

/// What `/waifu` calls for: an answer, or a roll, which needs a character
/// fetched from the Jikan API.
#[derive(Debug)]
pub enum WaifuAction {
    /// Answer with this.
    Respond(Result<Response, Error>),
    /// Fetch a random character and answer with [`roll::run`].
    Roll,
}

/// What `/waifu` calls for with these options: `collection` shows the
/// user's newest character, `leaderboard` the leaderboard, `roll` a roll;
/// another subcommand is not found, and no subcommand is an invalid option.
pub open spec fn waifu_outcome(
    options: Seq<ResolvedOption>,
    db: &Database,
    user_id: u64,
    r: WaifuAction,
) -> bool {
    if options.len() == 0 || !(options[0].value is SubCommand) {
        r matches WaifuAction::Respond(Err(e)) && e@ == ErrorView::OptionResolve
    } else if options[0].name@ == "collection"@ {
        r matches WaifuAction::Respond(Ok(m)) && m@ == ResponseView::Message(
            collection::collection_message(db, user_id, None),
        )
    } else if options[0].name@ == "leaderboard"@ {
        r matches WaifuAction::Respond(x) && leaderboard::leaderboard_outcome(db, x)
    } else if options[0].name@ == "roll"@ {
        r is Roll
    } else {
        r matches WaifuAction::Respond(Err(e)) && e@ == ErrorView::NotFound
    }
}

/// `/waifu leaderboard` is asked for, which adds up the goon credits.
pub open spec fn asks_leaderboard(options: Seq<ResolvedOption>) -> bool {
    options.len() > 0 && options[0].value is SubCommand && options[0].name@ == "leaderboard"@
}

/// Decides what `/waifu` does for `user_id`.
pub fn run(options: &Vec<ResolvedOption>, db: &Database, user_id: u64) -> (r: WaifuAction)
    requires
        db.wf(),
        asks_leaderboard(options@) ==> leaderboard::credits_fit(db),
    ensures
        waifu_outcome(options@, db, user_id, r),
{
    if options.len() == 0 {
        return WaifuAction::Respond(Err(Error::OptionResolve));
    }
    let subcommand = &options[0];
    match &subcommand.value {
        ResolvedValue::SubCommand(_) => {
            if subcommand.name == owned("collection") {
                WaifuAction::Respond(collection::run(db, user_id, None))
            } else if subcommand.name == owned("leaderboard") {
                WaifuAction::Respond(leaderboard::run(db))
            } else if subcommand.name == owned("roll") {
                WaifuAction::Roll
            } else {
                WaifuAction::Respond(Err(Error::NotFound))
            }
        },
        _ => WaifuAction::Respond(Err(Error::OptionResolve)),
    }
}

/// How `/waifu` is registered: three subcommands without options.
pub open spec fn waifu_command() -> CommandView {
    CommandView {
        name: "waifu"@,
        description: "Manage waifus"@,
        options: seq![
            plain_option(OptionKind::SubCommand, "collection"@, "See your waifu collection"@, false),
            plain_option(OptionKind::SubCommand, "leaderboard"@, "See the waifu leaderboard"@, false),
            plain_option(OptionKind::SubCommand, "roll"@, "Roll for new waifus"@, false),
        ],
    }
}

/// How `/waifu` is registered.
pub fn register() -> (c: CommandSpec)
    ensures
        c@ == waifu_command(),
{
    let c = CommandSpec::new(owned("waifu"), owned("Manage waifus")).add_option(
        OptionSpec::new(
            OptionKind::SubCommand,
            owned("collection"),
            owned("See your waifu collection"),
        ),
    ).add_option(
        OptionSpec::new(
            OptionKind::SubCommand,
            owned("leaderboard"),
            owned("See the waifu leaderboard"),
        ),
    ).add_option(
        OptionSpec::new(OptionKind::SubCommand, owned("roll"), owned("Roll for new waifus")),
    );
    assert(c@.options =~= waifu_command().options);
    c
}

} // verus!
