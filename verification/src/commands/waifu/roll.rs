//! Rolling a random character, and claiming it into one's collection.

use vstd::prelude::*;
use crate::db::{claim_payload, give_character, image_url_of, Character, CharacterView, Database};
use crate::error::{Error, ErrorView};
use crate::response::{
    ActionRow, ActionRowView, Button, ButtonStyle, ButtonView, Embed, EmbedView, MessageView,
    Response, ResponseMessage, ResponseView,
};
use crate::text::{dec, dec_string, owned, push_str};
use crate::util::{color_goon_credits, goon_credits_color};

verus! {

/// The embed of a rolled character: name, goon credits, image if it has
/// one, rarity colour.
pub open spec fn roll_embed(c: CharacterView) -> EmbedView {
    let e = EmbedView::empty().with_title(c.name).with_field(
        "Goon Credits"@,
        dec(c.goon_credits as nat),
        true,
    );
    let e = match image_url_of(c.image_key) {
        Some(u) => e.with_image(u),
        None => e,
    };
    match goon_credits_color(c.goon_credits) {
        Some(col) => e.with_color(col),
        None => e,
    }
}

/// The message that shows a rolled character with its claim button.
pub open spec fn roll_message(c: CharacterView) -> MessageView {
    MessageView {
        content: None,
        embeds: seq![roll_embed(c)],
        components: Some(
            seq![
                ActionRowView::Buttons(
                    seq![
                        ButtonView {
                            custom_id: "claim:"@ + claim_payload(c),
                            label: "Claim"@,
                            style: ButtonStyle::Secondary,
                            disabled: false,
                        },
                    ],
                ),
            ],
        ),
        ephemeral: false,
    }
}

/// Answers a roll with the character fetched from the Jikan API, or with
/// the error of the fetch.
pub fn run(fetched: Result<Character, Error>) -> (r: Result<Response, Error>)
    ensures
        match fetched {
            Ok(c) => r matches Ok(x) && x@ == ResponseView::Message(roll_message(c@)),
            Err(e) => r matches Err(f) && f@ == e@,
        },
{
    let character = match fetched {
        Ok(c) => c,
        Err(e) => return Err(e),
    };
    let mut embed = Embed::new().title(character.name.clone()).field(
        owned("Goon Credits"),
        dec_string(character.goon_credits as u64),
        true,
    );
    match character.image_url() {
        Some(url) => {
            embed = embed.image(url);
        },
        None => {},
    }
    match color_goon_credits(character.goon_credits) {
        Some(color) => {
            embed = embed.color(color);
        },
        None => {},
    }
    let mut custom_id = owned("claim:");
    push_str(&mut custom_id, character.to_payload().as_str());
    let mut buttons: Vec<Button> = Vec::new();
    buttons.push(
        Button {
            custom_id,
            label: owned("Claim"),
            style: ButtonStyle::Secondary,
            disabled: false,
        },
    );
    let ghost bv = buttons@[0]@;
    let ghost bs = buttons@;
    assert(bs.map_values(|x: Button| x@) =~= seq![bv]);
    let mut rows: Vec<ActionRow> = Vec::new();
    rows.push(ActionRow::Buttons(buttons));
    let mut m = ResponseMessage::only_embed(embed);
    m.components = Some(rows);
    proof {
        let comps = m.components.unwrap();
        assert(comps@[0]@ == ActionRowView::Buttons(seq![bv]));
        assert(comps@.map_values(|r: ActionRow| r@) =~= seq![ActionRowView::Buttons(seq![bv])]);
    }
    Ok(Response::Message(m))
}

/// The change of the roll message after a claim: its button is replaced
/// by a disabled one naming who claimed the character.
pub open spec fn claimed_message(user_name: Seq<char>) -> MessageView {
    MessageView {
        content: None,
        embeds: Seq::empty(),
        components: Some(
            seq![
                ActionRowView::Buttons(
                    seq![
                        ButtonView {
                            custom_id: "claimed"@,
                            label: "Claimed by "@ + user_name + "!"@,
                            style: ButtonStyle::Secondary,
                            disabled: true,
                        },
                    ],
                ),
            ],
        ),
        ephemeral: false,
    }
}

/// `user_id` (named `user_name`) claims `character`: it goes at the end of
/// the user's collection, which is created if needed.
pub fn claim(db: &mut Database, user_id: u64, user_name: &str, character: Character) -> (r: Result<
    Response,
    Error,
>)
    requires
        old(db).wf(),
    ensures
        final(db).wf(),
        final(db).birthdays@ == old(db).birthdays@,
        final(db).citations@ == old(db).citations@,
        final(db).roll_count == old(db).roll_count,
        final(db).collections@ == give_character(old(db).collections@, user_id, character@),
        r matches Ok(x) && x@ == ResponseView::Update(claimed_message(user_name@)),
{
    db.give_character(user_id, character);
    let mut label = owned("Claimed by ");
    push_str(&mut label, user_name);
    push_str(&mut label, "!");
    let mut buttons: Vec<Button> = Vec::new();
    buttons.push(
        Button {
            custom_id: owned("claimed"),
            label,
            style: ButtonStyle::Secondary,
            disabled: true,
        },
    );
    let ghost bv = buttons@[0]@;
    let ghost bs = buttons@;
    assert(bs.map_values(|x: Button| x@) =~= seq![bv]);
    let mut rows: Vec<ActionRow> = Vec::new();
    rows.push(ActionRow::Buttons(buttons));
    let m = ResponseMessage {
        content: None,
        embeds: Vec::new(),
        components: Some(rows),
        ephemeral: false,
    };
    proof {
        let comps = m.components.unwrap();
        assert(comps@[0]@ == ActionRowView::Buttons(seq![bv]));
        assert(comps@.map_values(|r: ActionRow| r@) =~= seq![ActionRowView::Buttons(seq![bv])]);
        assert(m@.embeds =~= Seq::<EmbedView>::empty());
    }
    Ok(Response::Update(m))
}

} // verus!
