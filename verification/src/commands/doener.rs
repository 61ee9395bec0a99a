//! `/döner`: where to order a Döner.

use vstd::prelude::*;
use crate::commands::{CommandSpec, CommandView, ResolvedOption};
use crate::error::Error;
use crate::response::{Embed, EmbedView, MessageView, ResponseMessage};
use crate::text::owned;

verus! {

/// The answer to `/döner`: a line of text and an embed linking to a
/// delivery service.
pub open spec fn doener_message() -> MessageView {
    MessageView {
        content: Some("Ne diggi, denkste ich habe das Geld dafür? Aber hier das sollte dir helfen:"@),
        embeds: seq![
            EmbedView::empty().with_title(
                "Döner bestellen in 30159 Hannover | Lieferando.de"@,
            ).with_url("https://www.lieferando.de/lieferservice/doener/hannover-30159"@).with_description(
                "Bestelle Döner in 30159 Hannover online über Lieferando.de. Food Tracker® und verschiedene Bezahlmethoden. Genieße Deine Döner Lieferung!"@,
            ),
        ],
        components: None,
        ephemeral: false,
    }
}

/// Answers `/döner`; its options are not read.
pub fn run(_options: &Vec<ResolvedOption>) -> (r: Result<ResponseMessage, Error>)
    ensures
        r matches Ok(m) && m@ == doener_message(),
{
    let embed = Embed::new().title(owned("Döner bestellen in 30159 Hannover | Lieferando.de")).url(
        owned("https://www.lieferando.de/lieferservice/doener/hannover-30159"),
    ).description(
        owned(
            "Bestelle Döner in 30159 Hannover online über Lieferando.de. Food Tracker® und verschiedene Bezahlmethoden. Genieße Deine Döner Lieferung!",
        ),
    );
    let mut m = ResponseMessage::only_embed(embed);
    m.content = Some(
        owned("Ne diggi, denkste ich habe das Geld dafür? Aber hier das sollte dir helfen:"),
    );
    Ok(m)
}

/// How `/döner` is registered.
pub fn register() -> (c: CommandSpec)
    ensures
        c@ == (CommandView {
            name: "döner"@,
            description: "Döner bestellen?"@,
            options: Seq::empty(),
        }),
{
    CommandSpec::new(owned("döner"), owned("Döner bestellen?"))
}

} // verus!
