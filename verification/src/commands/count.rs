//! `/count`: the messages recorded since the bot started.

use vstd::prelude::*;
use crate::commands::{CommandSpec, CommandView, ResolvedOption};
use crate::error::Error;
use crate::response::{Embed, EmbedView, FieldView, MessageView, Response, ResponseMessage, ResponseView};
use crate::text::{dec, owned, push_dec, push_str, views};

verus! {

/// The messages recorded since the bot started, and how many.
#[derive(Debug)]
pub struct Counter {
    pub count: u64,
    pub list: Vec<String>,
}

/// The field of the `i`-th recorded message: unnamed, the message for the
/// first 24, `...` after.
pub open spec fn count_field(list: Seq<Seq<char>>, i: int) -> FieldView {
    FieldView { name: ""@, value: if i < 24 { list[i] } else { "..."@ }, inline: false }
}

/// The embed of `/count`.
pub open spec fn count_embed(count: u64, list: Seq<Seq<char>>) -> EmbedView {
    EmbedView {
        fields: Seq::new(list.len(), |i: int| count_field(list, i)),
        ..EmbedView::empty().with_title(
            if list.len() == 0 {
                "No messages have been recorded after last startup!"@
            } else {
                "Already recorded messages: "@ + dec(count as nat)
                    + "\nList of already recorded messages:"@
            },
        )
    }
}

/// Answers `/count`; its options are not read.
pub fn run(_options: &Vec<ResolvedOption>, counter: &Counter) -> (r: Result<Response, Error>)
    ensures
        r matches Ok(x) && x@ == ResponseView::Message(
            MessageView::only_embed(count_embed(counter.count, views(counter.list@))),
        ),
{
    let title = if counter.list.len() == 0 {
        owned("No messages have been recorded after last startup!")
    } else {
        let mut t = owned("Already recorded messages: ");
        push_dec(&mut t, counter.count);
        push_str(&mut t, "\nList of already recorded messages:");
        t
    };
    let mut embed = Embed::new().title(title);
    let ghost e0 = embed@;
    let ghost list = views(counter.list@);
    let mut i: usize = 0;
    assert(e0.fields =~= Seq::new(0, |j: int| count_field(list, j)));
    while i < counter.list.len()
        invariant
            i <= counter.list@.len(),
            list == views(counter.list@),
            embed@ == (EmbedView { fields: Seq::new(i as nat, |j: int| count_field(list, j)), ..e0 }),
        decreases counter.list@.len() - i,
    {
        let value = if i < 24 {
            counter.list[i].clone()
        } else {
            owned("...")
        };
        proof {
            reveal_strlit("");
            reveal_strlit("...");
            assert(""@ =~= Seq::<char>::empty());
            assert(list[i as int] == counter.list@[i as int]@);
            assert(value@ == count_field(list, i as int).value);
        }
        embed = embed.field(String::new(), value, false);
        assert(Seq::new((i + 1) as nat, |j: int| count_field(list, j)) =~= Seq::new(
            i as nat,
            |j: int| count_field(list, j),
        ).push(count_field(list, i as int)));
        i = i + 1;
    }
    Ok(Response::Message(ResponseMessage::only_embed(embed)))
}

/// How `/count` is registered.
pub fn register() -> (c: CommandSpec)
    ensures
        c@ == (CommandView {
            name: "count"@,
            description: "Show which and how many messages were recorded since the last start"@,
            options: Seq::empty(),
        }),
{
    CommandSpec::new(
        owned("count"),
        owned("Show which and how many messages were recorded since the last start"),
    )
}

} // verus!
