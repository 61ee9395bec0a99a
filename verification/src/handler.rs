//! Routing of Discord events to the commands: which command a name
//! calls, which action a button, menu or modal stands for.

use vstd::prelude::*;
use crate::commands::waifu::collection::{self, ComponentKind};
use crate::commands::waifu::roll;
use crate::commands::ResolvedOption;
use crate::commands::doener::{self, doener_message};
use crate::db::{Character, CharacterView, Database, claim_payload, lemma_claim_payload_round_trip, payload_character};
use crate::error::{Error, ErrorView};
use crate::response::{Response, ResponseView};
use crate::text::{
    chars_of, dec, find_char, lemma_index_of_unique, lemma_parse_dec, parse_unsigned,
    parse_unsigned_str, split_once, string_of,
};
use crate::util::{
    collection_payload, collection_payload_of, from_collection_payload,
    lemma_collection_payload_round_trip,
};

verus! {

/// The kind and payload of a component id `kind:payload`; both empty if
/// it has no colon.
pub open spec fn split_custom_id(s: Seq<char>) -> (Seq<char>, Seq<char>) {
    match split_once(s, ':') {
        Some(p) => p,
        None => (Seq::empty(), Seq::empty()),
    }
}

/// Splits a component id `kind:payload` at its first colon.
pub fn split_id(custom_id: &str) -> (r: (String, String))
    ensures
        (r.0@, r.1@) == split_custom_id(custom_id@),
{
    let v = chars_of(custom_id);
    let n = v.len();
    assert(v@.subrange(0, n as int) == v@);
    match find_char(&v, 0, n, ':') {
        Some(i) => {
            assert(v@.take(i as int) == v@.subrange(0, i as int));
            assert(v@.skip(i + 1) == v@.subrange(i + 1, n as int));
            (string_of(&v, 0, i), string_of(&v, i + 1, n))
        },
        None => (String::new(), String::new()),
    }
}

/// An id from the configuration, read as a number.
pub fn config_id(s: &str) -> (r: Option<u64>)
    ensures
        r == (match parse_unsigned(s@, u64::MAX as nat) {
            Some(v) => Some(v as u64),
            None => None::<u64>,
        }),
{
    parse_unsigned_str(s, u64::MAX)
}

/// The command that a slash command's name calls.
#[derive(Clone, Copy, Debug, PartialEq, Eq, Structural)]
pub enum CommandRoute {
    Citations,
    Birthday,
    Doener,
    Waifu,
    Unknown,
}

/// The command named `name`.
pub open spec fn command_route(name: Seq<char>) -> CommandRoute {
    if name == "citations"@ {
        CommandRoute::Citations
    } else if name == "birthday"@ {
        CommandRoute::Birthday
    } else if name == "döner"@ {
        CommandRoute::Doener
    } else if name == "waifu"@ {
        CommandRoute::Waifu
    } else {
        CommandRoute::Unknown
    }
}

/// The command named `name`.
pub fn route_command(name: &String) -> (r: CommandRoute)
    ensures
        r == command_route(name@),
{
    if *name == crate::text::owned("citations") {
        CommandRoute::Citations
    } else if *name == crate::text::owned("birthday") {
        CommandRoute::Birthday
    } else if *name == crate::text::owned("döner") {
        CommandRoute::Doener
    } else if *name == crate::text::owned("waifu") {
        CommandRoute::Waifu
    } else {
        CommandRoute::Unknown
    }
}

/// The answer to the slash command `name` where it needs neither the
/// database, the clock nor the network: `/döner`'s message, and the
/// not-found error for a name that no command has; `None` for the other
/// commands.
pub fn immediate_answer(name: &String, options: &Vec<ResolvedOption>) -> (r: Option<
    Result<Response, Error>,
>)
    ensures
        match command_route(name@) {
            CommandRoute::Doener => r matches Some(Ok(x)) && x@ == ResponseView::Message(
                doener_message(),
            ),
            CommandRoute::Unknown => r matches Some(Err(e)) && e@ == ErrorView::NotFound,
            _ => r is None,
        },
{
    match route_command(name) {
        CommandRoute::Doener => match doener::run(options) {
            Ok(m) => Some(Ok(Response::Message(m))),
            Err(e) => Some(Err(e)),
        },
        CommandRoute::Unknown => Some(Err(Error::NotFound)),
        _ => None,
    }
}

/// What a used button or menu stands for.
#[derive(Debug)]
pub enum ComponentRoute {
    /// Claim the rolled character.
    Claim(Character),
    /// Delete a collection's character: owner and index.
    Delete(u64, usize),
    /// Ask whom to gift a collection's character: owner and index.
    Gift(u64, usize),
    /// Browse the collection of the owner.
    Select(u64),
    /// Show a collection's character: owner and index.
    Browse(u64, usize),
    /// Nothing the bot knows.
    Unknown,
}

/// Whether `r` is what the component id `custom_id` stands for.
pub open spec fn component_route(custom_id: Seq<char>, r: ComponentRoute) -> bool {
    let (kind, payload) = split_custom_id(custom_id);
    if kind == "claim"@ && payload_character(payload) is Some {
        r matches ComponentRoute::Claim(c) && Some(c@) == payload_character(payload)
    } else if kind == "delete"@ && collection_payload_of(payload) is Some {
        r matches ComponentRoute::Delete(o, i) && collection_payload_of(payload) == Some((o, i))
    } else if kind == "gift"@ && collection_payload_of(payload) is Some {
        r matches ComponentRoute::Gift(o, i) && collection_payload_of(payload) == Some((o, i))
    } else if kind == "select"@ && parse_unsigned(payload, u64::MAX as nat) is Some {
        r matches ComponentRoute::Select(o) && parse_unsigned(payload, u64::MAX as nat) == Some(
            o as nat,
        )
    } else if (kind == "previous"@ || kind == "next"@) && collection_payload_of(payload) is Some {
        r matches ComponentRoute::Browse(o, i) && collection_payload_of(payload) == Some((o, i))
    } else {
        r is Unknown
    }
}

/// What the component id `custom_id` stands for.
pub fn route_component(custom_id: &str) -> (r: ComponentRoute)
    ensures
        component_route(custom_id@, r),
{
    let (kind, payload) = split_id(custom_id);
    if kind == crate::text::owned("claim") {
        match Character::from_payload(payload.as_str()) {
            Some(c) => return ComponentRoute::Claim(c),
            None => {},
        }
    }
    if kind == crate::text::owned("delete") {
        match from_collection_payload(payload.as_str()) {
            Some((o, i)) => return ComponentRoute::Delete(o, i),
            None => {},
        }
    }
    if kind == crate::text::owned("gift") {
        match from_collection_payload(payload.as_str()) {
            Some((o, i)) => return ComponentRoute::Gift(o, i),
            None => {},
        }
    }
    if kind == crate::text::owned("select") {
        match parse_unsigned_str(payload.as_str(), u64::MAX) {
            Some(o) => return ComponentRoute::Select(o),
            None => {},
        }
    }
    if kind == crate::text::owned("previous") || kind == crate::text::owned("next") {
        match from_collection_payload(payload.as_str()) {
            Some((o, i)) => return ComponentRoute::Browse(o, i),
            None => {},
        }
    }
    ComponentRoute::Unknown
}

/// Answers a used button or menu by `user_id` (named `user_name`): what
/// its id stands for is done; an unknown id is not found.
pub fn handle_component(
    db: &mut Database,
    user_id: u64,
    user_name: &str,
    custom_id: &str,
    kind: &ComponentKind,
) -> (r: Result<Response, Error>)
    requires
        old(db).wf(),
    ensures
        final(db).wf(),
        final(db).birthdays@ == old(db).birthdays@,
        final(db).citations@ == old(db).citations@,
        final(db).roll_count == old(db).roll_count,
        exists|route: ComponentRoute|
            component_route(custom_id@, route) && #[trigger] component_outcome(
                old(db),
                final(db),
                user_id,
                user_name@,
                route,
                *kind,
                r,
            ),
{
    let route = route_component(custom_id);
    let ghost rv = route;
    let r = match route {
        ComponentRoute::Claim(c) => roll::claim(db, user_id, user_name, c),
        ComponentRoute::Delete(o, i) => collection::delete(db, user_id, o, i),
        ComponentRoute::Gift(o, i) => collection::gift_modal(db, user_id, o, i),
        ComponentRoute::Select(o) => collection::select(db, o, kind),
        ComponentRoute::Browse(o, i) => collection::update(db, o, Some(i)),
        ComponentRoute::Unknown => Err(Error::NotFound),
    };
    assert(component_outcome(old(db), db, user_id, user_name@, rv, *kind, r));
    r
}

/// What doing `route` gives: the claim, deletion, gift modal or page it
/// stands for, or not found.
pub open spec fn component_outcome(
    old_db: &Database,
    new_db: &Database,
    user_id: u64,
    user_name: Seq<char>,
    route: ComponentRoute,
    kind: ComponentKind,
    r: Result<Response, Error>,
) -> bool {
    match route {
        ComponentRoute::Claim(c) => {
            &&& new_db.collections@ == crate::db::give_character(old_db.collections@, user_id, c@)
            &&& r matches Ok(x) && x@ == ResponseView::Update(roll::claimed_message(user_name))
        },
        ComponentRoute::Delete(o, i) => collection::delete_outcome(old_db, new_db, user_id, o, i, r),
        ComponentRoute::Gift(o, i) => new_db.collections@ == old_db.collections@
            && collection::gift_modal_outcome(old_db, user_id, o, i, r),
        ComponentRoute::Select(o) => new_db.collections@ == old_db.collections@ && match collection::selected_index(kind) {
            Some(i) => r matches Ok(x) && x@ == ResponseView::Update(
                collection::collection_message(old_db, o, Some(i)),
            ),
            None => r matches Err(e) && e@ == ErrorView::NotFound,
        },
        ComponentRoute::Browse(o, i) => new_db.collections@ == old_db.collections@ && (r matches Ok(
            x,
        ) && x@ == ResponseView::Update(collection::collection_message(old_db, o, Some(i)))),
        ComponentRoute::Unknown => new_db.collections@ == old_db.collections@ && (r matches Err(e)
            && e@ == ErrorView::NotFound),
    }
}

/// The gift modal an id `gift-recipient:owner,index` stands for: owner and
/// index; `None` for any other id.
pub open spec fn modal_route(custom_id: Seq<char>) -> Option<(u64, usize)> {
    let (kind, payload) = split_custom_id(custom_id);
    if kind == "gift-recipient"@ {
        collection_payload_of(payload)
    } else {
        None
    }
}

/// Answers a submitted modal: the gift modal gifts the character to the
/// chosen `recipient`; any other modal is not found.
pub fn handle_modal(db: &mut Database, custom_id: &str, recipient: Option<u64>) -> (r: Result<
    Response,
    Error,
>)
    requires
        old(db).wf(),
    ensures
        final(db).wf(),
        final(db).birthdays@ == old(db).birthdays@,
        final(db).citations@ == old(db).citations@,
        final(db).roll_count == old(db).roll_count,
        match modal_route(custom_id@) {
            Some((o, i)) => collection::gift_outcome(old(db), final(db), o, i, recipient, r),
            None => final(db).collections@ == old(db).collections@ && (r matches Err(e) && e@
                == ErrorView::NotFound),
        },
{
    let (kind, payload) = split_id(custom_id);
    if kind == crate::text::owned("gift-recipient") {
        match from_collection_payload(payload.as_str()) {
            Some((o, i)) => return collection::gift(db, o, i, recipient),
            None => {},
        }
    }
    Err(Error::NotFound)
}

/// An id made of a prefix that ends in its only colon, then a payload,
/// splits into the prefix without the colon and the payload.
proof fn lemma_split_prefixed(prefix: Seq<char>, payload: Seq<char>)
    requires
        prefix.len() > 0,
        prefix.last() == ':',
        forall|k: int| 0 <= k < prefix.len() - 1 ==> prefix[k] != ':',
    ensures
        split_custom_id(prefix + payload) == (prefix.drop_last(), payload),
{
    let s = prefix + payload;
    let i = prefix.len() - 1;
    assert(s[i] == ':');
    assert forall|k: int| 0 <= k < i implies s[k] != ':' by {
        assert(s[k] == prefix[k]);
    }
    lemma_index_of_unique(s, ':', i);
    assert(s.take(i) =~= prefix.drop_last());
    assert(s.skip(i + 1) =~= payload);
}

/// The names of the kinds of component ids, as characters.
proof fn lemma_kind_literals()
    ensures
        "claim"@ == seq!['c', 'l', 'a', 'i', 'm'],
        "delete"@ == seq!['d', 'e', 'l', 'e', 't', 'e'],
        "gift"@ == seq!['g', 'i', 'f', 't'],
        "select"@ == seq!['s', 'e', 'l', 'e', 'c', 't'],
        "previous"@ == seq!['p', 'r', 'e', 'v', 'i', 'o', 'u', 's'],
        "next"@ == seq!['n', 'e', 'x', 't'],
        "gift-recipient"@ == seq!['g', 'i', 'f', 't', '-', 'r', 'e', 'c', 'i', 'p', 'i', 'e', 'n', 't'],
        "claim:"@ == seq!['c', 'l', 'a', 'i', 'm', ':'],
        "delete:"@ == seq!['d', 'e', 'l', 'e', 't', 'e', ':'],
        "gift:"@ == seq!['g', 'i', 'f', 't', ':'],
        "select:"@ == seq!['s', 'e', 'l', 'e', 'c', 't', ':'],
        "previous:"@ == seq!['p', 'r', 'e', 'v', 'i', 'o', 'u', 's', ':'],
        "next:"@ == seq!['n', 'e', 'x', 't', ':'],
        "gift-recipient:"@ == seq![
            'g', 'i', 'f', 't', '-', 'r', 'e', 'c', 'i', 'p', 'i', 'e', 'n', 't', ':',
        ],
{
    reveal_strlit("claim");
    reveal_strlit("delete");
    reveal_strlit("gift");
    reveal_strlit("select");
    reveal_strlit("previous");
    reveal_strlit("next");
    reveal_strlit("gift-recipient");
    reveal_strlit("claim:");
    reveal_strlit("delete:");
    reveal_strlit("gift:");
    reveal_strlit("select:");
    reveal_strlit("previous:");
    reveal_strlit("next:");
    reveal_strlit("gift-recipient:");
}

/// The Claim button of a rolled character (id `claim:` and the character's
/// claim payload) routes to the claim of exactly that character, whenever
/// its image key holds no comma.
pub proof fn lemma_claim_button_routes(c: CharacterView, r: ComponentRoute)
    requires
        forall|i: int| 0 <= i < c.image_key.len() ==> c.image_key[i] != ',',
        component_route("claim:"@ + claim_payload(c), r),
    ensures
        r matches ComponentRoute::Claim(x) && x@ == c,
{
    lemma_kind_literals();
    lemma_split_prefixed("claim:"@, claim_payload(c));
    assert("claim:"@.drop_last() =~= "claim"@);
    lemma_claim_payload_round_trip(c);
}

/// The ids that a collection page gives its components route to what the
/// components are for: Delete and Gift to that owner's character at that
/// index, Previous and Next to showing it, the menu to browsing the owner's
/// collection.
pub proof fn lemma_collection_ids_route(owner: u64, index: usize, r: ComponentRoute)
    ensures
        component_route("delete:"@ + collection_payload(owner, index), r) ==> r
            == ComponentRoute::Delete(owner, index),
        component_route("gift:"@ + collection_payload(owner, index), r) ==> r
            == ComponentRoute::Gift(owner, index),
        component_route("previous:"@ + collection_payload(owner, index), r) ==> r
            == ComponentRoute::Browse(owner, index),
        component_route("next:"@ + collection_payload(owner, index), r) ==> r
            == ComponentRoute::Browse(owner, index),
        component_route("select:"@ + dec(owner as nat), r) ==> r == ComponentRoute::Select(owner),
{
    lemma_kind_literals();
    lemma_collection_payload_round_trip(owner, index);
    let p = collection_payload(owner, index);
    lemma_split_prefixed("delete:"@, p);
    assert("delete:"@.drop_last() =~= "delete"@);
    lemma_split_prefixed("gift:"@, p);
    assert("gift:"@.drop_last() =~= "gift"@);
    lemma_split_prefixed("previous:"@, p);
    assert("previous:"@.drop_last() =~= "previous"@);
    lemma_split_prefixed("next:"@, p);
    assert("next:"@.drop_last() =~= "next"@);
    lemma_split_prefixed("select:"@, dec(owner as nat));
    assert("select:"@.drop_last() =~= "select"@);
    lemma_parse_dec(owner as nat, u64::MAX as nat);
}

/// The gift modal's id (`gift-recipient:` and the payload of owner and
/// index) routes to the gift of that owner's character at that index.
pub proof fn lemma_gift_modal_routes(owner: u64, index: usize)
    ensures
        modal_route("gift-recipient:"@ + collection_payload(owner, index)) == Some((owner, index)),
{
    lemma_kind_literals();
    lemma_collection_payload_round_trip(owner, index);
    lemma_split_prefixed("gift-recipient:"@, collection_payload(owner, index));
    assert("gift-recipient:"@.drop_last() =~= "gift-recipient"@);
}

} // verus!
