//! A player's waifu collection: browsing it page by page, deleting and
//! gifting characters.

use vstd::prelude::*;
use crate::commands::waifu::{character_embed, create_character_embed};
use crate::db::{
    Character, CharacterView, Collection, CollectionView, Database, all_characters, all_credits,
    character_count, lemma_give_characters, lemma_take_characters,
    character_views, give_character, lemma_give_sums, lemma_take_sums, take_character,
};
use crate::error::{Error, ErrorView};
use crate::response::{
    ActionRow, ActionRowView, Button, ButtonStyle, ButtonView, Embed, EmbedView, MenuKind,
    MenuKindView, MessageView, Modal, ModalView, Response, ResponseMessage, ResponseView,
    SelectMenu, SelectMenuView, SelectOption, SelectOptionView, option_views,
};
use crate::table::{
    lookup, row_index, sorted_insert, lemma_row_index, lemma_lookup_member, lemma_sorted_insert_contains,
    lemma_update_lookup, Table,
};
use crate::text::{chars_of, dec, owned, parse_unsigned_chars, push_chars, push_dec, push_str, strip_prefix, strip_prefix_at, parse_unsigned};
use crate::util::{collection_payload, push_collection_payload, truncate_chars, truncated, usize_max};

verus! {

broadcast use vstd::string::group_string_axioms;

/// How many characters one page of the select menu lists.
pub const SELECT_PAGE_SIZE: usize = 23;

/// The longest title of a modal, in characters.
pub const MODAL_TITLE_LIMIT: usize = 45;

/// The characters of `user_id`'s collection, if the user has one.
pub open spec fn characters_of(db: &Database, user_id: u64) -> Option<Seq<CharacterView>> {
    match lookup::<Collection>(db.collections@, user_id) {
        Some(c) => Some(c.characters),
        None => None,
    }
}

/// The index of the newest of `n` characters (0 when there are none).
pub open spec fn last_index(n: nat) -> int {
    if n == 0 {
        0
    } else {
        n - 1
    }
}

/// The character shown: `index`, but at most the newest; the newest if no
/// index is given.
pub open spec fn current_index(n: nat, index: Option<usize>) -> int {
    let last = last_index(n);
    match index {
        Some(i) => if i < last {
            i as int
        } else {
            last
        },
        None => last,
    }
}

/// The rank of the first character of the page that shows the character
/// of rank `rank` (rank 0 is the newest).
pub open spec fn page_start(rank: int) -> int {
    (rank / SELECT_PAGE_SIZE as int) * SELECT_PAGE_SIZE as int
}

/// A `more...` option that loads the page around `index`.
pub open spec fn more_option(index: int, description: Seq<char>) -> SelectOptionView {
    SelectOptionView {
        label: "more..."@,
        value: "page:"@ + dec(index as nat),
        description,
        default_selection: false,
    }
}

/// The option for the character at `index`: its number (from 1) and name,
/// its goon credits, selected if it is the one shown.
pub open spec fn page_option(chars: Seq<CharacterView>, index: int, current: int) -> SelectOptionView {
    SelectOptionView {
        label: dec((index + 1) as nat) + ". "@ + chars[index].name,
        value: dec(index as nat),
        description: "Goon Credits: "@ + dec(chars[index].goon_credits as nat),
        default_selection: index == current,
    }
}

/// How many characters the page starting at rank `start` lists.
pub open spec fn page_len(last: int, start: int) -> int {
    if last - start + 1 < SELECT_PAGE_SIZE as int {
        last - start + 1
    } else {
        SELECT_PAGE_SIZE as int
    }
}

/// The options of the select menu for the page starting at rank `start`:
/// a link to the newer page if there is one, the page's characters from
/// newest to oldest, and a link to the older page if there is one.
pub open spec fn collection_options(
    chars: Seq<CharacterView>,
    current: int,
    last: int,
    start: int,
) -> Seq<SelectOptionView> {
    let newer = if start >= SELECT_PAGE_SIZE as int {
        seq![
            more_option(
                last - (start - SELECT_PAGE_SIZE as int),
                "Load newer characters in your collection"@,
            ),
        ]
    } else {
        Seq::empty()
    };
    let page = Seq::new(
        page_len(last, start) as nat,
        |k: int| page_option(chars, last - (start + k), current),
    );
    let older = if start + SELECT_PAGE_SIZE as int <= last {
        seq![
            more_option(
                last - (start + SELECT_PAGE_SIZE as int),
                "Load older characters in your collection"@,
            ),
        ]
    } else {
        Seq::empty()
    };
    newer + page + older
}

/// The select menu of a collection page.
pub open spec fn collection_menu(
    user_id: u64,
    chars: Seq<CharacterView>,
    current: int,
    last: int,
    start: int,
) -> SelectMenuView {
    SelectMenuView {
        custom_id: "select:"@ + dec(user_id as nat),
        kind: MenuKindView::Text(collection_options(chars, current, last, start)),
        placeholder: "Select a character"@,
        min_values: 1,
        max_values: 1,
        required: false,
    }
}

/// The button `label` whose id is `kind` and the payload of `user_id` and
/// `index`.
pub open spec fn payload_button(
    kind: Seq<char>,
    user_id: u64,
    index: usize,
    label: Seq<char>,
    style: ButtonStyle,
    disabled: bool,
) -> ButtonView {
    ButtonView { custom_id: kind + collection_payload(user_id, index), label, style, disabled }
}

/// The index the Previous button of the character at `index` shows: the
/// one claimed before it (disabled, and `index` itself, for the first).
pub open spec fn previous_index(index: usize) -> usize {
    if index > 0 {
        (index - 1) as usize
    } else {
        0
    }
}

/// The index the Next button of the character at `index` shows: the one
/// claimed after it (disabled, and `last` itself, for the newest).
pub open spec fn next_index(index: usize, last: usize) -> usize {
    if index < last {
        (index + 1) as usize
    } else {
        last
    }
}

/// The buttons for the character at `index` out of those up to `last`:
/// Previous, Gift, Delete and Next; Previous is disabled on the first
/// character, Next on the newest.
pub open spec fn collection_actions(user_id: u64, index: usize, last: usize) -> ActionRowView {
    ActionRowView::Buttons(
        seq![
            payload_button(
                "previous:"@,
                user_id,
                previous_index(index),
                "Previous"@,
                ButtonStyle::Secondary,
                index == 0,
            ),
            payload_button("gift:"@, user_id, index, "Gift"@, ButtonStyle::Success, false),
            payload_button("delete:"@, user_id, index, "Delete"@, ButtonStyle::Danger, false),
            payload_button(
                "next:"@,
                user_id,
                next_index(index, last),
                "Next"@,
                ButtonStyle::Secondary,
                index >= last,
            ),
        ],
    )
}

/// The page of `user_id`'s collection that shows the character at `index`
/// (the newest if `index` is `None` or too large): the character's embed,
/// the select menu of its page, and its Previous, Gift, Delete and Next
/// buttons; or a note
/// that the collection is empty.
pub open spec fn collection_message(db: &Database, user_id: u64, index: Option<usize>) -> MessageView {
    match characters_of(db, user_id) {
        Some(chars) if chars.len() > 0 => {
            let last = last_index(chars.len());
            let current = current_index(chars.len(), index);
            let start = page_start(last - current);
            MessageView {
                content: None,
                embeds: seq![character_embed(chars[current])],
                components: Some(
                    seq![
                        ActionRowView::Menu(collection_menu(user_id, chars, current, last, start)),
                        collection_actions(user_id, current as usize, last as usize),
                    ],
                ),
                ephemeral: false,
            }
        },
        _ => MessageView {
            content: None,
            embeds: seq![EmbedView::empty().with_title("Your collection is empty!"@)],
            components: Some(Seq::empty()),
            ephemeral: false,
        },
    }
}

/// A `more...` option that loads the page around `index`.
fn more(index: usize, description: &str) -> (o: SelectOption)
    ensures
        o@ == more_option(index as int, description@),
{
    let mut value = owned("page:");
    push_dec(&mut value, index as u64);
    SelectOption {
        label: owned("more..."),
        value,
        description: owned(description),
        default_selection: false,
    }
}

/// The select menu listing the page that starts at rank `start`.
fn collection_select(
    user_id: u64,
    characters: &Vec<Character>,
    current_index: usize,
    last_index: usize,
    start: usize,
) -> (m: SelectMenu)
    requires
        last_index < characters@.len(),
        start <= last_index,
    ensures
        m@ == collection_menu(
            user_id,
            character_views(characters@),
            current_index as int,
            last_index as int,
            start as int,
        ),
{
    let ghost chars = character_views(characters@);
    let mut options: Vec<SelectOption> = Vec::new();
    if start >= SELECT_PAGE_SIZE {
        options.push(
            more(last_index - (start - SELECT_PAGE_SIZE), "Load newer characters in your collection"),
        );
    }
    let ghost newer = option_views(options@);
    let nchars = characters.len();
    let count: usize = if last_index - start < SELECT_PAGE_SIZE - 1 {
        last_index - start + 1
    } else {
        SELECT_PAGE_SIZE
    };
    let mut k: usize = 0;
    while k < count
        invariant
            k <= count,
            count == page_len(last_index as int, start as int),
            start <= last_index < characters@.len(),
            nchars == characters@.len(),
            chars == character_views(characters@),
            option_views(options@) == newer + Seq::new(
                k as nat,
                |j: int| page_option(chars, last_index - (start + j), current_index as int),
            ),
        decreases count - k,
    {
        let index = last_index - (start + k);
        let c = &characters[index];
        let mut label = String::new();
        push_dec(&mut label, (index + 1) as u64);
        push_str(&mut label, ". ");
        push_str(&mut label, c.name.as_str());
        let mut value = String::new();
        push_dec(&mut value, index as u64);
        let mut description = owned("Goon Credits: ");
        push_dec(&mut description, c.goon_credits as u64);
        let ghost before = option_views(options@);
        options.push(SelectOption { label, value, description, default_selection: index == current_index });
        proof {
            assert(chars[index as int] == characters@[index as int]@);
            assert(option_views(options@) =~= before.push(
                page_option(chars, last_index - (start + k), current_index as int),
            ));
            assert(Seq::new(
                (k + 1) as nat,
                |j: int| page_option(chars, last_index - (start + j), current_index as int),
            ) =~= Seq::new(
                k as nat,
                |j: int| page_option(chars, last_index - (start + j), current_index as int),
            ).push(page_option(chars, last_index - (start + k), current_index as int)));
        }
        k = k + 1;
    }
    let ghost page = Seq::new(
        count as nat,
        |j: int| page_option(chars, last_index - (start + j), current_index as int),
    );
    let ghost with_page = option_views(options@);
    assert(with_page == newer + page);
    if last_index - start >= SELECT_PAGE_SIZE {
        let o = more(last_index - (start + SELECT_PAGE_SIZE), "Load older characters in your collection");
        let ghost ov = o@;
        options.push(o);
        assert(option_views(options@) =~= with_page.push(ov));
    }
    assert(option_views(options@) =~= collection_options(
        chars,
        current_index as int,
        last_index as int,
        start as int,
    ));
    let mut custom_id = owned("select:");
    push_dec(&mut custom_id, user_id);
    SelectMenu {
        custom_id,
        kind: MenuKind::Text(options),
        placeholder: owned("Select a character"),
        min_values: 1,
        max_values: 1,
        required: false,
    }
}

/// The button `label` with id `kind:` and the payload of `user_id` and
/// `index`.
fn action_button(
    kind: &str,
    user_id: u64,
    index: usize,
    label: &str,
    style: ButtonStyle,
    disabled: bool,
) -> (b: Button)
    ensures
        b@ == payload_button(kind@, user_id, index, label@, style, disabled),
{
    let mut custom_id = owned(kind);
    push_collection_payload(&mut custom_id, user_id, index);
    Button { custom_id, label: owned(label), style, disabled }
}

/// The collection page of `user_id` that shows the character at `index`.
pub fn create_message(db: &Database, user_id: u64, index: Option<usize>) -> (m: ResponseMessage)
    requires
        db.wf(),
    ensures
        m@ == collection_message(db, user_id, index),
{
    match db.collections.get(user_id) {
        Some(collection) => {
            let characters = &collection.characters;
            let n = characters.len();
            if n > 0 {
                let last = n - 1;
                let current = match index {
                    Some(i) => if i < last {
                        i
                    } else {
                        last
                    },
                    None => last,
                };
                let rank = last - current;
                let start = (rank / SELECT_PAGE_SIZE) * SELECT_PAGE_SIZE;
                assert(start <= rank) by (nonlinear_arith)
                    requires
                        start == (rank / 23) * 23,
                ;
                let embed = create_character_embed(&characters[current]);
                let select = collection_select(user_id, characters, current, last, start);
                let previous = if current > 0 {
                    current - 1
                } else {
                    0
                };
                let next = if current < last {
                    current + 1
                } else {
                    last
                };
                let mut buttons: Vec<Button> = Vec::new();
                buttons.push(
                    action_button(
                        "previous:",
                        user_id,
                        previous,
                        "Previous",
                        ButtonStyle::Secondary,
                        current == 0,
                    ),
                );
                buttons.push(
                    action_button("gift:", user_id, current, "Gift", ButtonStyle::Success, false),
                );
                buttons.push(
                    action_button("delete:", user_id, current, "Delete", ButtonStyle::Danger, false),
                );
                buttons.push(
                    action_button("next:", user_id, next, "Next", ButtonStyle::Secondary, current >= last),
                );
                let mut components: Vec<ActionRow> = Vec::new();
                components.push(ActionRow::Menu(select));
                components.push(ActionRow::Buttons(buttons));
                let mut m = ResponseMessage::only_embed(embed);
                m.components = Some(components);
                proof {
                    assert(character_views(characters@)[current as int] == characters@[current as int]@);
                    let comps = m.components.unwrap();
                    assert(comps@[0]@ == ActionRowView::Menu(select@));
                    assert(buttons@.map_values(|x: Button| x@) =~= seq![
                        buttons@[0]@,
                        buttons@[1]@,
                        buttons@[2]@,
                        buttons@[3]@,
                    ]);
                    assert(comps@[1]@ == collection_actions(user_id, current, last));
                    let cv = m.components.unwrap()@.map_values(|r: ActionRow| r@);
                    assert(cv =~= seq![
                        ActionRowView::Menu(collection_menu(user_id, character_views(characters@), current as int, last as int, start as int)),
                        collection_actions(user_id, current, last),
                    ]);
                }
                m
            } else {
                empty_message()
            }
        },
        None => empty_message(),
    }
}

/// The note that a collection is empty.
fn empty_message() -> (m: ResponseMessage)
    ensures
        m@ == (MessageView {
            content: None,
            embeds: seq![EmbedView::empty().with_title("Your collection is empty!"@)],
            components: Some(Seq::empty()),
            ephemeral: false,
        }),
{
    let mut m = ResponseMessage::only_embed(Embed::new().title(owned("Your collection is empty!")));
    m.components = Some(Vec::new());
    assert(m@.components->0 =~= Seq::<ActionRowView>::empty());
    m
}

/// Answers with the collection page of `user_id` that shows `index`.
pub fn run(db: &Database, user_id: u64, index: Option<usize>) -> (r: Result<Response, Error>)
    requires
        db.wf(),
    ensures
        r matches Ok(x) && x@ == ResponseView::Message(collection_message(db, user_id, index)),
{
    Ok(Response::Message(create_message(db, user_id, index)))
}

/// Changes the shown page to the one of `user_id`'s collection that shows
/// `index`.
pub fn update(db: &Database, user_id: u64, index: Option<usize>) -> (r: Result<Response, Error>)
    requires
        db.wf(),
    ensures
        r matches Ok(x) && x@ == ResponseView::Update(collection_message(db, user_id, index)),
{
    Ok(Response::Update(create_message(db, user_id, index)))
}

/// What a used component reports: the values chosen in a text select
/// menu, or something else.
#[derive(Debug)]
pub enum ComponentKind {
    StringSelect(Vec<String>),
    Other,
}

/// The index a select menu choice names: the first value, without a
/// `page:` in front, read as a number.
pub open spec fn selected_index(kind: ComponentKind) -> Option<usize> {
    match kind {
        ComponentKind::StringSelect(values) => if values@.len() > 0 {
            let v = values@[0]@;
            let t = match strip_prefix(v, "page:"@) {
                Some(rest) => rest,
                None => v,
            };
            match parse_unsigned(t, usize_max()) {
                Some(i) => Some(i as usize),
                None => None,
            }
        } else {
            None
        },
        ComponentKind::Other => None,
    }
}

/// A choice in the collection's select menu: shows the chosen character's
/// page of `owner_id`'s collection, or is not found.
pub fn select(db: &Database, owner_id: u64, kind: &ComponentKind) -> (r: Result<Response, Error>)
    requires
        db.wf(),
    ensures
        match selected_index(*kind) {
            Some(i) => r matches Ok(x) && x@ == ResponseView::Update(
                collection_message(db, owner_id, Some(i)),
            ),
            None => r matches Err(e) && e@ == ErrorView::NotFound,
        },
{
    match kind {
        ComponentKind::StringSelect(values) => {
            if values.len() > 0 {
                let v = chars_of(values[0].as_str());
                let n = v.len();
                assert(v@.subrange(0, n as int) == v@);
                let start = match strip_prefix_at(&v, 0, n, "page:") {
                    Some(a) => a,
                    None => 0,
                };
                match parse_unsigned_chars(&v, start, n, usize::MAX as u64) {
                    Some(i) => return update(db, owner_id, Some(i as usize)),
                    None => {},
                }
            }
        },
        ComponentKind::Other => {},
    }
    Err(Error::NotFound)
}

/// The answer to the delete button: the owner's collection after the
/// deletion, at the character before the deleted one (the newest if the
/// first was deleted or nothing was).
pub open spec fn delete_outcome(
    old_db: &Database,
    new_db: &Database,
    user_id: u64,
    owner_id: u64,
    index: usize,
    r: Result<Response, Error>,
) -> bool {
    if user_id == owner_id {
        let (colls, taken) = take_character(old_db.collections@, owner_id, index as int);
        let previous = if taken is Some && index >= 1 {
            Some((index - 1) as usize)
        } else {
            None
        };
        &&& new_db.collections@ == colls
        &&& r matches Ok(x) && x@ == ResponseView::Message(
            collection_message(new_db, owner_id, previous),
        )
    } else {
        &&& new_db.collections@ == old_db.collections@
        &&& r matches Err(e) && e@ == ErrorView::Unauthorized
    }
}

/// Deletes the character at `index` from `owner_id`'s collection, if
/// `user_id` is its owner.
pub fn delete(db: &mut Database, user_id: u64, owner_id: u64, index: usize) -> (r: Result<
    Response,
    Error,
>)
    requires
        old(db).wf(),
    ensures
        final(db).wf(),
        final(db).birthdays@ == old(db).birthdays@,
        final(db).citations@ == old(db).citations@,
        final(db).roll_count == old(db).roll_count,
        delete_outcome(old(db), final(db), user_id, owner_id, index, r),
{
    if user_id == owner_id {
        let previous_index = match db.take_character(owner_id, index) {
            Some(_) => if index >= 1 {
                Some(index - 1)
            } else {
                None
            },
            None => None,
        };
        run(db, owner_id, previous_index)
    } else {
        Err(Error::Unauthorized)
    }
}

/// The select menu of the gift modal: one user, required.
pub open spec fn recipient_menu() -> SelectMenuView {
    SelectMenuView {
        custom_id: "gift-recipient"@,
        kind: MenuKindView::User,
        placeholder: "Choose..."@,
        min_values: 1,
        max_values: 1,
        required: true,
    }
}

/// The answer to the gift button: if `user_id` owns the collection and it
/// has a character at `index`, a modal asking for the recipient, titled
/// with the character's name (cut to the modal title limit).
pub open spec fn gift_modal_outcome(
    db: &Database,
    user_id: u64,
    owner_id: u64,
    index: usize,
    r: Result<Response, Error>,
) -> bool {
    if user_id != owner_id {
        r matches Err(e) && e@ == ErrorView::Unauthorized
    } else {
        match characters_of(db, owner_id) {
            Some(chars) if index < chars.len() => r matches Ok(x) && x@ == ResponseView::Modal(
                ModalView {
                    custom_id: "gift-recipient:"@ + collection_payload(owner_id, index),
                    title: truncated("Gift: "@ + chars[index as int].name, MODAL_TITLE_LIMIT as nat),
                    label: "Recipient"@,
                    menu: recipient_menu(),
                },
            ),
            _ => r matches Err(e) && e@ == ErrorView::NotFound,
        }
    }
}

/// Asks the owner of a collection to whom to gift the character at `index`.
pub fn gift_modal(db: &Database, user_id: u64, owner_id: u64, index: usize) -> (r: Result<
    Response,
    Error,
>)
    requires
        db.wf(),
    ensures
        gift_modal_outcome(db, user_id, owner_id, index, r),
{
    if user_id == owner_id {
        match db.collections.get(owner_id) {
            Some(collection) => {
                if index < collection.characters.len() {
                    let character = &collection.characters[index];
                    let mut title = owned("Gift: ");
                    push_str(&mut title, character.name.as_str());
                    let mut custom_id = owned("gift-recipient:");
                    push_collection_payload(&mut custom_id, owner_id, index);
                    let menu = SelectMenu {
                        custom_id: owned("gift-recipient"),
                        kind: MenuKind::User,
                        placeholder: owned("Choose..."),
                        min_values: 1,
                        max_values: 1,
                        required: true,
                    };
                    assert(character_views(collection.characters@)[index as int] == character@);
                    Ok(
                        Response::Modal(
                            Modal {
                                custom_id,
                                title: truncate_chars(title.as_str(), MODAL_TITLE_LIMIT),
                                label: owned("Recipient"),
                                menu,
                            },
                        ),
                    )
                } else {
                    Err(Error::NotFound)
                }
            },
            None => Err(Error::NotFound),
        }
    } else {
        Err(Error::Unauthorized)
    }
}

/// The note that replaces the collection page after a gift.
pub open spec fn gifted_message(recipient_id: u64) -> MessageView {
    MessageView {
        content: Some("Gifted the following to <@"@ + dec(recipient_id as nat) + ">:"@),
        embeds: Seq::empty(),
        components: Some(Seq::empty()),
        ephemeral: false,
    }
}

/// The answer to the gift modal: the character at `index` of `owner_id`'s
/// collection moves to the end of the recipient's collection (created if
/// needed). Without a recipient, or without such a character, nothing
/// changes and it is not found.
pub open spec fn gift_outcome(
    old_db: &Database,
    new_db: &Database,
    owner_id: u64,
    index: usize,
    recipient: Option<u64>,
    r: Result<Response, Error>,
) -> bool {
    match recipient {
        None => new_db.collections@ == old_db.collections@ && (r matches Err(e) && e@
            == ErrorView::NotFound),
        Some(rid) => {
            let (colls, taken) = take_character(old_db.collections@, owner_id, index as int);
            match taken {
                Some(c) => {
                    &&& new_db.collections@ == give_character(colls, rid, c)
                    &&& r matches Ok(x) && x@ == ResponseView::Update(gifted_message(rid))
                },
                None => new_db.collections@ == old_db.collections@ && (r matches Err(e) && e@
                    == ErrorView::NotFound),
            }
        },
    }
}

/// Gifts the character at `index` of `owner_id`'s collection to the user
/// chosen in the modal (`recipient`).
pub fn gift(db: &mut Database, owner_id: u64, index: usize, recipient: Option<u64>) -> (r: Result<
    Response,
    Error,
>)
    requires
        old(db).wf(),
    ensures
        final(db).wf(),
        final(db).birthdays@ == old(db).birthdays@,
        final(db).citations@ == old(db).citations@,
        final(db).roll_count == old(db).roll_count,
        gift_outcome(old(db), final(db), owner_id, index, recipient, r),
{
    let recipient_id = match recipient {
        Some(id) => id,
        None => return Err(Error::NotFound),
    };
    match db.take_character(owner_id, index) {
        Some(character) => {
            db.give_character(recipient_id, character);
            let mut content = owned("Gifted the following to <@");
            push_dec(&mut content, recipient_id);
            push_str(&mut content, ">:");
            let m = ResponseMessage {
                content: Some(content),
                embeds: Vec::new(),
                components: Some(Vec::new()),
                ephemeral: false,
            };
            assert(m@.embeds =~= Seq::<EmbedView>::empty());
            assert(m@.components->0 =~= Seq::<ActionRowView>::empty());
            assert(m@ == gifted_message(recipient_id));
            Ok(Response::Update(m))
        },
        None => Err(Error::NotFound),
    }
}

/// A gift moves a character and makes or destroys none: all characters
/// held, each as often, stay as they were, and so do their number and
/// their goon credits.
pub proof fn lemma_gift_conserves(
    old_db: &Database,
    new_db: &Database,
    owner_id: u64,
    index: usize,
    recipient: Option<u64>,
    r: Result<Response, Error>,
)
    requires
        gift_outcome(old_db, new_db, owner_id, index, recipient, r),
    ensures
        all_characters(new_db.collections@) == all_characters(old_db.collections@),
        character_count(new_db.collections@) == character_count(old_db.collections@),
        all_credits(new_db.collections@) == all_credits(old_db.collections@),
{
    lemma_take_sums(old_db.collections@, owner_id, index as int);
    lemma_take_characters(old_db.collections@, owner_id, index as int);
    match recipient {
        Some(rid) => {
            let (colls, taken) = take_character(old_db.collections@, owner_id, index as int);
            match taken {
                Some(c) => {
                    lemma_give_sums(colls, rid, c);
                    lemma_give_characters(colls, rid, c);
                },
                None => {},
            }
        },
        None => {},
    }
}

/// Where the owner deletes a character that exists, exactly that one
/// character leaves the collection; the others keep their order.
pub proof fn lemma_delete_removes_one(
    old_db: &Database,
    new_db: &Database,
    owner_id: u64,
    index: usize,
    r: Result<Response, Error>,
)
    requires
        old_db.wf(),
        new_db.wf(),
        delete_outcome(old_db, new_db, owner_id, owner_id, index, r),
        characters_of(old_db, owner_id) matches Some(chars) && index < chars.len(),
    ensures
        character_count(new_db.collections@) + 1 == character_count(old_db.collections@),
        characters_of(new_db, owner_id) == Some(
            characters_of(old_db, owner_id)->0.remove(index as int),
        ),
{
    let colls = old_db.collections@;
    lemma_take_sums(colls, owner_id, index as int);
    lemma_row_index::<Collection>(colls, owner_id);
    let i = row_index::<Collection>(colls, owner_id);
    let v = CollectionView { characters: colls[i].characters.remove(index as int), ..colls[i] };
    lemma_update_lookup::<Collection>(colls, i, v);
}

/// A claimed character goes to the end of the claimer's collection, so
/// the collection, opened without an index, shows it.
pub proof fn lemma_claim_then_shown(
    old_db: &Database,
    new_db: &Database,
    user_id: u64,
    c: CharacterView,
)
    requires
        old_db.wf(),
        new_db.wf(),
        new_db.collections@ == give_character(old_db.collections@, user_id, c),
    ensures
        characters_of(new_db, user_id) == Some(
            match characters_of(old_db, user_id) {
                Some(cs) => cs.push(c),
                None => seq![c],
            },
        ),
        collection_message(new_db, user_id, None).embeds == seq![character_embed(c)],
        character_count(new_db.collections@) == character_count(old_db.collections@) + 1,
{
    let colls = old_db.collections@;
    lemma_give_sums(colls, user_id, c);
    lemma_row_index::<Collection>(colls, user_id);
    let i = row_index::<Collection>(colls, user_id);
    if i >= 0 {
        let v = CollectionView { characters: colls[i].characters.push(c), ..colls[i] };
        lemma_update_lookup::<Collection>(colls, i, v);
    } else {
        let v = CollectionView { user_id, characters: seq![c] };
        lemma_sorted_insert_contains::<Collection>(colls, v);
        lemma_lookup_member::<Collection>(new_db.collections@, v);
    }
    let chars = characters_of(new_db, user_id)->0;
    assert(chars.len() > 0);
    assert(chars[chars.len() - 1] == c);
}

/// The page shown lists the character shown, marked as selected, and no
/// other option is marked selected.
pub proof fn lemma_page_lists_current(chars: Seq<CharacterView>, index: Option<usize>)
    requires
        chars.len() > 0,
    ensures
        ({
            let last = last_index(chars.len());
            let current = current_index(chars.len(), index);
            let options = collection_options(chars, current, last, page_start(last - current));
            &&& exists|k: int|
                0 <= k < options.len() && #[trigger] options[k] == page_option(chars, current, current)
                    && options[k].default_selection
            &&& forall|k: int|
                0 <= k < options.len() && (#[trigger] options[k]).default_selection ==> options[k]
                    == page_option(chars, current, current)
        }),
{
    let last = last_index(chars.len());
    let current = current_index(chars.len(), index);
    let rank = last - current;
    let start = page_start(rank);
    assert(start <= rank < start + SELECT_PAGE_SIZE as int) by (nonlinear_arith)
        requires
            start == (rank / 23) * 23,
            rank >= 0,
    ;
    let options = collection_options(chars, current, last, start);
    let newer_len: int = if start >= SELECT_PAGE_SIZE as int {
        1
    } else {
        0
    };
    let k = newer_len + (rank - start);
    assert(options[k] == page_option(chars, last - (start + (rank - start)), current));
    assert forall|j: int| 0 <= j < options.len() && (#[trigger] options[j]).default_selection
        implies options[j] == page_option(chars, current, current) by {
        if j >= newer_len && j < newer_len + page_len(last, start) {
            assert(options[j] == page_option(chars, last - (start + (j - newer_len)), current));
        }
    }
}

} // verus!
