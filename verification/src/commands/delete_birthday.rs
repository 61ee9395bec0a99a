//! Deleting a stored birthday: one's own, or anyone's for an admin.

use vstd::prelude::*;
use crate::commands::{
    CommandSpec, CommandView, OptionKind, OptionSpec, ResolvedOption, ResolvedValue, plain_option,
};
use crate::db::{Birthday, Database};
use crate::error::{Error, ErrorView};
use crate::response::{Embed, EmbedView, MessageView, Response, ResponseMessage, ResponseView};
use crate::table::{lemma_remove_key_lookup, lookup, remove_key};
use crate::text::{dec, dec_string, owned, push_str, views};

verus! {

/// Whether `user_id` may delete the birthday of `selected`: it is the
/// user's own, or the user's id is listed among the admins.
pub open spec fn may_delete(selected: u64, user_id: u64, admins: Seq<String>) -> bool {
    selected == user_id || views(admins).contains(dec(user_id as nat))
}

/// What deleting the birthday of the user named in the first option does:
/// if allowed, the birthday is removed and the answer says whether there
/// was one.
pub open spec fn delete_outcome(
    old_db: &Database,
    new_db: &Database,
    options: Seq<ResolvedOption>,
    user_id: u64,
    admins: Seq<String>,
    r: Result<Response, Error>,
) -> bool {
    match options[0].value {
        ResolvedValue::User(selected, name) => if may_delete(selected, user_id, admins) {
            &&& new_db.birthdays@ == remove_key::<Birthday>(old_db.birthdays@, selected)
            &&& r matches Ok(x) && x@ == ResponseView::Message(
                MessageView::only_embed(
                    EmbedView::empty().with_title(
                        if lookup::<Birthday>(old_db.birthdays@, selected) is Some {
                            "The birthday of "@ + name@ + " was successfully deleted!"@
                        } else {
                            "The selected user "@ + name@ + " is not inside the birthdays list!"@
                        },
                    ),
                ),
            )
        } else {
            new_db.birthdays@ == old_db.birthdays@ && (r matches Err(e) && e@
                == ErrorView::Unauthorized)
        },
        _ => new_db.birthdays@ == old_db.birthdays@ && (r matches Err(e) && e@
            == ErrorView::OptionResolve),
    }
}

/// Whether `id` is listed among `admins`.
fn is_admin(admins: &Vec<String>, id: u64) -> (b: bool)
    ensures
        b == views(admins@).contains(dec(id as nat)),
{
    let text = dec_string(id);
    let mut i: usize = 0;
    while i < admins.len()
        invariant
            i <= admins@.len(),
            text@ == dec(id as nat),
            forall|j: int| 0 <= j < i ==> admins@[j]@ != text@,
        decreases admins@.len() - i,
    {
        if admins[i] == text {
            assert(views(admins@)[i as int] == text@);
            return true;
        }
        i = i + 1;
    }
    assert forall|j: int| 0 <= j < views(admins@).len() implies views(admins@)[j] != dec(
        id as nat,
    ) by {
        assert(views(admins@)[j] == admins@[j]@);
    }
    false
}

/// Deletes the birthday of the user named in the first option, for
/// `user_id`.
pub fn run(options: &Vec<ResolvedOption>, db: &mut Database, user_id: u64, admins: &Vec<String>) -> (r:
    Result<Response, Error>)
    requires
        old(db).wf(),
        options@.len() > 0,
    ensures
        final(db).wf(),
        final(db).citations@ == old(db).citations@,
        final(db).collections@ == old(db).collections@,
        final(db).roll_count == old(db).roll_count,
        delete_outcome(old(db), final(db), options@, user_id, admins@, r),
{
    match &options[0].value {
        ResolvedValue::User(selected_id, name) => {
            let selected_id = *selected_id;
            if selected_id != user_id {
                if !is_admin(admins, user_id) {
                    return Err(Error::Unauthorized);
                }
            }
            let ghost before = db.birthdays@;
            let out = db.birthdays.delete(selected_id);
            proof {
                assert forall|i: int| 0 <= i < db.birthdays@.len() implies (
                #[trigger] db.birthdays@[i]).date.wf() by {
                    crate::table::lemma_remove_key_items::<Birthday>(before, selected_id, i);
                    let j = choose|j: int| 0 <= j < before.len() && before[j] == db.birthdays@[i];
                }
            }
            let title = if out.is_some() {
                let mut t = owned("The birthday of ");
                push_str(&mut t, name.as_str());
                push_str(&mut t, " was successfully deleted!");
                t
            } else {
                let mut t = owned("The selected user ");
                push_str(&mut t, name.as_str());
                push_str(&mut t, " is not inside the birthdays list!");
                t
            };
            Ok(Response::Message(ResponseMessage::only_embed(Embed::new().title(title))))
        },
        _ => Err(Error::OptionResolve),
    }
}

/// How `/delete_birthday` is registered: one required user.
pub open spec fn delete_birthday_command() -> CommandView {
    CommandView {
        name: "delete_birthday"@,
        description: "Delete a saved birthday"@,
        options: seq![
            plain_option(
                OptionKind::User,
                "user"@,
                "Select yourself, or another user if you are an admin"@,
                true,
            ),
        ],
    }
}

/// How `/delete_birthday` is registered.
pub fn register() -> (c: CommandSpec)
    ensures
        c@ == delete_birthday_command(),
{
    let c = CommandSpec::new(owned("delete_birthday"), owned("Delete a saved birthday")).add_option(
        OptionSpec::new(
            OptionKind::User,
            owned("user"),
            owned("Select yourself, or another user if you are an admin"),
        ).required(),
    );
    assert(c@.options =~= delete_birthday_command().options);
    c
}

/// A deleted birthday is gone: after a permitted deletion, no birthday is
/// stored for the user named.
pub proof fn lemma_delete_then_gone(
    old_db: &Database,
    new_db: &Database,
    options: Seq<ResolvedOption>,
    user_id: u64,
    admins: Seq<String>,
    r: Result<Response, Error>,
)
    requires
        delete_outcome(old_db, new_db, options, user_id, admins, r),
        r is Ok,
    ensures
        options[0].value matches ResolvedValue::User(selected, _) && lookup::<Birthday>(
            new_db.birthdays@,
            selected,
        ) is None,
{
    match options[0].value {
        ResolvedValue::User(selected, _) => {
            lemma_remove_key_lookup::<Birthday>(old_db.birthdays@, selected);
        },
        _ => {},
    }
}

} // verus!
