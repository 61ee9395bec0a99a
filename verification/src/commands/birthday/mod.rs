//! `/birthday`: set, delete and list birthdays.

pub mod next;
pub mod set;

use vstd::prelude::*;
use crate::commands::{
    CommandSpec, CommandView, OptionKind, OptionSpec, OptionView, ResolvedOption, ResolvedValue,
    SubOptionView, delete_birthday, plain_option,
};
use crate::date::Date;
use crate::db::Database;
use crate::error::{Error, ErrorView};
use crate::response::Response;
use crate::text::{owned, push_str};

verus! {

/// The options of the subcommand given first, if the first option is one.
pub open spec fn sub_options(options: Seq<ResolvedOption>) -> Seq<ResolvedOption> {
    match options[0].value {
        ResolvedValue::SubCommand(o) => o@,
        _ => Seq::empty(),
    }
}

/// `/birthday delete` is given with the user it names (as Discord does for
/// a required option); without it, `/birthday delete` does not return.
pub open spec fn delete_given_user(options: Seq<ResolvedOption>) -> bool {
    options.len() > 0 && options[0].value is SubCommand && options[0].name@ == "delete"@
        ==> sub_options(options).len() > 0
}

/// What `/birthday` does when today is `today`: `set`, `delete` and
/// `next` with the subcommand's options; another subcommand is not found;
/// no subcommand is an invalid option.
pub open spec fn birthday_outcome(
    old_db: &Database,
    new_db: &Database,
    options: Seq<ResolvedOption>,
    user_id: u64,
    date_format: Seq<char>,
    admins: Seq<String>,
    today: Date,
    r: Result<Response, Error>,
) -> bool {
    if options.len() == 0 || !(options[0].value is SubCommand) {
        new_db.birthdays@ == old_db.birthdays@ && (r matches Err(e) && e@ == ErrorView::OptionResolve)
    } else if options[0].name@ == "set"@ {
        set::set_outcome(old_db, new_db, sub_options(options), user_id, date_format, today, r)
    } else if options[0].name@ == "delete"@ {
        delete_birthday::delete_outcome(old_db, new_db, sub_options(options), user_id, admins, r)
    } else if options[0].name@ == "next"@ {
        new_db.birthdays@ == old_db.birthdays@ && next::next_outcome(old_db, today, r)
    } else {
        new_db.birthdays@ == old_db.birthdays@ && (r matches Err(e) && e@ == ErrorView::NotFound)
    }
}

/// `/birthday` for `user_id` when today is `today`.
pub fn run_on(
    options: &Vec<ResolvedOption>,
    db: &mut Database,
    user_id: u64,
    date_format: &str,
    admins: &Vec<String>,
    today: Date,
) -> (r: Result<Response, Error>)
    requires
        old(db).wf(),
        today.wf(),
        delete_given_user(options@),
    ensures
        final(db).wf(),
        final(db).citations@ == old(db).citations@,
        final(db).collections@ == old(db).collections@,
        final(db).roll_count == old(db).roll_count,
        birthday_outcome(old(db), final(db), options@, user_id, date_format@, admins@, today, r),
{
    if options.len() == 0 {
        return Err(Error::OptionResolve);
    }
    let subcommand = &options[0];
    match &subcommand.value {
        ResolvedValue::SubCommand(sub) => {
            if subcommand.name == owned("set") {
                set::set_on(sub, db, user_id, date_format, today)
            } else if subcommand.name == owned("delete") {
                delete_birthday::run(sub, db, user_id, admins)
            } else if subcommand.name == owned("next") {
                next::next_on(db, today)
            } else {
                Err(Error::NotFound)
            }
        },
        _ => Err(Error::OptionResolve),
    }
}

/// `/birthday` for `user_id`, today being the date of the machine's clock
/// in its time zone.
pub fn run(
    options: &Vec<ResolvedOption>,
    db: &mut Database,
    user_id: u64,
    date_format: &str,
    admins: &Vec<String>,
) -> (r: Result<Response, Error>)
    requires
        old(db).wf(),
        delete_given_user(options@),
    ensures
        final(db).wf(),
        final(db).citations@ == old(db).citations@,
        final(db).collections@ == old(db).collections@,
        final(db).roll_count == old(db).roll_count,
        exists|t: Date|
            t.wf() && birthday_outcome(
                old(db),
                final(db),
                options@,
                user_id,
                date_format@,
                admins@,
                t,
                r,
            ),
{
    let t = crate::date::today();
    run_on(options, db, user_id, date_format, admins, t)
}

/// How `/birthday` is registered: `set` with a required date in
/// `date_format`, `delete` with a required user, and `next`.
pub open spec fn birthday_command(date_format: Seq<char>) -> CommandView {
    CommandView {
        name: "birthday"@,
        description: "Manage birthdays"@,
        options: seq![
            OptionView {
                sub_options: seq![
                    SubOptionView {
                        kind: OptionKind::String,
                        name: "birth"@,
                        description: "Date format: "@ + date_format,
                        required: true,
                    },
                ],
                ..plain_option(OptionKind::SubCommand, "set"@, "Set your birthday"@, false)
            },
            OptionView {
                sub_options: seq![
                    SubOptionView {
                        kind: OptionKind::User,
                        name: "user"@,
                        description: "Select yourself, or another user if you are an admin"@,
                        required: true,
                    },
                ],
                ..plain_option(OptionKind::SubCommand, "delete"@, "Delete a birthday"@, false)
            },
            plain_option(
                OptionKind::SubCommand,
                "next"@,
                "Show the next 10 upcoming birthdays"@,
                false,
            ),
        ],
    }
}

/// How `/birthday` is registered.
pub fn register(date_format: String) -> (c: CommandSpec)
    ensures
        c@ == birthday_command(date_format@),
{
    let mut description = owned("Date format: ");
    push_str(&mut description, date_format.as_str());
    let set = OptionSpec::new(OptionKind::SubCommand, owned("set"), owned("Set your birthday"))
        .add_sub_option(OptionKind::String, owned("birth"), description);
    let delete = OptionSpec::new(
        OptionKind::SubCommand,
        owned("delete"),
        owned("Delete a birthday"),
    ).add_sub_option(
        OptionKind::User,
        owned("user"),
        owned("Select yourself, or another user if you are an admin"),
    );
    let next = OptionSpec::new(
        OptionKind::SubCommand,
        owned("next"),
        owned("Show the next 10 upcoming birthdays"),
    );
    let ghost sv = set@;
    let ghost dv = delete@;
    let c = CommandSpec::new(owned("birthday"), owned("Manage birthdays")).add_option(set).add_option(
        delete,
    ).add_option(next);
    assert(sv.sub_options =~= birthday_command(date_format@).options[0].sub_options);
    assert(dv.sub_options =~= birthday_command(date_format@).options[1].sub_options);
    assert(c@.options =~= birthday_command(date_format@).options);
    c
}

} // verus!
