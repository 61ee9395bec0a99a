//! `/set_birthday`: a command of its own for what `/birthday set` does.

use vstd::prelude::*;
use crate::commands::{
    CommandSpec, CommandView, OptionKind, OptionSpec, ResolvedOption, birthday::set::set_outcome,
    plain_option,
};
use crate::date::Date;
use crate::db::Database;
use crate::error::Error;
use crate::response::Response;
use crate::text::{owned, push_str};

verus! {

/// `/set_birthday` for `user_id`: as `/birthday set`, with the date given
/// as the first option (which Discord always gives, the option being
/// required).
pub fn run(options: &Vec<ResolvedOption>, db: &mut Database, user_id: u64, date_format: &str) -> (r:
    Result<Response, Error>)
    requires
        old(db).wf(),
        options@.len() > 0,
    ensures
        final(db).wf(),
        final(db).citations@ == old(db).citations@,
        final(db).collections@ == old(db).collections@,
        final(db).roll_count == old(db).roll_count,
        exists|t: Date| t.wf() && set_outcome(old(db), final(db), options@, user_id, date_format@, t, r),
{
    crate::commands::birthday::set::run(options, db, user_id, date_format)
}

/// How `/set_birthday` is registered: one required date in `date_format`.
pub open spec fn set_birthday_command(date_format: Seq<char>) -> CommandView {
    CommandView {
        name: "set_birthday"@,
        description: "Set your birthday date"@,
        options: seq![
            plain_option(OptionKind::String, "birth"@, "Date format: "@ + date_format, true),
        ],
    }
}

/// How `/set_birthday` is registered.
pub fn register(date_format: String) -> (c: CommandSpec)
    ensures
        c@ == set_birthday_command(date_format@),
{
    let mut description = owned("Date format: ");
    push_str(&mut description, date_format.as_str());
    let c = CommandSpec::new(owned("set_birthday"), owned("Set your birthday date")).add_option(
        OptionSpec::new(OptionKind::String, owned("birth"), description).required(),
    );
    assert(c@.options =~= set_birthday_command(date_format@).options);
    c
}

} // verus!
