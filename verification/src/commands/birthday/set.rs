//! `/birthday set`: store the user's birthday.

use vstd::prelude::*;
use crate::commands::{ResolvedOption, ResolvedValue};
use crate::commands::birthday::next::date_before;
use crate::date::{day_number, lemma_day_number_order, date_parse_result, parse_date, today, years_between, years_since, Date};
use crate::db::{Birthday, Database};
use crate::error::{Error, ErrorView};
use crate::response::{Embed, EmbedView, MessageView, Response, ResponseMessage, ResponseView};
use crate::table::{add_row, has_key, lemma_add_row_lookup, lookup};
use crate::text::{owned, push_str};

verus! {

/// What `/birthday set` does when today is `today`: the date given as the
/// first option is read in `date_format`; a date after today is refused;
/// otherwise the birthday is added (a user who has one keeps it) and the
/// given text is confirmed.
pub open spec fn set_outcome(
    old_db: &Database,
    new_db: &Database,
    options: Seq<ResolvedOption>,
    user_id: u64,
    date_format: Seq<char>,
    today: Date,
    r: Result<Response, Error>,
) -> bool {
    if options.len() == 0 || !(options[0].value is String) {
        new_db.birthdays@ == old_db.birthdays@ && (r matches Err(e) && e@ == ErrorView::OptionResolve)
    } else {
        let value = match options[0].value {
            ResolvedValue::String(v) => v@,
            _ => Seq::empty(),
        };
        match date_parse_result(value, date_format) {
            Err(msg) => new_db.birthdays@ == old_db.birthdays@ && (r matches Err(e) && e@
                == ErrorView::InvalidDate(msg)),
            Ok(date) => if years_between(today, date) is Some {
                &&& new_db.birthdays@ == add_row::<Birthday>(
                    old_db.birthdays@,
                    Birthday { user_id, date },
                )
                &&& r matches Ok(x) && x@ == ResponseView::Message(
                    MessageView::only_embed(
                        EmbedView::empty().with_title("Your Birthday was set to: "@ + value),
                    ),
                )
            } else {
                &&& new_db.birthdays@ == old_db.birthdays@
                &&& r matches Err(e) && e@ == ErrorView::InvalidDate(
                    "You cannot go back in time"@,
                )
            },
        }
    }
}

/// `/birthday set` for `user_id` when today is `today`.
pub fn set_on(
    options: &Vec<ResolvedOption>,
    db: &mut Database,
    user_id: u64,
    date_format: &str,
    today: Date,
) -> (r: Result<Response, Error>)
    requires
        old(db).wf(),
        today.wf(),
    ensures
        final(db).wf(),
        final(db).citations@ == old(db).citations@,
        final(db).collections@ == old(db).collections@,
        final(db).roll_count == old(db).roll_count,
        set_outcome(old(db), final(db), options@, user_id, date_format@, today, r),
{
    if options.len() == 0 {
        return Err(Error::OptionResolve);
    }
    match &options[0].value {
        ResolvedValue::String(value) => {
            let parsed_date = match parse_date(value.as_str(), date_format) {
                Ok(d) => d,
                Err(e) => return Err(Error::InvalidDate(e)),
            };
            if years_since(today, parsed_date).is_none() {
                return Err(Error::InvalidDate(owned("You cannot go back in time")));
            }
            let ghost before = db.birthdays@;
            db.birthdays.add(Birthday::new(user_id, parsed_date));
            proof {
                assert forall|i: int| 0 <= i < db.birthdays@.len() implies (
                #[trigger] db.birthdays@[i]).date.wf() by {
                    crate::table::lemma_add_row_items::<Birthday>(before, Birthday { user_id, date: parsed_date }, i);
                }
            }
            let mut title = owned("Your Birthday was set to: ");
            push_str(&mut title, value.as_str());
            Ok(Response::Message(ResponseMessage::only_embed(Embed::new().title(title))))
        },
        _ => Err(Error::OptionResolve),
    }
}

/// `/birthday set` for `user_id`, today being the date of the machine's
/// clock in its time zone.
pub fn run(options: &Vec<ResolvedOption>, db: &mut Database, user_id: u64, date_format: &str) -> (r:
    Result<Response, Error>)
    requires
        old(db).wf(),
    ensures
        final(db).wf(),
        final(db).citations@ == old(db).citations@,
        final(db).collections@ == old(db).collections@,
        final(db).roll_count == old(db).roll_count,
        exists|t: Date| t.wf() && set_outcome(old(db), final(db), options@, user_id, date_format@, t, r),
{
    let t = today();
    set_on(options, db, user_id, date_format, t)
}

/// The text given as the first option of `/birthday set`.
pub open spec fn given_text(options: Seq<ResolvedOption>) -> Seq<char> {
    match options[0].value {
        ResolvedValue::String(v) => v@,
        _ => Seq::empty(),
    }
}

/// A birthday that was set reads back: after `/birthday set` succeeds,
/// the user's stored birthday is the date given, if the user had none,
/// and the one stored before otherwise (a set birthday is never
/// overwritten).
pub proof fn lemma_set_then_read(
    old_db: &Database,
    new_db: &Database,
    options: Seq<ResolvedOption>,
    user_id: u64,
    date_format: Seq<char>,
    today: Date,
    r: Result<Response, Error>,
)
    requires
        old_db.wf(),
        new_db.wf(),
        set_outcome(old_db, new_db, options, user_id, date_format, today, r),
        r is Ok,
    ensures
        date_parse_result(given_text(options), date_format) is Ok,
        lookup::<Birthday>(new_db.birthdays@, user_id) == if has_key::<Birthday>(
            old_db.birthdays@,
            user_id,
        ) {
            lookup::<Birthday>(old_db.birthdays@, user_id)
        } else {
            Some(
                Birthday {
                    user_id,
                    date: date_parse_result(given_text(options), date_format)->Ok_0,
                },
            )
        },
{
    let d = date_parse_result(given_text(options), date_format)->Ok_0;
    lemma_add_row_lookup::<Birthday>(old_db.birthdays@, Birthday { user_id, date: d });
}

/// Only a birthday after today is refused: `/birthday set` with a date
/// that can be read succeeds exactly when that date (year, month and day)
/// does not lie after today, in the calendar and by the count of days.
pub proof fn lemma_set_refuses_only_future(
    old_db: &Database,
    new_db: &Database,
    options: Seq<ResolvedOption>,
    user_id: u64,
    date_format: Seq<char>,
    today: Date,
    r: Result<Response, Error>,
    date: Date,
)
    requires
        set_outcome(old_db, new_db, options, user_id, date_format, today, r),
        options.len() > 0,
        options[0].value is String,
        date_parse_result(given_text(options), date_format) == Ok::<Date, Seq<char>>(date),
    ensures
        r is Ok <==> !date_before(today, date),
        date.wf() && today.wf() ==> (r is Ok <==> day_number(date) <= day_number(today)),
{
    if date.wf() && today.wf() {
        lemma_day_number_order(today, date);
    }
}

} // verus!
