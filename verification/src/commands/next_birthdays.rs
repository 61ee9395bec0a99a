//! `/next_birthdays`: the upcoming birthdays, as `/birthday next` lists
//! them, over the birthday list kept as a CSV file.

use vstd::prelude::*;
use crate::commands::{BirthdayRow, CommandSpec, CommandView};
use crate::commands::birthday::next::{age, age_on, days_away, days_until, next_date, next_occurrence};
use crate::date::{Date, date_parse_result, long_date, long_date_text, parse_date};
use crate::error::{Error, ErrorView};
use crate::ranking::{is_ranking, ordered_by};
use crate::response::{Embed, EmbedView, FieldView, MessageView, Response, ResponseMessage, ResponseView};
use crate::text::{dec, owned, push_dec, push_str};

verus! {

broadcast use vstd::seq_lib::group_to_multiset_ensures;

/// The format in which the rows write their dates.
pub const ROW_DATE_FORMAT: &'static str = "%Y-%m-%d";

/// How many rows `/next_birthdays` lists.
pub const LISTED_ROWS: usize = 10;

/// The date of a row: its text read in `ROW_DATE_FORMAT`, or January 1,
/// 1970 where it cannot be read.
pub open spec fn row_date(row: BirthdayRow) -> Date {
    match date_parse_result(row.birthday@, ROW_DATE_FORMAT@) {
        Ok(d) => d,
        Err(_) => Date { year: 1970, month: 1, day: 1 },
    }
}

/// The sort key of each row, with its position: how many days away its
/// birthday is.
pub open spec fn row_keys(rows: Seq<BirthdayRow>, today: Date) -> Seq<(u64, usize)> {
    Seq::new(rows.len(), |i: int| (days_away(row_date(rows[i]), today) as u64, i as usize))
}

/// Whether key `a` comes before key `b`: fewer days away; as many, the
/// earlier row (the sort is stable).
pub open spec fn key_before(a: (u64, usize), b: (u64, usize)) -> bool {
    a.0 < b.0 || (a.0 == b.0 && a.1 < b.1)
}

/// `key_before` as a value.
pub open spec fn key_order() -> spec_fn((u64, usize), (u64, usize)) -> bool {
    |a: (u64, usize), b: (u64, usize)| key_before(a, b)
}

/// The field listing a row: the date its birthday comes next, and who gets
/// how old.
pub open spec fn row_field(row: BirthdayRow, today: Date) -> FieldView {
    FieldView {
        name: long_date_text(next_occurrence(row_date(row), today)),
        value: "<@"@ + dec(row.user as nat) + "> ("@ + dec(age_on(row_date(row), today)) + ")"@,
        inline: false,
    }
}

/// Whether the text of the row at position `k` of the ranking can be read
/// as a date.
pub open spec fn readable(rows: Seq<BirthdayRow>, ranking: Seq<(u64, usize)>, k: int) -> bool {
    date_parse_result(rows[ranking[k].1 as int].birthday@, ROW_DATE_FORMAT@) is Ok
}

/// The answer for the first rows of a ranking: an embed listing them
/// if each of their dates can be read; else the error of the first that
/// cannot.
pub open spec fn listed_result(
    rows: Seq<BirthdayRow>,
    ranking: Seq<(u64, usize)>,
    today: Date,
    r: Result<Response, Error>,
) -> bool {
    if forall|k: int| 0 <= k < LISTED_ROWS ==> readable(rows, ranking, k) {
        r matches Ok(x) && x@ == ResponseView::Message(
            MessageView::only_embed(
                EmbedView {
                    fields: Seq::new(
                        LISTED_ROWS as nat,
                        |k: int| row_field(rows[ranking[k].1 as int], today),
                    ),
                    ..EmbedView::empty().with_title("Next Birthdays:"@)
                },
            ),
        )
    } else {
        exists|k: int|
            #![trigger ranking[k]]
            0 <= k < LISTED_ROWS && (forall|j: int| 0 <= j < k ==> readable(rows, ranking, j))
                && (date_parse_result(rows[ranking[k].1 as int].birthday@, ROW_DATE_FORMAT@) matches Err(
                msg,
            ) && (r matches Err(e) && e@ == ErrorView::InvalidDate(msg)))
    }
}

/// The answer of `/next_birthdays` when today is `today`: the rows ranked
/// by how soon their birthdays come, the first ten listed.
pub open spec fn next_rows_outcome(rows: Seq<BirthdayRow>, today: Date, r: Result<Response, Error>) -> bool {
    exists|ranking: Seq<(u64, usize)>|
        is_ranking(row_keys(rows, today), ranking, key_order()) && listed_result(
            rows,
            ranking,
            today,
            r,
        )
}

/// The date of a row.
fn read_row_date(row: &BirthdayRow) -> (d: Date)
    ensures
        d == row_date(*row),
        d.wf(),
{
    match parse_date(row.birthday.as_str(), ROW_DATE_FORMAT) {
        Ok(d) => d,
        Err(_) => Date::epoch(),
    }
}

/// Whether key `a` comes before key `b`.
fn key_sooner(a: (u64, usize), b: (u64, usize)) -> (r: bool)
    ensures
        r == key_before(a, b),
{
    a.0 < b.0 || (a.0 == b.0 && a.1 < b.1)
}

/// Inserts the key `u` into the ranking `r` at its place.
fn insert_key(r: &mut Vec<(u64, usize)>, u: (u64, usize))
    requires
        ordered_by(old(r)@, key_order()),
        forall|k: int| 0 <= k < old(r)@.len() ==> (#[trigger] old(r)@[k]).1 < u.1,
    ensures
        ordered_by(final(r)@, key_order()),
        final(r)@.to_multiset() == old(r)@.to_multiset().insert(u),
{
    let mut pos: usize = 0;
    while pos < r.len() && !key_sooner(u, r[pos])
        invariant
            pos <= r@.len(),
            r@ == old(r)@,
            forall|k: int| 0 <= k < pos ==> key_before(#[trigger] r@[k], u),
            forall|k: int| 0 <= k < r@.len() ==> (#[trigger] r@[k]).1 < u.1,
        decreases r@.len() - pos,
    {
        pos = pos + 1;
    }
    let ghost prev = r@;
    r.insert(pos, u);
    proof {
        vstd::seq_lib::to_multiset_insert(prev, pos as int, u);
        assert forall|i: int, j: int| 0 <= i < j < r@.len() implies key_before(r@[i], r@[j]) by {
            if j < pos {
                assert(key_order()(prev[i], prev[j]));
            } else if j == pos {
            } else if i == pos {
                if j > pos + 1 {
                    assert(key_order()(prev[pos as int], prev[j - 1]));
                }
            } else if i < pos {
                assert(key_order()(prev[i], prev[j - 1]));
            } else {
                assert(key_order()(prev[i - 1], prev[j - 1]));
            }
        }
    }
}

/// The keys ranked.
fn rank_keys(items: &Vec<(u64, usize)>) -> (r: Vec<(u64, usize)>)
    requires
        forall|i: int| 0 <= i < items@.len() ==> (#[trigger] items@[i]).1 == i,
    ensures
        is_ranking(items@, r@, key_order()),
{
    let mut r: Vec<(u64, usize)> = Vec::new();
    let mut i: usize = 0;
    while i < items.len()
        invariant
            i <= items@.len(),
            forall|a: int| 0 <= a < items@.len() ==> (#[trigger] items@[a]).1 == a,
            ordered_by(r@, key_order()),
            r@.to_multiset() == items@.take(i as int).to_multiset(),
            forall|k: int|
                0 <= k < r@.len() ==> exists|j: int| 0 <= j < i && #[trigger] r@[k] == items@[j],
        decreases items@.len() - i,
    {
        let u = items[i];
        assert forall|k: int| 0 <= k < r@.len() implies (#[trigger] r@[k]).1 < u.1 by {
            let j = choose|j: int| 0 <= j < i && r@[k] == items@[j];
        }
        insert_key(&mut r, u);
        proof {
            assert(items@.take(i + 1) == items@.take(i as int).push(u));
            vstd::seq_lib::to_multiset_build(items@.take(i as int), u);
            assert forall|k: int| 0 <= k < r@.len() implies exists|j: int|
                0 <= j < i + 1 && #[trigger] r@[k] == items@[j] by {
                assert(r@.to_multiset().count(r@[k]) > 0);
                assert(items@.take(i + 1).to_multiset().count(r@[k]) > 0);
                assert(items@.take(i + 1).contains(r@[k]));
                let j = choose|j: int| 0 <= j < i + 1 && #[trigger] items@.take(i + 1)[j] == r@[k];
                assert(items@[j] == r@[k]);
            }
        }
        i = i + 1;
    }
    assert(items@.take(items@.len() as int) == items@);
    r
}

/// `/next_birthdays` over the rows `rows` when today is `today`. The rows
/// are read once to rank them, a date that cannot be read counting as
/// January 1, 1970; the ten listed are read again, and the first whose
/// date cannot be read ends the command in its error. Fewer than ten rows
/// are not accepted.
pub fn run_on(rows: &Vec<BirthdayRow>, today: Date) -> (r: Result<Response, Error>)
    requires
        rows@.len() >= LISTED_ROWS,
        today.wf(),
    ensures
        next_rows_outcome(rows@, today, r),
{
    let mut keys: Vec<(u64, usize)> = Vec::new();
    let mut i: usize = 0;
    while i < rows.len()
        invariant
            i <= rows@.len(),
            today.wf(),
            keys@ == row_keys(rows@, today).take(i as int),
        decreases rows@.len() - i,
    {
        let d = read_row_date(&rows[i]);
        let days = days_until(d, today);
        keys.push((days, i));
        assert(keys@ =~= row_keys(rows@, today).take(i + 1));
        i = i + 1;
    }
    assert(keys@ =~= row_keys(rows@, today));
    let ranking = rank_keys(&keys);
    let ghost ks = keys@;
    proof {
        vstd::seq_lib::to_multiset_len(ranking@);
        vstd::seq_lib::to_multiset_len(ks);
        assert forall|k: int| 0 <= k < ranking@.len() implies (#[trigger] ranking@[k]).1
            < rows@.len() by {
            assert(ranking@.to_multiset().count(ranking@[k]) > 0);
            assert(ks.contains(ranking@[k]));
            let j = choose|j: int| 0 <= j < ks.len() && ks[j] == ranking@[k];
        }
    }
    let mut embed = Embed::new().title(owned("Next Birthdays:"));
    let ghost e0 = embed@;
    assert(e0.fields =~= Seq::new(0, |j: int| row_field(rows@[ranking@[j].1 as int], today)));
    let mut k: usize = 0;
    while k < LISTED_ROWS
        invariant
            k <= LISTED_ROWS <= ranking@.len(),
            today.wf(),
            forall|j: int| 0 <= j < ranking@.len() ==> (#[trigger] ranking@[j]).1 < rows@.len(),
            forall|j: int| 0 <= j < k ==> readable(rows@, ranking@, j),
            is_ranking(row_keys(rows@, today), ranking@, key_order()),
            e0 == EmbedView::empty().with_title("Next Birthdays:"@),
            embed@ == (EmbedView {
                fields: Seq::new(k as nat, |j: int| row_field(rows@[ranking@[j].1 as int], today)),
                ..e0
            }),
        decreases LISTED_ROWS - k,
    {
        let row = &rows[ranking[k].1];
        let date = match parse_date(row.birthday.as_str(), ROW_DATE_FORMAT) {
            Ok(d) => d,
            Err(msg) => {
                let r = Err(Error::InvalidDate(msg));
                assert(!readable(rows@, ranking@, k as int));
                assert(listed_result(rows@, ranking@, today, r));
                assert(is_ranking(row_keys(rows@, today), ranking@, key_order()));
                return r;
            },
        };
        let future = next_date(date, today);
        let name = long_date(future);
        let mut value = owned("<@");
        push_dec(&mut value, row.user);
        push_str(&mut value, "> (");
        push_dec(&mut value, age(date, today) as u64);
        push_str(&mut value, ")");
        embed = embed.field(name, value, false);
        assert(Seq::new((k + 1) as nat, |j: int| row_field(rows@[ranking@[j].1 as int], today))
            =~= Seq::new(k as nat, |j: int| row_field(rows@[ranking@[j].1 as int], today)).push(
            row_field(rows@[ranking@[k as int].1 as int], today),
        ));
        k = k + 1;
    }
    let r = Ok(Response::Message(ResponseMessage::only_embed(embed)));
    assert(listed_result(rows@, ranking@, today, r));
    r
}

/// `/next_birthdays` over the rows `rows`, today being the date of the
/// machine's clock in its time zone.
pub fn run(rows: &Vec<BirthdayRow>) -> (r: Result<Response, Error>)
    requires
        rows@.len() >= LISTED_ROWS,
    ensures
        exists|t: Date| t.wf() && next_rows_outcome(rows@, t, r),
{
    let t = crate::date::today();
    run_on(rows, t)
}

/// How `/next_birthdays` is registered.
pub open spec fn next_birthdays_command() -> CommandView {
    CommandView {
        name: "next_birthdays"@,
        description: "The next 10 Upcomming Birthdays"@,
        options: Seq::empty(),
    }
}

/// How `/next_birthdays` is registered.
pub fn register() -> (c: CommandSpec)
    ensures
        c@ == next_birthdays_command(),
{
    CommandSpec::new(owned("next_birthdays"), owned("The next 10 Upcomming Birthdays"))
}

} // verus!
