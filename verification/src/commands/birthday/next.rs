//! `/birthday next`: the ten birthdays that come next.

use vstd::prelude::*;
use crate::date::{
    Date, day_number, days_since, in_year, long_date, long_date_text, with_year, years_between,
    years_since,
};
use crate::db::{Birthday, Database};
use crate::error::Error;
use crate::ranking::{is_ranking, ordered_by};
use crate::response::{Embed, EmbedView, FieldView, MessageView, Response, ResponseMessage, ResponseView};
use crate::text::{dec, owned, push_dec, push_str};
use crate::util::EMPTY_FIELD_VALUE;

verus! {

broadcast use vstd::seq_lib::group_to_multiset_ensures;

/// How many birthdays `/birthday next` lists at most.
pub const MAX_BIRTHDAY_FIELDS: usize = 10;

/// Whether date `a` comes before date `b`.
pub open spec fn date_before(a: Date, b: Date) -> bool {
    a.year < b.year || (a.year == b.year && (a.month < b.month || (a.month == b.month && a.day
        < b.day)))
}

/// The next time the birthday `date` comes, seen from `today`: in this
/// year, or in the next if it falls before today this year or does not
/// exist this year (February 29). January 1, 1970 stands for a day that
/// does not exist.
pub open spec fn next_occurrence(date: Date, today: Date) -> Date {
    let this = in_year(date, today.year);
    let passed = match this {
        Some(d) => date_before(d, today),
        None => true,
    };
    let epoch = Date { year: 1970, month: 1, day: 1 };
    if passed {
        match in_year(date, (today.year + 1) as i32) {
            Some(d) => d,
            None => epoch,
        }
    } else {
        match this {
            Some(d) => d,
            None => epoch,
        }
    }
}

/// How many days lie between `today` and the next birthday `date`.
pub open spec fn days_away(date: Date, today: Date) -> nat {
    let d = day_number(next_occurrence(date, today)) - day_number(today);
    if d < 0 {
        (-d) as nat
    } else {
        d as nat
    }
}

/// The age that the birthday `date` brings next: the years completed,
/// plus one unless the birthday is today.
pub open spec fn age_on(date: Date, today: Date) -> nat {
    let years: nat = match years_between(today, date) {
        Some(n) => n as nat,
        None => 0,
    };
    if in_year(date, today.year) == Some(today) {
        years
    } else {
        years + 1
    }
}

/// A stored birthday with how far away it is.
#[derive(Clone, Copy, Debug, PartialEq, Eq, Structural)]
pub struct Upcoming {
    pub user_id: u64,
    pub days: u64,
    pub date: Date,
}

/// The birthdays with how far away they are, in the table's order.
pub open spec fn upcoming_of(birthdays: Seq<Birthday>, today: Date) -> Seq<Upcoming> {
    birthdays.map_values(
        |b: Birthday| Upcoming { user_id: b.user_id, days: days_away(b.date, today) as u64, date: b.date },
    )
}

/// Whether `a` comes before `b`: fewer days away; as many, the lower user
/// id (the sort is stable and the table is in order of user id).
pub open spec fn comes_sooner(a: Upcoming, b: Upcoming) -> bool {
    a.days < b.days || (a.days == b.days && a.user_id < b.user_id)
}

/// `comes_sooner` as a value.
pub open spec fn sooner_order() -> spec_fn(Upcoming, Upcoming) -> bool {
    |a: Upcoming, b: Upcoming| comes_sooner(a, b)
}

/// The field of an upcoming birthday: the date it comes, and who gets how
/// old.
pub open spec fn upcoming_field(u: Upcoming, today: Date) -> FieldView {
    FieldView {
        name: long_date_text(next_occurrence(u.date, today)),
        value: "<@"@ + dec(u.user_id as nat) + "> ("@ + dec(age_on(u.date, today)) + ")"@,
        inline: false,
    }
}

/// The number of birthdays listed out of `n`.
pub open spec fn listed(n: nat) -> nat {
    if n < MAX_BIRTHDAY_FIELDS {
        n
    } else {
        MAX_BIRTHDAY_FIELDS as nat
    }
}

/// The embed listing the first ten of a ranking, or a note that none is
/// recorded.
pub open spec fn next_embed(ranking: Seq<Upcoming>, today: Date) -> EmbedView {
    let e = EmbedView {
        fields: Seq::new(listed(ranking.len()), |k: int| upcoming_field(ranking[k], today)),
        ..EmbedView::empty().with_title("Next Birthdays:"@)
    };
    if ranking.len() == 0 {
        e.with_field(EMPTY_FIELD_VALUE@, "None recorded yet!"@, false)
    } else {
        e
    }
}

/// The answer of `/birthday next` when today is `today`: the stored
/// birthdays ranked by how soon they come, the first ten listed.
pub open spec fn next_outcome(db: &Database, today: Date, r: Result<Response, Error>) -> bool {
    exists|ranking: Seq<Upcoming>|
        is_ranking(upcoming_of(db.birthdays@, today), ranking, sooner_order()) && (r matches Ok(x)
            && x@ == ResponseView::Message(MessageView::only_embed(next_embed(ranking, today))))
}

/// Whether date `a` comes before date `b`.
fn before(a: Date, b: Date) -> (r: bool)
    ensures
        r == date_before(a, b),
{
    a.year < b.year || (a.year == b.year && (a.month < b.month || (a.month == b.month && a.day
        < b.day)))
}

/// The next time the birthday `date` comes.
pub fn next_date(date: Date, today: Date) -> (d: Date)
    requires
        date.wf(),
        today.wf(),
    ensures
        d == next_occurrence(date, today),
        d.wf(),
{
    let this = with_year(date, today.year);
    let passed = match this {
        Some(d) => before(d, today),
        None => true,
    };
    if passed {
        match with_year(date, today.year + 1) {
            Some(d) => d,
            None => Date::epoch(),
        }
    } else {
        match this {
            Some(d) => d,
            None => Date::epoch(),
        }
    }
}

/// The age that the birthday `date` brings next.
pub fn age(date: Date, today: Date) -> (a: u32)
    requires
        date.wf(),
        today.wf(),
    ensures
        a == age_on(date, today),
{
    let years = match years_since(today, date) {
        Some(n) => n,
        None => 0,
    };
    if with_year(date, today.year) == Some(today) {
        years
    } else {
        years + 1
    }
}

/// How many days lie between `today` and the next birthday `date`.
pub fn days_until(date: Date, today: Date) -> (n: u64)
    requires
        date.wf(),
        today.wf(),
    ensures
        n == days_away(date, today),
{
    let next = next_date(date, today);
    let d = days_since(next, today);
    if d < 0 {
        (0 - (d as i128)) as u64
    } else {
        d as u64
    }
}

/// A birthday with how far away it is.
fn upcoming(b: Birthday, today: Date) -> (u: Upcoming)
    requires
        b.date.wf(),
        today.wf(),
    ensures
        u == (Upcoming {
            user_id: b.user_id,
            days: days_away(b.date, today) as u64,
            date: b.date,
        }),
{
    Upcoming { user_id: b.user_id, days: days_until(b.date, today), date: b.date }
}

/// Whether `a` comes before `b`.
fn sooner(a: Upcoming, b: Upcoming) -> (r: bool)
    ensures
        r == comes_sooner(a, b),
{
    a.days < b.days || (a.days == b.days && a.user_id < b.user_id)
}

/// Inserts `u` into the ranking `r` at its place.
fn insert_ranked(r: &mut Vec<Upcoming>, u: Upcoming)
    requires
        ordered_by(old(r)@, sooner_order()),
        forall|k: int| 0 <= k < old(r)@.len() ==> (#[trigger] old(r)@[k]).user_id < u.user_id,
    ensures
        ordered_by(final(r)@, sooner_order()),
        final(r)@.to_multiset() == old(r)@.to_multiset().insert(u),
{
    let mut pos: usize = 0;
    while pos < r.len() && !sooner(u, r[pos])
        invariant
            pos <= r@.len(),
            r@ == old(r)@,
            forall|k: int| 0 <= k < pos ==> comes_sooner(#[trigger] r@[k], u),
            forall|k: int| 0 <= k < r@.len() ==> (#[trigger] r@[k]).user_id < u.user_id,
        decreases r@.len() - pos,
    {
        pos = pos + 1;
    }
    let ghost prev = r@;
    r.insert(pos, u);
    proof {
        vstd::seq_lib::to_multiset_insert(prev, pos as int, u);
        assert forall|i: int, j: int| 0 <= i < j < r@.len() implies comes_sooner(r@[i], r@[j]) by {
            if j < pos {
                assert(sooner_order()(prev[i], prev[j]));
            } else if j == pos {
            } else if i == pos {
                if j > pos + 1 {
                    assert(sooner_order()(prev[pos as int], prev[j - 1]));
                }
            } else if i < pos {
                assert(sooner_order()(prev[i], prev[j - 1]));
            } else {
                assert(sooner_order()(prev[i - 1], prev[j - 1]));
            }
        }
    }
}

/// The upcoming birthdays ranked.
fn rank_upcoming(items: &Vec<Upcoming>) -> (r: Vec<Upcoming>)
    requires
        forall|i: int, j: int| 0 <= i < j < items@.len() ==> items@[i].user_id < items@[j].user_id,
    ensures
        is_ranking(items@, r@, sooner_order()),
{
    let mut r: Vec<Upcoming> = Vec::new();
    let mut i: usize = 0;
    while i < items.len()
        invariant
            i <= items@.len(),
            forall|a: int, b: int| 0 <= a < b < items@.len() ==> items@[a].user_id < items@[b].user_id,
            ordered_by(r@, sooner_order()),
            r@.to_multiset() == items@.take(i as int).to_multiset(),
            forall|k: int| 0 <= k < r@.len() ==> exists|j: int| 0 <= j < i && #[trigger] r@[k] == items@[j],
        decreases items@.len() - i,
    {
        let u = items[i];
        assert forall|k: int| 0 <= k < r@.len() implies (#[trigger] r@[k]).user_id < u.user_id by {
            let j = choose|j: int| 0 <= j < i && r@[k] == items@[j];
        }
        insert_ranked(&mut r, u);
        proof {
            assert(items@.take(i + 1) == items@.take(i as int).push(u));
            vstd::seq_lib::to_multiset_build(items@.take(i as int), u);
            assert forall|k: int| 0 <= k < r@.len() implies exists|j: int| 0 <= j < i + 1 && #[trigger] r@[k] == items@[j] by {
                assert(r@.to_multiset().count(r@[k]) > 0);
                assert(items@.take(i + 1).to_multiset().count(r@[k]) > 0);
                assert(items@.take(i + 1).contains(r@[k]));
                let j = choose|j: int| 0 <= j < i + 1 && #[trigger] items@.take(i + 1)[j] == r@[k];
                assert(items@[j] == r@[k]);
            }
        }
        i = i + 1;
    }
    assert(items@.take(items@.len() as int) == items@);
    r
}

/// The field of an upcoming birthday.
fn field_of(u: Upcoming, today: Date) -> (r: (String, String))
    requires
        u.date.wf(),
        today.wf(),
    ensures
        r.0@ == upcoming_field(u, today).name,
        r.1@ == upcoming_field(u, today).value,
{
    let future = next_date(u.date, today);
    let name = long_date(future);
    let mut value = owned("<@");
    push_dec(&mut value, u.user_id);
    push_str(&mut value, "> (");
    push_dec(&mut value, age(u.date, today) as u64);
    push_str(&mut value, ")");
    (name, value)
}

/// `/birthday next` when today is `today`.
pub fn next_on(db: &Database, today: Date) -> (r: Result<Response, Error>)
    requires
        db.wf(),
        today.wf(),
    ensures
        next_outcome(db, today, r),
{
    let rows = db.birthdays.values();
    let ghost bs = db.birthdays@;
    let mut items: Vec<Upcoming> = Vec::new();
    let mut i: usize = 0;
    while i < rows.len()
        invariant
            i <= rows@.len(),
            rows@.map_values(|x: Birthday| x@) == bs,
            forall|k: int| 0 <= k < bs.len() ==> (#[trigger] bs[k]).date.wf(),
            today.wf(),
            items@ == upcoming_of(bs.take(i as int), today),
        decreases rows@.len() - i,
    {
        assert(bs[i as int] == rows@[i as int]);
        let u = upcoming(rows[i], today);
        items.push(u);
        assert(upcoming_of(bs.take(i + 1), today) =~= upcoming_of(bs.take(i as int), today).push(u));
        i = i + 1;
    }
    assert(bs.take(bs.len() as int) == bs);
    proof {
        assert forall|a: int, b: int| 0 <= a < b < items@.len() implies items@[a].user_id < items@[b].user_id by {
            assert(items@[a].user_id == bs[a].user_id);
            assert(items@[b].user_id == bs[b].user_id);
        }
    }
    let ranking = rank_upcoming(&items);
    proof {
        assert forall|k: int| 0 <= k < ranking@.len() implies (#[trigger] ranking@[k]).date.wf() by {
            assert(ranking@.to_multiset().count(ranking@[k]) > 0);
            assert(items@.contains(ranking@[k]));
            let j = choose|j: int| 0 <= j < items@.len() && items@[j] == ranking@[k];
            assert(items@[j].date == bs[j].date);
        }
    }
    let mut embed = Embed::new().title(owned("Next Birthdays:"));
    let ghost e0 = embed@;
    let length = if ranking.len() < MAX_BIRTHDAY_FIELDS {
        ranking.len()
    } else {
        MAX_BIRTHDAY_FIELDS
    };
    let mut k: usize = 0;
    assert(e0.fields =~= Seq::new(0, |j: int| upcoming_field(ranking@[j], today)));
    while k < length
        invariant
            k <= length == listed(ranking@.len() as nat),
            length <= ranking@.len(),
            today.wf(),
            forall|j: int| 0 <= j < ranking@.len() ==> (#[trigger] ranking@[j]).date.wf(),
            embed@ == (EmbedView {
                fields: Seq::new(k as nat, |j: int| upcoming_field(ranking@[j], today)),
                ..e0
            }),
        decreases length - k,
    {
        let (name, value) = field_of(ranking[k], today);
        embed = embed.field(name, value, false);
        assert(Seq::new((k + 1) as nat, |j: int| upcoming_field(ranking@[j], today)) =~= Seq::new(
            k as nat,
            |j: int| upcoming_field(ranking@[j], today),
        ).push(upcoming_field(ranking@[k as int], today)));
        k = k + 1;
    }
    if length == 0 {
        embed = embed.field(owned(EMPTY_FIELD_VALUE), owned("None recorded yet!"), false);
    }
    assert(is_ranking(upcoming_of(db.birthdays@, today), ranking@, sooner_order()));
    Ok(Response::Message(ResponseMessage::only_embed(embed)))
}

/// `/birthday next`, today being the date of the machine's clock in its
/// time zone.
pub fn run(db: &Database) -> (r: Result<Response, Error>)
    requires
        db.wf(),
    ensures
        exists|t: Date| t.wf() && next_outcome(db, t, r),
{
    let t = crate::date::today();
    next_on(db, t)
}

/// The next birthday never lies before today, unless the birthday does
/// not exist this year or next (February 29), where January 1, 1970
/// stands for it.
pub proof fn lemma_next_not_before_today(date: Date, today: Date)
    requires
        today.wf(),
    ensures
        !date_before(next_occurrence(date, today), today) || next_occurrence(date, today) == (Date {
            year: 1970,
            month: 1,
            day: 1,
        }),
{
}

} // verus!
