//! `/citations`: the latest messages recorded from the citations channel,
//! and the recording itself.

use vstd::prelude::*;
use crate::commands::{CommandSpec, CommandView, ResolvedOption};
use crate::date::{Timestamp, local_offset, offset_timestamp_text, strftime_valid, timestamp_text};
use crate::db::{Database, Message, MessageRecord};
use crate::error::Error;
use crate::response::{Embed, EmbedView, FieldView, MessageView, Response, ResponseMessage, ResponseView, field_views};
use crate::table::add_row;
use crate::text::{chars_of, dec, owned, push_chars, push_dec, push_str, trim, trim_bounds};
use crate::util::{EMPTY_FIELD_VALUE, ReceivedEmbed, citation_content, citation_text};

verus! {

broadcast use vstd::string::group_string_axioms;

/// How many citations `/citations` shows at most (Discord's limit of
/// fields per embed).
pub const MAX_CITATION_FIELDS: usize = 25;

/// Discord's limit of characters in one embed.
pub const MAX_EMBED_CHARS: usize = 6000;

/// Discord's limit of characters in a field name.
pub const MAX_FIELD_NAME_CHARS: usize = 256;

/// Discord's limit of characters in a field value.
pub const MAX_FIELD_VALUE_CHARS: usize = 1024;

/// What ends a text that was cut short.
pub const TRUNCATION_SUFFIX: &'static str = "...";

/// `a - b`, or 0 if `b` is larger.
pub open spec fn sat_sub(a: int, b: int) -> int {
    if a >= b {
        a - b
    } else {
        0
    }
}

/// The smaller of `a` and `b`.
pub open spec fn min(a: int, b: int) -> int {
    if a <= b {
        a
    } else {
        b
    }
}

/// `s` cut to at most `max` characters: unchanged if it fits; else as much
/// of it as fits before `...`, or as much of `...` as fits.
pub open spec fn truncated_text(s: Seq<char>, max: int) -> Seq<char> {
    if s.len() <= max {
        s
    } else if max <= 3 {
        "..."@.take(max)
    } else {
        s.take(max - 3) + "..."@
    }
}

/// The value shown for a citation: a mention of its author, then its
/// content (a zero-width space if the content is blank).
pub open spec fn citation_value(m: MessageRecord) -> Seq<char> {
    "<@"@ + dec(m.user_id as nat) + ">\n"@ + (if trim(m.content).len() == 0 {
        EMPTY_FIELD_VALUE@
    } else {
        m.content
    })
}

/// The fields for the citations `ms`, named `names`, with `remaining`
/// characters left in the embed: each name and value cut to what is left
/// (and to the field limits); no field once fewer than 2 characters are
/// left.
pub open spec fn citation_fields(ms: Seq<MessageRecord>, names: Seq<Seq<char>>, remaining: int) -> Seq<
    FieldView,
>
    decreases ms.len(),
{
    if ms.len() == 0 || names.len() == 0 || remaining < 2 {
        Seq::empty()
    } else {
        let name = truncated_text(names[0], min(MAX_FIELD_NAME_CHARS as int, remaining - 1));
        let rest = sat_sub(remaining, name.len() as int);
        let max_value = min(MAX_FIELD_VALUE_CHARS as int, rest);
        let value = if max_value == 0 {
            "..."@
        } else {
            truncated_text(citation_value(ms[0]), max_value)
        };
        seq![FieldView { name, value, inline: false }] + citation_fields(
            ms.drop_first(),
            names.drop_first(),
            sat_sub(rest, value.len() as int),
        )
    }
}

/// The title of the citations embed.
pub open spec fn citations_title(n: nat) -> Seq<char> {
    if n == 0 {
        "No citations have been recorded!"@
    } else {
        "Recorded Citations: "@ + dec(n)
    }
}

/// The citations embed for the shown citations `ms`, named `names`, out
/// of `total` recorded ones.
pub open spec fn citations_embed(total: nat, ms: Seq<MessageRecord>, names: Seq<Seq<char>>) -> EmbedView {
    let title = citations_title(total);
    EmbedView {
        fields: citation_fields(ms, names, sat_sub(MAX_EMBED_CHARS as int, title.len() as int)),
        ..EmbedView::empty().with_title(title)
    }
}

/// The latest 25 citations, newest first (the table is in order of
/// message id).
pub open spec fn recent_citations(s: Seq<MessageRecord>) -> Seq<MessageRecord> {
    Seq::new(min(MAX_CITATION_FIELDS as int, s.len() as int) as nat, |k: int| s[s.len() - 1 - k])
}

/// The number of characters of a string slice.
pub fn embed_title_len(title: &str) -> (n: usize)
    ensures
        n == title@.len(),
{
    title.unicode_len()
}

/// `value` cut to at most `max_chars` characters.
pub fn truncate_text(value: String, max_chars: usize) -> (r: String)
    ensures
        r@ == truncated_text(value@, max_chars as int),
{
    let v = chars_of(value.as_str());
    if v.len() <= max_chars {
        return value;
    }
    if max_chars <= 3 {
        let s = chars_of("...");
        proof {
            reveal_strlit("...");
        }
        let mut r = String::new();
        push_chars(&mut r, &s, 0, max_chars);
        assert(s@.subrange(0, max_chars as int) == "..."@.take(max_chars as int));
        return r;
    }
    let mut r = String::new();
    push_chars(&mut r, &v, 0, max_chars - 3);
    push_str(&mut r, TRUNCATION_SUFFIX);
    assert(v@.subrange(0, max_chars - 3) == value@.take(max_chars - 3));
    r
}

/// The value shown for a citation.
fn value_text(m: &Message) -> (s: String)
    ensures
        s@ == citation_value(m@),
{
    let mut s = owned("<@");
    push_dec(&mut s, m.user_id);
    push_str(&mut s, ">\n");
    let v = chars_of(m.content.as_str());
    assert(v@.subrange(0, v@.len() as int) == v@);
    let (a, b) = trim_bounds(&v, 0, v.len());
    if a == b {
        push_str(&mut s, EMPTY_FIELD_VALUE);
    } else {
        push_str(&mut s, m.content.as_str());
    }
    s
}

/// The citations embed for the messages `ms` (newest first), named by the
/// timestamps `names`, out of `total` recorded citations.
pub fn build_embed(total: usize, ms: &Vec<&Message>, names: &Vec<String>) -> (e: Embed)
    requires
        ms@.len() == names@.len(),
        ms@.len() <= MAX_CITATION_FIELDS,
    ensures
        e@ == citations_embed(
            total as nat,
            ms@.map_values(|m: &Message| m@),
            names@.map_values(|s: String| s@),
        ),
{
    let ghost mv = ms@.map_values(|m: &Message| m@);
    let ghost nv = names@.map_values(|s: String| s@);
    let title = if total == 0 {
        owned("No citations have been recorded!")
    } else {
        let mut t = owned("Recorded Citations: ");
        push_dec(&mut t, total as u64);
        t
    };
    let title_len = embed_title_len(title.as_str());
    let mut remaining: usize = if MAX_EMBED_CHARS >= title_len {
        MAX_EMBED_CHARS - title_len
    } else {
        0
    };
    let mut embed = Embed::new().title(title);
    let ghost e0 = embed@;
    let mut k: usize = 0;
    proof {
        assert(mv.skip(0) == mv);
        assert(nv.skip(0) == nv);
    }
    while k < ms.len()
        invariant
            k <= ms@.len() == names@.len(),
            mv == ms@.map_values(|m: &Message| m@),
            nv == names@.map_values(|s: String| s@),
            embed@.fields + citation_fields(mv.skip(k as int), nv.skip(k as int), remaining as int)
                == citation_fields(mv, nv, sat_sub(MAX_EMBED_CHARS as int, e0.title->0.len() as int)),
            embed@ == (EmbedView { fields: embed@.fields, ..e0 }),
        ensures
            k == ms@.len() || remaining < 2,
            embed@.fields + citation_fields(mv.skip(k as int), nv.skip(k as int), remaining as int)
                == citation_fields(mv, nv, sat_sub(MAX_EMBED_CHARS as int, e0.title->0.len() as int)),
            embed@ == (EmbedView { fields: embed@.fields, ..e0 }),
        decreases ms@.len() - k,
    {
        if remaining < 2 {
            break;
        }
        let ghost fields_before = embed@.fields;
        let ghost rest_ms = mv.skip(k as int);
        let ghost rest_ns = nv.skip(k as int);
        assert(rest_ms[0] == ms@[k as int]@);
        assert(rest_ns[0] == names@[k as int]@);
        let name_max = if MAX_FIELD_NAME_CHARS < remaining - 1 {
            MAX_FIELD_NAME_CHARS
        } else {
            remaining - 1
        };
        let field_name = truncate_text(names[k].clone(), name_max);
        let name_len = embed_title_len(field_name.as_str());
        remaining = if remaining >= name_len {
            remaining - name_len
        } else {
            0
        };
        let max_value_chars = if MAX_FIELD_VALUE_CHARS < remaining {
            MAX_FIELD_VALUE_CHARS
        } else {
            remaining
        };
        let field_value = if max_value_chars == 0 {
            owned(TRUNCATION_SUFFIX)
        } else {
            truncate_text(value_text(ms[k]), max_value_chars)
        };
        let value_len = embed_title_len(field_value.as_str());
        remaining = if remaining >= value_len {
            remaining - value_len
        } else {
            0
        };
        let ghost fv = FieldView { name: field_name@, value: field_value@, inline: false };
        embed = embed.field(field_name, field_value, false);
        proof {
            assert(rest_ms.drop_first() == mv.skip(k + 1));
            assert(rest_ns.drop_first() == nv.skip(k + 1));
            assert(citation_fields(rest_ms, rest_ns, sat_sub(sat_sub(remaining as int, 0), 0)) == citation_fields(rest_ms, rest_ns, remaining as int));
            assert(fields_before.push(fv) + citation_fields(mv.skip(k + 1), nv.skip(k + 1), remaining as int)
                =~= fields_before + (seq![fv] + citation_fields(mv.skip(k + 1), nv.skip(k + 1), remaining as int)));
        }
        k = k + 1;
    }
    proof {
        if k == ms.len() {
            assert(mv.skip(k as int).len() == 0);
        }
        assert(citation_fields(mv.skip(k as int), nv.skip(k as int), remaining as int) =~= Seq::<FieldView>::empty());
        assert(embed@.fields =~= citation_fields(mv, nv, sat_sub(MAX_EMBED_CHARS as int, e0.title->0.len() as int)));
    }
    embed
}

/// What `/citations` answers, when the timestamps of the shown citations
/// are written as `names`: the embed of the latest 25 citations, titled
/// with the number of all recorded ones.
pub open spec fn citations_answer(db: &Database, names: Seq<Seq<char>>) -> ResponseView {
    ResponseView::Message(
        MessageView::only_embed(
            citations_embed(db.citations@.len(), recent_citations(db.citations@), names),
        ),
    )
}

/// The names of the citations `ms`: the time of each written in `fmt`,
/// seen at the offset from UTC at the same position of `offsets`.
pub open spec fn citation_names(ms: Seq<MessageRecord>, offsets: Seq<i32>, fmt: Seq<char>) -> Seq<
    Seq<char>,
> {
    Seq::new(
        ms.len(),
        |k: int| timestamp_text(ms[k].utc_timestamp.secs, ms[k].utc_timestamp.nanos, offsets[k], fmt),
    )
}

/// Whether `offsets` holds one offset from UTC, in chrono's range, for each
/// of `n` citations.
pub open spec fn valid_offsets(offsets: Seq<i32>, n: nat) -> bool {
    offsets.len() == n && forall|k: int| 0 <= k < n ==> -86_400 < #[trigger] offsets[k] < 86_400
}

/// What `/citations` answers when the machine's time zone is `offsets` away
/// from UTC at the times of the shown citations.
pub open spec fn citations_outcome(db: &Database, fmt: Seq<char>, r: Result<Response, Error>) -> bool {
    exists|offsets: Seq<i32>|
        valid_offsets(offsets, recent_citations(db.citations@).len()) && (r matches Ok(x) && x@
            == citations_answer(
            db,
            #[trigger] citation_names(recent_citations(db.citations@), offsets, fmt),
        ))
}

/// `/citations`: the latest 25 recorded citations, newest first, each
/// named by its time written in `timestamp_format` in the machine's time
/// zone, under a title with the number of all recorded citations; its
/// options are not read. Only shown citations have their times written,
/// so with none recorded any format is accepted. The offset of the time zone at each time is the
/// machine's, so the offsets are stated to exist, one per citation.
pub fn run(_options: &Vec<ResolvedOption>, db: &Database, timestamp_format: &str) -> (r: Result<
    Response,
    Error,
>)
    requires
        db.wf(),
        strftime_valid(timestamp_format@) || db.citations@.len() == 0,
    ensures
        citations_outcome(db, timestamp_format@, r),
{
    let rows = db.citations.values();
    let n = rows.len();
    let m = if n < MAX_CITATION_FIELDS {
        n
    } else {
        MAX_CITATION_FIELDS
    };
    let ghost recent = recent_citations(db.citations@);
    let mut ms: Vec<&Message> = Vec::new();
    let mut names: Vec<String> = Vec::new();
    let ghost mut offsets: Seq<i32> = Seq::empty();
    let mut k: usize = 0;
    while k < m
        invariant
            k <= m <= n == rows@.len(),
            m == recent.len(),
            m <= MAX_CITATION_FIELDS,
            rows@.map_values(|x: Message| x@) == db.citations@,
            recent == recent_citations(db.citations@),
            strftime_valid(timestamp_format@) || n == 0,
            ms@.len() == k,
            names@.len() == k,
            ms@.map_values(|x: &Message| x@) == recent.take(k as int),
            valid_offsets(offsets, k as nat),
            names@.map_values(|s: String| s@) == citation_names(
                recent.take(k as int),
                offsets,
                timestamp_format@,
            ),
        decreases m - k,
    {
        let msg = &rows[n - 1 - k];
        let ghost before = ms@.map_values(|x: &Message| x@);
        ms.push(msg);
        let offset = local_offset(msg.utc_timestamp);
        let ghost names_before = names@.map_values(|s: String| s@);
        let ghost offsets_before = offsets;
        names.push(offset_timestamp_text(msg.utc_timestamp, offset, timestamp_format));
        proof {
            offsets = offsets.push(offset);
        }
        assert(recent[k as int] == db.citations@[n - 1 - k]);
        assert(ms@.map_values(|x: &Message| x@) =~= recent.take(k + 1));
        assert(db.citations@[n - 1 - k] == rows@[n - 1 - k]@);
        assert forall|j: int| 0 <= j < k implies #[trigger] citation_names(
            recent.take(k + 1),
            offsets,
            timestamp_format@,
        )[j] == names_before[j] by {
            assert(recent.take(k + 1)[j] == recent.take(k as int)[j]);
            assert(offsets[j] == offsets_before[j]);
        }
        assert(names@.map_values(|s: String| s@) =~= citation_names(
            recent.take(k + 1),
            offsets,
            timestamp_format@,
        ));
        k = k + 1;
    }
    assert(recent.take(m as int) == recent);
    let embed = build_embed(n, &ms, &names);
    let ghost nv = names@.map_values(|s: String| s@);
    assert(ms@.map_values(|x: &Message| x@) == recent);
    let r = Ok(Response::Message(ResponseMessage::only_embed(embed)));
    assert(nv == citation_names(recent, offsets, timestamp_format@));
    assert(r matches Ok(x) && x@ == citations_answer(db, citation_names(recent, offsets, timestamp_format@)));
    r
}

/// `/citations` as [`run`] does it, where chrono accepts
/// `timestamp_format` or no citation is recorded; `None` otherwise.
pub fn run_checked(options: &Vec<ResolvedOption>, db: &Database, timestamp_format: &str) -> (r:
    Option<Result<Response, Error>>)
    requires
        db.wf(),
    ensures
        r is Some <==> (strftime_valid(timestamp_format@) || db.citations@.len() == 0),
        r matches Some(x) ==> citations_outcome(db, timestamp_format@, x),
{
    if db.citations.len() == 0 || crate::date::strftime_check(timestamp_format) {
        Some(run(options, db, timestamp_format))
    } else {
        None
    }
}

/// Records a message posted in channel `channel_id` if that is the
/// citations channel: its text is the content followed by the lines of its
/// embeds (a table keeps the first message of an id).
pub fn record(
    db: &mut Database,
    citations_channel: u64,
    channel_id: u64,
    id: u64,
    user_id: u64,
    content: &str,
    embeds: &Vec<ReceivedEmbed>,
    utc_timestamp: Timestamp,
)
    requires
        old(db).wf(),
    ensures
        final(db).wf(),
        final(db).birthdays@ == old(db).birthdays@,
        final(db).collections@ == old(db).collections@,
        final(db).roll_count == old(db).roll_count,
        final(db).citations@ == if channel_id == citations_channel {
            add_row::<Message>(
                old(db).citations@,
                MessageRecord { id, user_id, content: citation_text(content@, embeds@), utc_timestamp },
            )
        } else {
            old(db).citations@
        },
{
    if channel_id == citations_channel {
        let text = citation_content(content, embeds);
        db.citations.add(Message::new(id, user_id, text, utc_timestamp));
    }
}

/// How `/citations` is registered.
pub fn register() -> (c: CommandSpec)
    ensures
        c@ == (CommandView {
            name: "citations"@,
            description: "Show which and how many citations were recorded"@,
            options: Seq::empty(),
        }),
{
    CommandSpec::new(owned("citations"), owned("Show which and how many citations were recorded"))
}

/// The characters of the names and values of the fields, added up.
pub open spec fn fields_chars(fs: Seq<FieldView>) -> nat
    decreases fs.len(),
{
    if fs.len() == 0 {
        0
    } else {
        fs[0].name.len() + fs[0].value.len() + fields_chars(fs.drop_first())
    }
}

/// A text cut to `max` characters has at most `max`.
pub proof fn lemma_truncated_len(s: Seq<char>, max: int)
    requires
        max >= 0,
    ensures
        truncated_text(s, max).len() <= max,
        s.len() <= max ==> truncated_text(s, max) == s,
{
    reveal_strlit("...");
}

proof fn lemma_fields_within(ms: Seq<MessageRecord>, names: Seq<Seq<char>>, remaining: int)
    requires
        remaining >= 0,
    ensures
        citation_fields(ms, names, remaining).len() <= ms.len(),
        fields_chars(citation_fields(ms, names, remaining)) <= remaining,
        forall|i: int|
            0 <= i < citation_fields(ms, names, remaining).len() ==> (#[trigger] citation_fields(
                ms,
                names,
                remaining,
            )[i]).name.len() <= MAX_FIELD_NAME_CHARS && citation_fields(ms, names, remaining)[i].value.len()
                <= MAX_FIELD_VALUE_CHARS,
    decreases ms.len(),
{
    if !(ms.len() == 0 || names.len() == 0 || remaining < 2) {
        let name = truncated_text(names[0], min(MAX_FIELD_NAME_CHARS as int, remaining - 1));
        lemma_truncated_len(names[0], min(MAX_FIELD_NAME_CHARS as int, remaining - 1));
        let rest = sat_sub(remaining, name.len() as int);
        let max_value = min(MAX_FIELD_VALUE_CHARS as int, rest);
        lemma_truncated_len(citation_value(ms[0]), max_value);
        let value = truncated_text(citation_value(ms[0]), max_value);
        let tail_rem = sat_sub(rest, value.len() as int);
        lemma_fields_within(ms.drop_first(), names.drop_first(), tail_rem);
        let fs = citation_fields(ms, names, remaining);
        let tail = citation_fields(ms.drop_first(), names.drop_first(), tail_rem);
        assert(fs == seq![FieldView { name, value, inline: false }] + tail);
        assert(fs.drop_first() == tail);
        assert forall|i: int| 0 <= i < fs.len() implies (#[trigger] fs[i]).name.len()
            <= MAX_FIELD_NAME_CHARS && fs[i].value.len() <= MAX_FIELD_VALUE_CHARS by {
            if i > 0 {
                assert(fs[i] == tail[i - 1]);
            }
        }
    }
}

/// Ten to the power `k`.
spec fn pow10(k: nat) -> nat
    decreases k,
{
    if k == 0 {
        1
    } else {
        10 * pow10((k - 1) as nat)
    }
}

/// A number below ten to the power `k` has at most `k` digits.
proof fn lemma_dec_digits(n: nat, k: nat)
    requires
        k >= 1,
        n < pow10(k),
    ensures
        dec(n).len() <= k,
    decreases k,
{
    if n >= 10 {
        let p = pow10((k - 1) as nat);
        assert(k >= 2) by {
            if k == 1 {
                assert(pow10(1) == 10 * pow10(0));
            }
        }
        assert(n / 10 < p) by (nonlinear_arith)
            requires
                n < 10 * p,
        ;
        lemma_dec_digits(n / 10, (k - 1) as nat);
    }
}

/// Whatever the citations and however their timestamps are written, the
/// embed of `/citations` stays within Discord's limits: at most 25
/// fields, field names of at most 256 characters, values of at most 1024,
/// and at most 6000 characters in title, names and values together.
pub proof fn lemma_citations_embed_within_limits(stored: Seq<MessageRecord>, names: Seq<Seq<char>>)
    requires
        stored.len() <= usize::MAX,
    ensures
        ({
            let e = citations_embed(stored.len(), recent_citations(stored), names);
            &&& e.fields.len() <= MAX_CITATION_FIELDS
            &&& forall|i: int|
                0 <= i < e.fields.len() ==> (#[trigger] e.fields[i]).name.len()
                    <= MAX_FIELD_NAME_CHARS && e.fields[i].value.len() <= MAX_FIELD_VALUE_CHARS
            &&& e.title->0.len() + fields_chars(e.fields) <= MAX_EMBED_CHARS
        }),
{
    let ms = recent_citations(stored);
    let title = citations_title(stored.len());
    reveal_strlit("No citations have been recorded!");
    reveal_strlit("Recorded Citations: ");
    if stored.len() > 0 {
        assert(pow10(20) == 100_000_000_000_000_000_000) by {
            reveal_with_fuel(pow10, 21);
        }
        lemma_dec_digits(stored.len(), 20);
    }
    assert(title.len() <= 40);
    lemma_fields_within(ms, names, sat_sub(MAX_EMBED_CHARS as int, title.len() as int));
}

/// The characters of the names and values of the citations `ms` named
/// `names`, shown whole, added up.
pub open spec fn whole_chars(ms: Seq<MessageRecord>, names: Seq<Seq<char>>) -> nat
    decreases ms.len(),
{
    if ms.len() == 0 || names.len() == 0 {
        0
    } else {
        names[0].len() + citation_value(ms[0]).len() + whole_chars(ms.drop_first(), names.drop_first())
    }
}

/// Each name of the citations `ms` fits in a field name and each value in
/// a field value.
pub open spec fn within_field_limits(ms: Seq<MessageRecord>, names: Seq<Seq<char>>) -> bool
    decreases ms.len(),
{
    if ms.len() == 0 || names.len() == 0 {
        true
    } else {
        names[0].len() <= MAX_FIELD_NAME_CHARS && citation_value(ms[0]).len() <= MAX_FIELD_VALUE_CHARS
            && within_field_limits(ms.drop_first(), names.drop_first())
    }
}

/// The fields of the citations `ms` named `names`, each shown whole.
pub open spec fn whole_fields(ms: Seq<MessageRecord>, names: Seq<Seq<char>>) -> Seq<FieldView>
    decreases ms.len(),
{
    if ms.len() == 0 || names.len() == 0 {
        Seq::empty()
    } else {
        seq![FieldView { name: names[0], value: citation_value(ms[0]), inline: false }]
            + whole_fields(ms.drop_first(), names.drop_first())
    }
}

/// Citations that fit the budget are shown whole.
proof fn lemma_fields_whole(ms: Seq<MessageRecord>, names: Seq<Seq<char>>, remaining: int)
    requires
        whole_chars(ms, names) <= remaining,
        within_field_limits(ms, names),
    ensures
        citation_fields(ms, names, remaining) == whole_fields(ms, names),
    decreases ms.len(),
{
    if ms.len() > 0 && names.len() > 0 {
        reveal_strlit("<@");
        let v = citation_value(ms[0]);
        assert(v.len() >= 2);
        assert(remaining >= 2);
        lemma_truncated_len(names[0], min(MAX_FIELD_NAME_CHARS as int, remaining - 1));
        let name = truncated_text(names[0], min(MAX_FIELD_NAME_CHARS as int, remaining - 1));
        assert(name == names[0]);
        let rest = sat_sub(remaining, name.len() as int);
        let max_value = min(MAX_FIELD_VALUE_CHARS as int, rest);
        assert(max_value >= v.len());
        lemma_truncated_len(v, max_value);
        let tail_rem = sat_sub(rest, v.len() as int);
        lemma_fields_whole(ms.drop_first(), names.drop_first(), tail_rem);
    }
}

/// Where every shown citation fits Discord's limits (names of at most 256
/// characters, values of at most 1024, and at most 6000 in all with the
/// title), each is shown whole: name and value as they are, newest first.
pub proof fn lemma_citations_shown_whole(stored: Seq<MessageRecord>, names: Seq<Seq<char>>)
    requires
        within_field_limits(recent_citations(stored), names),
        citations_title(stored.len()).len() + whole_chars(recent_citations(stored), names)
            <= MAX_EMBED_CHARS,
    ensures
        citations_embed(stored.len(), recent_citations(stored), names).fields == whole_fields(
            recent_citations(stored),
            names,
        ),
{
    lemma_fields_whole(
        recent_citations(stored),
        names,
        sat_sub(MAX_EMBED_CHARS as int, citations_title(stored.len()).len() as int),
    );
}

} // verus!
