//! Helpers shared by the commands: rarity colours, component payloads, and
//! the text of embeds that others posted.

use vstd::prelude::*;
use crate::response::opt_view;
use crate::text::{
    lemma_dec_lacks, lemma_index_of_unique, lemma_parse_dec, chars_of, dec, find_char, index_of, join, join_strings, parse_unsigned, parse_unsigned_chars,
    push_chars, push_dec, push_str, split_once, trim, trim_bounds, views,
};

verus! {

broadcast use vstd::string::group_string_axioms;

/// A zero-width space: the value of an embed field that shows nothing.
pub const EMPTY_FIELD_VALUE: &'static str = "\u{200B}";

/// The embed colour for a character worth `goon_credits`, by rarity.
pub open spec fn goon_credits_color(goon_credits: u32) -> Option<u32> {
    if goon_credits <= 199 {
        None
    } else if goon_credits <= 499 {
        Some(0x8E8E93)
    } else if goon_credits <= 999 {
        Some(0x2ECC71)
    } else if goon_credits <= 2_499 {
        Some(0x3498DB)
    } else if goon_credits <= 4_999 {
        Some(0x9B59B6)
    } else if goon_credits <= 9_999 {
        Some(0xF1C40F)
    } else if goon_credits <= 19_999 {
        Some(0xE67E22)
    } else {
        Some(0xE91E63)
    }
}

/// The embed colour for a character worth `goon_credits`: none below 200
/// (common from 200, uncommon from 500, rare from 1000, epic from 2500,
/// legendary from 5000, mythic from 10000, icon from 20000).
pub fn color_goon_credits(goon_credits: u32) -> (c: Option<u32>)
    ensures
        c == goon_credits_color(goon_credits),
{
    if goon_credits <= 199 {
        None
    } else if goon_credits <= 499 {
        Some(0x8E8E93)
    } else if goon_credits <= 999 {
        Some(0x2ECC71)
    } else if goon_credits <= 2_499 {
        Some(0x3498DB)
    } else if goon_credits <= 4_999 {
        Some(0x9B59B6)
    } else if goon_credits <= 9_999 {
        Some(0xF1C40F)
    } else if goon_credits <= 19_999 {
        Some(0xE67E22)
    } else {
        Some(0xE91E63)
    }
}

/// The largest `usize`, as a natural number.
pub open spec fn usize_max() -> nat {
    usize::MAX as nat
}

/// The owner and index that a collection payload `owner_id,index` names.
pub open spec fn collection_payload_of(p: Seq<char>) -> Option<(u64, usize)> {
    match split_once(p, ',') {
        None => None,
        Some((owner, index)) => match (
            parse_unsigned(owner, u64::MAX as nat),
            parse_unsigned(index, usize_max()),
        ) {
            (Some(o), Some(i)) => Some((o as u64, i as usize)),
            _ => None,
        },
    }
}

/// The payload `owner_id,index` of the buttons of a collection page.
pub open spec fn collection_payload(owner_id: u64, index: usize) -> Seq<char> {
    dec(owner_id as nat) + ","@ + dec(index as nat)
}

/// Reads a collection payload `owner_id,index`.
pub fn from_collection_payload(payload: &str) -> (r: Option<(u64, usize)>)
    ensures
        r == collection_payload_of(payload@),
{
    let v = chars_of(payload);
    let n = v.len();
    assert(v@.subrange(0, n as int) == v@);
    let comma = match find_char(&v, 0, n, ',') {
        Some(i) => i,
        None => return None,
    };
    assert(v@.take(comma as int) == v@.subrange(0, comma as int));
    assert(v@.skip(comma + 1) == v@.subrange(comma + 1, n as int));
    let owner = match parse_unsigned_chars(&v, 0, comma, u64::MAX) {
        Some(o) => o,
        None => return None,
    };
    let index = match parse_unsigned_chars(&v, comma + 1, n, usize::MAX as u64) {
        Some(i) => i,
        None => return None,
    };
    Some((owner, index as usize))
}

/// Appends the collection payload `owner_id,index` to `out`.
pub fn push_collection_payload(out: &mut String, owner_id: u64, index: usize)
    ensures
        final(out)@ == old(out)@ + collection_payload(owner_id, index),
{
    push_dec(out, owner_id);
    push_str(out, ",");
    push_dec(out, index as u64);
}

/// A field of an embed that someone posted.
#[derive(Debug)]
pub struct ReceivedField {
    pub name: String,
    pub value: String,
}

/// The text parts of an embed that someone posted.
#[derive(Debug)]
pub struct ReceivedEmbed {
    pub author_name: Option<String>,
    pub title: Option<String>,
    pub description: Option<String>,
    pub fields: Vec<ReceivedField>,
    pub footer_text: Option<String>,
    pub url: Option<String>,
}

/// `s` trimmed, as a part, if anything is left.
pub open spec fn part_of(s: Option<Seq<char>>) -> Seq<Seq<char>> {
    match s {
        Some(t) => if trim(t).len() > 0 {
            seq![trim(t)]
        } else {
            Seq::empty()
        },
        None => Seq::empty(),
    }
}

/// The part a field gives: `name: value`, or whichever of the two is not
/// blank, or nothing.
pub open spec fn field_part(f: ReceivedField) -> Seq<Seq<char>> {
    let n = trim(f.name@);
    let v = trim(f.value@);
    if n.len() > 0 && v.len() > 0 {
        seq![n + ": "@ + v]
    } else if n.len() > 0 {
        seq![n]
    } else if v.len() > 0 {
        seq![v]
    } else {
        Seq::empty()
    }
}

/// The parts the fields give, in order.
pub open spec fn field_parts(fields: Seq<ReceivedField>) -> Seq<Seq<char>>
    decreases fields.len(),
{
    if fields.len() == 0 {
        Seq::empty()
    } else {
        field_parts(fields.drop_last()) + field_part(fields.last())
    }
}

/// The text parts of an embed: author, title, description, fields, footer
/// and link, each trimmed, blank ones left out.
pub open spec fn embed_parts(e: ReceivedEmbed) -> Seq<Seq<char>> {
    part_of(opt_view(e.author_name)) + part_of(opt_view(e.title)) + part_of(
        opt_view(e.description),
    ) + field_parts(e.fields@) + part_of(opt_view(e.footer_text)) + part_of(opt_view(e.url))
}

/// The text of an embed: its parts, one per line; `None` if it has none.
pub open spec fn embed_text(e: ReceivedEmbed) -> Option<Seq<char>> {
    let parts = embed_parts(e);
    if parts.len() == 0 {
        None
    } else {
        Some(join(parts, "\n"@))
    }
}

/// The texts of the embeds that have one, in order.
pub open spec fn embed_texts(es: Seq<ReceivedEmbed>) -> Seq<Seq<char>>
    decreases es.len(),
{
    if es.len() == 0 {
        Seq::empty()
    } else {
        embed_texts(es.drop_last()) + match embed_text(es.last()) {
            Some(t) => seq![t],
            None => Seq::empty(),
        }
    }
}

/// The texts of several embeds, separated by blank lines.
pub open spec fn embeds_text(es: Seq<ReceivedEmbed>) -> Seq<char> {
    join(embed_texts(es), "\n\n"@)
}

/// Appends `value` trimmed to `parts` unless nothing is left of it.
pub fn push_non_empty(parts: &mut Vec<String>, value: &str)
    ensures
        views(final(parts)@) == views(old(parts)@) + part_of(Some(value@)),
{
    let v = chars_of(value);
    assert(v@.subrange(0, v@.len() as int) == v@);
    let (a, b) = trim_bounds(&v, 0, v.len());
    if a < b {
        let mut s = String::new();
        push_chars(&mut s, &v, a, b);
        parts.push(s);
    }
    assert(views(parts@) =~= views(old(parts)@) + part_of(Some(value@)));
}

/// Appends the part of an optional text.
fn push_opt(parts: &mut Vec<String>, value: &Option<String>)
    ensures
        views(final(parts)@) == views(old(parts)@) + part_of(opt_view(*value)),
{
    match value {
        Some(t) => push_non_empty(parts, t.as_str()),
        None => {
            assert(views(parts@) =~= views(old(parts)@) + part_of(opt_view(*value)));
        },
    }
}

/// Appends the part of an embed field.
fn push_field(parts: &mut Vec<String>, f: &ReceivedField)
    ensures
        views(final(parts)@) == views(old(parts)@) + field_part(*f),
{
    let nv = chars_of(f.name.as_str());
    let vv = chars_of(f.value.as_str());
    assert(nv@.subrange(0, nv@.len() as int) == nv@);
    assert(vv@.subrange(0, vv@.len() as int) == vv@);
    let (na, nb) = trim_bounds(&nv, 0, nv.len());
    let (va, vb) = trim_bounds(&vv, 0, vv.len());
    if na < nb && va < vb {
        let mut s = String::new();
        push_chars(&mut s, &nv, na, nb);
        push_str(&mut s, ": ");
        push_chars(&mut s, &vv, va, vb);
        parts.push(s);
    } else if na < nb {
        let mut s = String::new();
        push_chars(&mut s, &nv, na, nb);
        parts.push(s);
    } else if va < vb {
        let mut s = String::new();
        push_chars(&mut s, &vv, va, vb);
        parts.push(s);
    }
    assert(views(parts@) =~= views(old(parts)@) + field_part(*f));
}

/// The text of one embed that someone posted, if it has any.
pub fn embed_to_string(embed: &ReceivedEmbed) -> (r: Option<String>)
    ensures
        opt_view(r) == embed_text(*embed),
{
    let mut parts: Vec<String> = Vec::new();
    assert(views(parts@) =~= Seq::<Seq<char>>::empty());
    push_opt(&mut parts, &embed.author_name);
    push_opt(&mut parts, &embed.title);
    push_opt(&mut parts, &embed.description);
    let ghost before = views(parts@);
    let mut i: usize = 0;
    while i < embed.fields.len()
        invariant
            i <= embed.fields@.len(),
            views(parts@) == before + field_parts(embed.fields@.take(i as int)),
        decreases embed.fields@.len() - i,
    {
        push_field(&mut parts, &embed.fields[i]);
        assert(embed.fields@.take(i + 1).drop_last() == embed.fields@.take(i as int));
        i = i + 1;
    }
    assert(embed.fields@.take(embed.fields@.len() as int) == embed.fields@);
    push_opt(&mut parts, &embed.footer_text);
    push_opt(&mut parts, &embed.url);
    assert(views(parts@) == embed_parts(*embed));
    if parts.len() == 0 {
        None
    } else {
        Some(join_strings(&parts, "\n"))
    }
}

/// The texts of several embeds that someone posted, separated by blank
/// lines; embeds without text are left out.
pub fn embeds_to_string(embeds: &Vec<ReceivedEmbed>) -> (r: String)
    ensures
        r@ == embeds_text(embeds@),
{
    let mut texts: Vec<String> = Vec::new();
    let mut i: usize = 0;
    while i < embeds.len()
        invariant
            i <= embeds@.len(),
            views(texts@) == embed_texts(embeds@.take(i as int)),
        decreases embeds@.len() - i,
    {
        let t = embed_to_string(&embeds[i]);
        assert(embeds@.take(i + 1).drop_last() == embeds@.take(i as int));
        assert(embeds@.take(i + 1).last() == embeds@[i as int]);
        match t {
            Some(s) => {
                texts.push(s);
            },
            None => {},
        }
        assert(views(texts@) =~= embed_texts(embeds@.take(i + 1)));
        i = i + 1;
    }
    assert(embeds@.take(embeds@.len() as int) == embeds@);
    join_strings(&texts, "\n\n")
}

/// Characters `s` without one trailing carriage return.
pub open spec fn strip_cr(s: Seq<char>) -> Seq<char> {
    if s.len() > 0 && s.last() == '\r' {
        s.drop_last()
    } else {
        s
    }
}

/// std's `lines`: the text split at each line feed, a carriage return
/// before a line feed dropped, no line after a final line feed.
pub open spec fn lines(s: Seq<char>) -> Seq<Seq<char>>
    decreases s.len(),
{
    if s.len() == 0 {
        Seq::empty()
    } else {
        let i = index_of(s, '\n');
        if i < 0 {
            seq![s]
        } else {
            proof {
                crate::text::lemma_index_of(s, '\n');
            }
            seq![strip_cr(s.take(i))] + lines(s.skip(i + 1))
        }
    }
}

/// Each line with a line feed in front, one after the other.
pub open spec fn prefixed_lines(ls: Seq<Seq<char>>) -> Seq<char>
    decreases ls.len(),
{
    if ls.len() == 0 {
        Seq::empty()
    } else {
        "\n"@ + ls[0] + prefixed_lines(ls.drop_first())
    }
}

/// The text recorded for a citation: its content, then each line of the
/// text of its embeds on a line of its own.
pub open spec fn citation_text(content: Seq<char>, embeds: Seq<ReceivedEmbed>) -> Seq<char> {
    content + prefixed_lines(lines(embeds_text(embeds)))
}

/// Appends each line of `text` with a line feed in front.
pub fn push_prefixed_lines(out: &mut String, text: &str)
    ensures
        final(out)@ == old(out)@ + prefixed_lines(lines(text@)),
{
    let v = chars_of(text);
    let n = v.len();
    let mut p: usize = 0;
    proof {
        crate::text::lemma_index_of(v@, '\n');
        assert(v@.skip(0) == v@);
    }
    while p < n
        invariant
            p <= n == v@.len(),
            v@ == text@,
            out@ + prefixed_lines(lines(v@.skip(p as int))) == old(out)@ + prefixed_lines(
                lines(text@),
            ),
        decreases n - p,
    {
        let ghost s = v@.skip(p as int);
        assert(s == v@.subrange(p as int, n as int));
        let ghost before = out@;
        match find_char(&v, p, n, '\n') {
            None => {
                push_str(out, "\n");
                push_chars(out, &v, p, n);
                proof {
                    reveal_with_fuel(prefixed_lines, 2);
                    assert(lines(s) == seq![s]);
                    assert(seq![s].drop_first() =~= Seq::<Seq<char>>::empty());
                    assert(v@.skip(n as int) =~= Seq::<char>::empty());
                }
                p = n;
            },
            Some(i) => {
                let mut e = i;
                if e > p && v[e - 1] == '\r' {
                    e = e - 1;
                }
                push_str(out, "\n");
                push_chars(out, &v, p, e);
                proof {
                    let line = strip_cr(s.take(i - p));
                    assert(s.take(i - p) == v@.subrange(p as int, i as int));
                    assert(line == v@.subrange(p as int, e as int));
                    assert(s.skip(i - p + 1) == v@.skip(i + 1));
                    assert(lines(s) == seq![line] + lines(v@.skip(i + 1)));
                    assert((seq![line] + lines(v@.skip(i + 1))).drop_first() == lines(
                        v@.skip(i + 1),
                    ));
                }
                p = i + 1;
            },
        }
    }
    assert(v@.skip(n as int) =~= Seq::<char>::empty());
}

/// The text recorded for a citation with `content` and `embeds`.
pub fn citation_content(content: &str, embeds: &Vec<ReceivedEmbed>) -> (r: String)
    ensures
        r@ == citation_text(content@, embeds@),
{
    let mut r = crate::text::owned(content);
    let t = embeds_to_string(embeds);
    push_prefixed_lines(&mut r, t.as_str());
    r
}

/// The first `max` characters of `s`.
pub open spec fn truncated(s: Seq<char>, max: nat) -> Seq<char> {
    if s.len() <= max {
        s
    } else {
        s.take(max as int)
    }
}

/// The first `max` characters of `s`.
pub fn truncate_chars(s: &str, max: usize) -> (r: String)
    ensures
        r@ == truncated(s@, max as nat),
{
    let v = chars_of(s);
    let n = if v.len() <= max {
        v.len()
    } else {
        max
    };
    let mut r = String::new();
    push_chars(&mut r, &v, 0, n);
    assert(v@.subrange(0, n as int) == truncated(s@, max as nat));
    r
}

/// The payload of a collection page's buttons reads back as the owner and
/// index it was made of.
pub proof fn lemma_collection_payload_round_trip(owner_id: u64, index: usize)
    ensures
        collection_payload_of(collection_payload(owner_id, index)) == Some((owner_id, index)),
{
    reveal_strlit(",");
    let o = dec(owner_id as nat);
    let i = dec(index as nat);
    let p = collection_payload(owner_id, index);
    assert(","@ == seq![',']);
    assert(p == o + seq![','] + i);
    lemma_dec_lacks(owner_id as nat, ',');
    assert(p[o.len() as int] == ',');
    assert forall|k: int| 0 <= k < o.len() implies p[k] != ',' by {
        assert(p[k] == o[k]);
    }
    lemma_index_of_unique(p, ',', o.len() as int);
    assert(p.take(o.len() as int) =~= o);
    assert(p.skip(o.len() as int + 1) =~= i);
    lemma_parse_dec(owner_id as nat, u64::MAX as nat);
    lemma_parse_dec(index as nat, usize_max());
}

} // verus!
