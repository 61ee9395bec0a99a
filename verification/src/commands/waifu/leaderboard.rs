//! The waifu leaderboard: players ranked by the goon credits of their
//! collections.

use vstd::prelude::*;
use crate::db::{CharacterView, Collection, CollectionView, Database, character_views};
use crate::error::Error;
use crate::ranking::{asymmetric, is_ranking, ordered_by};
use crate::response::{Embed, EmbedView, FieldView, MessageView, Response, ResponseMessage, ResponseView};
use crate::text::{dec, owned, push_dec, push_str};

verus! {

broadcast use vstd::seq_lib::group_to_multiset_ensures;

/// How many players the leaderboard lists at most.
pub const MAX_LEADERBOARD_FIELDS: usize = 25;

/// A player on the leaderboard: user, goon credits of the collection, and
/// number of characters in it.
#[derive(Clone, Copy, Debug, PartialEq, Eq, Structural)]
pub struct Player {
    pub user_id: u64,
    pub goon_credits: u64,
    pub characters: usize,
}

/// The goon credits of the characters, added up.
pub open spec fn credits_sum(chars: Seq<CharacterView>) -> nat
    decreases chars.len(),
{
    if chars.len() == 0 {
        0
    } else {
        credits_sum(chars.drop_last()) + chars.last().goon_credits as nat
    }
}

/// The goon credits of all collections, added up.
pub open spec fn total_credits(colls: Seq<CollectionView>) -> nat
    decreases colls.len(),
{
    if colls.len() == 0 {
        0
    } else {
        total_credits(colls.drop_last()) + credits_sum(colls.last().characters)
    }
}

/// The goon credits of all collections fit in a `u64`, as the leaderboard
/// adds them up.
pub open spec fn credits_fit(db: &Database) -> bool {
    total_credits(db.collections@) <= u64::MAX
}

/// The leaderboard entry of a collection.
pub open spec fn player_of(c: CollectionView) -> Player {
    Player {
        user_id: c.user_id,
        goon_credits: credits_sum(c.characters) as u64,
        characters: c.characters.len() as usize,
    }
}

/// The leaderboard entries of the collections, in the collections' order.
pub open spec fn players_of(colls: Seq<CollectionView>) -> Seq<Player> {
    colls.map_values(|c: CollectionView| player_of(c))
}

/// Whether `a` ranks above `b`: more goon credits; with as many, more
/// characters; with as many, the lower user id (the sort is stable and the
/// collections come in order of user id).
pub open spec fn ranks_above(a: Player, b: Player) -> bool {
    ||| a.goon_credits > b.goon_credits
    ||| a.goon_credits == b.goon_credits && a.characters > b.characters
    ||| a.goon_credits == b.goon_credits && a.characters == b.characters && a.user_id < b.user_id
}

/// `ranks_above` as a value.
pub open spec fn rank_order() -> spec_fn(Player, Player) -> bool {
    |a: Player, b: Player| ranks_above(a, b)
}

/// `waifu` for one, `waifus` otherwise.
pub open spec fn waifu_word(count: usize) -> Seq<char> {
    if count == 1 {
        "waifu"@
    } else {
        "waifus"@
    }
}

/// The line of a player: `<@id> has N Goon Credits across M waifus`.
pub open spec fn player_line(p: Player) -> Seq<char> {
    "<@"@ + dec(p.user_id as nat) + "> has "@ + dec(p.goon_credits as nat) + " Goon Credits across "@
        + dec(p.characters as nat) + " "@ + waifu_word(p.characters)
}

/// The number of fields listed for `n` players.
pub open spec fn listed(n: nat) -> nat {
    if n < MAX_LEADERBOARD_FIELDS {
        n
    } else {
        MAX_LEADERBOARD_FIELDS as nat
    }
}

/// The field of the player at rank `k` (counted from 0).
pub open spec fn rank_field(ranking: Seq<Player>, k: int) -> FieldView {
    FieldView { name: "#"@ + dec((k + 1) as nat), value: player_line(ranking[k]), inline: false }
}

/// The leaderboard embed for a ranking: the total goon credits and rolls,
/// then the first 25 players; or a note that nobody claimed anything.
pub open spec fn leaderboard_embed(ranking: Seq<Player>, total: nat, rolls: u64) -> EmbedView {
    let e = EmbedView::empty().with_title("Waifu Leaderboard:"@).with_description(
        "Total Goon Credits: "@ + dec(total) + " across "@ + dec(rolls as nat) + " rolls"@,
    );
    if ranking.len() == 0 {
        e.with_description("No waifus have been claimed yet!"@)
    } else {
        EmbedView {
            fields: Seq::new(listed(ranking.len()), |k: int| rank_field(ranking, k)),
            ..e
        }
    }
}

/// The leaderboard answer: a message with the leaderboard embed of the
/// ranking of the players.
pub open spec fn leaderboard_outcome(db: &Database, r: Result<Response, Error>) -> bool {
    exists|ranking: Seq<Player>|
        is_ranking(players_of(db.collections@), ranking, rank_order()) && (r matches Ok(x) && x@
            == ResponseView::Message(
            MessageView::only_embed(
                leaderboard_embed(ranking, total_credits(db.collections@), db.roll_count),
            ),
        ))
}

/// `waifu` for one, `waifus` otherwise.
pub fn waifu_label(count: usize) -> (s: &'static str)
    ensures
        s@ == waifu_word(count),
{
    if count == 1 {
        "waifu"
    } else {
        "waifus"
    }
}

/// Whether `a` ranks above `b`.
fn ranks_above_exec(a: Player, b: Player) -> (r: bool)
    ensures
        r == ranks_above(a, b),
{
    a.goon_credits > b.goon_credits || (a.goon_credits == b.goon_credits && a.characters
        > b.characters) || (a.goon_credits == b.goon_credits && a.characters == b.characters
        && a.user_id < b.user_id)
}

/// The sum of the prefix of the credits is at most the sum of the whole.
proof fn lemma_credits_sum_prefix(chars: Seq<CharacterView>, i: int)
    requires
        0 <= i <= chars.len(),
    ensures
        credits_sum(chars.take(i)) <= credits_sum(chars),
    decreases chars.len() - i,
{
    if i < chars.len() {
        lemma_credits_sum_prefix(chars, i + 1);
        assert(chars.take(i + 1).drop_last() == chars.take(i));
    } else {
        assert(chars.take(i) == chars);
    }
}

/// One collection's credits are at most the total.
proof fn lemma_total_prefix(colls: Seq<CollectionView>, i: int)
    requires
        0 <= i <= colls.len(),
    ensures
        total_credits(colls.take(i)) <= total_credits(colls),
        i < colls.len() ==> total_credits(colls.take(i)) + credits_sum(colls[i].characters)
            <= total_credits(colls),
    decreases colls.len() - i,
{
    if i < colls.len() {
        lemma_total_prefix(colls, i + 1);
        assert(colls.take(i + 1).drop_last() == colls.take(i));
        assert(colls.take(i + 1).last() == colls[i]);
    } else {
        assert(colls.take(i) == colls);
    }
}

/// The leaderboard entry of a collection.
fn player(c: &Collection, bound: Ghost<nat>) -> (p: Player)
    requires
        credits_sum(c@.characters) <= bound@ <= u64::MAX,
    ensures
        p == player_of(c@),
{
    let mut sum: u64 = 0;
    let mut i: usize = 0;
    let ghost chars = c@.characters;
    while i < c.characters.len()
        invariant
            i <= c.characters@.len(),
            chars == character_views(c.characters@),
            credits_sum(chars) <= u64::MAX,
            sum == credits_sum(chars.take(i as int)),
        decreases c.characters@.len() - i,
    {
        proof {
            lemma_credits_sum_prefix(chars, i + 1);
            assert(chars.take(i + 1).drop_last() == chars.take(i as int));
            assert(chars.take(i + 1).last() == c.characters@[i as int]@);
        }
        sum = sum + c.characters[i].goon_credits as u64;
        i = i + 1;
    }
    assert(chars.take(chars.len() as int) == chars);
    Player { user_id: c.user_id, goon_credits: sum, characters: c.characters.len() }
}

/// Inserts `p` into the ranking `r` at its place.
fn insert_ranked(r: &mut Vec<Player>, p: Player)
    requires
        ordered_by(old(r)@, rank_order()),
        forall|k: int| 0 <= k < old(r)@.len() ==> (#[trigger] old(r)@[k]).user_id < p.user_id,
    ensures
        ordered_by(final(r)@, rank_order()),
        final(r)@.to_multiset() == old(r)@.to_multiset().insert(p),
{
    let mut pos: usize = 0;
    while pos < r.len() && !ranks_above_exec(p, r[pos])
        invariant
            pos <= r@.len(),
            r@ == old(r)@,
            forall|k: int| 0 <= k < pos ==> ranks_above(#[trigger] r@[k], p),
            forall|k: int| 0 <= k < r@.len() ==> (#[trigger] r@[k]).user_id < p.user_id,
        decreases r@.len() - pos,
    {
        pos = pos + 1;
    }
    let ghost before = r@;
    r.insert(pos, p);
    proof {
        vstd::seq_lib::to_multiset_insert(before, pos as int, p);
        assert forall|i: int, j: int| 0 <= i < j < r@.len() implies ranks_above(r@[i], r@[j]) by {
            if j < pos {
                assert(rank_order()(before[i], before[j]));
            } else if j == pos {
            } else if i == pos {
                if j > pos + 1 {
                    assert(rank_order()(before[pos as int], before[j - 1]));
                }
            } else if i < pos {
                assert(rank_order()(before[i], before[j - 1]));
            } else {
                assert(rank_order()(before[i - 1], before[j - 1]));
            }
        }
    }
}

/// The players ranked.
fn rank_players(players: &Vec<Player>) -> (r: Vec<Player>)
    requires
        forall|i: int, j: int| 0 <= i < j < players@.len() ==> players@[i].user_id < players@[j].user_id,
    ensures
        is_ranking(players@, r@, rank_order()),
{
    let mut r: Vec<Player> = Vec::new();
    let mut i: usize = 0;
    while i < players.len()
        invariant
            i <= players@.len(),
            forall|a: int, b: int| 0 <= a < b < players@.len() ==> players@[a].user_id < players@[b].user_id,
            ordered_by(r@, rank_order()),
            r@.to_multiset() == players@.take(i as int).to_multiset(),
            forall|k: int| 0 <= k < r@.len() ==> exists|j: int| 0 <= j < i && #[trigger] r@[k] == players@[j],
        decreases players@.len() - i,
    {
        let p = players[i];
        assert forall|k: int| 0 <= k < r@.len() implies (#[trigger] r@[k]).user_id < p.user_id by {
            let j = choose|j: int| 0 <= j < i && r@[k] == players@[j];
        }
        let ghost before = r@;
        insert_ranked(&mut r, p);
        proof {
            assert(players@.take(i + 1) == players@.take(i as int).push(p));
            vstd::seq_lib::to_multiset_build(players@.take(i as int), p);
            assert forall|k: int| 0 <= k < r@.len() implies exists|j: int| 0 <= j < i + 1 && #[trigger] r@[k] == players@[j] by {
                assert(r@.to_multiset().count(r@[k]) > 0);
                assert(players@.take(i + 1).to_multiset().count(r@[k]) > 0);
                assert(players@.take(i + 1).contains(r@[k]));
                let j = choose|j: int| 0 <= j < i + 1 && #[trigger] players@.take(i + 1)[j] == r@[k];
                assert(players@[j] == r@[k]);
            }
        }
        i = i + 1;
    }
    assert(players@.take(players@.len() as int) == players@);
    r
}

/// The players of the leaderboard, in the order of the collections.
fn players(db: &Database) -> (ps: Vec<Player>)
    requires
        db.wf(),
        credits_fit(db),
    ensures
        ps@ == players_of(db.collections@),
{
    let colls = db.collections.values();
    let ghost cv = db.collections@;
    let mut ps: Vec<Player> = Vec::new();
    let mut i: usize = 0;
    while i < colls.len()
        invariant
            i <= colls@.len(),
            colls@.map_values(|x: Collection| x@) == cv,
            total_credits(cv) <= u64::MAX,
            ps@ == players_of(cv.take(i as int)),
        decreases colls@.len() - i,
    {
        proof {
            lemma_total_prefix(cv, i as int);
            assert(cv[i as int] == colls@[i as int]@);
        }
        let p = player(&colls[i], Ghost(total_credits(cv)));
        ps.push(p);
        assert(players_of(cv.take(i + 1)) =~= players_of(cv.take(i as int)).push(p));
        i = i + 1;
    }
    assert(cv.take(cv.len() as int) == cv);
    ps
}

/// The players' goon credits, added up.
fn total(ps: &Vec<Player>, colls: Ghost<Seq<CollectionView>>) -> (t: u64)
    requires
        ps@ == players_of(colls@),
        total_credits(colls@) <= u64::MAX,
    ensures
        t == total_credits(colls@),
{
    let mut t: u64 = 0;
    let mut i: usize = 0;
    while i < ps.len()
        invariant
            i <= ps@.len(),
            ps@ == players_of(colls@),
            total_credits(colls@) <= u64::MAX,
            t == total_credits(colls@.take(i as int)),
        decreases ps@.len() - i,
    {
        proof {
            lemma_total_prefix(colls@, i as int);
            assert(colls@.take(i + 1).drop_last() == colls@.take(i as int));
            assert(colls@.take(i + 1).last() == colls@[i as int]);
        }
        t = t + ps[i].goon_credits;
        i = i + 1;
    }
    let ghost cs = colls@;
    assert(players_of(cs).len() == cs.len());
    assert(i == cs.len());
    assert(cs.take(cs.len() as int) =~= cs);
    t
}

/// The line of a player.
fn line(p: Player) -> (s: String)
    ensures
        s@ == player_line(p),
{
    let mut s = owned("<@");
    push_dec(&mut s, p.user_id);
    push_str(&mut s, "> has ");
    push_dec(&mut s, p.goon_credits);
    push_str(&mut s, " Goon Credits across ");
    push_dec(&mut s, p.characters as u64);
    push_str(&mut s, " ");
    push_str(&mut s, waifu_label(p.characters));
    s
}

/// Whether the goon credits of all collections fit in a `u64`, as the
/// leaderboard needs.
pub fn credits_in_range(db: &Database) -> (b: bool)
    ensures
        b == credits_fit(db),
{
    let colls = db.collections.values();
    let ghost cv = db.collections@;
    let mut t: u64 = 0;
    let mut i: usize = 0;
    while i < colls.len()
        invariant
            i <= colls@.len(),
            colls@.map_values(|x: Collection| x@) == cv,
            cv == db.collections@,
            t == total_credits(cv.take(i as int)),
        decreases colls@.len() - i,
    {
        let chars = &colls[i].characters;
        let ghost c = cv[i as int].characters;
        assert(c == character_views(chars@));
        let mut j: usize = 0;
        while j < chars.len()
            invariant
                j <= chars@.len(),
                i < cv.len(),
                c == character_views(chars@),
                c == cv[i as int].characters,
                cv == db.collections@,
                t == total_credits(cv.take(i as int)) + credits_sum(c.take(j as int)),
            decreases chars@.len() - j,
        {
            assert(c.take(j + 1).drop_last() == c.take(j as int));
            assert(c.take(j + 1).last() == chars@[j as int]@);
            match t.checked_add(chars[j].goon_credits as u64) {
                Some(s) => {
                    t = s;
                },
                None => {
                    proof {
                        assert(credits_sum(c.take(j + 1)) == credits_sum(c.take(j as int))
                            + chars@[j as int].goon_credits);
                        lemma_credits_sum_prefix(c, j + 1);
                        lemma_total_prefix(cv, i as int);
                        assert(total_credits(cv) > u64::MAX);
                    }
                    return false;
                },
            }
            j = j + 1;
        }
        proof {
            assert(c.take(c.len() as int) == c);
            assert(cv.take(i + 1).drop_last() == cv.take(i as int));
            assert(cv.take(i + 1).last() == cv[i as int]);
        }
        i = i + 1;
    }
    assert(cv.take(cv.len() as int) == cv);
    true
}

/// Answers with the leaderboard.
pub fn run(db: &Database) -> (r: Result<Response, Error>)
    requires
        db.wf(),
        credits_fit(db),
    ensures
        leaderboard_outcome(db, r),
{
    let ps = players(db);
    let total_goon_credits = total(&ps, Ghost(db.collections@));
    proof {
        assert forall|i: int, j: int| 0 <= i < j < ps@.len() implies ps@[i].user_id < ps@[j].user_id by {
            assert(ps@[i].user_id == db.collections@[i].user_id);
            assert(ps@[j].user_id == db.collections@[j].user_id);
        }
    }
    let ranking = rank_players(&ps);
    let mut description = owned("Total Goon Credits: ");
    push_dec(&mut description, total_goon_credits);
    push_str(&mut description, " across ");
    push_dec(&mut description, db.roll_count);
    push_str(&mut description, " rolls");
    let mut embed = Embed::new().title(owned("Waifu Leaderboard:")).description(description);
    let ghost e0 = embed@;
    if ranking.len() == 0 {
        embed = embed.description(owned("No waifus have been claimed yet!"));
    } else {
        let n = if ranking.len() < MAX_LEADERBOARD_FIELDS {
            ranking.len()
        } else {
            MAX_LEADERBOARD_FIELDS
        };
        let mut k: usize = 0;
        assert(e0.fields =~= Seq::new(0, |j: int| rank_field(ranking@, j)));
        while k < n
            invariant
                k <= n == listed(ranking@.len() as nat),
                n <= ranking@.len(),
                embed@ == (EmbedView {
                    fields: Seq::new(k as nat, |j: int| rank_field(ranking@, j)),
                    ..e0
                }),
            decreases n - k,
        {
            let mut name = owned("#");
            push_dec(&mut name, (k + 1) as u64);
            embed = embed.field(name, line(ranking[k]), false);
            assert(Seq::new((k + 1) as nat, |j: int| rank_field(ranking@, j)) =~= Seq::new(
                k as nat,
                |j: int| rank_field(ranking@, j),
            ).push(rank_field(ranking@, k as int)));
            k = k + 1;
        }
    }
    let r = Ok(Response::Message(ResponseMessage::only_embed(embed)));
    assert(is_ranking(players_of(db.collections@), ranking@, rank_order()));
    r
}

/// The leaderboard's order: more goon credits rank higher; with as many,
/// more characters; with as many of both, the lower user id; and no two
/// players rank each above the other.
pub proof fn lemma_rank_order(a: Player, b: Player)
    ensures
        a.goon_credits > b.goon_credits ==> ranks_above(a, b),
        a.goon_credits == b.goon_credits && a.characters > b.characters ==> ranks_above(a, b),
        a.goon_credits == b.goon_credits && a.characters == b.characters && a.user_id < b.user_id
            ==> ranks_above(a, b),
        a.goon_credits < b.goon_credits ==> !ranks_above(a, b),
        a.goon_credits == b.goon_credits && a.characters < b.characters ==> !ranks_above(a, b),
        ranks_above(a, b) ==> !ranks_above(b, a),
{
}

} // verus!
