//! The bot's stored data: birthdays, recorded citations and the waifu
//! collections of the players.

use vstd::prelude::*;
use vstd::multiset::Multiset;
use crate::api::{url_path, url_path_of, IMAGE_BASE, IMAGE_EXTENSION};
use crate::date::{Date, Timestamp};
use crate::sums::{lemma_seq_sum_cons, lemma_seq_sum_remove, lemma_seq_sum_update, seq_sum};
use crate::table::{Row, Table, has_key, lemma_row_index, row_index, sorted_insert};
use crate::text::{
    chars_of, dec, dec_string, find_char, owned, parse_unsigned, parse_unsigned_chars, push_dec,
    push_str, rfind_char, rsplit_once, split_once, string_of, strip_prefix, strip_prefix_at,
    strip_suffix, strip_suffix_at, index_of, last_index_of, lemma_dec_lacks, lemma_parse_dec,
    lemma_index_of_unique, lemma_last_index_of_unique,
};
use crate::response::opt_view;

verus! {

broadcast use vstd::string::group_string_axioms;

/// A user's birthday.
#[derive(Clone, Copy, Debug, PartialEq, Eq, Structural)]
pub struct Birthday {
    pub user_id: u64,
    pub date: Date,
}

impl View for Birthday {
    type V = Birthday;

    open spec fn view(&self) -> Birthday {
        *self
    }
}

impl Row for Birthday {
    open spec fn key_of(v: Birthday) -> u64 {
        v.user_id
    }

    fn key(&self) -> (k: u64) {
        self.user_id
    }
}

impl Birthday {
    /// The birthday `date` of user `user_id`.
    pub fn new(user_id: u64, date: Date) -> (b: Self)
        ensures
            b == (Birthday { user_id, date }),
    {
        Birthday { user_id, date }
    }
}

/// A message recorded from the citations channel.
#[derive(Debug)]
pub struct Message {
    pub id: u64,
    pub user_id: u64,
    pub content: String,
    pub utc_timestamp: Timestamp,
}

/// The view of a [`Message`].
pub struct MessageRecord {
    pub id: u64,
    pub user_id: u64,
    pub content: Seq<char>,
    pub utc_timestamp: Timestamp,
}

impl View for Message {
    type V = MessageRecord;

    open spec fn view(&self) -> MessageRecord {
        MessageRecord {
            id: self.id,
            user_id: self.user_id,
            content: self.content@,
            utc_timestamp: self.utc_timestamp,
        }
    }
}

impl Row for Message {
    open spec fn key_of(v: MessageRecord) -> u64 {
        v.id
    }

    fn key(&self) -> (k: u64) {
        self.id
    }
}

impl Message {
    /// The message `id` of user `user_id`, sent at `utc_timestamp`.
    pub fn new(id: u64, user_id: u64, content: String, utc_timestamp: Timestamp) -> (m: Self)
        ensures
            m@ == (MessageRecord { id, user_id, content: content@, utc_timestamp }),
    {
        Message { id, user_id, content, utc_timestamp }
    }
}

/// A character of MyAnimeList, as rolled and claimed.
#[derive(Debug)]
pub struct Character {
    pub mal_id: u32,
    pub name: String,
    pub goon_credits: u32,
    /// The part of the character's image address that identifies it,
    /// empty if it has none.
    pub image_key: String,
}

/// The view of a [`Character`].
pub struct CharacterView {
    pub mal_id: u32,
    pub name: Seq<char>,
    pub goon_credits: u32,
    pub image_key: Seq<char>,
}

impl View for Character {
    type V = CharacterView;

    open spec fn view(&self) -> CharacterView {
        CharacterView {
            mal_id: self.mal_id,
            name: self.name@,
            goon_credits: self.goon_credits,
            image_key: self.image_key@,
        }
    }
}

/// The views of a vector of characters.
pub open spec fn character_views(v: Seq<Character>) -> Seq<CharacterView> {
    v.map_values(|c: Character| c@)
}

/// The largest `u32`, as a natural number.
pub open spec fn u32_max() -> nat {
    0xffff_ffff
}

/// The character that a claim payload `mal_id,name,goon_credits,image_key`
/// describes. The name may hold commas; the id and the key hold none.
pub open spec fn payload_character(p: Seq<char>) -> Option<CharacterView> {
    match split_once(p, ',') {
        None => None,
        Some((id, rest)) => match rsplit_once(rest, ',') {
            None => None,
            Some((front, key)) => match rsplit_once(front, ',') {
                None => None,
                Some((name, credits)) => match (
                    parse_unsigned(id, u32_max()),
                    parse_unsigned(credits, u32_max()),
                ) {
                    (Some(m), Some(g)) => Some(
                        CharacterView {
                            mal_id: m as u32,
                            name,
                            goon_credits: g as u32,
                            image_key: key,
                        },
                    ),
                    _ => None,
                },
            },
        },
    }
}

/// The payload of the claim button of a rolled character.
pub open spec fn claim_payload(c: CharacterView) -> Seq<char> {
    dec(c.mal_id as nat) + ","@ + c.name + ","@ + dec(c.goon_credits as nat) + ","@
        + c.image_key
}

/// The image address of a character with image key `key`, if it has one.
pub open spec fn image_url_of(key: Seq<char>) -> Option<Seq<char>> {
    if key.len() == 0 {
        None
    } else {
        Some(IMAGE_BASE@ + "/"@ + key + "."@ + IMAGE_EXTENSION@)
    }
}

/// The image key in the path of a character's image address:
/// the path without `/images/characters/` in front and `.webp` behind.
pub open spec fn image_key_of_path(path: Seq<char>) -> Option<Seq<char>> {
    match strip_prefix(path, "/images/characters/"@) {
        Some(rest) => strip_suffix(rest, ".webp"@),
        None => None,
    }
}

/// The image key of the image address `url`.
pub open spec fn image_key_of_url(url: Seq<char>) -> Option<Seq<char>> {
    match url_path_of(url) {
        Some(path) => image_key_of_path(path),
        None => None,
    }
}

impl Character {
    /// The address of the character's image, if it has an image key.
    pub fn image_url(&self) -> (r: Option<String>)
        ensures
            opt_view(r) == image_url_of(self.image_key@),
    {
        if self.image_key.as_str().unicode_len() == 0 {
            None
        } else {
            let mut s = owned(IMAGE_BASE);
            push_str(&mut s, "/");
            push_str(&mut s, self.image_key.as_str());
            push_str(&mut s, ".");
            push_str(&mut s, IMAGE_EXTENSION);
            Some(s)
        }
    }

    /// The image key in `path`, the path of an image address.
    pub fn image_key_from_path(path: &str) -> (r: Option<String>)
        ensures
            opt_view(r) == image_key_of_path(path@),
    {
        let v = chars_of(path);
        assert(v@.subrange(0, v@.len() as int) == v@);
        match strip_prefix_at(&v, 0, v.len(), "/images/characters/") {
            Some(a) => match strip_suffix_at(&v, a, v.len(), ".webp") {
                Some(b) => Some(string_of(&v, a, b)),
                None => None,
            },
            None => None,
        }
    }

    /// The image key of the image address `url`.
    pub fn image_key_from_url(url: &str) -> (r: Option<String>)
        ensures
            opt_view(r) == image_key_of_url(url@),
    {
        match url_path(url) {
            Some(path) => Character::image_key_from_path(path.as_str()),
            None => None,
        }
    }

    /// Reads a claim payload `mal_id,name,goon_credits,image_key`.
    pub fn from_payload(payload: &str) -> (r: Option<Self>)
        ensures
            match r {
                Some(c) => payload_character(payload@) == Some(c@),
                None => payload_character(payload@) is None,
            },
    {
        let v = chars_of(payload);
        let n = v.len();
        assert(v@.subrange(0, n as int) == v@);
        let first = match find_char(&v, 0, n, ',') {
            Some(i) => i,
            None => return None,
        };
        let ghost p = v@;
        assert(p.take(first as int) == v@.subrange(0, first as int));
        assert(p.skip(first + 1) == v@.subrange(first + 1, n as int));
        let last = match rfind_char(&v, first + 1, n, ',') {
            Some(i) => i,
            None => return None,
        };
        let ghost rest = v@.subrange(first + 1, n as int);
        assert(rest.take(last - first - 1) == v@.subrange(first + 1, last as int));
        assert(rest.skip(last - first) == v@.subrange(last + 1, n as int));
        let mid = match rfind_char(&v, first + 1, last, ',') {
            Some(i) => i,
            None => return None,
        };
        let ghost front = v@.subrange(first + 1, last as int);
        assert(front.take(mid - first - 1) == v@.subrange(first + 1, mid as int));
        assert(front.skip(mid - first) == v@.subrange(mid + 1, last as int));
        let mal_id = match parse_unsigned_chars(&v, 0, first, 0xffff_ffff) {
            Some(x) => x,
            None => return None,
        };
        let goon_credits = match parse_unsigned_chars(&v, mid + 1, last, 0xffff_ffff) {
            Some(x) => x,
            None => return None,
        };
        Some(
            Character {
                mal_id: mal_id as u32,
                name: string_of(&v, first + 1, mid),
                goon_credits: goon_credits as u32,
                image_key: string_of(&v, last + 1, n),
            },
        )
    }

    /// The payload of the claim button for this character:
    /// `mal_id,name,goon_credits,image_key`.
    pub fn to_payload(&self) -> (s: String)
        ensures
            s@ == claim_payload(self@),
    {
        let mut s = dec_string(self.mal_id as u64);
        push_str(&mut s, ",");
        push_str(&mut s, self.name.as_str());
        push_str(&mut s, ",");
        push_dec(&mut s, self.goon_credits as u64);
        push_str(&mut s, ",");
        push_str(&mut s, self.image_key.as_str());
        s
    }
}

/// The characters a user has claimed, in the order they were claimed.
#[derive(Debug)]
pub struct Collection {
    pub user_id: u64,
    pub characters: Vec<Character>,
}

/// The view of a [`Collection`].
pub struct CollectionView {
    pub user_id: u64,
    pub characters: Seq<CharacterView>,
}

impl View for Collection {
    type V = CollectionView;

    open spec fn view(&self) -> CollectionView {
        CollectionView { user_id: self.user_id, characters: character_views(self.characters@) }
    }
}

impl Row for Collection {
    open spec fn key_of(v: CollectionView) -> u64 {
        v.user_id
    }

    fn key(&self) -> (k: u64) {
        self.user_id
    }
}

impl Collection {
    /// The empty collection of user `user_id`.
    pub fn new(user_id: u64) -> (c: Self)
        ensures
            c@ == (CollectionView { user_id, characters: Seq::empty() }),
    {
        let c = Collection { user_id, characters: Vec::new() };
        assert(c@.characters =~= Seq::<CharacterView>::empty());
        c
    }
}

/// Everything the bot stores.
#[derive(Debug)]
pub struct Database {
    pub birthdays: Table<Birthday>,
    pub citations: Table<Message>,
    pub collections: Table<Collection>,
    pub roll_count: u64,
}

impl Database {
    /// The tables are well formed and every stored birthday is a date.
    pub open spec fn wf(&self) -> bool {
        &&& self.birthdays.wf()
        &&& self.citations.wf()
        &&& self.collections.wf()
        &&& forall|i: int| 0 <= i < self.birthdays@.len() ==> (#[trigger] self.birthdays@[i]).date.wf()
    }

    /// An empty database.
    pub fn new() -> (db: Self)
        ensures
            db.wf(),
            db.birthdays@ == Seq::<Birthday>::empty(),
            db.citations@ == Seq::<MessageRecord>::empty(),
            db.collections@ == Seq::<CollectionView>::empty(),
            db.roll_count == 0,
    {
        Database {
            birthdays: Table::new(),
            citations: Table::new(),
            collections: Table::new(),
            roll_count: 0,
        }
    }
}

/// The collections after taking the character at `index` out of `owner`'s
/// collection, and that character; unchanged and `None` if there is none.
pub open spec fn take_character(
    colls: Seq<CollectionView>,
    owner: u64,
    index: int,
) -> (Seq<CollectionView>, Option<CharacterView>) {
    let i = row_index::<Collection>(colls, owner);
    if i >= 0 && 0 <= index < colls[i].characters.len() {
        (
            colls.update(
                i,
                CollectionView { characters: colls[i].characters.remove(index), ..colls[i] },
            ),
            Some(colls[i].characters[index]),
        )
    } else {
        (colls, None)
    }
}

/// The collections after adding `c` at the end of `user`'s collection,
/// which is created if the user has none.
pub open spec fn give_character(
    colls: Seq<CollectionView>,
    user: u64,
    c: CharacterView,
) -> Seq<CollectionView> {
    let i = row_index::<Collection>(colls, user);
    if i >= 0 {
        colls.update(i, CollectionView { characters: colls[i].characters.push(c), ..colls[i] })
    } else {
        sorted_insert::<Collection>(colls, CollectionView { user_id: user, characters: seq![c] })
    }
}

impl Database {
    /// Takes the character at `index` out of `owner`'s collection, if there
    /// is one; the collection stays, even when it is left empty.
    pub fn take_character(&mut self, owner: u64, index: usize) -> (r: Option<Character>)
        requires
            old(self).wf(),
        ensures
            final(self).wf(),
            final(self).birthdays@ == old(self).birthdays@,
            final(self).citations@ == old(self).citations@,
            final(self).roll_count == old(self).roll_count,
            final(self).collections@ == take_character(old(self).collections@, owner, index as int).0,
            match r {
                Some(c) => take_character(old(self).collections@, owner, index as int).1 == Some(c@),
                None => take_character(old(self).collections@, owner, index as int).1 is None,
            },
    {
        let ghost before = self.collections@;
        match self.collections.position(owner) {
            Some(i) => {
                proof {
                    lemma_row_index::<Collection>(before, owner);
                }
                let mut coll = self.collections.take_at(i);
                if index < coll.characters.len() {
                    let ghost chars = coll.characters@;
                    let c = coll.characters.remove(index);
                    assert(character_views(coll.characters@) =~= character_views(chars).remove(
                        index as int,
                    ));
                    self.collections.put_at(i, coll);
                    assert(self.collections@ =~= take_character(before, owner, index as int).0);
                    Some(c)
                } else {
                    self.collections.put_at(i, coll);
                    assert(self.collections@ =~= before);
                    None
                }
            },
            None => None,
        }
    }

    /// Adds `c` at the end of `user`'s collection, creating it if needed.
    pub fn give_character(&mut self, user: u64, c: Character)
        requires
            old(self).wf(),
        ensures
            final(self).wf(),
            final(self).birthdays@ == old(self).birthdays@,
            final(self).citations@ == old(self).citations@,
            final(self).roll_count == old(self).roll_count,
            final(self).collections@ == give_character(old(self).collections@, user, c@),
    {
        let ghost before = self.collections@;
        let ghost cv = c@;
        match self.collections.position(user) {
            Some(i) => {
                proof {
                    lemma_row_index::<Collection>(before, user);
                }
                let mut coll = self.collections.take_at(i);
                let ghost chars = coll.characters@;
                coll.characters.push(c);
                assert(character_views(coll.characters@) =~= character_views(chars).push(cv));
                self.collections.put_at(i, coll);
                assert(self.collections@ =~= give_character(before, user, cv));
            },
            None => {
                let mut coll = Collection::new(user);
                coll.characters.push(c);
                assert(coll@.characters =~= seq![cv]);
                proof {
                    lemma_row_index::<Collection>(before, user);
                }
                self.collections.add(coll);
            },
        }
    }
}

/// The payload of a rolled character's claim button reads back as that
/// character, whenever its image key holds no comma (its name may).
pub proof fn lemma_claim_payload_round_trip(c: CharacterView)
    requires
        forall|i: int| 0 <= i < c.image_key.len() ==> c.image_key[i] != ',',
    ensures
        payload_character(claim_payload(c)) == Some(c),
{
    reveal_strlit(",");
    let id = dec(c.mal_id as nat);
    let gc = dec(c.goon_credits as nat);
    let comma = ","@;
    assert(comma == seq![',']);
    let p = claim_payload(c);
    lemma_dec_lacks(c.mal_id as nat, ',');
    lemma_dec_lacks(c.goon_credits as nat, ',');
    assert(p == id + comma + c.name + comma + gc + comma + c.image_key);
    // the first comma ends the id
    assert(p[id.len() as int] == ',');
    assert forall|k: int| 0 <= k < id.len() implies p[k] != ',' by {
        assert(p[k] == id[k]);
    }
    lemma_index_of_unique(p, ',', id.len() as int);
    let rest = p.skip(id.len() as int + 1);
    assert(p.take(id.len() as int) =~= id);
    assert(rest =~= c.name + comma + gc + comma + c.image_key);
    // the last comma of the rest starts the image key
    let kpos = rest.len() - c.image_key.len() - 1;
    assert(rest[kpos] == ',');
    assert forall|k: int| kpos < k < rest.len() implies rest[k] != ',' by {
        assert(rest[k] == c.image_key[k - kpos - 1]);
    }
    lemma_last_index_of_unique(rest, ',', kpos);
    let front = rest.take(kpos);
    assert(front =~= c.name + comma + gc);
    assert(rest.skip(kpos + 1) =~= c.image_key);
    // the last comma of the front starts the goon credits
    let gpos = c.name.len() as int;
    assert(front[gpos] == ',');
    assert forall|k: int| gpos < k < front.len() implies front[k] != ',' by {
        assert(front[k] == gc[k - gpos - 1]);
    }
    lemma_last_index_of_unique(front, ',', gpos);
    assert(front.take(gpos) =~= c.name);
    assert(front.skip(gpos + 1) =~= gc);
    lemma_parse_dec(c.mal_id as nat, u32_max());
    lemma_parse_dec(c.goon_credits as nat, u32_max());
}

/// The number of characters in a collection.
pub open spec fn collection_size(c: CollectionView) -> nat {
    c.characters.len()
}

/// The number of characters in all collections.
pub open spec fn character_count(colls: Seq<CollectionView>) -> nat {
    seq_sum(colls, |c: CollectionView| collection_size(c))
}

/// The goon credits of a character.
pub open spec fn credits_of(c: CharacterView) -> nat {
    c.goon_credits as nat
}

/// The goon credits of a collection's characters, added up.
pub open spec fn collection_credits(c: CollectionView) -> nat {
    seq_sum(c.characters, |x: CharacterView| credits_of(x))
}

/// The goon credits of all collections, added up.
pub open spec fn all_credits(colls: Seq<CollectionView>) -> nat {
    seq_sum(colls, |c: CollectionView| collection_credits(c))
}

/// The sum of a measure after inserting a row in order grows by the
/// row's measure.
pub proof fn lemma_sum_sorted_insert(
    s: Seq<CollectionView>,
    v: CollectionView,
    f: spec_fn(CollectionView) -> nat,
)
    ensures
        seq_sum(sorted_insert::<Collection>(s, v), f) == seq_sum(s, f) + f(v),
    decreases s.len(),
{
    if s.len() == 0 {
        lemma_seq_sum_cons(v, s, f);
        assert(seq![v] + s == seq![v]);
    } else if v.user_id < s[0].user_id {
        lemma_seq_sum_cons(v, s, f);
    } else {
        lemma_sum_sorted_insert(s.drop_first(), v, f);
        lemma_seq_sum_cons(s[0], sorted_insert::<Collection>(s.drop_first(), v), f);
        lemma_seq_sum_cons(s[0], s.drop_first(), f);
        assert(seq![s[0]] + s.drop_first() == s);
    }
}

/// Taking a character out lowers the count by one and the credits by
/// the character's.
pub proof fn lemma_take_sums(colls: Seq<CollectionView>, owner: u64, index: int)
    ensures
        ({
            let (after, taken) = take_character(colls, owner, index);
            match taken {
                Some(c) => character_count(after) + 1 == character_count(colls)
                    && all_credits(after) + credits_of(c) == all_credits(colls),
                None => after == colls,
            }
        }),
{
    let i = row_index::<Collection>(colls, owner);
    if i >= 0 && 0 <= index < colls[i].characters.len() {
        lemma_row_index::<Collection>(colls, owner);
        let old_c = colls[i];
        let new_c = CollectionView { characters: old_c.characters.remove(index), ..old_c };
        lemma_seq_sum_update(colls, i, new_c, |c: CollectionView| collection_size(c));
        lemma_seq_sum_update(colls, i, new_c, |c: CollectionView| collection_credits(c));
        lemma_seq_sum_remove(old_c.characters, index, |x: CharacterView| credits_of(x));
    }
}

/// Giving a character raises the count by one and the credits by the
/// character's.
pub proof fn lemma_give_sums(colls: Seq<CollectionView>, user: u64, c: CharacterView)
    ensures
        character_count(give_character(colls, user, c)) == character_count(colls) + 1,
        all_credits(give_character(colls, user, c)) == all_credits(colls) + credits_of(c),
{
    let i = row_index::<Collection>(colls, user);
    lemma_row_index::<Collection>(colls, user);
    if i >= 0 {
        let old_c = colls[i];
        let new_c = CollectionView { characters: old_c.characters.push(c), ..old_c };
        lemma_seq_sum_update(colls, i, new_c, |x: CollectionView| collection_size(x));
        lemma_seq_sum_update(colls, i, new_c, |x: CollectionView| collection_credits(x));
        assert(new_c.characters.drop_last() == old_c.characters);
    } else {
        let v = CollectionView { user_id: user, characters: seq![c] };
        lemma_sum_sorted_insert(colls, v, |x: CollectionView| collection_size(x));
        lemma_sum_sorted_insert(colls, v, |x: CollectionView| collection_credits(x));
        crate::sums::lemma_seq_sum_single(c, |x: CharacterView| credits_of(x));
    }
}

/// All characters of all collections, each as often as it is held.
pub open spec fn all_characters(colls: Seq<CollectionView>) -> Multiset<CharacterView>
    decreases colls.len(),
{
    if colls.len() == 0 {
        Multiset::empty()
    } else {
        all_characters(colls.drop_last()).add(colls.last().characters.to_multiset())
    }
}

/// The characters of two sequences of collections, one after the other.
proof fn lemma_all_characters_concat(a: Seq<CollectionView>, b: Seq<CollectionView>)
    ensures
        all_characters(a + b) == all_characters(a).add(all_characters(b)),
    decreases b.len(),
{
    broadcast use vstd::multiset::group_multiset_axioms;

    if b.len() == 0 {
        assert(a + b == a);
        assert(all_characters(a).add(Multiset::empty()) =~= all_characters(a));
    } else {
        lemma_all_characters_concat(a, b.drop_last());
        assert((a + b).drop_last() == a + b.drop_last());
        assert((a + b).last() == b.last());
        assert(all_characters(a + b) =~= all_characters(a).add(all_characters(b)));
    }
}

/// The characters of a single collection.
proof fn lemma_all_characters_single(c: CollectionView)
    ensures
        all_characters(seq![c]) == c.characters.to_multiset(),
{
    broadcast use vstd::multiset::group_multiset_axioms;

    assert(seq![c].drop_last() =~= Seq::<CollectionView>::empty());
    assert(seq![c].last() == c);
    assert(all_characters(Seq::<CollectionView>::empty()) == Multiset::<CharacterView>::empty());
    assert(Multiset::<CharacterView>::empty().add(c.characters.to_multiset())
        =~= c.characters.to_multiset());
}

/// The characters after replacing one collection.
proof fn lemma_all_characters_update(s: Seq<CollectionView>, i: int, v: CollectionView)
    requires
        0 <= i < s.len(),
    ensures
        all_characters(s.update(i, v)).add(s[i].characters.to_multiset()) == all_characters(s).add(
            v.characters.to_multiset(),
        ),
{
    broadcast use vstd::multiset::group_multiset_axioms;

    let a = s.take(i);
    let b = s.skip(i + 1);
    assert(s == a + seq![s[i]] + b);
    assert(s.update(i, v) == a + seq![v] + b);
    lemma_all_characters_concat(a + seq![s[i]], b);
    lemma_all_characters_concat(a, seq![s[i]]);
    lemma_all_characters_concat(a + seq![v], b);
    lemma_all_characters_concat(a, seq![v]);
    lemma_all_characters_single(s[i]);
    lemma_all_characters_single(v);
    assert(all_characters(s.update(i, v)).add(s[i].characters.to_multiset()) =~= all_characters(
        s,
    ).add(v.characters.to_multiset()));
}

/// The characters after inserting a collection in order.
proof fn lemma_all_characters_sorted_insert(s: Seq<CollectionView>, v: CollectionView)
    ensures
        all_characters(sorted_insert::<Collection>(s, v)) == all_characters(s).add(
            v.characters.to_multiset(),
        ),
    decreases s.len(),
{
    broadcast use vstd::multiset::group_multiset_axioms;

    lemma_all_characters_single(v);
    if s.len() == 0 {
        assert(all_characters(s) == Multiset::<CharacterView>::empty());
        assert(Multiset::<CharacterView>::empty().add(v.characters.to_multiset())
            =~= v.characters.to_multiset());
    } else if v.user_id < s[0].user_id {
        lemma_all_characters_concat(seq![v], s);
        assert(all_characters(seq![v] + s) =~= all_characters(s).add(v.characters.to_multiset()));
    } else {
        lemma_all_characters_sorted_insert(s.drop_first(), v);
        lemma_all_characters_concat(seq![s[0]], sorted_insert::<Collection>(s.drop_first(), v));
        lemma_all_characters_concat(seq![s[0]], s.drop_first());
        lemma_all_characters_single(s[0]);
        assert(seq![s[0]] + s.drop_first() == s);
        assert(all_characters(sorted_insert::<Collection>(s, v)) =~= all_characters(s).add(
            v.characters.to_multiset(),
        ));
    }
}

/// Taking a character out of a collection takes exactly it out of all
/// characters held.
pub proof fn lemma_take_characters(colls: Seq<CollectionView>, owner: u64, index: int)
    ensures
        ({
            let (after, taken) = take_character(colls, owner, index);
            match taken {
                Some(c) => all_characters(after).insert(c) == all_characters(colls),
                None => after == colls,
            }
        }),
{
    broadcast use vstd::multiset::group_multiset_axioms;

    let i = row_index::<Collection>(colls, owner);
    if i >= 0 && 0 <= index < colls[i].characters.len() {
        lemma_row_index::<Collection>(colls, owner);
        let old_c = colls[i];
        let new_c = CollectionView { characters: old_c.characters.remove(index), ..old_c };
        lemma_all_characters_update(colls, i, new_c);
        vstd::seq_lib::to_multiset_remove(old_c.characters, index);
        let c = old_c.characters[index];
        assert(old_c.characters.to_multiset().count(c) > 0) by {
            vstd::seq_lib::to_multiset_contains(old_c.characters, c);
            assert(old_c.characters.contains(c));
        }
        assert(new_c.characters.to_multiset().insert(c) =~= old_c.characters.to_multiset());
        let after = colls.update(i, new_c);
        let old_ms = old_c.characters.to_multiset();
        let new_ms = new_c.characters.to_multiset();
        assert forall|x: CharacterView| #[trigger] all_characters(after).insert(c).count(x)
            == all_characters(colls).count(x) by {
            assert(all_characters(after).add(old_ms).count(x) == all_characters(colls).add(
                new_ms,
            ).count(x));
            assert(new_ms.insert(c).count(x) == old_ms.count(x));
        }
        assert(all_characters(after).insert(c) =~= all_characters(colls));
    }
}

/// Giving a character adds exactly it to all characters held.
pub proof fn lemma_give_characters(colls: Seq<CollectionView>, user: u64, c: CharacterView)
    ensures
        all_characters(give_character(colls, user, c)) == all_characters(colls).insert(c),
{
    broadcast use vstd::multiset::group_multiset_axioms;

    let i = row_index::<Collection>(colls, user);
    lemma_row_index::<Collection>(colls, user);
    if i >= 0 {
        let old_c = colls[i];
        let new_c = CollectionView { characters: old_c.characters.push(c), ..old_c };
        lemma_all_characters_update(colls, i, new_c);
        vstd::seq_lib::to_multiset_build(old_c.characters, c);
        let after = colls.update(i, new_c);
        let old_ms = old_c.characters.to_multiset();
        let new_ms = new_c.characters.to_multiset();
        assert(after == give_character(colls, user, c));
        assert forall|x: CharacterView| #[trigger] all_characters(after).count(x) == all_characters(
            colls,
        ).insert(c).count(x) by {
            assert(all_characters(after).add(old_ms).count(x) == all_characters(colls).add(
                new_ms,
            ).count(x));
            assert(new_ms.count(x) == old_ms.insert(c).count(x));
        }
        assert(all_characters(after) =~= all_characters(colls).insert(c));
    } else {
        let v = CollectionView { user_id: user, characters: seq![c] };
        lemma_all_characters_sorted_insert(colls, v);
        vstd::seq_lib::to_multiset_build(Seq::<CharacterView>::empty(), c);
        assert(seq![c] =~= Seq::<CharacterView>::empty().push(c));
        assert(Seq::<CharacterView>::empty().to_multiset() =~= Multiset::<CharacterView>::empty())
            by {
            Seq::<CharacterView>::empty().to_multiset_ensures();
            assert forall|x: CharacterView| #[trigger] Seq::<CharacterView>::empty().to_multiset().count(
                x,
            ) == 0 by {
                assert(!Seq::<CharacterView>::empty().contains(x));
            }
        }
        assert(give_character(colls, user, c) == sorted_insert::<Collection>(colls, v));
        assert(all_characters(give_character(colls, user, c)) =~= all_characters(colls).insert(c));
    }
}

} // verus!
