use doenermann_bot::api::{jikan_error, CharacterData, Images, RadomCharacterResponse, WebpImages};
use doenermann_bot::db::{Character, Collection, Database, Birthday, Message};
use doenermann_bot::date::{Date, Timestamp};
use doenermann_bot::error::Error;
use doenermann_bot::table::Table;

#[test]
fn payload_round_trip() {
    let c = Character { mal_id: 417, name: "Rem, the maid".into(), goon_credits: 12345, image_key: "9/310307".into() };
    let p = c.to_payload();
    assert_eq!(p, "417,Rem, the maid,12345,9/310307");
    let back = Character::from_payload(&p).unwrap();
    assert_eq!((back.mal_id, back.name.as_str(), back.goon_credits, back.image_key.as_str()), (417, "Rem, the maid", 12345, "9/310307"));
    assert!(Character::from_payload("1,2").is_none());
    assert!(Character::from_payload("x,a,1,k").is_none());
    assert!(Character::from_payload("1,a,4294967296,k").is_none());
    let odd = Character::from_payload("1,,2,").unwrap();
    assert_eq!((odd.name.as_str(), odd.image_key.as_str()), ("", ""));
}

#[test]
fn image_address_and_key() {
    let c = Character { mal_id: 1, name: "a".into(), goon_credits: 0, image_key: "9/310307".into() };
    assert_eq!(c.image_url().as_deref(), Some("https://cdn.myanimelist.net/images/characters//9/310307..webp"));
    let none = Character { image_key: String::new(), ..c };
    assert_eq!(none.image_url(), None);
    assert_eq!(Character::image_key_from_path("/images/characters/9/310307.webp").as_deref(), Some("9/310307"));
    assert_eq!(Character::image_key_from_path("/images/users/9.webp"), None);
    assert_eq!(Character::image_key_from_url("https://cdn.myanimelist.net/images/characters/9/310307.webp").as_deref(), Some("9/310307"));
    assert_eq!(Character::image_key_from_url("https://cdn.myanimelist.net/images/characters/9/310307.jpg"), None);
    assert_eq!(Character::image_key_from_url("not a url"), None);
}

#[test]
fn character_from_jikan_answer() {
    let r = RadomCharacterResponse {
        data: CharacterData {
            mal_id: 5,
            images: Images { webp: WebpImages { image_url: "https://cdn.myanimelist.net/images/characters/2/77.webp".into() } },
            name: "Asuka".into(),
            favorites: 777,
        },
    };
    let c = Character::from_response(r);
    assert_eq!((c.mal_id, c.name.as_str(), c.goon_credits, c.image_key.as_str()), (5, "Asuka", 777, "2/77"));
}

#[test]
fn jikan_errors() {
    assert!(matches!(jikan_error(429, "429 Too Many Requests", None), Error::RateLimit));
    assert!(matches!(jikan_error(500, "500 Internal Server Error", Some("RateLimitException".into())), Error::RateLimit));
    match jikan_error(404, "404 Not Found", Some("BadResponseException".into())) {
        Error::Jikan(t) => assert_eq!(t, "BadResponseException"),
        _ => panic!(),
    }
    match jikan_error(503, "503 Service Unavailable", None) {
        Error::Jikan(t) => assert_eq!(t, "503 Service Unavailable"),
        _ => panic!(),
    }
}

#[test]
fn error_messages() {
    let m = Error::InvalidDate("bad".into()).error_message();
    assert!(m.ephemeral);
    assert_eq!(m.embeds[0].title.as_deref(), Some("Invalid Date: bad!"));
    assert_eq!(m.embeds[0].color, Some(0xE74C3C));
    assert_eq!(Error::NotFound.error_message().embeds[0].title.as_deref(), Some("Command/Interaction not found!"));
    assert_eq!(Error::Unauthorized.error_message().embeds[0].title.as_deref(), Some("You are unauthorized to do that action!"));
    assert_eq!(Error::RateLimit.error_message().embeds[0].title.as_deref(), Some("API rate limit reached. Calm down and continue in a few seconds!"));
    assert_eq!(Error::OptionResolve.error_message().embeds[0].title.as_deref(), Some("Got invalid option!"));
    assert_eq!(Error::Jikan("x".into()).error_message().embeds[0].title.as_deref(), Some("Jikan API Error: x!"));
    assert_eq!(Error::Toml("x".into()).error_message().embeds[0].title.as_deref(), Some("Toml Serialization Error: x!"));
    assert_eq!(Error::FileSystem("x".into()).error_message().embeds[0].title.as_deref(), Some("File System Error: x!"));
    assert_eq!(Error::Reqwest("x".into()).error_message().embeds[0].title.as_deref(), Some("Reqwest Error: x!"));
}

#[test]
fn table_keeps_key_order_and_first_row() {
    let mut t: Table<Birthday> = Table::new();
    let d = Date { year: 2000, month: 1, day: 2 };
    assert!(t.add(Birthday::new(5, d)));
    assert!(t.add(Birthday::new(1, d)));
    assert!(t.add(Birthday::new(3, d)));
    assert!(!t.add(Birthday::new(3, Date { year: 1999, month: 3, day: 4 })));
    let keys: Vec<u64> = t.values().iter().map(|b| b.user_id).collect();
    assert_eq!(keys, vec![1, 3, 5]);
    assert_eq!(t.get(3).unwrap().date, d);
    assert_eq!(t.delete(3).map(|b| b.user_id), Some(3));
    assert!(t.get(3).is_none());
    assert!(t.delete(3).is_none());
    assert_eq!(t.len(), 2);
}

#[test]
fn new_rows() {
    let c = Collection::new(4);
    assert_eq!(c.user_id, 4);
    assert!(c.characters.is_empty());
    let m = Message::new(1, 2, "hi".into(), Timestamp { secs: 0, nanos: 0 });
    assert_eq!((m.id, m.user_id, m.content.as_str()), (1, 2, "hi"));
    let db = Database::new();
    assert_eq!(db.roll_count, 0);
}
