use doenermann_bot::commands::waifu::collection::{
    self, ComponentKind, create_message, delete, gift, gift_modal, select,
};
use doenermann_bot::commands::waifu::{leaderboard, roll, create_character_embed, WaifuAction};
use doenermann_bot::commands::{ResolvedOption, ResolvedValue};
use doenermann_bot::db::{Character, Database};
use doenermann_bot::error::Error;
use doenermann_bot::response::{ActionRow, MenuKind, Response, ButtonStyle};

fn character(id: u32, name: &str, credits: u32) -> Character {
    Character { mal_id: id, name: name.to_string(), goon_credits: credits, image_key: format!("{id}/key") }
}

fn db_with(user: u64, n: u32) -> Database {
    let mut db = Database::new();
    for i in 0..n {
        roll::claim(&mut db, user, "user", character(i, &format!("c{i}"), i * 100)).unwrap();
    }
    db
}

#[test]
fn character_embed_shows_name_credits_link_image_and_colour() {
    let e = create_character_embed(&character(417, "Rem", 12345));
    assert_eq!(e.title.as_deref(), Some("Rem"));
    assert_eq!(e.url.as_deref(), Some("https://myanimelist.net/character/417"));
    assert_eq!(e.image.as_deref(), Some("https://cdn.myanimelist.net/images/characters//417/key..webp"));
    assert_eq!(e.color, Some(0xE67E22));
    assert_eq!(e.fields.len(), 1);
    assert_eq!(e.fields[0].name, "Goon Credits");
    assert_eq!(e.fields[0].value, "12345");
    assert!(e.fields[0].inline);
}

#[test]
fn claim_replaces_the_button_and_stores_the_character() {
    let mut db = Database::new();
    let r = roll::claim(&mut db, 7, "alice", character(1, "Rem", 50)).unwrap();
    match r {
        Response::Update(m) => {
            let rows = m.components.unwrap();
            match &rows[0] {
                ActionRow::Buttons(b) => {
                    assert_eq!(b[0].custom_id, "claimed");
                    assert_eq!(b[0].label, "Claimed by alice!");
                    assert!(b[0].disabled);
                    assert_eq!(b[0].style, ButtonStyle::Secondary);
                }
                _ => panic!("expected buttons"),
            }
        }
        _ => panic!("expected an update"),
    }
    let c = db.collections.get(7).unwrap();
    assert_eq!(c.characters.len(), 1);
    assert_eq!(c.characters[0].name, "Rem");
}

#[test]
fn claimed_character_is_shown_first() {
    let db = db_with(5, 3);
    let m = create_message(&db, 5, None);
    assert_eq!(m.embeds[0].title.as_deref(), Some("c2"));
}

#[test]
fn empty_collection_message() {
    let db = Database::new();
    let m = create_message(&db, 5, None);
    assert_eq!(m.embeds[0].title.as_deref(), Some("Your collection is empty!"));
    assert_eq!(m.components.map(|c| c.len()), Some(0));
}

fn menu_options(m: &doenermann_bot::response::ResponseMessage) -> Vec<(String, String, bool)> {
    match &m.components.as_ref().unwrap()[0] {
        ActionRow::Menu(menu) => match &menu.kind {
            MenuKind::Text(o) => o.iter().map(|o| (o.label.clone(), o.value.clone(), o.default_selection)).collect(),
            MenuKind::User => panic!("text menu expected"),
        },
        _ => panic!("menu expected"),
    }
}

#[test]
fn collection_pages_of_23() {
    let db = db_with(9, 50);
    // newest page: characters 49 down to 27, then a link to older ones
    let m = create_message(&db, 9, None);
    let o = menu_options(&m);
    assert_eq!(o.len(), 24);
    assert_eq!(o[0], ("50. c49".to_string(), "49".to_string(), true));
    assert_eq!(o[22], ("28. c27".to_string(), "27".to_string(), false));
    assert_eq!(o[23].0, "more...");
    assert_eq!(o[23].1, "page:26");
    // a middle page has both links
    let m = create_message(&db, 9, Some(10));
    let o = menu_options(&m);
    assert_eq!(o[0].1, "page:49");
    assert_eq!(o[1].1, "26");
    assert!(o.iter().any(|x| x.1 == "10" && x.2));
    assert_eq!(o.last().unwrap().1, "page:3");
    // the oldest page: 3 down to 0, link to newer only
    let m = create_message(&db, 9, Some(0));
    let o = menu_options(&m);
    assert_eq!(o.len(), 5);
    assert_eq!(o[0].1, "page:26");
    assert_eq!(o[4], ("1. c0".to_string(), "0".to_string(), true));
    // buttons carry owner and index: Previous, Gift, Delete, Next
    match &m.components.as_ref().unwrap()[1] {
        ActionRow::Buttons(b) => {
            let labels: Vec<&str> = b.iter().map(|x| x.label.as_str()).collect();
            assert_eq!(labels, vec!["Previous", "Gift", "Delete", "Next"]);
            assert_eq!(b[0].custom_id, "previous:9,0");
            assert!(b[0].disabled);
            assert_eq!(b[1].custom_id, "gift:9,0");
            assert_eq!(b[2].custom_id, "delete:9,0");
            assert_eq!(b[3].custom_id, "next:9,1");
            assert!(!b[3].disabled);
        }
        _ => panic!("buttons expected"),
    }
    // the newest has no next one
    let m = create_message(&db, 9, None);
    match &m.components.as_ref().unwrap()[1] {
        ActionRow::Buttons(b) => {
            assert_eq!(b[0].custom_id, "previous:9,48");
            assert!(!b[0].disabled);
            assert_eq!(b[3].custom_id, "next:9,49");
            assert!(b[3].disabled);
        }
        _ => panic!("buttons expected"),
    }
    // an index past the end shows the newest
    let m = create_message(&db, 9, Some(1000));
    assert_eq!(m.embeds[0].title.as_deref(), Some("c49"));
}

#[test]
fn select_reads_page_links_and_indices() {
    let db = db_with(9, 30);
    let r = select(&db, 9, &ComponentKind::StringSelect(vec!["page:3".to_string()])).unwrap();
    match r {
        Response::Update(m) => assert_eq!(m.embeds[0].title.as_deref(), Some("c3")),
        _ => panic!("update expected"),
    }
    let r = select(&db, 9, &ComponentKind::StringSelect(vec!["12".to_string()])).unwrap();
    match r {
        Response::Update(m) => assert_eq!(m.embeds[0].title.as_deref(), Some("c12")),
        _ => panic!("update expected"),
    }
    assert!(matches!(select(&db, 9, &ComponentKind::StringSelect(vec![])), Err(Error::NotFound)));
    assert!(matches!(select(&db, 9, &ComponentKind::Other), Err(Error::NotFound)));
    assert!(matches!(select(&db, 9, &ComponentKind::StringSelect(vec!["x".into()])), Err(Error::NotFound)));
}

#[test]
fn delete_by_owner_shows_previous() {
    let mut db = db_with(3, 4);
    let r = delete(&mut db, 3, 3, 2).unwrap();
    match r {
        Response::Message(m) => assert_eq!(m.embeds[0].title.as_deref(), Some("c1")),
        _ => panic!("message expected"),
    }
    let names: Vec<String> = db.collections.get(3).unwrap().characters.iter().map(|c| c.name.clone()).collect();
    assert_eq!(names, vec!["c0", "c1", "c3"]);
    // deleting the first shows the newest
    let r = delete(&mut db, 3, 3, 0).unwrap();
    match r {
        Response::Message(m) => assert_eq!(m.embeds[0].title.as_deref(), Some("c3")),
        _ => panic!("message expected"),
    }
    assert!(matches!(delete(&mut db, 4, 3, 0), Err(Error::Unauthorized)));
    assert_eq!(db.collections.get(3).unwrap().characters.len(), 2);
}

#[test]
fn gift_modal_and_gift_move_a_character() {
    let mut db = db_with(3, 2);
    assert!(matches!(gift_modal(&db, 4, 3, 0), Err(Error::Unauthorized)));
    assert!(matches!(gift_modal(&db, 3, 3, 5), Err(Error::NotFound)));
    match gift_modal(&db, 3, 3, 1).unwrap() {
        Response::Modal(m) => {
            assert_eq!(m.custom_id, "gift-recipient:3,1");
            assert_eq!(m.title, "Gift: c1");
            assert_eq!(m.label, "Recipient");
            assert!(matches!(m.menu.kind, MenuKind::User));
            assert!(m.menu.required);
        }
        _ => panic!("modal expected"),
    }
    assert!(matches!(gift(&mut db, 3, 1, None), Err(Error::NotFound)));
    match gift(&mut db, 3, 1, Some(8)).unwrap() {
        Response::Update(m) => {
            assert_eq!(m.content.as_deref(), Some("Gifted the following to <@8>:"));
            assert!(m.embeds.is_empty());
        }
        _ => panic!("update expected"),
    }
    assert_eq!(db.collections.get(3).unwrap().characters.len(), 1);
    assert_eq!(db.collections.get(8).unwrap().characters[0].name, "c1");
    assert!(matches!(gift(&mut db, 3, 7, Some(8)), Err(Error::NotFound)));
}

#[test]
fn gift_modal_title_is_cut_to_45_characters() {
    let mut db = Database::new();
    roll::claim(&mut db, 1, "u", character(1, &"x".repeat(60), 1)).unwrap();
    match gift_modal(&db, 1, 1, 0).unwrap() {
        Response::Modal(m) => assert_eq!(m.title.chars().count(), 45),
        _ => panic!("modal expected"),
    }
}

#[test]
fn leaderboard_ranks_by_credits_then_count_then_id() {
    let mut db = Database::new();
    roll::claim(&mut db, 30, "a", character(1, "a", 100)).unwrap();
    roll::claim(&mut db, 10, "b", character(2, "b", 50)).unwrap();
    roll::claim(&mut db, 10, "b", character(3, "c", 50)).unwrap();
    roll::claim(&mut db, 20, "c", character(4, "d", 100)).unwrap();
    roll::claim(&mut db, 40, "d", character(5, "e", 300)).unwrap();
    match leaderboard::run(&db).unwrap() {
        Response::Message(m) => {
            let e = &m.embeds[0];
            assert_eq!(e.title.as_deref(), Some("Waifu Leaderboard:"));
            assert_eq!(e.description.as_deref(), Some("Total Goon Credits: 600 across 0 rolls"));
            let values: Vec<&str> = e.fields.iter().map(|f| f.value.as_str()).collect();
            assert_eq!(values, vec![
                "<@40> has 300 Goon Credits across 1 waifu",
                "<@10> has 100 Goon Credits across 2 waifus",
                "<@20> has 100 Goon Credits across 1 waifu",
                "<@30> has 100 Goon Credits across 1 waifu",
            ]);
            assert_eq!(e.fields[0].name, "#1");
            assert_eq!(e.fields[3].name, "#4");
        }
        _ => panic!("message expected"),
    }
}

#[test]
fn empty_leaderboard() {
    let db = Database::new();
    match leaderboard::run(&db).unwrap() {
        Response::Message(m) => {
            assert_eq!(m.embeds[0].description.as_deref(), Some("No waifus have been claimed yet!"));
            assert!(m.embeds[0].fields.is_empty());
        }
        _ => panic!("message expected"),
    }
}

#[test]
fn roll_shows_claim_button_with_payload() {
    let c = Character { mal_id: 9, name: "A, B".into(), goon_credits: 250, image_key: "1/2".into() };
    match roll::run(Ok(c)).unwrap() {
        Response::Message(m) => {
            assert_eq!(m.embeds[0].title.as_deref(), Some("A, B"));
            assert_eq!(m.embeds[0].color, Some(0x8E8E93));
            match &m.components.unwrap()[0] {
                ActionRow::Buttons(b) => {
                    assert_eq!(b[0].custom_id, "claim:9,A, B,250,1/2");
                    assert_eq!(b[0].label, "Claim");
                    let back = Character::from_payload(b[0].custom_id.strip_prefix("claim:").unwrap()).unwrap();
                    assert_eq!(back.name, "A, B");
                    assert_eq!(back.goon_credits, 250);
                    assert_eq!(back.image_key, "1/2");
                }
                _ => panic!("buttons expected"),
            }
        }
        _ => panic!("message expected"),
    }
    assert!(matches!(roll::run(Err(Error::RateLimit)), Err(Error::RateLimit)));
}

#[test]
fn waifu_subcommands() {
    let db = db_with(1, 1);
    let sub = |name: &str| vec![ResolvedOption { name: name.to_string(), value: ResolvedValue::SubCommand(vec![]) }];
    assert!(matches!(doenermann_bot::commands::waifu::run(&sub("roll"), &db, 1), WaifuAction::Roll));
    assert!(matches!(doenermann_bot::commands::waifu::run(&sub("collection"), &db, 1), WaifuAction::Respond(Ok(Response::Message(_)))));
    assert!(matches!(doenermann_bot::commands::waifu::run(&sub("leaderboard"), &db, 1), WaifuAction::Respond(Ok(_))));
    assert!(matches!(doenermann_bot::commands::waifu::run(&sub("x"), &db, 1), WaifuAction::Respond(Err(Error::NotFound))));
    assert!(matches!(doenermann_bot::commands::waifu::run(&vec![], &db, 1), WaifuAction::Respond(Err(Error::OptionResolve))));
    let _ = collection::run(&db, 1, None);
}

#[test]
fn previous_and_next_buttons_browse() {
    let mut db = db_with(4, 3);
    let r = doenermann_bot::handler::handle_component(&mut db, 99, "x", "previous:4,1", &ComponentKind::Other).unwrap();
    match r {
        Response::Update(m) => assert_eq!(m.embeds[0].title.as_deref(), Some("c1")),
        _ => panic!("expected an update"),
    }
    let r = doenermann_bot::handler::handle_component(&mut db, 99, "x", "next:4,2", &ComponentKind::Other).unwrap();
    match r {
        Response::Update(m) => assert_eq!(m.embeds[0].title.as_deref(), Some("c2")),
        _ => panic!("expected an update"),
    }
    assert_eq!(db.collections.get(4).unwrap().characters.len(), 3);
}
