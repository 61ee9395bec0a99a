use doenermann_bot::commands::citations::{self, build_embed, embed_title_len, truncate_text};
use doenermann_bot::commands::count::{self, Counter};
use doenermann_bot::commands::{doener, ResolvedOption};
use doenermann_bot::config::{Bot, Config, Paths, Server};
use doenermann_bot::date::Timestamp;
use doenermann_bot::db::{Database, Message};
use doenermann_bot::handler::{config_id, immediate_answer, route_command, route_component, split_id, CommandRoute, ComponentRoute};
use doenermann_bot::response::Response;
use doenermann_bot::error::Error;
use doenermann_bot::util::{citation_content, embed_to_string, embeds_to_string, push_non_empty, ReceivedEmbed, ReceivedField};

fn received(title: Option<&str>, fields: &[(&str, &str)]) -> ReceivedEmbed {
    ReceivedEmbed {
        author_name: None,
        title: title.map(|t| t.to_string()),
        description: None,
        fields: fields
            .iter()
            .map(|(n, v)| ReceivedField { name: n.to_string(), value: v.to_string() })
            .collect(),
        footer_text: None,
        url: None,
    }
}

#[test]
fn title_length_counts_characters() {
    assert_eq!(embed_title_len("Recorded Citations: 3"), 21);
    assert_eq!(embed_title_len("Döner"), 5);
    assert_eq!(embed_title_len(""), 0);
}

#[test]
fn truncate_text_keeps_short_and_marks_cut() {
    assert_eq!(truncate_text("short".to_string(), 10), "short");
    assert_eq!(truncate_text("abcdefghij".to_string(), 10), "abcdefghij");
    assert_eq!(truncate_text("abcdefghijk".to_string(), 10), "abcdefg...");
    assert_eq!(truncate_text("abcdef".to_string(), 2), "..");
    assert_eq!(truncate_text("äöüäöü".to_string(), 5), "äö...");
}

#[test]
fn embed_text_of_received_embeds() {
    let e = ReceivedEmbed {
        author_name: Some("  Author ".to_string()),
        title: Some("Title".to_string()),
        description: Some("   ".to_string()),
        fields: vec![
            ReceivedField { name: "n".to_string(), value: "v".to_string() },
            ReceivedField { name: " ".to_string(), value: "only value".to_string() },
            ReceivedField { name: "only name".to_string(), value: "".to_string() },
            ReceivedField { name: "".to_string(), value: " ".to_string() },
        ],
        footer_text: Some("foot".to_string()),
        url: Some("https://x.y".to_string()),
    };
    assert_eq!(
        embed_to_string(&e).as_deref(),
        Some("Author\nTitle\nn: v\nonly value\nonly name\nfoot\nhttps://x.y")
    );
    assert_eq!(embed_to_string(&received(None, &[])), None);
    let all = vec![received(Some("a"), &[]), received(None, &[]), received(Some("b"), &[("x", "y")])];
    assert_eq!(embeds_to_string(&all), "a\n\nb\nx: y");
    assert_eq!(embeds_to_string(&Vec::new()), "");
    let mut parts = Vec::new();
    push_non_empty(&mut parts, "  x ");
    push_non_empty(&mut parts, " \t ");
    assert_eq!(parts, vec!["x".to_string()]);
}

#[test]
fn recorded_citation_text() {
    let embeds = vec![received(Some("quote"), &[("who", "me")])];
    assert_eq!(citation_content("hello", &embeds), "hello\nquote\nwho: me");
    assert_eq!(citation_content("hello", &Vec::new()), "hello");
}

#[test]
fn record_only_from_the_citations_channel() {
    let mut db = Database::new();
    let ts = Timestamp { secs: 1_700_000_000, nanos: 0 };
    citations::record(&mut db, 10, 11, 1, 5, "elsewhere", &Vec::new(), ts);
    assert_eq!(db.citations.len(), 0);
    citations::record(&mut db, 10, 10, 2, 5, "said", &vec![received(Some("t"), &[])], ts);
    citations::record(&mut db, 10, 10, 2, 6, "again", &Vec::new(), ts);
    assert_eq!(db.citations.len(), 1);
    let m = db.citations.get(2).unwrap();
    assert_eq!(m.content, "said\nt");
    assert_eq!(m.user_id, 5);
}

#[test]
fn citations_embed_newest_first() {
    let mut db = Database::new();
    let none: Vec<ResolvedOption> = Vec::new();
    // With nothing recorded no time is written, so any format answers.
    match citations::run_checked(&none, &db, "%Q") {
        Some(Ok(Response::Message(m))) => {
            assert_eq!(m.embeds[0].title.as_deref(), Some("No citations have been recorded!"))
        }
        other => panic!("unexpected {other:?}"),
    }
    match citations::run(&none, &db, "%Y") {
        Ok(Response::Message(m)) => {
            assert_eq!(m.embeds[0].title.as_deref(), Some("No citations have been recorded!"));
            assert!(m.embeds[0].fields.is_empty());
        }
        other => panic!("unexpected {other:?}"),
    }
    for i in 0..30u64 {
        db.citations.add(Message::new(i, 1, format!("c{i}"), Timestamp { secs: 0, nanos: 0 }));
    }
    match citations::run(&none, &db, "%Y") {
        Ok(Response::Message(m)) => {
            let e = &m.embeds[0];
            assert_eq!(e.title.as_deref(), Some("Recorded Citations: 30"));
            assert_eq!(e.fields.len(), 25);
            assert_eq!(e.fields[0].value, "<@1>\nc29");
            assert_eq!(e.fields[24].value, "<@1>\nc5");
        }
        other => panic!("unexpected {other:?}"),
    }
    assert!(citations::run_checked(&none, &db, "%Y-%m-%d").is_some());
    assert!(citations::run_checked(&none, &db, "%d.%m.%Y %H:%M:%S").is_some());
    assert!(citations::run_checked(&none, &db, "%Q").is_none());
}

#[test]
fn citation_names_are_their_own_times() {
    let mut db = Database::new();
    db.citations.add(Message::new(1, 1, "old".to_string(), Timestamp { secs: 864_000, nanos: 0 }));
    db.citations.add(Message::new(2, 1, "new".to_string(), Timestamp { secs: 1_700_000_000, nanos: 0 }));
    match citations::run(&Vec::new(), &db, "%Y") {
        Ok(Response::Message(m)) => {
            let e = &m.embeds[0];
            assert_eq!(e.title.as_deref(), Some("Recorded Citations: 2"));
            assert_eq!(e.fields[0].name, "2023");
            assert_eq!(e.fields[1].name, "1970");
        }
        other => panic!("unexpected {other:?}"),
    }
}

#[test]
fn citations_embed_keeps_within_limit() {
    let long = "x".repeat(2000);
    let msgs: Vec<Message> =
        (0..5u64).map(|i| Message::new(i, 1, long.clone(), Timestamp { secs: 0, nanos: 0 })).collect();
    let refs: Vec<&Message> = msgs.iter().collect();
    let names: Vec<String> = (0..5).map(|i| format!("n{i}")).collect();
    let e = build_embed(5, &refs, &names);
    let total: usize = e.fields.iter().map(|f| f.name.chars().count() + f.value.chars().count()).sum::<usize>()
        + e.title.as_ref().map(|t| t.chars().count()).unwrap_or(0);
    assert!(total <= 6000);
    assert!(e.fields.iter().all(|f| f.value.chars().count() <= 1024));
    assert_eq!(e.fields[0].name, "n0");
}

#[test]
fn count_lists_messages() {
    let c = Counter { count: 0, list: Vec::new() };
    match count::run(&Vec::new(), &c) {
        Ok(Response::Message(m)) => {
            assert_eq!(m.embeds[0].title.as_deref(), Some("No messages have been recorded after last startup!"))
        }
        other => panic!("unexpected {other:?}"),
    }
    let c = Counter { count: 30, list: (0..26).map(|i| format!("m{i}")).collect() };
    match count::run(&Vec::new(), &c) {
        Ok(Response::Message(m)) => {
            let e = &m.embeds[0];
            assert_eq!(
                e.title.as_deref(),
                Some("Already recorded messages: 30\nList of already recorded messages:")
            );
            assert_eq!(e.fields.len(), 26);
            assert_eq!(e.fields[23].value, "m23");
            assert_eq!(e.fields[24].value, "...");
        }
        other => panic!("unexpected {other:?}"),
    }
    assert_eq!(count::register().name, "count");
}

#[test]
fn doener_message() {
    let m = doener::run(&Vec::new()).unwrap();
    assert_eq!(
        m.content.as_deref(),
        Some("Ne diggi, denkste ich habe das Geld dafür? Aber hier das sollte dir helfen:")
    );
    assert_eq!(m.embeds[0].url.as_deref(), Some("https://www.lieferando.de/lieferservice/doener/hannover-30159"));
    assert_eq!(doener::register().name, "döner");
}

#[test]
fn routing() {
    assert_eq!(route_command(&"waifu".to_string()), CommandRoute::Waifu);
    assert_eq!(route_command(&"döner".to_string()), CommandRoute::Doener);
    assert_eq!(route_command(&"citations".to_string()), CommandRoute::Citations);
    assert_eq!(route_command(&"birthday".to_string()), CommandRoute::Birthday);
    assert_eq!(route_command(&"ping".to_string()), CommandRoute::Unknown);
    assert_eq!(split_id("delete:5,2"), ("delete".to_string(), "5,2".to_string()));
    assert_eq!(split_id("no colon"), (String::new(), String::new()));
    assert!(matches!(route_component("delete:5,2"), ComponentRoute::Delete(5, 2)));
    assert!(matches!(route_component("gift:7,0"), ComponentRoute::Gift(7, 0)));
    assert!(matches!(route_component("select:42"), ComponentRoute::Select(42)));
    assert!(matches!(route_component("previous:3,1"), ComponentRoute::Browse(3, 1)));
    assert!(matches!(route_component("next:3,2"), ComponentRoute::Browse(3, 2)));
    assert!(matches!(immediate_answer(&"ping".to_string(), &Vec::new()), Some(Err(Error::NotFound))));
    assert!(matches!(immediate_answer(&"döner".to_string(), &Vec::new()), Some(Ok(Response::Message(_)))));
    assert!(immediate_answer(&"waifu".to_string(), &Vec::new()).is_none());
    assert!(matches!(route_component("select:x"), ComponentRoute::Unknown));
    assert!(matches!(route_component("claimed"), ComponentRoute::Unknown));
    assert_eq!(config_id("123"), Some(123));
    assert_eq!(config_id("12a"), None);
    assert_eq!(config_id("18446744073709551616"), None);
}

#[test]
fn default_configuration() {
    let c = Config::new();
    assert_eq!(c.bot.date_format, "%d.%m.%Y");
    assert_eq!(c.bot.timestamp_format, "%d.%m.%Y %H:%M:%S");
    assert_eq!(c.paths.database, "db.json");
    assert!(c.server.admins.is_empty());
    assert_eq!(Bot::new().token, "");
    assert_eq!(Paths::new().database, "db.json");
    assert_eq!(Server::new().guild, "");
}
