//! The bot's configuration, as read from `config.toml`.

use vstd::prelude::*;
use crate::text::owned;

verus! {

/// The whole configuration.
#[derive(Default, Debug)]
pub struct Config {
    pub bot: Bot,
    pub paths: Paths,
    pub server: Server,
}

/// The bot's token and how it writes dates and times.
#[derive(Default, Debug)]
pub struct Bot {
    pub token: String,
    pub date_format: String,
    pub timestamp_format: String,
}

/// Where the bot keeps its files.
#[derive(Debug)]
pub struct Paths {
    pub database: String,
}

/// The Discord server, its channels and roles, and the bot's admins, by id.
#[derive(Default, Debug)]
pub struct Server {
    pub guild: String,
    pub citations_channel: String,
    pub role_on_join: String,
    pub admins: Vec<String>,
}

impl Default for Paths {
    /// The database is `db.json`.
    fn default() -> (p: Self)
        ensures
            p.database@ == "db.json"@,
    {
        Paths { database: owned("db.json") }
    }
}

impl Paths {
    /// The default paths: the database is `db.json`.
    pub fn new() -> (p: Self)
        ensures
            p.database@ == "db.json"@,
    {
        Paths::default()
    }
}

impl Bot {
    /// No token; dates written `%d.%m.%Y`, times `%d.%m.%Y %H:%M:%S`.
    pub fn new() -> (b: Self)
        ensures
            b.token@ == Seq::<char>::empty(),
            b.date_format@ == "%d.%m.%Y"@,
            b.timestamp_format@ == "%d.%m.%Y %H:%M:%S"@,
    {
        Bot {
            token: String::new(),
            date_format: owned("%d.%m.%Y"),
            timestamp_format: owned("%d.%m.%Y %H:%M:%S"),
        }
    }
}

impl Server {
    /// No server, channels, role or admins.
    pub fn new() -> (s: Self)
        ensures
            s.guild@ == Seq::<char>::empty(),
            s.citations_channel@ == Seq::<char>::empty(),
            s.role_on_join@ == Seq::<char>::empty(),
            s.admins@ == Seq::<String>::empty(),
    {
        Server {
            guild: String::new(),
            citations_channel: String::new(),
            role_on_join: String::new(),
            admins: Vec::new(),
        }
    }
}

impl Config {
    /// The configuration written when there is none: the default bot
    /// settings and paths, and an empty server section.
    pub fn new() -> (c: Self)
        ensures
            c.bot.token@ == Seq::<char>::empty(),
            c.bot.date_format@ == "%d.%m.%Y"@,
            c.bot.timestamp_format@ == "%d.%m.%Y %H:%M:%S"@,
            c.paths.database@ == "db.json"@,
            c.server.guild@ == Seq::<char>::empty(),
            c.server.citations_channel@ == Seq::<char>::empty(),
            c.server.role_on_join@ == Seq::<char>::empty(),
            c.server.admins@ == Seq::<String>::empty(),
    {
        Config { bot: Bot::new(), paths: Paths::new(), server: Server::new() }
    }
}

} // verus!
