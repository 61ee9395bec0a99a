//! The bot's slash commands: the options they are given, how they are
//! registered, and what they answer.

pub mod birthday;
pub mod citations;
pub mod count;
pub mod delete_birthday;
pub mod doener;
pub mod next_birthdays;
pub mod set_birthday;
pub mod waifu;

use vstd::prelude::*;

verus! {

/// The value of an option given to a command.
#[derive(Debug)]
pub enum ResolvedValue {
    /// A subcommand, with its own options.
    SubCommand(Vec<ResolvedOption>),
    /// A text.
    String(String),
    /// A user, by id and name.
    User(u64, String),
    /// Any other kind of value.
    Other,
}

/// An option given to a command: its name and value.
#[derive(Debug)]
pub struct ResolvedOption {
    pub name: String,
    pub value: ResolvedValue,
}

/// A row of the birthday list kept as a CSV file: a date written
/// `%Y-%m-%d` and a user id.
#[derive(Debug, Default)]
pub struct BirthdayRow {
    pub birthday: String,
    pub user: u64,
}

/// The kind of an option that a command declares.
#[derive(Clone, Copy, Debug, PartialEq, Eq, Structural)]
pub enum OptionKind {
    SubCommand,
    String,
    User,
}

/// An option of a subcommand, as registered.
#[derive(Debug)]
pub struct SubOptionSpec {
    pub kind: OptionKind,
    pub name: String,
    pub description: String,
    pub required: bool,
}

/// The view of a [`SubOptionSpec`].
pub struct SubOptionView {
    pub kind: OptionKind,
    pub name: Seq<char>,
    pub description: Seq<char>,
    pub required: bool,
}

impl View for SubOptionSpec {
    type V = SubOptionView;

    open spec fn view(&self) -> SubOptionView {
        SubOptionView {
            kind: self.kind,
            name: self.name@,
            description: self.description@,
            required: self.required,
        }
    }
}

/// An option of a command, as registered.
#[derive(Debug)]
pub struct OptionSpec {
    pub kind: OptionKind,
    pub name: String,
    pub description: String,
    pub required: bool,
    pub sub_options: Vec<SubOptionSpec>,
}

/// The view of an [`OptionSpec`].
pub struct OptionView {
    pub kind: OptionKind,
    pub name: Seq<char>,
    pub description: Seq<char>,
    pub required: bool,
    pub sub_options: Seq<SubOptionView>,
}

impl View for OptionSpec {
    type V = OptionView;

    open spec fn view(&self) -> OptionView {
        OptionView {
            kind: self.kind,
            name: self.name@,
            description: self.description@,
            required: self.required,
            sub_options: self.sub_options@.map_values(|o: SubOptionSpec| o@),
        }
    }
}

/// A slash command, as registered with Discord.
#[derive(Debug)]
pub struct CommandSpec {
    pub name: String,
    pub description: String,
    pub options: Vec<OptionSpec>,
}

/// The view of a [`CommandSpec`].
pub struct CommandView {
    pub name: Seq<char>,
    pub description: Seq<char>,
    pub options: Seq<OptionView>,
}

impl View for CommandSpec {
    type V = CommandView;

    open spec fn view(&self) -> CommandView {
        CommandView {
            name: self.name@,
            description: self.description@,
            options: self.options@.map_values(|o: OptionSpec| o@),
        }
    }
}

/// An option without sub-options.
pub open spec fn plain_option(
    kind: OptionKind,
    name: Seq<char>,
    description: Seq<char>,
    required: bool,
) -> OptionView {
    OptionView { kind, name, description, required, sub_options: Seq::empty() }
}

impl OptionSpec {
    /// An option without sub-options.
    pub fn new(kind: OptionKind, name: String, description: String) -> (o: Self)
        ensures
            o@ == plain_option(kind, name@, description@, false),
    {
        let o = OptionSpec { kind, name, description, required: false, sub_options: Vec::new() };
        assert(o@.sub_options =~= Seq::<SubOptionView>::empty());
        o
    }

    /// This option, marked as required.
    pub fn required(self) -> (o: Self)
        ensures
            o@ == (OptionView { required: true, ..self@ }),
    {
        OptionSpec { required: true, ..self }
    }

    /// This option with one more required sub-option.
    pub fn add_sub_option(self, kind: OptionKind, name: String, description: String) -> (o: Self)
        ensures
            o@ == (OptionView {
                sub_options: self@.sub_options.push(
                    SubOptionView { kind, name: name@, description: description@, required: true },
                ),
                ..self@
            }),
    {
        let mut o = self;
        let ghost before = o.sub_options@;
        o.sub_options.push(SubOptionSpec { kind, name, description, required: true });
        assert(o.sub_options@.map_values(|x: SubOptionSpec| x@) =~= before.map_values(
            |x: SubOptionSpec| x@,
        ).push(SubOptionView { kind, name: name@, description: description@, required: true }));
        o
    }
}

impl CommandSpec {
    /// A command without options.
    pub fn new(name: String, description: String) -> (c: Self)
        ensures
            c@ == (CommandView { name: name@, description: description@, options: Seq::empty() }),
    {
        let c = CommandSpec { name, description, options: Vec::new() };
        assert(c@.options =~= Seq::<OptionView>::empty());
        c
    }

    /// This command with one more option.
    pub fn add_option(self, option: OptionSpec) -> (c: Self)
        ensures
            c@ == (CommandView { options: self@.options.push(option@), ..self@ }),
    {
        let mut c = self;
        let ghost before = c.options@;
        let ghost ov = option@;
        c.options.push(option);
        assert(c.options@.map_values(|x: OptionSpec| x@) =~= before.map_values(
            |x: OptionSpec| x@,
        ).push(ov));
        c
    }
}

} // verus!
