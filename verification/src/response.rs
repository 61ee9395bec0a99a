//! What the bot answers: embeds, buttons, select menus, messages and
//! modals, as plain data that the Discord layer turns into requests.

use vstd::prelude::*;

verus! {

/// The view of an optional string.
pub open spec fn opt_view(s: Option<String>) -> Option<Seq<char>> {
    match s {
        Some(t) => Some(t@),
        None => None,
    }
}

/// A field of an embed.
#[derive(Debug)]
pub struct EmbedField {
    pub name: String,
    pub value: String,
    pub inline: bool,
}

/// The view of an [`EmbedField`].
pub struct FieldView {
    pub name: Seq<char>,
    pub value: Seq<char>,
    pub inline: bool,
}

impl View for EmbedField {
    type V = FieldView;

    open spec fn view(&self) -> FieldView {
        FieldView { name: self.name@, value: self.value@, inline: self.inline }
    }
}

/// A rich embed of a message.
#[derive(Debug)]
pub struct Embed {
    pub title: Option<String>,
    pub description: Option<String>,
    pub url: Option<String>,
    pub image: Option<String>,
    pub color: Option<u32>,
    pub fields: Vec<EmbedField>,
}

/// The view of an [`Embed`].
pub struct EmbedView {
    pub title: Option<Seq<char>>,
    pub description: Option<Seq<char>>,
    pub url: Option<Seq<char>>,
    pub image: Option<Seq<char>>,
    pub color: Option<u32>,
    pub fields: Seq<FieldView>,
}

/// The views of a vector of fields.
pub open spec fn field_views(v: Seq<EmbedField>) -> Seq<FieldView> {
    v.map_values(|f: EmbedField| f@)
}

impl View for Embed {
    type V = EmbedView;

    open spec fn view(&self) -> EmbedView {
        EmbedView {
            title: opt_view(self.title),
            description: opt_view(self.description),
            url: opt_view(self.url),
            image: opt_view(self.image),
            color: self.color,
            fields: field_views(self.fields@),
        }
    }
}

impl EmbedView {
    /// An embed with nothing set.
    pub open spec fn empty() -> EmbedView {
        EmbedView {
            title: None,
            description: None,
            url: None,
            image: None,
            color: None,
            fields: Seq::empty(),
        }
    }

    /// This embed with its title set.
    pub open spec fn with_title(self, t: Seq<char>) -> EmbedView {
        EmbedView { title: Some(t), ..self }
    }

    /// This embed with its description set.
    pub open spec fn with_description(self, t: Seq<char>) -> EmbedView {
        EmbedView { description: Some(t), ..self }
    }

    /// This embed with its link set.
    pub open spec fn with_url(self, t: Seq<char>) -> EmbedView {
        EmbedView { url: Some(t), ..self }
    }

    /// This embed with its image set.
    pub open spec fn with_image(self, t: Seq<char>) -> EmbedView {
        EmbedView { image: Some(t), ..self }
    }

    /// This embed with its colour set.
    pub open spec fn with_color(self, c: u32) -> EmbedView {
        EmbedView { color: Some(c), ..self }
    }

    /// This embed with one more field.
    pub open spec fn with_field(self, name: Seq<char>, value: Seq<char>, inline: bool) -> EmbedView {
        EmbedView {
            fields: self.fields.push(FieldView { name, value, inline }),
            ..self
        }
    }
}

impl Embed {
    /// An embed with nothing set.
    pub fn new() -> (e: Embed)
        ensures
            e@ == EmbedView::empty(),
    {
        let e = Embed {
            title: None,
            description: None,
            url: None,
            image: None,
            color: None,
            fields: Vec::new(),
        };
        assert(field_views(e.fields@) =~= Seq::<FieldView>::empty());
        e
    }

    /// This embed with its title set.
    pub fn title(self, t: String) -> (e: Embed)
        ensures
            e@ == self@.with_title(t@),
    {
        Embed { title: Some(t), ..self }
    }

    /// This embed with its description set.
    pub fn description(self, t: String) -> (e: Embed)
        ensures
            e@ == self@.with_description(t@),
    {
        Embed { description: Some(t), ..self }
    }

    /// This embed with its link set.
    pub fn url(self, t: String) -> (e: Embed)
        ensures
            e@ == self@.with_url(t@),
    {
        Embed { url: Some(t), ..self }
    }

    /// This embed with its image set.
    pub fn image(self, t: String) -> (e: Embed)
        ensures
            e@ == self@.with_image(t@),
    {
        Embed { image: Some(t), ..self }
    }

    /// This embed with its colour set.
    pub fn color(self, c: u32) -> (e: Embed)
        ensures
            e@ == self@.with_color(c),
    {
        Embed { color: Some(c), ..self }
    }

    /// This embed with one more field.
    pub fn field(self, name: String, value: String, inline: bool) -> (e: Embed)
        ensures
            e@ == self@.with_field(name@, value@, inline),
    {
        let mut e = self;
        let ghost before = e.fields@;
        e.fields.push(EmbedField { name, value, inline });
        assert(field_views(e.fields@) =~= field_views(before).push(
            FieldView { name: name@, value: value@, inline },
        ));
        e
    }
}

/// The look of a button.
#[derive(Clone, Copy, Debug, PartialEq, Eq, Structural)]
pub enum ButtonStyle {
    Primary,
    Secondary,
    Success,
    Danger,
}

/// A button of a message.
#[derive(Debug)]
pub struct Button {
    pub custom_id: String,
    pub label: String,
    pub style: ButtonStyle,
    pub disabled: bool,
}

/// The view of a [`Button`].
pub struct ButtonView {
    pub custom_id: Seq<char>,
    pub label: Seq<char>,
    pub style: ButtonStyle,
    pub disabled: bool,
}

impl View for Button {
    type V = ButtonView;

    open spec fn view(&self) -> ButtonView {
        ButtonView {
            custom_id: self.custom_id@,
            label: self.label@,
            style: self.style,
            disabled: self.disabled,
        }
    }
}

/// An option of a select menu.
#[derive(Debug)]
pub struct SelectOption {
    pub label: String,
    pub value: String,
    pub description: String,
    pub default_selection: bool,
}

/// The view of a [`SelectOption`].
pub struct SelectOptionView {
    pub label: Seq<char>,
    pub value: Seq<char>,
    pub description: Seq<char>,
    pub default_selection: bool,
}

impl View for SelectOption {
    type V = SelectOptionView;

    open spec fn view(&self) -> SelectOptionView {
        SelectOptionView {
            label: self.label@,
            value: self.value@,
            description: self.description@,
            default_selection: self.default_selection,
        }
    }
}

/// The views of a vector of select options.
pub open spec fn option_views(v: Seq<SelectOption>) -> Seq<SelectOptionView> {
    v.map_values(|o: SelectOption| o@)
}

/// What a select menu offers: given texts, or the server's users.
#[derive(Debug)]
pub enum MenuKind {
    Text(Vec<SelectOption>),
    User,
}

/// The view of a [`MenuKind`].
pub enum MenuKindView {
    Text(Seq<SelectOptionView>),
    User,
}

/// A select menu.
#[derive(Debug)]
pub struct SelectMenu {
    pub custom_id: String,
    pub kind: MenuKind,
    pub placeholder: String,
    pub min_values: u8,
    pub max_values: u8,
    pub required: bool,
}

/// The view of a [`SelectMenu`].
pub struct SelectMenuView {
    pub custom_id: Seq<char>,
    pub kind: MenuKindView,
    pub placeholder: Seq<char>,
    pub min_values: u8,
    pub max_values: u8,
    pub required: bool,
}

impl View for SelectMenu {
    type V = SelectMenuView;

    open spec fn view(&self) -> SelectMenuView {
        SelectMenuView {
            custom_id: self.custom_id@,
            kind: match self.kind {
                MenuKind::Text(o) => MenuKindView::Text(option_views(o@)),
                MenuKind::User => MenuKindView::User,
            },
            placeholder: self.placeholder@,
            min_values: self.min_values,
            max_values: self.max_values,
            required: self.required,
        }
    }
}

/// A row of components of a message.
#[derive(Debug)]
pub enum ActionRow {
    Buttons(Vec<Button>),
    Menu(SelectMenu),
}

/// The view of an [`ActionRow`].
pub enum ActionRowView {
    Buttons(Seq<ButtonView>),
    Menu(SelectMenuView),
}

impl View for ActionRow {
    type V = ActionRowView;

    open spec fn view(&self) -> ActionRowView {
        match self {
            ActionRow::Buttons(b) => ActionRowView::Buttons(b@.map_values(|x: Button| x@)),
            ActionRow::Menu(m) => ActionRowView::Menu(m@),
        }
    }
}

/// A message that the bot sends or writes over an earlier one.
#[derive(Debug)]
pub struct ResponseMessage {
    /// The text above the embeds, if set.
    pub content: Option<String>,
    pub embeds: Vec<Embed>,
    /// The rows of components; `None` leaves those of an updated message.
    pub components: Option<Vec<ActionRow>>,
    /// Whether only the user who asked sees the message.
    pub ephemeral: bool,
}

/// The view of a [`ResponseMessage`].
pub struct MessageView {
    pub content: Option<Seq<char>>,
    pub embeds: Seq<EmbedView>,
    pub components: Option<Seq<ActionRowView>>,
    pub ephemeral: bool,
}

impl View for ResponseMessage {
    type V = MessageView;

    open spec fn view(&self) -> MessageView {
        MessageView {
            content: opt_view(self.content),
            embeds: self.embeds@.map_values(|e: Embed| e@),
            components: match self.components {
                Some(c) => Some(c@.map_values(|r: ActionRow| r@)),
                None => None,
            },
            ephemeral: self.ephemeral,
        }
    }
}

/// A modal dialog asking for one choice from a select menu.
#[derive(Debug)]
pub struct Modal {
    pub custom_id: String,
    pub title: String,
    /// The label above the menu.
    pub label: String,
    pub menu: SelectMenu,
}

/// The view of a [`Modal`].
pub struct ModalView {
    pub custom_id: Seq<char>,
    pub title: Seq<char>,
    pub label: Seq<char>,
    pub menu: SelectMenuView,
}

impl View for Modal {
    type V = ModalView;

    open spec fn view(&self) -> ModalView {
        ModalView {
            custom_id: self.custom_id@,
            title: self.title@,
            label: self.label@,
            menu: self.menu@,
        }
    }
}

/// The bot's answer to an interaction.
#[derive(Debug)]
pub enum Response {
    /// A new message.
    Message(ResponseMessage),
    /// A change of the message whose component was used.
    Update(ResponseMessage),
    /// A modal dialog.
    Modal(Modal),
}

/// The view of a [`Response`].
pub enum ResponseView {
    Message(MessageView),
    Update(MessageView),
    Modal(ModalView),
}

impl View for Response {
    type V = ResponseView;

    open spec fn view(&self) -> ResponseView {
        match self {
            Response::Message(m) => ResponseView::Message(m@),
            Response::Update(m) => ResponseView::Update(m@),
            Response::Modal(m) => ResponseView::Modal(m@),
        }
    }
}

impl MessageView {
    /// A message holding only `embed`.
    pub open spec fn only_embed(embed: EmbedView) -> MessageView {
        MessageView { content: None, embeds: seq![embed], components: None, ephemeral: false }
    }
}

impl ResponseMessage {
    /// A message holding only `embed`.
    pub fn only_embed(embed: Embed) -> (m: ResponseMessage)
        ensures
            m@ == MessageView::only_embed(embed@),
    {
        let mut embeds = Vec::new();
        embeds.push(embed);
        let m = ResponseMessage { content: None, embeds, components: None, ephemeral: false };
        assert(m@.embeds =~= seq![embed@]);
        m
    }
}

} // verus!
