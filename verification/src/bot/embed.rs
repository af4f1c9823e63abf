//! Framed messages with a title, fields and the like.

use crate::text;
use vstd::prelude::*;

verus! {

/// A field of an embed.
#[derive(Debug, PartialEq)]
pub struct EmbedField {
    pub name: String,
    pub value: String,
    pub inline: bool,
}

/// A framed message.
#[derive(Debug, PartialEq)]
pub struct Embed {
    pub title: String,
    pub description: Option<String>,
    pub color: u32,
    pub thumbnail: Option<String>,
    pub fields: Vec<EmbedField>,
    pub footer: Option<String>,
}

/// A framed message with its texts as sequences of characters; a field is its name, its value and
/// whether it stands beside others.
#[verifier::ext_equal]
pub struct EmbedView {
    pub title: Seq<char>,
    pub description: Option<Seq<char>>,
    pub color: u32,
    pub thumbnail: Option<Seq<char>>,
    pub fields: Seq<(Seq<char>, Seq<char>, bool)>,
    pub footer: Option<Seq<char>>,
}

/// The fields of an embed with their texts as sequences of characters.
pub open spec fn fields_view(fields: Seq<EmbedField>) -> Seq<(Seq<char>, Seq<char>, bool)> {
    fields.map_values(|f: EmbedField| (f.name@, f.value@, f.inline))
}

impl View for Embed {
    type V = EmbedView;

    open spec fn view(&self) -> EmbedView {
        EmbedView {
            title: self.title@,
            description: text::text_view(self.description),
            color: self.color,
            thumbnail: text::text_view(self.thumbnail),
            fields: fields_view(self.fields@),
            footer: text::text_view(self.footer),
        }
    }
}

/// An embed of a title alone.
pub open spec fn titled(title: Seq<char>, color: u32) -> EmbedView {
    EmbedView {
        title,
        description: None,
        color,
        thumbnail: None,
        fields: Seq::empty(),
        footer: None,
    }
}

impl Embed {
    /// An embed of a title alone.
    pub fn new(title: String, color: u32) -> (r: Self)
        ensures
            r@ == titled(title@, color),
    {
        let r = Embed {
            title,
            description: None,
            color,
            thumbnail: None,
            fields: Vec::new(),
            footer: None,
        };
        assert(r@.fields =~= Seq::<(Seq<char>, Seq<char>, bool)>::empty());
        r
    }

    /// Adds the description.
    pub fn described(self, description: String) -> (r: Self)
        ensures
            r@ == (EmbedView { description: Some(description@), ..self@ }),
    {
        Embed { description: Some(description), ..self }
    }

    /// Adds the small picture.
    pub fn pictured(self, thumbnail: String) -> (r: Self)
        ensures
            r@ == (EmbedView { thumbnail: Some(thumbnail@), ..self@ }),
    {
        Embed { thumbnail: Some(thumbnail), ..self }
    }

    /// Adds the footer.
    pub fn footed(self, footer: String) -> (r: Self)
        ensures
            r@ == (EmbedView { footer: Some(footer@), ..self@ }),
    {
        Embed { footer: Some(footer), ..self }
    }

    /// Adds a field.
    pub fn with_field(self, name: String, value: String, inline: bool) -> (r: Self)
        ensures
            r@ == (EmbedView { fields: self@.fields.push((name@, value@, inline)), ..self@ }),
    {
        let mut fields = self.fields;
        let ghost before = fields@;
        let field = EmbedField { name, value, inline };
        fields.push(field);
        assert(fields_view(fields@) =~= fields_view(before).push((name@, value@, inline)));
        Embed { fields, ..self }
    }
}

} // verus!
