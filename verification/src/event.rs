//! The events of markup: what a reader of XML hands over, tag by tag.

use vstd::prelude::*;
use crate::text::str_eq;
use crate::value::Numeric;

verus! {

/// One attribute of a tag.
#[derive(Debug)]
pub struct Attribute {
    pub key: String,
    pub value: String,
}

/// One event of the markup of a worksheet.
#[derive(Debug)]
pub enum XmlEvent {
    /// A tag opens.
    Start { name: String, attributes: Vec<Attribute> },
    /// A tag that opens and closes at once.
    Empty { name: String, attributes: Vec<Attribute> },
    /// A tag closes.
    End { name: String },
    /// Text, with what it is as a number where it is one.
    Text { content: String, number: Option<Numeric> },
    /// The markup has ended.
    Eof,
}

/// What an `XmlEvent` holds, with text as its characters and each attribute
/// as the pair of its key and its value.
pub enum EventModel {
    Start { name: Seq<char>, attributes: Seq<(Seq<char>, Seq<char>)> },
    Empty { name: Seq<char>, attributes: Seq<(Seq<char>, Seq<char>)> },
    End { name: Seq<char> },
    Text { content: Seq<char>, number: Option<Numeric> },
    Eof,
}

/// The attributes of `attributes` as pairs of key and value.
pub open spec fn attribute_models(attributes: Seq<Attribute>) -> Seq<(Seq<char>, Seq<char>)> {
    Seq::new(attributes.len(), |i: int| (attributes[i].key@, attributes[i].value@))
}

impl View for XmlEvent {
    type V = EventModel;

    open spec fn view(&self) -> EventModel {
        match self {
            XmlEvent::Start { name, attributes } => EventModel::Start {
                name: name@,
                attributes: attribute_models(attributes@),
            },
            XmlEvent::Empty { name, attributes } => EventModel::Empty {
                name: name@,
                attributes: attribute_models(attributes@),
            },
            XmlEvent::End { name } => EventModel::End { name: name@ },
            XmlEvent::Text { content, number } => EventModel::Text {
                content: content@,
                number: *number,
            },
            XmlEvent::Eof => EventModel::Eof,
        }
    }
}

/// The value of the first attribute whose key is `key`.
pub open spec fn attr_get(attributes: Seq<(Seq<char>, Seq<char>)>, key: Seq<char>) -> Option<
    Seq<char>,
>
    decreases attributes.len(),
{
    if attributes.len() == 0 {
        None
    } else if attributes[0].0 == key {
        Some(attributes[0].1)
    } else {
        attr_get(attributes.drop_first(), key)
    }
}

/// The value of the first attribute of `attributes` whose key is `which`.
pub fn get<'b>(attributes: &'b [Attribute], which: &str) -> (r: Option<&'b str>)
    ensures
        match r {
            Some(value) => attr_get(attribute_models(attributes@), which@) == Some(value@),
            None => attr_get(attribute_models(attributes@), which@) is None,
        },
{
    let ghost all = attribute_models(attributes@);
    assert(all.skip(0) =~= all);
    let mut i: usize = 0;
    while i < attributes.len()
        invariant
            i <= attributes.len(),
            all == attribute_models(attributes@),
            attr_get(all, which@) == attr_get(all.skip(i as int), which@),
        decreases attributes.len() - i,
    {
        proof {
            assert(all.skip(i as int).drop_first() =~= all.skip(i + 1));
            assert(all.skip(i as int)[0] == all[i as int]);
        }
        if str_eq(attributes[i].key.as_str(), which) {
            return Some(attributes[i].value.as_str());
        }
        i += 1;
    }
    assert(all.skip(i as int).len() == 0);
    None
}

} // verus!
