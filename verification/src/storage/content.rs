//! How the content of a message is persisted: as JSON text, an object with
//! the name of the variant as its one key.

use vstd::prelude::*;
use vstd::string::StringExecFns;

use crate::messaging::types::{opt_chars, ContentView, MessageContent};
use crate::text::same_text;

verus! {

/// One field of a JSON object whose values are strings or null.
pub type Field = (String, Option<String>);

/// One entry of a JSON object whose values are such objects.
pub type Entry = (String, Vec<Field>);

/// The characters of a list of pairs of strings.
pub open spec fn pairs_view(pairs: Seq<(String, String)>) -> Seq<(Seq<char>, Seq<char>)> {
    pairs.map_values(|p: (String, String)| (p.0@, p.1@))
}

/// The characters of a list of fields.
pub open spec fn fields_view(fields: Seq<Field>) -> Seq<(Seq<char>, Option<Seq<char>>)> {
    fields.map_values(|f: Field| (f.0@, opt_chars(f.1)))
}

/// The characters of a list of entries.
pub open spec fn entries_view(entries: Seq<Entry>) -> Seq<
    (Seq<char>, Seq<(Seq<char>, Option<Seq<char>>)>),
> {
    entries.map_values(|e: Entry| (e.0@, fields_view(e.1@)))
}

/// The characters of what parsing a flat object gave.
pub open spec fn flat_view(parsed: Option<Vec<(String, String)>>) -> Option<
    Seq<(Seq<char>, Seq<char>)>,
> {
    match parsed {
        Some(pairs) => Some(pairs_view(pairs@)),
        None => None,
    }
}

/// The characters of what parsing a nested object gave.
pub open spec fn nested_view(parsed: Option<Vec<Entry>>) -> Option<
    Seq<(Seq<char>, Seq<(Seq<char>, Option<Seq<char>>)>)>,
> {
    match parsed {
        Some(entries) => Some(entries_view(entries@)),
        None => None,
    }
}

/// The JSON text of a string, quotes and escapes included, as
/// `serde_json::to_string` writes it; nothing where it fails.
pub uninterp spec fn json_string_text(s: Seq<char>) -> Option<Seq<char>>;

/// What `serde_json::from_str` reads from a text as a map from strings to
/// strings: its entries in the order of their keys, or nothing where the
/// text is no JSON object of strings.
pub uninterp spec fn json_flat_object(text: Seq<char>) -> Option<Seq<(Seq<char>, Seq<char>)>>;

/// What `serde_json::from_str` reads from a text as a map from strings to
/// maps from strings to strings or null: its entries in the order of their
/// keys, each with its fields in the order of theirs, or nothing where the
/// text is no such JSON object.
pub uninterp spec fn json_nested_object(text: Seq<char>) -> Option<
    Seq<(Seq<char>, Seq<(Seq<char>, Option<Seq<char>>)>)>,
>;

/// `serde_json::to_string` of a string: the string as JSON text.
#[verifier::external_body]
fn json_quote(s: &str) -> (text: Option<String>)
    ensures
        opt_chars(text) == json_string_text(s@),
{
    serde_json::to_string(s).ok()
}

/// `serde_json::from_str` with a `BTreeMap<String, String>` as its target,
/// handed out as the list of the map's entries.
#[verifier::external_body]
fn json_flat(text: &str) -> (parsed: Option<Vec<(String, String)>>)
    ensures
        flat_view(parsed) == json_flat_object(text@),
{
    let parsed = serde_json::from_str::<std::collections::BTreeMap<String, String>>(text);
    parsed.ok().map(|m| m.into_iter().collect())
}

/// `serde_json::from_str` with a `BTreeMap<String, BTreeMap<String,
/// Option<String>>>` as its target, handed out as the list of the map's
/// entries, each with the list of its fields.
#[verifier::external_body]
fn json_nested(text: &str) -> (parsed: Option<Vec<Entry>>)
    ensures
        nested_view(parsed) == json_nested_object(text@),
{
    let parsed = serde_json::from_str::<
        std::collections::BTreeMap<String, std::collections::BTreeMap<String, Option<String>>>,
    >(text);
    parsed.ok().map(|m| m.into_iter().map(|(k, v)| (k, v.into_iter().collect())).collect())
}

/// Index of the first field of the given name, or the number of fields
/// where there is none.
pub open spec fn field_position(fields: Seq<(Seq<char>, Option<Seq<char>>)>, name: Seq<char>) -> int
    decreases fields.len(),
{
    if fields.len() == 0 {
        0
    } else {
        let earlier = field_position(fields.drop_last(), name);
        if earlier < fields.len() - 1 {
            earlier
        } else if fields.last().0 == name {
            fields.len() - 1
        } else {
            fields.len() as int
        }
    }
}

/// The string that the field of the given name holds; nothing where there
/// is no such field, or where it holds null.
pub open spec fn field_text(fields: Seq<(Seq<char>, Option<Seq<char>>)>, name: Seq<char>) -> Option<
    Seq<char>,
> {
    let at = field_position(fields, name);
    if at < fields.len() {
        fields[at].1
    } else {
        None
    }
}

/// The value of a flat object that has the given key and no other.
pub open spec fn sole_value(flat: Option<Seq<(Seq<char>, Seq<char>)>>, key: Seq<char>) -> Option<
    Seq<char>,
> {
    match flat {
        Some(pairs) => if pairs.len() == 1 && pairs[0].0 == key {
            Some(pairs[0].1)
        } else {
            None
        },
        None => None,
    }
}

/// The fields of a nested object that has the given key and no other.
pub open spec fn sole_fields(
    nested: Option<Seq<(Seq<char>, Seq<(Seq<char>, Option<Seq<char>>)>)>>,
    key: Seq<char>,
) -> Option<Seq<(Seq<char>, Option<Seq<char>>)>> {
    match nested {
        Some(entries) => if entries.len() == 1 && entries[0].0 == key {
            Some(entries[0].1)
        } else {
            None
        },
        None => None,
    }
}

/// The image that the fields stand for: they hold its address, and may hold
/// a caption.
pub open spec fn image_of(
    fields: Option<Seq<(Seq<char>, Option<Seq<char>>)>>,
) -> Option<ContentView> {
    match fields {
        Some(f) => match field_text(f, "url"@) {
            Some(url) => Some(ContentView::Image { url: url, caption: field_text(f, "caption"@) }),
            None => None,
        },
        None => None,
    }
}

/// The file that the fields stand for: they hold its address and its name.
pub open spec fn file_of(
    fields: Option<Seq<(Seq<char>, Option<Seq<char>>)>>,
) -> Option<ContentView> {
    match fields {
        Some(f) => match (field_text(f, "url"@), field_text(f, "filename"@)) {
            (Some(url), Some(filename)) => Some(ContentView::File { url: url, filename: filename }),
            _ => None,
        },
        None => None,
    }
}

/// The content that a persisted text stands for, given what the text reads
/// as. A text that is no content in the persisted form stands for itself,
/// as plain text.
pub open spec fn decoded_content(
    flat: Option<Seq<(Seq<char>, Seq<char>)>>,
    nested: Option<Seq<(Seq<char>, Seq<(Seq<char>, Option<Seq<char>>)>)>>,
    raw: Seq<char>,
) -> ContentView {
    if sole_value(flat, "Text"@) is Some {
        ContentView::Text(sole_value(flat, "Text"@)->0)
    } else if sole_value(flat, "System"@) is Some {
        ContentView::System(sole_value(flat, "System"@)->0)
    } else if image_of(sole_fields(nested, "Image"@)) is Some {
        image_of(sole_fields(nested, "Image"@))->0
    } else if file_of(sole_fields(nested, "File"@)) is Some {
        file_of(sole_fields(nested, "File"@))->0
    } else {
        ContentView::Text(raw)
    }
}

/// The text that a content is persisted as; nothing where one of its strings
/// cannot be written as JSON.
pub open spec fn encoded_content(content: ContentView) -> Option<Seq<char>> {
    match content {
        ContentView::Text(t) => match json_string_text(t) {
            Some(q) => Some("{\"Text\":"@ + q + "}"@),
            None => None,
        },
        ContentView::System(t) => match json_string_text(t) {
            Some(q) => Some("{\"System\":"@ + q + "}"@),
            None => None,
        },
        ContentView::Image { url, caption } => match json_string_text(url) {
            Some(q_url) => match caption {
                Some(c) => match json_string_text(c) {
                    Some(q_caption) => Some(
                        "{\"Image\":{\"url\":"@ + q_url + ",\"caption\":"@ + q_caption + "}}"@,
                    ),
                    None => None,
                },
                None => Some("{\"Image\":{\"url\":"@ + q_url + ",\"caption\":"@ + "null"@ + "}}"@),
            },
            None => None,
        },
        ContentView::File { url, filename } => match json_string_text(url) {
            Some(q_url) => match json_string_text(filename) {
                Some(q_name) => Some(
                    "{\"File\":{\"url\":"@ + q_url + ",\"filename\":"@ + q_name + "}}"@,
                ),
                None => None,
            },
            None => None,
        },
    }
}

/// What the persisted form of a content reads as, as a flat object: a text
/// and a system notice are one, with the name of the variant as the key.
pub open spec fn flat_layout(content: ContentView) -> Option<Seq<(Seq<char>, Seq<char>)>> {
    match content {
        ContentView::Text(t) => Some(seq![("Text"@, t)]),
        ContentView::System(t) => Some(seq![("System"@, t)]),
        _ => None,
    }
}

/// What the persisted form of a content reads as, as a nested object: an
/// image and a file are one, with their fields in the order of their names.
pub open spec fn nested_layout(content: ContentView) -> Option<
    Seq<(Seq<char>, Seq<(Seq<char>, Option<Seq<char>>)>)>,
> {
    match content {
        ContentView::Image { url, caption } => Some(
            seq![("Image"@, seq![("caption"@, caption), ("url"@, Some(url))])],
        ),
        ContentView::File { url, filename } => Some(
            seq![("File"@, seq![("filename"@, Some(filename)), ("url"@, Some(url))])],
        ),
        _ => None,
    }
}

/// Every content is read back, variant and fields, from what its persisted
/// form reads as.
pub proof fn lemma_layout_round_trip(content: ContentView, raw: Seq<char>)
    ensures
        decoded_content(flat_layout(content), nested_layout(content), raw) == content,
{
    reveal_strlit("Text");
    reveal_strlit("System");
    reveal_strlit("Image");
    reveal_strlit("File");
    reveal_strlit("url");
    reveal_strlit("caption");
    reveal_strlit("filename");
    assert("Text"@.len() == 4 && "System"@.len() == 6 && "Image"@.len() == 5 && "File"@.len() == 4);
    assert("Text"@[0] == 'T' && "File"@[0] == 'F');
    assert("url"@.len() == 3 && "caption"@.len() == 7 && "filename"@.len() == 8);
    match content {
        ContentView::Image { url, caption } => {
            let fields = seq![("caption"@, caption), ("url"@, Some(url))];
            assert(fields.drop_last() =~= seq![("caption"@, caption)]);
            assert(fields.drop_last().drop_last() =~= Seq::empty());
            reveal_with_fuel(field_position, 3);
            assert(field_position(fields, "url"@) == 1);
            assert(field_position(fields, "caption"@) == 0);
        },
        ContentView::File { url, filename } => {
            let fields = seq![("filename"@, Some(filename)), ("url"@, Some(url))];
            assert(fields.drop_last() =~= seq![("filename"@, Some(filename))]);
            assert(fields.drop_last().drop_last() =~= Seq::empty());
            reveal_with_fuel(field_position, 3);
            assert(field_position(fields, "url"@) == 1);
            assert(field_position(fields, "filename"@) == 0);
        },
        _ => {},
    }
}

/// The string that the field of the given name holds.
fn find_field(fields: &Vec<Field>, name: &str) -> (text: Option<String>)
    ensures
        opt_chars(text) == field_text(fields_view(fields@), name@),
{
    let mut i: usize = 0;
    while i < fields.len()
        invariant
            0 <= i <= fields.len(),
            forall|j: int| 0 <= j < i ==> (#[trigger] fields_view(fields@)[j]).0 != name@,
        decreases fields.len() - i,
    {
        if same_text(fields[i].0.as_str(), name) {
            proof {
                lemma_field_position_is(fields_view(fields@), name@, i as int);
            }
            return match &fields[i].1 {
                Some(text) => Some(text.clone()),
                None => None,
            };
        }
        i += 1;
    }
    proof {
        lemma_field_position_is(fields_view(fields@), name@, i as int);
    }
    None
}

/// `field_position` is the first index that holds the name.
pub proof fn lemma_field_position(fields: Seq<(Seq<char>, Option<Seq<char>>)>, name: Seq<char>)
    ensures
        0 <= field_position(fields, name) <= fields.len(),
        field_position(fields, name) < fields.len() ==> fields[field_position(fields, name)].0
            == name,
        forall|j: int| 0 <= j < field_position(fields, name) ==> (#[trigger] fields[j]).0 != name,
    decreases fields.len(),
{
    if fields.len() > 0 {
        lemma_field_position(fields.drop_last(), name);
        let p = field_position(fields.drop_last(), name);
        assert forall|j: int| 0 <= j < field_position(fields, name) implies (#[trigger] fields[j]).0
            != name by {
            if j < fields.len() - 1 {
                assert(fields.drop_last()[j] == fields[j]);
            }
        }
        if p < fields.len() - 1 {
            assert(fields.drop_last()[p] == fields[p]);
        }
    }
}

/// An index that holds the name, with none before it, is the `field_position`.
pub proof fn lemma_field_position_is(
    fields: Seq<(Seq<char>, Option<Seq<char>>)>,
    name: Seq<char>,
    at: int,
)
    requires
        0 <= at <= fields.len(),
        at < fields.len() ==> fields[at].0 == name,
        forall|j: int| 0 <= j < at ==> (#[trigger] fields[j]).0 != name,
    ensures
        field_position(fields, name) == at,
{
    lemma_field_position(fields, name);
}

/// The content that a persisted text stands for, given what the text was
/// read as: as a flat object, and as a nested one.
pub fn content_from_parts(
    flat: Option<Vec<(String, String)>>,
    nested: Option<Vec<Entry>>,
    raw: &str,
) -> (content: MessageContent)
    ensures
        content@ == decoded_content(flat_view(flat), nested_view(nested), raw@),
{
    match &flat {
        Some(pairs) => {
            if pairs.len() == 1 {
                assert(pairs_view(pairs@)[0] == (pairs@[0].0@, pairs@[0].1@));
                if same_text(pairs[0].0.as_str(), "Text") {
                    return MessageContent::Text(pairs[0].1.clone());
                }
                if same_text(pairs[0].0.as_str(), "System") {
                    return MessageContent::System(pairs[0].1.clone());
                }
            }
        },
        None => {},
    }
    match &nested {
        Some(entries) => {
            if entries.len() == 1 {
                assert(entries_view(entries@)[0] == (entries@[0].0@, fields_view(entries@[0].1@)));
                let fields = &entries[0].1;
                if same_text(entries[0].0.as_str(), "Image") {
                    match find_field(fields, "url") {
                        Some(url) => {
                            return MessageContent::Image { url, caption: find_field(fields, "caption") };
                        },
                        None => {},
                    }
                }
                if same_text(entries[0].0.as_str(), "File") {
                    match find_field(fields, "url") {
                        Some(url) => {
                            match find_field(fields, "filename") {
                                Some(filename) => {
                                    return MessageContent::File { url, filename };
                                },
                                None => {},
                            }
                        },
                        None => {},
                    }
                }
            }
        },
        None => {},
    }
    proof {
        reveal_strlit("Text");
        reveal_strlit("System");
        reveal_strlit("Image");
        reveal_strlit("File");
        assert("Text"@.len() == 4 && "System"@.len() == 6 && "Image"@.len() == 5);
        assert("File"@.len() == 4);
    }
    MessageContent::Text(String::from_str(raw))
}

/// The content that a persisted text stands for. A text that is no content
/// in the persisted form is taken as plain text.
pub fn decode_content(text: &str) -> (content: MessageContent)
    ensures
        content@ == decoded_content(json_flat_object(text@), json_nested_object(text@), text@),
{
    content_from_parts(json_flat(text), json_nested(text), text)
}

/// The text that a content is persisted as.
pub fn encode_content(content: &MessageContent) -> (text: Option<String>)
    ensures
        opt_chars(text) == encoded_content(content@),
{
    match content {
        MessageContent::Text(t) => match json_quote(t.as_str()) {
            Some(q) => {
                let mut text = String::from_str("{\"Text\":");
                text.append(q.as_str());
                text.append("}");
                Some(text)
            },
            None => None,
        },
        MessageContent::System(t) => match json_quote(t.as_str()) {
            Some(q) => {
                let mut text = String::from_str("{\"System\":");
                text.append(q.as_str());
                text.append("}");
                Some(text)
            },
            None => None,
        },
        MessageContent::Image { url, caption } => match json_quote(url.as_str()) {
            Some(q_url) => {
                let q_caption = match caption {
                    Some(c) => json_quote(c.as_str()),
                    None => Some(String::from_str("null")),
                };
                match q_caption {
                    Some(q) => {
                        let mut text = String::from_str("{\"Image\":{\"url\":");
                        text.append(q_url.as_str());
                        text.append(",\"caption\":");
                        text.append(q.as_str());
                        text.append("}}");
                        Some(text)
                    },
                    None => None,
                }
            },
            None => None,
        },
        MessageContent::File { url, filename } => match json_quote(url.as_str()) {
            Some(q_url) => match json_quote(filename.as_str()) {
                Some(q_name) => {
                    let mut text = String::from_str("{\"File\":{\"url\":");
                    text.append(q_url.as_str());
                    text.append(",\"filename\":");
                    text.append(q_name.as_str());
                    text.append("}}");
                    Some(text)
                },
                None => None,
            },
            None => None,
        },
    }
}

} // verus!
