//! Configuration documents: the top-level keys of a TOML document with their
//! values, as far as configuration resolution tells values apart.

use vstd::prelude::*;

verus! {

/// A value in a configuration document.
#[derive(Clone, Debug, PartialEq, Eq)]
pub enum Value {
    /// A string.
    Text(String),
    /// An integer.
    Integer(i64),
    /// Anything else: a float, a boolean, a date, an array or a table.
    Other,
}

/// Mathematical model of a [`Value`].
pub enum ValueView {
    Text(Seq<char>),
    Integer(i64),
    Other,
}

impl View for Value {
    type V = ValueView;

    open spec fn view(&self) -> ValueView {
        match *self {
            Value::Text(text) => ValueView::Text(text@),
            Value::Integer(number) => ValueView::Integer(number),
            Value::Other => ValueView::Other,
        }
    }
}

/// A configuration document: its top-level keys, each with its value.
pub struct Document {
    pub entries: Vec<(String, Value)>,
}

/// Mathematical model of a [`Document`]: keys and values, in order.
pub type Entries = Seq<(Seq<char>, ValueView)>;

impl View for Document {
    type V = Entries;

    open spec fn view(&self) -> Entries {
        Seq::new(self.entries@.len(), |i: int| (self.entries@[i].0@, self.entries@[i].1@))
    }
}

/// The value that a document gives for `key`: that of the first entry under
/// this key, or `None` where the document has no such entry.
pub open spec fn lookup(entries: Entries, key: Seq<char>) -> Option<ValueView>
    decreases entries.len(),
{
    if entries.len() == 0 {
        None
    } else if entries[0].0 == key {
        Some(entries[0].1)
    } else {
        lookup(entries.skip(1), key)
    }
}

/// Whether some entry of the document stands under `key`.
pub open spec fn has_key(entries: Entries, key: Seq<char>) -> bool {
    exists|i: int| 0 <= i < entries.len() && (#[trigger] entries[i]).0 == key
}

/// A lookup finds a value exactly where the document has the key, and the
/// value is that of an entry under the key.
pub proof fn lemma_lookup_finds_keys(entries: Entries, key: Seq<char>)
    ensures
        lookup(entries, key) is Some <==> has_key(entries, key),
        lookup(entries, key) matches Some(value) ==> exists|i: int|
            0 <= i < entries.len() && #[trigger] entries[i] == (key, value),
    decreases entries.len(),
{
    if entries.len() > 0 {
        let rest = entries.skip(1);
        lemma_lookup_finds_keys(rest, key);
        if entries[0].0 == key {
            assert(entries[0] == (key, entries[0].1));
        } else {
            if has_key(rest, key) {
                let i = choose|i: int| 0 <= i < rest.len() && (#[trigger] rest[i]).0 == key;
                assert(entries[i + 1] == rest[i]);
            }
            if has_key(entries, key) {
                let i = choose|i: int| 0 <= i < entries.len() && (#[trigger] entries[i]).0 == key;
                assert(rest[i - 1] == entries[i]);
            }
            if let Some(value) = lookup(rest, key) {
                let i = choose|i: int| 0 <= i < rest.len() && #[trigger] rest[i] == (key, value);
                assert(entries[i + 1] == rest[i]);
            }
        }
    }
}

/// A key that none of the first `count` entries has is looked up among the
/// entries that follow them.
proof fn lemma_lookup_skips(entries: Entries, key: Seq<char>, count: int)
    requires
        0 <= count <= entries.len(),
        forall|i: int| 0 <= i < count ==> entries[i].0 != key,
    ensures
        lookup(entries, key) == lookup(entries.skip(count), key),
    decreases count,
{
    if count == 0 {
        assert(entries.skip(0) =~= entries);
    } else {
        lemma_lookup_skips(entries, key, count - 1);
        let rest = entries.skip(count - 1);
        assert(rest[0] == entries[count - 1]);
        assert(rest.skip(1) =~= entries.skip(count));
    }
}

impl Document {
    /// Looks up the value that the document gives for `key`.
    pub fn get(&self, key: &str) -> (found: Option<&Value>)
        ensures
            match found {
                Some(value) => lookup(self@, key@) == Some(value@),
                None => lookup(self@, key@) is None,
            },
    {
        let wanted = key.to_owned();
        let mut at: usize = 0;
        while at < self.entries.len()
            invariant
                at <= self.entries.len(),
                wanted@ == key@,
                forall|i: int| 0 <= i < at ==> self@[i].0 != key@,
            decreases self.entries.len() - at,
        {
            if self.entries[at].0 == wanted {
                proof {
                    lemma_lookup_skips(self@, key@, at as int);
                    assert(self@.skip(at as int)[0] == self@[at as int]);
                }
                return Some(&self.entries[at].1);
            }
            at += 1;
        }
        proof {
            lemma_lookup_skips(self@, key@, at as int);
        }
        None
    }
}

/// What the TOML parser makes of `text`: the top-level entries of the
/// document in the order of its table, or the parser's diagnostic where the
/// text is not a well-formed document.
pub uninterp spec fn toml_parse(text: Seq<char>) -> Result<Entries, Seq<char>>;

/// Model of a parser result.
pub open spec fn parsed_view(parsed: Result<Document, String>) -> Result<Entries, Seq<char>> {
    match parsed {
        Ok(document) => Ok(document@),
        Err(diagnostic) => Err(diagnostic@),
    }
}

/// Parses `text` with the `toml` crate, by `str::parse::<toml::Table>`.
///
/// Trusted: the parser's result depends on the text alone. A well-formed
/// document comes back as its top-level entries, walked in the order of the
/// parsed table, strings and integers with their values and every other kind
/// of value as [`Value::Other`]; a malformed one as the text of
/// `toml::de::Error::message`.
#[verifier::external_body]
pub(crate) fn parse_document(text: &str) -> (parsed: Result<Document, String>)
    ensures
        parsed_view(parsed) == toml_parse(text@),
{
    let table = match text.parse::<toml::Table>() {
        Ok(table) => table,
        Err(error) => return Err(error.message().to_string()),
    };
    let mut entries = Vec::new();
    for (key, value) in table {
        entries.push((key, match value {
            toml::Value::String(text) => Value::Text(text),
            toml::Value::Integer(number) => Value::Integer(number),
            _ => Value::Other,
        }));
    }
    Ok(Document { entries })
}

} // verus!
