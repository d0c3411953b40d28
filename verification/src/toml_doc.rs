use vstd::prelude::*;
use toml_edit::{Array, DocumentMut, Item, Value};
use crate::strings::owned;

verus! {

#[verifier::external_type_specification]
#[verifier::external_body]
pub struct ExDocumentMut(DocumentMut);

#[verifier::external_type_specification]
#[verifier::external_body]
pub struct ExItem(Item);

#[verifier::external_type_specification]
#[verifier::external_body]
pub struct ExArray(Array);

#[verifier::external_type_specification]
#[verifier::external_body]
pub struct ExValue(Value);

/// What this library reads of a TOML item.
pub enum TomlEntry {
    /// A string value.
    Str(Seq<char>),
    /// An array value, element by element: `None` for a slot that holds no value,
    /// `Some(Some(s))` for the string `s`, `Some(None)` for any other value.
    Array(Seq<Option<Option<Seq<char>>>>),
    /// Any other item: a number, a boolean, a date, a table, an array of tables.
    Other,
}

/// The top-level entries of a document, by key (keys whose item is empty are absent).
pub uninterp spec fn toml_doc_entries(doc: DocumentMut) -> Map<Seq<char>, TomlEntry>;

/// The top-level entries of the document that a text parses to, or `None` if it is not TOML.
pub uninterp spec fn toml_parse_entries(text: Seq<char>) -> Option<Map<Seq<char>, TomlEntry>>;

/// What an item holds.
pub uninterp spec fn toml_item_entry(item: Item) -> TomlEntry;

/// The elements of an array.
pub uninterp spec fn toml_array_elems(a: Array) -> Seq<Option<Option<Seq<char>>>>;

/// The string a value holds, if it is a string.
pub uninterp spec fn toml_value_str(v: Value) -> Option<Seq<char>>;

/// `DocumentMut::from_str`: parse a TOML document. The contract names the
/// parsed entries and says nothing of which texts are TOML.
#[verifier::external_body]
pub fn parse_toml(text: &str) -> (r: Option<DocumentMut>)
    ensures
        r is Some <==> toml_parse_entries(text@) is Some,
        r matches Some(d) ==> toml_doc_entries(d) == toml_parse_entries(text@)->0,
{
    text.parse::<DocumentMut>().ok()
}

/// `DocumentMut::new`: an empty document.
#[verifier::external_body]
pub fn new_toml() -> (doc: DocumentMut)
    ensures
        toml_doc_entries(doc).dom() == Set::<Seq<char>>::empty(),
{
    DocumentMut::new()
}

/// `Table::get` on the document's root table: the item under `key`, unless absent or empty.
#[verifier::external_body]
fn toml_get<'a>(doc: &'a DocumentMut, key: &str) -> (r: Option<&'a Item>)
    ensures
        r is Some <==> toml_doc_entries(*doc).contains_key(key@),
        r matches Some(i) ==> toml_item_entry(*i) == toml_doc_entries(*doc)[key@],
{
    doc.get(key)
}

/// `Item::as_str`: the string an item holds.
#[verifier::external_body]
fn item_str(item: &Item) -> (r: Option<String>)
    ensures
        r is Some <==> toml_item_entry(*item) is Str,
        r matches Some(s) ==> toml_item_entry(*item) == TomlEntry::Str(s@),
{
    item.as_str().map(String::from)
}

/// `Item::as_array`: the array an item holds.
#[verifier::external_body]
fn item_array<'a>(item: &'a Item) -> (r: Option<&'a Array>)
    ensures
        r is Some <==> toml_item_entry(*item) is Array,
        r matches Some(a) ==> toml_item_entry(*item) == TomlEntry::Array(toml_array_elems(*a)),
{
    item.as_array()
}

/// `Array::len`: the number of elements.
#[verifier::external_body]
fn array_len(a: &Array) -> (n: usize)
    ensures
        n == toml_array_elems(*a).len(),
{
    a.len()
}

/// `Array::get`: the element at `i`, if it is a value.
#[verifier::external_body]
fn array_get<'a>(a: &'a Array, i: usize) -> (r: Option<&'a Value>)
    ensures
        r is Some <==> (i < toml_array_elems(*a).len() && toml_array_elems(*a)[i as int] is Some),
        r matches Some(v) ==> toml_array_elems(*a)[i as int] == Some(toml_value_str(*v)),
{
    a.get(i)
}

/// `Value::as_str`: the string a value holds.
#[verifier::external_body]
fn value_str(v: &Value) -> (r: Option<String>)
    ensures
        r is Some <==> toml_value_str(*v) is Some,
        r matches Some(s) ==> toml_value_str(*v) == Some(s@),
{
    v.as_str().map(String::from)
}

/// `doc[key] = toml_edit::value(s)`: set a top-level string.
#[verifier::external_body]
pub(crate) fn toml_set_str(doc: &mut DocumentMut, key: &str, s: &str)
    ensures
        toml_doc_entries(*final(doc)) == toml_doc_entries(*old(doc)).insert(key@, TomlEntry::Str(s@)),
{
    doc[key] = toml_edit::value(s);
}

/// `doc[key] = toml_edit::value(Array::new())`: set a top-level empty array.
#[verifier::external_body]
fn toml_set_empty_array(doc: &mut DocumentMut, key: &str)
    ensures
        toml_doc_entries(*final(doc)) == toml_doc_entries(*old(doc)).insert(key@, TomlEntry::Array(Seq::empty())),
{
    doc[key] = toml_edit::value(Array::new());
}

/// `Array::push` on the top-level array under `key`: append a string.
#[verifier::external_body]
fn toml_array_push(doc: &mut DocumentMut, key: &str, s: &str)
    requires
        toml_doc_entries(*old(doc)).contains_key(key@),
        toml_doc_entries(*old(doc))[key@] is Array,
    ensures
        toml_doc_entries(*final(doc)) == toml_doc_entries(*old(doc)).insert(
            key@,
            TomlEntry::Array(toml_doc_entries(*old(doc))[key@]->Array_0.push(Some(Some(s@)))),
        ),
{
    if let Some(arr) = doc[key].as_array_mut() {
        arr.push(s);
    }
}

/// The string under `key`, if the entry there is a string.
pub open spec fn entry_str(entries: Map<Seq<char>, TomlEntry>, key: Seq<char>) -> Option<Seq<char>> {
    if entries.contains_key(key) && entries[key] is Str {
        Some(entries[key]->Str_0)
    } else {
        None
    }
}

/// The array under `key`, or an empty one when the entry there is not an array.
pub open spec fn entry_list(entries: Map<Seq<char>, TomlEntry>, key: Seq<char>) -> Seq<Option<Option<Seq<char>>>> {
    if entries.contains_key(key) && entries[key] is Array {
        entries[key]->Array_0
    } else {
        Seq::empty()
    }
}

/// `list` with the string `s` appended, unless it holds it already.
pub open spec fn list_with(list: Seq<Option<Option<Seq<char>>>>, s: Seq<char>) -> Seq<Option<Option<Seq<char>>>> {
    if list.contains(Some(Some(s))) {
        list
    } else {
        list.push(Some(Some(s)))
    }
}

/// The string stored under `key`, if there is one.
pub fn lookup_str(doc: &DocumentMut, key: &str) -> (r: Option<String>)
    ensures
        crate::strings::opt_view(r) == entry_str(toml_doc_entries(*doc), key@),
{
    match toml_get(doc, key) {
        Some(item) => item_str(item),
        None => None,
    }
}

/// Whether the array holds the string `s`.
fn array_has_str(a: &Array, s: &str) -> (b: bool)
    ensures
        b == toml_array_elems(*a).contains(Some(Some(s@))),
{
    let n = array_len(a);
    let ghost elems = toml_array_elems(*a);
    let mut i: usize = 0;
    while i < n
        invariant
            n == elems.len(),
            elems == toml_array_elems(*a),
            i <= n,
            forall|k: int| 0 <= k < i ==> elems[k] != Some(Some(s@)),
        decreases n - i,
    {
        match array_get(a, i) {
            Some(v) => {
                match value_str(v) {
                    Some(x) => {
                        if crate::strings::str_eq(x.as_str(), s) {
                            assert(elems[i as int] == Some(Some(s@)));
                            return true;
                        }
                    },
                    None => {},
                }
            },
            None => {},
        }
        i = i + 1;
    }
    false
}

/// The document a config file holds: its parsed text, or an empty document when
/// there is no file. `None` when the text is not TOML.
pub fn load_or_new(text: Option<&str>) -> (r: Option<DocumentMut>)
    ensures
        match text {
            Some(t) => {
                &&& (r is Some <==> toml_parse_entries(t@) is Some)
                &&& r matches Some(d) ==> toml_doc_entries(d) == toml_parse_entries(t@)->0
            },
            None => r matches Some(d) && toml_doc_entries(d).dom() == Set::<Seq<char>>::empty(),
        },
{
    match text {
        Some(t) => parse_toml(t),
        None => Some(new_toml()),
    }
}

/// The config key that lists read-write (`write`) or read-only paths.
pub fn list_key(write: bool) -> (k: String)
    ensures
        k@ == (if write { "allow-write"@ } else { "allow-read"@ }),
{
    if write {
        owned("allow-write")
    } else {
        owned("allow-read")
    }
}

/// Add `s` to the string array under `key`, once. An entry there that is not an
/// array is replaced by an empty array first.
pub fn add_to_list(doc: &mut DocumentMut, key: &str, s: &str)
    ensures
        toml_doc_entries(*final(doc)) == toml_doc_entries(*old(doc)).insert(
            key@,
            TomlEntry::Array(list_with(entry_list(toml_doc_entries(*old(doc)), key@), s@)),
        ),
{
    let is_array = match toml_get(doc, key) {
        Some(item) => item_array(item).is_some(),
        None => false,
    };
    let ghost start = toml_doc_entries(*doc);
    if !is_array {
        toml_set_empty_array(doc, key);
    }
    let ghost mid = toml_doc_entries(*doc);
    assert(mid.contains_key(key@) && mid[key@] == TomlEntry::Array(entry_list(start, key@)));
    let present = match toml_get(doc, key) {
        Some(item) => match item_array(item) {
            Some(a) => array_has_str(a, s),
            None => false,
        },
        None => false,
    };
    if !present {
        toml_array_push(doc, key, s);
        assert(toml_doc_entries(*doc) =~= start.insert(key@, TomlEntry::Array(list_with(entry_list(start, key@), s@))));
    } else {
        assert(toml_doc_entries(*doc) =~= start.insert(key@, TomlEntry::Array(list_with(entry_list(start, key@), s@))));
    }
}

/// Adding a path twice leaves the document as adding it once does.
pub proof fn lemma_add_to_list_idempotent(entries: Map<Seq<char>, TomlEntry>, key: Seq<char>, s: Seq<char>)
    ensures
        ({
            let once = entries.insert(key, TomlEntry::Array(list_with(entry_list(entries, key), s)));
            once.insert(key, TomlEntry::Array(list_with(entry_list(once, key), s))) == once
        }),
{
    let l = list_with(entry_list(entries, key), s);
    let once = entries.insert(key, TomlEntry::Array(l));
    assert(entry_list(once, key) == l);
    assert(l.contains(Some(Some(s)))) by {
        if !entry_list(entries, key).contains(Some(Some(s))) {
            assert(l[l.len() - 1] == Some(Some(s)));
        }
    }
    assert(once.insert(key, TomlEntry::Array(list_with(entry_list(once, key), s))) =~= once);
}

/// After adding, the list holds the path, keeps what it held, and no other key changes.
pub proof fn lemma_add_to_list_holds(entries: Map<Seq<char>, TomlEntry>, key: Seq<char>, s: Seq<char>, other: Seq<char>)
    requires
        other != key,
    ensures
        ({
            let after = entries.insert(key, TomlEntry::Array(list_with(entry_list(entries, key), s)));
            &&& entry_list(after, key).contains(Some(Some(s)))
            &&& entry_list(after, key).subrange(0, entry_list(entries, key).len() as int) == entry_list(entries, key)
            &&& after.contains_key(other) == entries.contains_key(other)
            &&& entries.contains_key(other) ==> after[other] == entries[other]
        }),
{
    let old_list = entry_list(entries, key);
    let l = list_with(old_list, s);
    if !old_list.contains(Some(Some(s))) {
        assert(l[l.len() - 1] == Some(Some(s)));
        assert(l.subrange(0, old_list.len() as int) =~= old_list);
    } else {
        assert(l.subrange(0, old_list.len() as int) =~= old_list);
    }
}

/// A stored string is read back as it was written.
pub proof fn lemma_read_after_write(entries: Map<Seq<char>, TomlEntry>, key: Seq<char>, s: Seq<char>)
    ensures
        entry_str(entries.insert(key, TomlEntry::Str(s)), key) == Some(s),
{
}

} // verus!
