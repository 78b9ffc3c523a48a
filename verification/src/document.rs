//! TOML documents, as the registry and the collection indexes are stored.
//!
//! A document is a table. One of its keys holds the section that this
//! library reads and writes, a table of text entries; whatever else the
//! document holds is carried along as it is.

use vstd::prelude::*;
use vstd::string::*;
use crate::collection::CollectionIndex;
use crate::error::{Error, Reason};
use crate::table::{as_map, distinct_keys, has_key, Entries, PairTable};
use crate::volume::FullConfig;

verus! {

/// A TOML value. Nothing inside it is visible here.
#[verifier::external_type_specification]
#[verifier::external_body]
pub struct ExTomlValue(toml::Value);

/// A TOML table. Nothing inside it is visible here.
#[verifier::external_type_specification]
#[verifier::external_body]
#[verifier::reject_recursive_types(K)]
#[verifier::reject_recursive_types(V)]
pub struct ExTomlMap<K, V>(toml::map::Map<K, V>);

/// What a table holds: its keys, each with its value.
pub uninterp spec fn table_entries(t: toml::Table) -> Map<Seq<char>, toml::Value>;

/// The text of a value that is a string.
pub uninterp spec fn value_text(v: toml::Value) -> Option<Seq<char>>;

/// The table of a value that is a table.
pub uninterp spec fn value_table(v: toml::Value) -> Option<toml::Table>;

/// The keys of a table.
pub open spec fn table_keys(t: toml::Table) -> Set<Seq<char>> {
    table_entries(t).dom()
}

/// The text entries of a table: each key whose value is a string, with the
/// string.
pub open spec fn table_texts(t: toml::Table) -> Map<Seq<char>, Seq<char>> {
    Map::new(
        |k: Seq<char>| table_entries(t).dom().contains(k) && value_text(table_entries(t)[k]) is Some,
        |k: Seq<char>| value_text(table_entries(t)[k])->0,
    )
}

/// The table that a table holds under a key, where the value under the key
/// is a table.
pub open spec fn table_child(t: toml::Table, key: Seq<char>) -> Option<toml::Table> {
    if table_entries(t).dom().contains(key) {
        value_table(table_entries(t)[key])
    } else {
        None
    }
}

/// The document that a text writes down, where it writes one.
pub uninterp spec fn parsed_document(text: Seq<char>) -> Option<toml::Table>;

/// A table written as TOML, where it can be written.
pub uninterp spec fn rendered_document(t: toml::Table) -> Option<Seq<char>>;

/// The key of the registry's section.
pub open spec fn volume_key() -> Seq<char> {
    "volume"@
}

/// The key of an index's section.
pub open spec fn collection_key() -> Seq<char> {
    "collection"@
}

/// What a document holds under a key.
pub enum Section {
    /// Nothing.
    Missing,
    /// A table.
    Table(toml::Table),
    /// A value that is no table.
    Other,
}

/// One entry of a table as it is handed out: the key, and the text where the
/// value is a string.
pub struct Item {
    pub key: String,
    pub text: Option<String>,
}

/// `Map::new`: a table without keys.
#[verifier::external_body]
pub(crate) fn empty_table() -> (t: toml::Table)
    ensures
        table_entries(t).dom() == Set::<Seq<char>>::empty(),
{
    toml::Table::new()
}

/// `Clone::clone` of a table: a table that holds the same.
#[verifier::external_body]
pub(crate) fn copy_table(t: &toml::Table) -> (copy: toml::Table)
    ensures
        copy == *t,
{
    t.clone()
}

/// `str::parse` to a table, which is `toml::from_str`: the document that the
/// text writes down, or the text of the error where it writes none.
#[verifier::external_body]
pub(crate) fn parse_table(text: &str) -> (parsed: Result<toml::Table, String>)
    ensures
        match parsed {
            Ok(table) => parsed_document(text@) == Some(table),
            Err(_) => parsed_document(text@) is None,
        },
{
    match text.parse::<toml::Table>() {
        Ok(table) => Ok(table),
        Err(e) => Err(e.to_string()),
    }
}

/// `toml::to_string` of a table: the table written as TOML, or the text of
/// the error where it cannot be written.
#[verifier::external_body]
pub(crate) fn render_table(t: &toml::Table) -> (written: Result<String, String>)
    ensures
        match written {
            Ok(text) => rendered_document(*t) == Some(text@),
            Err(_) => rendered_document(*t) is None,
        },
{
    match toml::to_string(t) {
        Ok(text) => Ok(text),
        Err(e) => Err(e.to_string()),
    }
}

/// `Map::get`, with the value told apart: nothing under the key, a table (of
/// which a copy is returned), or another value.
#[verifier::external_body]
pub(crate) fn section_of(doc: &toml::Table, key: &str) -> (section: Section)
    ensures
        match section {
            Section::Missing => !table_entries(*doc).dom().contains(key@),
            Section::Table(t) => table_entries(*doc).dom().contains(key@) && value_table(
                table_entries(*doc)[key@],
            ) == Some(t),
            Section::Other => table_entries(*doc).dom().contains(key@) && value_table(
                table_entries(*doc)[key@],
            ) is None,
        },
{
    match doc.get(key) {
        None => Section::Missing,
        Some(toml::Value::Table(t)) => Section::Table(t.clone()),
        Some(_) => Section::Other,
    }
}

/// The items are the entries of the table: each key of the table occurs
/// once, with its text where its value is a string and without one where it
/// is not.
pub open spec fn items_cover(t: toml::Table, items: Seq<Item>) -> bool {
    &&& forall|i: int, j: int|
        0 <= i < items.len() && 0 <= j < items.len() && i != j ==> (#[trigger] items[i]).key@ != (
        #[trigger] items[j]).key@
    &&& forall|i: int|
        0 <= i < items.len() ==> table_entries(t).dom().contains((#[trigger] items[i]).key@)
    &&& forall|k: Seq<char>| #[trigger]
        table_entries(t).dom().contains(k) ==> exists|i: int|
            0 <= i < items.len() && (#[trigger] items[i]).key@ == k
    &&& forall|i: int|
        0 <= i < items.len() ==> match (#[trigger] items[i]).text {
            Some(s) => value_text(table_entries(t)[items[i].key@]) == Some(s@),
            None => value_text(table_entries(t)[items[i].key@]) is None,
        }
}

/// `Map::iter` with `Value::as_str`: the entries of the table, each with its
/// key and, where its value is a string, the string.
#[verifier::external_body]
pub(crate) fn items_of(t: &toml::Table) -> (items: Vec<Item>)
    ensures
        items_cover(*t, items@),
{
    t.iter().map(|(k, v)| Item { key: k.clone(), text: v.as_str().map(str::to_owned) }).collect()
}

/// `Map::insert` of a string: the key holds the text from now on, and the
/// other keys hold what they held.
#[verifier::external_body]
pub(crate) fn put_text(t: &mut toml::Table, key: String, text: String)
    ensures
        table_entries(*final(t)).dom() == table_entries(*old(t)).dom().insert(key@),
        forall|k: Seq<char>|
            k != key@ && table_entries(*old(t)).dom().contains(k) ==> #[trigger] table_entries(
                *final(t),
            )[k] == table_entries(*old(t))[k],
        value_text(table_entries(*final(t))[key@]) == Some(text@),
        value_table(table_entries(*final(t))[key@]) is None,
{
    t.insert(key, toml::Value::String(text));
}

/// `Map::insert` of a table: the key holds the table from now on, and the
/// other keys hold what they held.
#[verifier::external_body]
pub(crate) fn put_section(doc: &mut toml::Table, key: &str, section: toml::Table)
    ensures
        table_entries(*final(doc)).dom() == table_entries(*old(doc)).dom().insert(key@),
        forall|k: Seq<char>|
            k != key@ && table_entries(*old(doc)).dom().contains(k) ==> #[trigger] table_entries(
                *final(doc),
            )[k] == table_entries(*old(doc))[k],
        value_table(table_entries(*final(doc))[key@]) == Some(section),
        value_text(table_entries(*final(doc))[key@]) is None,
{
    doc.insert(key.to_owned(), toml::Value::Table(section));
}

/// `Map::remove`: the key holds nothing from now on, and the other keys hold
/// what they held.
#[verifier::external_body]
pub(crate) fn drop_key(doc: &mut toml::Table, key: &str)
    ensures
        table_entries(*final(doc)) == table_entries(*old(doc)).remove(key@),
{
    doc.remove(key);
}

/// The mapping that entering the pairs one after the other leaves: where a
/// key occurs more than once, its last entry counts.
pub open spec fn entered(t: Entries) -> Map<Seq<char>, Seq<char>>
    decreases t.len(),
{
    if t.len() == 0 {
        Map::empty()
    } else {
        entered(t.drop_last()).insert(t.last().0, t.last().1)
    }
}

/// Every value of the table is a string.
pub open spec fn all_text(t: toml::Table) -> bool {
    table_texts(t).dom() == table_keys(t)
}

/// Where no key occurs twice, entering the pairs one after the other leaves
/// the mapping of the table.
pub proof fn lemma_entered_is_map(t: Entries)
    requires
        distinct_keys(t),
    ensures
        entered(t) == as_map(t),
    decreases t.len(),
{
    if t.len() == 0 {
        assert(as_map(t) =~= Map::<Seq<char>, Seq<char>>::empty());
    } else {
        let front = t.drop_last();
        assert(distinct_keys(front)) by {
            assert forall|i: int, j: int|
                0 <= i < front.len() && 0 <= j < front.len() && i != j implies (#[trigger] front[i]).0
                != (#[trigger] front[j]).0 by {
                assert(t[i].0 != t[j].0);
            }
        }
        lemma_entered_is_map(front);
        assert(!has_key(front, t.last().0)) by {
            if has_key(front, t.last().0) {
                let i = choose|i: int| 0 <= i < front.len() && (#[trigger] front[i]).0 == t.last().0;
                assert(t[i].0 == t[t.len() - 1].0);
            }
        }
        crate::table::lemma_map_push(front, t.last().0, t.last().1);
        assert(front.push(t.last()) == t);
    }
}

/// Reads a table of text entries. A value that is no string is refused, with
/// its key.
pub fn pairs_from_table(t: &toml::Table) -> (result: Result<PairTable, Error>)
    ensures
        all_text(*t) <==> result is Ok,
        result matches Ok(pairs) ==> distinct_keys(pairs@) && as_map(pairs@) == table_texts(*t),
        result matches Err(e) ==> e@.reason == Reason::InvalidDocument && table_keys(*t).contains(
            e@.subject,
        ) && !table_texts(*t).dom().contains(e@.subject),
{
    let items = items_of(t);
    let mut pairs = PairTable::new();
    let mut i: usize = 0;
    while i < items.len()
        invariant
            i <= items.len(),
            items_cover(*t, items@),
            pairs@.len() == i,
            forall|j: int| 0 <= j < i ==> (#[trigger] pairs@[j]).0 == items[j].key@,
            forall|j: int|
                0 <= j < i ==> table_texts(*t).contains_pair(
                    items[j].key@,
                    (#[trigger] pairs@[j]).1,
                ),
        decreases items.len() - i,
    {
        match &items[i].text {
            Some(text) => {
                pairs.push(items[i].key.clone(), text.clone());
            },
            None => {
                return Err(Error::new(Reason::InvalidDocument, items[i].key.as_str()));
            },
        }
        i += 1;
    }
    proof {
        let p = pairs@;
        let its = items@;
        assert(distinct_keys(p)) by {
            assert forall|a: int, b: int|
                0 <= a < p.len() && 0 <= b < p.len() && a != b implies (#[trigger] p[a]).0 != (
                #[trigger] p[b]).0 by {
                assert(its[a].key@ != its[b].key@);
            }
        }
        assert forall|k: Seq<char>| #[trigger]
            table_keys(*t).contains(k) implies has_key(p, k) && table_texts(*t).dom().contains(
            k,
        ) by {
            let j = choose|j: int| 0 <= j < its.len() && (#[trigger] its[j]).key@ == k;
            assert(p[j].0 == k);
            assert(table_texts(*t).contains_pair(its[j].key@, p[j].1));
        }
        assert forall|k: Seq<char>| #[trigger]
            table_texts(*t).dom().contains(k) implies table_keys(*t).contains(k) by {
            let j = choose|j: int| 0 <= j < its.len() && (#[trigger] its[j]).key@ == k;
            assert(table_keys(*t).contains(its[j].key@));
        }
        assert forall|k: Seq<char>| has_key(p, k) implies table_keys(*t).contains(k) && as_map(
            p,
        )[k] == table_texts(*t)[k] by {
            crate::table::lemma_key_has_first(p, k, p.len() as int);
            let j = crate::table::first_key_index(p, k);
            assert(its[j].key@ == k);
            assert(table_texts(*t).contains_pair(k, p[j].1));
            assert(table_keys(*t).contains(its[j].key@));
        }
        assert(table_texts(*t).dom() =~= table_keys(*t));
        assert(as_map(p).dom() =~= table_texts(*t).dom());
        assert(as_map(p) =~= table_texts(*t));
    }
    Ok(pairs)
}

/// Writes pairs as a table of text entries, one after the other.
pub fn table_from_pairs(pairs: &PairTable) -> (t: toml::Table)
    ensures
        table_texts(t) == entered(pairs@),
        table_keys(t) == entered(pairs@).dom(),
        all_text(t),
        distinct_keys(pairs@) ==> table_texts(t) == as_map(pairs@),
{
    let mut t = empty_table();
    let mut i: usize = 0;
    while i < pairs.len()
        invariant
            i <= pairs@.len(),
            table_texts(t) == entered(pairs@.take(i as int)),
            table_keys(t) == entered(pairs@.take(i as int)).dom(),
        decreases pairs@.len() - i,
    {
        proof {
            assert(pairs@.take(i + 1).drop_last() == pairs@.take(i as int));
            assert(pairs@.take(i + 1).last() == pairs@[i as int]);
        }
        put_text(&mut t, pairs.key_at(i).clone(), pairs.value_at(i).clone());
        i += 1;
    }
    proof {
        assert(pairs@.take(pairs@.len() as int) == pairs@);
        if distinct_keys(pairs@) {
            lemma_entered_is_map(pairs@);
        }
    }
    t
}


/// Two tables hold the same: the same keys, each with the same value.
pub open spec fn same_entries(a: toml::Table, b: toml::Table) -> bool {
    table_entries(a) == table_entries(b)
}

/// The table holds nothing under `key`.
pub open spec fn holds_nothing_under(t: toml::Table, key: Seq<char>) -> bool {
    !table_keys(t).contains(key)
}

/// `rest` is `doc` without what `doc` holds under `key`.
pub open spec fn is_rest_of(rest: toml::Table, doc: toml::Table, key: Seq<char>) -> bool {
    table_entries(rest) == table_entries(doc).remove(key)
}

/// The section under `key` cannot be read: the document holds a value there
/// that is no table, or a table with a value that is no string.
pub open spec fn section_unreadable(doc: toml::Table, key: Seq<char>) -> bool {
    table_keys(doc).contains(key) && match table_child(doc, key) {
        Some(child) => !all_text(child),
        None => true,
    }
}

/// The model of a table that may be absent.
pub open spec fn pairs_view(pairs: Option<PairTable>) -> Option<Entries> {
    match pairs {
        Some(p) => Some(p@),
        None => None,
    }
}

/// `pairs` and `rest` are what `doc` splits into at `key`: the pairs are the
/// text entries of the section, and there are none where the document has no
/// section; the rest is the document without the section.
pub open spec fn splits_into(
    doc: toml::Table,
    key: Seq<char>,
    pairs: Option<Entries>,
    rest: toml::Table,
) -> bool {
    &&& is_rest_of(rest, doc, key)
    &&& match pairs {
        Some(p) => {
            &&& table_keys(doc).contains(key)
            &&& distinct_keys(p)
            &&& table_child(doc, key) is Some
            &&& as_map(p) == table_texts(table_child(doc, key)->0)
        },
        None => !table_keys(doc).contains(key),
    }
}

/// `doc` is `rest` with the pairs as its section under `key`, or `rest` as
/// it is where there are no pairs.
pub open spec fn joins(
    doc: toml::Table,
    key: Seq<char>,
    pairs: Option<Entries>,
    rest: toml::Table,
) -> bool {
    match pairs {
        Some(p) => {
            &&& table_keys(doc) == table_keys(rest).insert(key)
            &&& forall|k: Seq<char>|
                k != key && table_keys(rest).contains(k) ==> #[trigger] table_entries(doc)[k]
                    == table_entries(rest)[k]
            &&& table_child(doc, key) is Some
            &&& all_text(table_child(doc, key)->0)
            &&& table_texts(table_child(doc, key)->0) == entered(p)
        },
        None => same_entries(doc, rest),
    }
}

/// Takes the section under `key` out of a document: its text entries, and
/// the document without it. A document without the section gives no table.
pub fn split_document(doc: toml::Table, key: &str) -> (result: Result<
    (Option<PairTable>, toml::Table),
    Error,
>)
    ensures
        result is Err <==> section_unreadable(doc, key@),
        result matches Ok(parts) ==> splits_into(doc, key@, pairs_view(parts.0), parts.1),
        result matches Err(e) ==> e@.reason == Reason::InvalidDocument,
{
    let mut rest = doc;
    let pairs: Option<PairTable> = match section_of(&rest, key) {
        Section::Missing => None,
        Section::Other => {
            return Err(Error::new(Reason::InvalidDocument, key));
        },
        Section::Table(child) => match pairs_from_table(&child) {
            Ok(pairs) => Some(pairs),
            Err(e) => {
                return Err(e);
            },
        },
    };
    drop_key(&mut rest, key);
    Ok((pairs, rest))
}

/// Puts the pairs under `key` into a copy of `rest`, as a table of text
/// entries. Without pairs the copy is left as it is.
pub fn join_document(pairs: Option<&PairTable>, rest: &toml::Table, key: &str) -> (doc: toml::Table)
    ensures
        joins(
            doc,
            key@,
            match pairs {
                Some(p) => Some(p@),
                None => None,
            },
            *rest,
        ),
{
    let mut doc = copy_table(rest);
    match pairs {
        Some(p) => {
            put_section(&mut doc, key, table_from_pairs(p));
        },
        None => {},
    }
    doc
}

/// A document that was joined can be split again: the entries are those that
/// were entered, and the rest holds what the rest held. So whatever a
/// document holds beside the section comes through a cycle of writing and
/// reading unchanged, and a registry without a table stays without one.
pub proof fn lemma_join_then_split(
    doc: toml::Table,
    key: Seq<char>,
    pairs: Option<Entries>,
    rest: toml::Table,
    pairs_again: Option<Entries>,
    rest_again: toml::Table,
)
    requires
        joins(doc, key, pairs, rest),
        pairs is None ==> holds_nothing_under(rest, key),
    ensures
        !section_unreadable(doc, key),
        splits_into(doc, key, pairs_again, rest_again) ==> {
            &&& is_rest_of(rest_again, rest, key)
            &&& holds_nothing_under(rest, key) ==> same_entries(rest_again, rest)
            &&& pairs is None <==> pairs_again is None
            &&& pairs matches Some(p) ==> as_map(pairs_again->0) == entered(p) && (distinct_keys(p)
                ==> as_map(pairs_again->0) == as_map(p))
        },
{
    if splits_into(doc, key, pairs_again, rest_again) {
        match pairs {
            Some(p) => {
                assert(table_keys(doc).contains(key));
                if distinct_keys(p) {
                    lemma_entered_is_map(p);
                }
                assert(table_entries(doc).remove(key) =~= table_entries(rest).remove(key)) by {
                    assert(table_keys(doc).remove(key) =~= table_keys(rest).remove(key));
                }
            },
            None => {},
        }
        if holds_nothing_under(rest, key) {
            assert(table_entries(rest).remove(key) =~= table_entries(rest));
        }
    } else {
        if pairs is Some {
            assert(table_keys(doc).contains(key));
        }
    }
}

/// A document that was split can be joined again: the result has the keys
/// of the document and holds what the document held under every other key;
/// under the key of the section it holds a table of the same text entries,
/// and nothing where the document had no section. So reading a document and
/// writing it again changes nothing of its content.
pub proof fn lemma_split_then_join(
    doc: toml::Table,
    key: Seq<char>,
    pairs: Option<Entries>,
    rest: toml::Table,
    doc_again: toml::Table,
)
    requires
        splits_into(doc, key, pairs, rest),
        joins(doc_again, key, pairs, rest),
    ensures
        table_keys(doc_again) == table_keys(doc),
        forall|k: Seq<char>|
            k != key && table_keys(doc).contains(k) ==> #[trigger] table_entries(doc_again)[k]
                == table_entries(doc)[k],
        table_keys(doc).contains(key) ==> {
            &&& table_child(doc_again, key) is Some
            &&& all_text(table_child(doc_again, key)->0)
            &&& table_texts(table_child(doc_again, key)->0) == table_texts(
                table_child(doc, key)->0,
            )
        },
        !table_keys(doc).contains(key) ==> same_entries(doc_again, doc),
{
    match pairs {
        Some(p) => {
            lemma_entered_is_map(p);
            assert(table_keys(doc_again) =~= table_keys(doc)) by {
                assert(table_keys(rest) =~= table_keys(doc).remove(key));
            }
        },
        None => {
            assert(table_entries(doc).remove(key) =~= table_entries(doc));
        },
    }
    assert forall|k: Seq<char>| k != key && table_keys(doc).contains(k) implies #[trigger]
        table_entries(doc_again)[k] == table_entries(doc)[k] by {
        assert(table_entries(rest)[k] == table_entries(doc).remove(key)[k]);
    }
}

/// The result is the document written as TOML, or a failure where it cannot
/// be written.
pub open spec fn is_written(doc: toml::Table, result: Result<String, Error>) -> bool {
    match result {
        Ok(text) => rendered_document(doc) == Some(text@),
        Err(e) => rendered_document(doc) is None && e@.reason == Reason::InvalidDocument,
    }
}

/// Reads the section under `key` from the text of a document, and the rest
/// of the document beside it.
pub fn read_section(text: &str, key: &str) -> (result: Result<
    (Option<PairTable>, toml::Table),
    Error,
>)
    ensures
        match parsed_document(text@) {
            None => result is Err,
            Some(doc) => {
                &&& result is Err <==> section_unreadable(doc, key@)
                &&& result matches Ok(parts) ==> splits_into(
                    doc,
                    key@,
                    pairs_view(parts.0),
                    parts.1,
                )
            },
        },
        result matches Err(e) ==> e@.reason == Reason::InvalidDocument,
{
    match parse_table(text) {
        Err(message) => Err(Error::new(Reason::InvalidDocument, message.as_str())),
        Ok(doc) => split_document(doc, key),
    }
}

/// Reads the registry from the text of its document. The section `volume`
/// gives the table of volumes, and a document without the section gives a
/// registry without a table; whatever else the document holds is kept as the
/// rest.
pub fn load_config(text: &str) -> (result: Result<FullConfig, Error>)
    ensures
        match parsed_document(text@) {
            None => result is Err,
            Some(doc) => {
                &&& result is Err <==> section_unreadable(doc, volume_key())
                &&& result matches Ok(config) ==> splits_into(
                    doc,
                    volume_key(),
                    pairs_view(config.volume),
                    config.rest,
                )
            },
        },
        result matches Err(e) ==> e@.reason == Reason::InvalidDocument,
{
    match read_section(text, "volume") {
        Ok((volume, rest)) => Ok(FullConfig { volume, rest }),
        Err(e) => Err(e),
    }
}

/// Writes the registry as the text of its document: the rest of the document
/// with the table of volumes as the section `volume`. A registry without a
/// table is written without the section.
pub fn save_config(config: &FullConfig) -> (result: Result<String, Error>)
    ensures
        exists|doc: toml::Table|
            joins(doc, volume_key(), pairs_view(config.volume), config.rest) && #[trigger] is_written(
                doc,
                result,
            ),
{
    let doc = match &config.volume {
        Some(table) => join_document(Some(table), &config.rest, "volume"),
        None => join_document(None, &config.rest, "volume"),
    };
    let result = match render_table(&doc) {
        Ok(text) => Ok(text),
        Err(message) => Err(Error::new(Reason::InvalidDocument, message.as_str())),
    };
    assert(joins(doc, volume_key(), pairs_view(config.volume), config.rest) && is_written(
        doc,
        result,
    ));
    result
}

/// `pairs` and `rest` are what `doc` splits into at `key`, with no pairs for
/// a document without the section.
pub open spec fn starts_or_splits_into(
    doc: toml::Table,
    key: Seq<char>,
    pairs: Entries,
    rest: toml::Table,
) -> bool {
    if table_keys(doc).contains(key) {
        splits_into(doc, key, Some(pairs), rest)
    } else {
        splits_into(doc, key, None, rest) && pairs.len() == 0
    }
}

/// Reads the index of a volume from the text of its document, or starts an
/// empty index where the volume has none yet. The section `collection` gives
/// the table of collections; whatever else the document holds is kept as the
/// rest.
pub fn load_or_init_index(text: Option<&str>) -> (result: Result<CollectionIndex, Error>)
    ensures
        match text {
            None => result is Ok && result->Ok_0.collection@.len() == 0 && table_keys(
                result->Ok_0.rest,
            ) == Set::<Seq<char>>::empty(),
            Some(held) => match parsed_document(held@) {
                None => result is Err,
                Some(doc) => {
                    &&& result is Err <==> section_unreadable(doc, collection_key())
                    &&& result matches Ok(index) ==> starts_or_splits_into(
                        doc,
                        collection_key(),
                        index.collection@,
                        index.rest,
                    )
                },
            },
        },
        result matches Err(e) ==> e@.reason == Reason::InvalidDocument,
{
    let held: &str = match text {
        None => {
            return Ok(CollectionIndex { collection: PairTable::new(), rest: empty_table() });
        },
        Some(held) => held,
    };
    match read_section(held, "collection") {
        Ok((Some(collection), rest)) => Ok(CollectionIndex { collection, rest }),
        Ok((None, rest)) => Ok(CollectionIndex { collection: PairTable::new(), rest }),
        Err(e) => Err(e),
    }
}

/// Writes the index of a volume as the text of its document: the rest of the
/// document with the table of collections as the section `collection`.
pub fn save_index(index: &CollectionIndex) -> (result: Result<String, Error>)
    ensures
        exists|doc: toml::Table|
            joins(doc, collection_key(), Some(index.collection@), index.rest) && #[trigger] is_written(
                doc,
                result,
            ),
{
    let doc = join_document(Some(&index.collection), &index.rest, "collection");
    let result = match render_table(&doc) {
        Ok(text) => Ok(text),
        Err(message) => Err(Error::new(Reason::InvalidDocument, message.as_str())),
    };
    assert(joins(doc, collection_key(), Some(index.collection@), index.rest) && is_written(
        doc,
        result,
    ));
    result
}

} // verus!
