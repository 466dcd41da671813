//! Cargo.toml editing.
//!
//! Relaxes a direct dependency's version requirement when it is the reason a
//! downgrade can never succeed, rather than a transient ordering issue that
//! later clears on its own. Uses `toml_edit` so only the touched requirement
//! changes, not the rest of the file's formatting.

use crate::error::PinError;
use crate::version::{semver_parse, semver_req_matches, semver_req_parses, Requirement, SemVer, VersionView};
use vstd::prelude::*;

verus! {

/// `toml_edit::DocumentMut`, an editable TOML document.
#[verifier::external_type_specification]
#[verifier::external_body]
pub struct ExDocumentMut(toml_edit::DocumentMut);

/// What stands at a key of a TOML document, as far as finding a version
/// requirement goes.
#[derive(Debug)]
pub enum TomlEntry {
    /// Nothing is there (or what contains it is not a table).
    Absent,
    /// A string value.
    Text(String),
    /// A table or an inline table.
    Table,
    /// Any other value.
    Other,
}

/// What a present TOML item is.
pub enum EntryView {
    Text(Seq<char>),
    Table,
    Other,
}

/// The items of a document, by key path: every path whose proper prefixes
/// all lead to tables (or inline tables), mapped to what stands there.
pub uninterp spec fn toml_entries(doc: toml_edit::DocumentMut) -> Map<Seq<Seq<char>>, EntryView>;

/// The text `toml_edit` renders a document as.
pub uninterp spec fn toml_render(doc: toml_edit::DocumentMut) -> Seq<char>;

/// The items of the document that `toml_edit` parses from a text, or `None`
/// where the text is not valid TOML.
pub uninterp spec fn toml_parse(text: Seq<char>) -> Option<Map<Seq<Seq<char>>, EntryView>>;

/// What stands at `path`, if anything.
pub open spec fn entry_at(entries: Map<Seq<Seq<char>>, EntryView>, path: Seq<Seq<char>>) -> Option<EntryView> {
    if entries.dom().contains(path) {
        Some(entries[path])
    } else {
        None
    }
}

/// The entry `e` reports what `found` says stands there.
pub open spec fn reports(e: TomlEntry, found: Option<EntryView>) -> bool {
    match e {
        TomlEntry::Absent => found is None,
        TomlEntry::Text(s) => found == Some(EntryView::Text(s@)),
        TomlEntry::Table => found == Some(EntryView::Table),
        TomlEntry::Other => found == Some(EntryView::Other),
    }
}

/// A text that `toml_edit` writes as a basic string without escapes:
/// printable ASCII other than `"` and `\`.
pub open spec fn is_plain_text(t: Seq<char>) -> bool {
    forall|i: int| 0 <= i < t.len()
        ==> (' ' as int) <= (#[trigger] t[i] as int) <= ('~' as int) && t[i] != '"' && t[i] != '\\'
}

/// `t` written as a TOML basic string.
pub open spec fn basic_string(t: Seq<char>) -> Seq<char> {
    seq!['"'] + t + seq!['"']
}

/// `after` is `before` with one stretch of it replaced by `replacement`;
/// everything around that stretch is kept as it was.
pub open spec fn replaces_one_stretch(before: Seq<char>, after: Seq<char>, replacement: Seq<char>) -> bool {
    exists|pre: Seq<char>, gone: Seq<char>, post: Seq<char>|
        #[trigger] (pre + gone + post) == before && #[trigger] (pre + replacement + post) == after
}

/// `toml_edit`'s `FromStr` for `DocumentMut`: the parsed document holds what
/// [`toml_parse`] names.
#[verifier::external_body]
fn parse_document(text: &str) -> (r: Result<toml_edit::DocumentMut, toml_edit::TomlError>)
    ensures
        match r {
            Ok(doc) => toml_parse(text@) == Some(toml_entries(doc)),
            Err(_) => toml_parse(text@) is None,
        },
{
    text.parse::<toml_edit::DocumentMut>()
}

/// `toml_edit`'s `Display` for `DocumentMut`: the text is what
/// [`toml_render`] names.
#[verifier::external_body]
fn render_document(doc: &toml_edit::DocumentMut) -> (r: String)
    ensures
        r@ == toml_render(*doc),
{
    doc.to_string()
}

/// `Table::get`, `Item::as_table_like` and `TableLike::get` on the document:
/// what stands at `table.key`. The result is classified by `Item::as_str`
/// and `Item::is_table_like`.
#[verifier::external_body]
fn entry_in_table(doc: &toml_edit::DocumentMut, table: &str, key: &str) -> (r: TomlEntry)
    ensures
        reports(r, entry_at(toml_entries(*doc), seq![table@, key@])),
{
    match doc.get(table).and_then(toml_edit::Item::as_table_like).and_then(|t| t.get(key)) {
        None => TomlEntry::Absent,
        Some(item) => match item.as_str() {
            Some(s) => TomlEntry::Text(s.to_owned()),
            None if item.is_table_like() => TomlEntry::Table,
            None => TomlEntry::Other,
        },
    }
}

/// As [`entry_in_table`], one level deeper: what stands at
/// `table.key.subkey`.
#[verifier::external_body]
fn entry_in_entry(doc: &toml_edit::DocumentMut, table: &str, key: &str, subkey: &str) -> (r: TomlEntry)
    ensures
        reports(r, entry_at(toml_entries(*doc), seq![table@, key@, subkey@])),
{
    match doc
        .get(table)
        .and_then(toml_edit::Item::as_table_like)
        .and_then(|t| t.get(key))
        .and_then(toml_edit::Item::as_table_like)
        .and_then(|t| t.get(subkey))
    {
        None => TomlEntry::Absent,
        Some(item) => match item.as_str() {
            Some(s) => TomlEntry::Text(s.to_owned()),
            None if item.is_table_like() => TomlEntry::Table,
            None => TomlEntry::Other,
        },
    }
}

/// `Item::as_value_mut` at `table.key`, then `Value::from` a string, keeping
/// the old value's `Decor` (its surrounding whitespace and comments): the
/// string at that path becomes `text` and no other item changes. The
/// document's `Display` writes each value as its decor around its
/// representation, in place; a new string value has no stored
/// representation, so it is written as `toml_write` picks, which for a plain
/// text is the basic string `"text"`. So the rendering changes in one
/// stretch only: the old value's representation becomes that string.
#[verifier::external_body]
fn set_text_in_table(doc: &mut toml_edit::DocumentMut, table: &str, key: &str, text: &str)
    requires
        entry_at(toml_entries(*old(doc)), seq![table@, key@]) matches Some(EntryView::Text(_)),
    ensures
        toml_entries(*final(doc)) == toml_entries(*old(doc)).insert(seq![table@, key@], EntryView::Text(text@)),
        is_plain_text(text@) ==> replaces_one_stretch(toml_render(*old(doc)), toml_render(*final(doc)), basic_string(text@)),
{
    if let Some(value) = doc
        .get_mut(table)
        .and_then(toml_edit::Item::as_table_like_mut)
        .and_then(|t| t.get_mut(key))
        .and_then(toml_edit::Item::as_value_mut)
    {
        let decor = value.decor().clone();
        *value = toml_edit::Value::from(text);
        *value.decor_mut() = decor;
    }
}

/// As [`set_text_in_table`], one level deeper: the string at
/// `table.key.subkey` becomes `text`, and the rendering changes in that
/// value's stretch only.
#[verifier::external_body]
fn set_text_in_entry(doc: &mut toml_edit::DocumentMut, table: &str, key: &str, subkey: &str, text: &str)
    requires
        entry_at(toml_entries(*old(doc)), seq![table@, key@, subkey@]) matches Some(EntryView::Text(_)),
    ensures
        toml_entries(*final(doc)) == toml_entries(*old(doc)).insert(
            seq![table@, key@, subkey@],
            EntryView::Text(text@),
        ),
        is_plain_text(text@) ==> replaces_one_stretch(toml_render(*old(doc)), toml_render(*final(doc)), basic_string(text@)),
{
    if let Some(value) = doc
        .get_mut(table)
        .and_then(toml_edit::Item::as_table_like_mut)
        .and_then(|t| t.get_mut(key))
        .and_then(toml_edit::Item::as_table_like_mut)
        .and_then(|t| t.get_mut(subkey))
        .and_then(toml_edit::Item::as_value_mut)
    {
        let decor = value.decor().clone();
        *value = toml_edit::Value::from(text);
        *value.decor_mut() = decor;
    }
}

/// The tables a dependency can be declared in, in the order they are searched.
pub open spec fn dependency_tables() -> Seq<Seq<char>> {
    seq!["dependencies"@, "dev-dependencies"@, "build-dependencies"@]
}

/// Where `name`'s version requirement stands in `table`, and what it says:
/// the entry itself for `name = "req"`, or its `version` key for
/// `name = { version = "req", ... }` and `[table.name]` forms.
pub open spec fn requirement_slot(
    entries: Map<Seq<Seq<char>>, EntryView>,
    table: Seq<char>,
    name: Seq<char>,
) -> Option<(Seq<Seq<char>>, Seq<char>)> {
    match entry_at(entries, seq![table, name]) {
        Some(EntryView::Text(req)) => Some((seq![table, name], req)),
        Some(EntryView::Table) => match entry_at(entries, seq![table, name, "version"@]) {
            Some(EntryView::Text(req)) => Some((seq![table, name, "version"@], req)),
            _ => None,
        },
        _ => None,
    }
}

/// A requirement that parses and rules out `target`.
pub open spec fn excludes(req: Seq<char>, target: VersionView) -> bool {
    semver_req_parses(req) && !semver_req_matches(req, target)
}

/// The path of the first requirement for `name`, searching `tables` in
/// order, that rules out `target`.
pub open spec fn blocking_slot(
    entries: Map<Seq<Seq<char>>, EntryView>,
    tables: Seq<Seq<char>>,
    name: Seq<char>,
    target: VersionView,
) -> Option<Seq<Seq<char>>>
    decreases tables.len(),
{
    if tables.len() == 0 {
        None
    } else {
        match requirement_slot(entries, tables[0], name) {
            Some((path, req)) if excludes(req, target) => Some(path),
            _ => blocking_slot(entries, tables.drop_first(), name, target),
        }
    }
}

/// The requirement `={version}` that pins exactly `version`.
pub open spec fn pinned(version: Seq<char>) -> Seq<char> {
    "="@ + version
}

/// The requirement for `name` in `table`, and whether it sits under a
/// `version` key.
fn requirement_in(doc: &toml_edit::DocumentMut, table: &str, name: &str) -> (r: Option<(String, bool)>)
    ensures
        match requirement_slot(toml_entries(*doc), table@, name@) {
            None => r is None,
            Some((path, req)) => r matches Some((s, nested)) && s@ == req
                && path == (if nested { seq![table@, name@, "version"@] } else { seq![table@, name@] }),
        },
{
    match entry_in_table(doc, table, name) {
        TomlEntry::Text(req) => Some((req, false)),
        TomlEntry::Table => match entry_in_entry(doc, table, name, "version") {
            TomlEntry::Text(req) => Some((req, true)),
            _ => None,
        },
        _ => None,
    }
}

/// If `name`'s requirement in `doc` excludes `new_version`, pin it there
/// directly (preserving the rest of the entry, e.g. `features`, and of the
/// rendered text) and report `true`. A requirement that already allows
/// `new_version` is left alone.
pub fn relax_requirement(doc: &mut toml_edit::DocumentMut, name: &str, new_version: &str) -> (r: Result<bool, PinError>)
    ensures
        match r {
            Err(e) => semver_parse(new_version@) is None
                && (e matches PinError::InvalidVersion { version, .. } && version@ == new_version@)
                && *final(doc) == *old(doc),
            Ok(changed) => semver_parse(new_version@) matches Some(target)
                && match blocking_slot(toml_entries(*old(doc)), dependency_tables(), name@, target) {
                    Some(path) => changed && toml_entries(*final(doc))
                        == toml_entries(*old(doc)).insert(path, EntryView::Text(pinned(new_version@)))
                        && (is_plain_text(new_version@) ==> replaces_one_stretch(
                            toml_render(*old(doc)),
                            toml_render(*final(doc)),
                            basic_string(pinned(new_version@)),
                        )),
                    None => !changed && *final(doc) == *old(doc),
                },
        },
{
    let target = SemVer::parse(new_version)?;
    let tables = ["dependencies", "dev-dependencies", "build-dependencies"];
    let ghost entries = toml_entries(*doc);
    let ghost all = dependency_tables();
    assert(tables@.map_values(|t: &str| t@) =~= all);
    let mut i: usize = 0;
    assert(all.skip(0) == all);
    while i < 3
        invariant
            i <= 3,
            *doc == *old(doc),
            semver_parse(new_version@) == Some(target@),
            entries == toml_entries(*doc),
            all == dependency_tables(),
            forall|k: int| 0 <= k < 3 ==> (#[trigger] tables@[k])@ == all[k],
            blocking_slot(entries, all, name@, target@) == blocking_slot(entries, all.skip(i as int), name@, target@),
        decreases 3 - i,
    {
        let table: &str = tables[i];
        assert(all.skip(i as int)[0] == table@);
        assert(all.skip(i as int).drop_first() == all.skip(i + 1));
        if let Some((req_str, nested)) = requirement_in(doc, table, name) {
            let excluded = match Requirement::parse(req_str.as_str()) {
                Some(req) => !req.matches(&target),
                None => false,
            };
            if excluded {
                assert(excludes(req_str@, target@));
                assert(blocking_slot(entries, all.skip(i as int), name@, target@) == Some(
                    if nested { seq![table@, name@, "version"@] } else { seq![table@, name@] },
                ));
                let mut pin = String::new();
                pin.append("=");
                pin.append(new_version);
                proof {
                    reveal_strlit("=");
                    assert(pin@ == pinned(new_version@));
                    if is_plain_text(new_version@) {
                        assert forall|k: int| 0 <= k < pin@.len() implies
                            (' ' as int) <= (#[trigger] pin@[k] as int) <= ('~' as int) && pin@[k] != '"' && pin@[k] != '\\' by {
                            if k > 0 {
                                assert(pin@[k] == new_version@[k - 1]);
                            }
                        }
                    }
                }
                if nested {
                    set_text_in_entry(doc, table, name, "version", pin.as_str());
                } else {
                    set_text_in_table(doc, table, name, pin.as_str());
                }
                assert(pin@ == pinned(new_version@));
                assert(semver_parse(new_version@) == Some(target@));
                assert(toml_entries(*doc) == entries.insert(
                    if nested { seq![table@, name@, "version"@] } else { seq![table@, name@] },
                    EntryView::Text(pinned(new_version@)),
                ));
                return Ok(true);
            }
        }
        i = i + 1;
    }
    assert(all.skip(3) == Seq::<Seq<char>>::empty());
    Ok(false)
}

/// `content` (the text of a `Cargo.toml`) with `name`'s requirement pinned
/// to `new_version` where it excludes it, or `None` where nothing needs to
/// change. The new text is the parsed document as `toml_edit` writes it,
/// with (for a version of plain characters) only the old requirement's
/// stretch replaced by the quoted pin.
pub fn relax_manifest(content: &str, name: &str, new_version: &str) -> (r: Result<Option<String>, PinError>)
    ensures
        match toml_parse(content@) {
            None => r matches Err(PinError::ParseManifest(_)),
            Some(entries) => match semver_parse(new_version@) {
                None => r matches Err(PinError::InvalidVersion { version, .. }) && version@ == new_version@,
                Some(target) => match blocking_slot(entries, dependency_tables(), name@, target) {
                    None => r matches Ok(None),
                    Some(path) => r matches Ok(Some(text)) && exists|before: toml_edit::DocumentMut, doc: toml_edit::DocumentMut|
                        toml_entries(before) == entries
                            && toml_entries(doc) == entries.insert(path, EntryView::Text(pinned(new_version@)))
                            && text@ == toml_render(doc)
                            && (is_plain_text(new_version@) ==> replaces_one_stretch(
                                toml_render(before),
                                text@,
                                basic_string(pinned(new_version@)),
                            )),
                },
            },
        },
{
    let mut doc = match parse_document(content) {
        Ok(doc) => doc,
        Err(e) => return Err(PinError::ParseManifest(e)),
    };
    let ghost before = doc;
    if !relax_requirement(&mut doc, name, new_version)? {
        return Ok(None);
    }
    let text = render_document(&doc);
    assert(toml_entries(before) == toml_parse(content@)->0);
    Ok(Some(text))
}

/// The requirement for `name` in `table` parses and rules out `target`
/// (nothing else about its text matters).
pub open spec fn rules_out_at(
    entries: Map<Seq<Seq<char>>, EntryView>,
    table: Seq<char>,
    name: Seq<char>,
    target: VersionView,
) -> bool {
    match requirement_slot(entries, table, name) {
        Some((_, req)) => semver_req_parses(req) && !semver_req_matches(req, target),
        None => false,
    }
}

/// The requirement that is pinned is the one in the first table, in search
/// order, whose requirement for `name` parses and rules out `target`,
/// whatever its text (an exact `=x.y.z` pin included).
pub proof fn lemma_first_ruling_out_requirement_is_pinned(
    entries: Map<Seq<Seq<char>>, EntryView>,
    tables: Seq<Seq<char>>,
    name: Seq<char>,
    target: VersionView,
    k: int,
)
    requires
        0 <= k < tables.len(),
        rules_out_at(entries, tables[k], name, target),
        forall|j: int| 0 <= j < k ==> !rules_out_at(entries, #[trigger] tables[j], name, target),
    ensures
        blocking_slot(entries, tables, name, target) matches Some(pinned_path)
            && requirement_slot(entries, tables[k], name) matches Some((path, _)) && pinned_path == path,
    decreases k,
{
    if k > 0 {
        assert(!rules_out_at(entries, tables[0], name, target));
        assert forall|j: int| 0 <= j < k - 1 implies !rules_out_at(entries, #[trigger] tables.drop_first()[j], name, target) by {
            assert(tables.drop_first()[j] == tables[j + 1]);
        }
        lemma_first_ruling_out_requirement_is_pinned(entries, tables.drop_first(), name, target, k - 1);
    }
}

/// Where no table's requirement for `name` parses and rules out `target`,
/// nothing is pinned.
pub proof fn lemma_nothing_pinned_without_a_ruling_out_requirement(
    entries: Map<Seq<Seq<char>>, EntryView>,
    tables: Seq<Seq<char>>,
    name: Seq<char>,
    target: VersionView,
)
    requires
        forall|j: int| 0 <= j < tables.len() ==> !rules_out_at(entries, #[trigger] tables[j], name, target),
    ensures
        blocking_slot(entries, tables, name, target) is None,
    decreases tables.len(),
{
    if tables.len() > 0 {
        assert(!rules_out_at(entries, tables[0], name, target));
        assert forall|j: int| 0 <= j < tables.len() - 1 implies !rules_out_at(entries, #[trigger] tables.drop_first()[j], name, target) by {
            assert(tables.drop_first()[j] == tables[j + 1]);
        }
        lemma_nothing_pinned_without_a_ruling_out_requirement(entries, tables.drop_first(), name, target);
    }
}

} // verus!
