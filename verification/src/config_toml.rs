//! Codex's `config.toml`: which provider settings a switch writes, and the
//! edit made to the document with `toml_edit`.
use crate::accounts::{is_api_key_auth, CodexAccountDetail, DetailView};
use crate::paths::{strip, strip_end, strip_start};
use crate::text::{
    ascii_lower, blank, chars_of, concat2, copy_str, eq_ignore_ascii_case, eq_ignore_case,
    is_ascii_alnum, is_ascii_alphanumeric, is_blank, string_of, string_of_range, to_ascii_lower,
    trim, trim_bounds,
};
use toml_edit::{DocumentMut, Item, Value};
use vstd::prelude::*;

verus! {

// ---------------------------------------------------------------------
// The document, as `toml_edit` holds it
// ---------------------------------------------------------------------

#[verifier::external_type_specification]
#[verifier::external_body]
pub struct ExDocumentMut(DocumentMut);

/// Kinds of item in the model of a document.
pub open spec fn kind_table() -> int {
    0
}

pub open spec fn kind_string() -> int {
    1
}

pub open spec fn kind_true() -> int {
    2
}

pub open spec fn kind_false() -> int {
    3
}

/// What a document holds: for the key path of every item that is present (not
/// `Item::None`), its kind and, for a string, its text. Tables and inline
/// tables have kind `kind_table()` and empty text; any other value that is not
/// a string or a boolean has a kind above `kind_false()`.
pub uninterp spec fn toml_items(doc: DocumentMut) -> Map<Seq<Seq<char>>, (int, Seq<char>)>;

/// The text `DocumentMut`'s `Display` writes for a document.
pub uninterp spec fn toml_document_text(doc: DocumentMut) -> Seq<char>;

/// What `text` parses to as a TOML document, or `None` where it does not parse.
pub uninterp spec fn toml_parse_items(text: Seq<char>) -> Option<Map<Seq<Seq<char>>, (int, Seq<char>)>>;

pub open spec fn under(p: Seq<Seq<char>>, prefix: Seq<Seq<char>>) -> bool {
    p.len() >= prefix.len() && p.take(prefix.len() as int) == prefix
}

/// The items that do not lie at or under `prefix`.
pub open spec fn without(items: Map<Seq<Seq<char>>, (int, Seq<char>)>, prefix: Seq<Seq<char>>) -> Map<
    Seq<Seq<char>>,
    (int, Seq<char>),
> {
    items.restrict(items.dom().filter(|p: Seq<Seq<char>>| !under(p, prefix)))
}

/// `DocumentMut::new()`: an empty document.
#[verifier::external_body]
fn toml_new() -> (doc: DocumentMut)
    ensures
        toml_items(doc).dom().is_empty(),
{
    DocumentMut::new()
}

/// `text.parse::<DocumentMut>()`: the document, or the parser's message.
#[verifier::external_body]
fn toml_parse(text: &str) -> (r: Result<DocumentMut, String>)
    ensures
        match r {
            Ok(d) => toml_parse_items(text@) == Some(toml_items(d)),
            Err(_) => toml_parse_items(text@) is None,
        },
{
    match text.parse::<DocumentMut>() {
        Ok(d) => Ok(d),
        Err(error) => Err(error.to_string()),
    }
}

/// `doc.remove(key)` (`Table::remove` on the root): the item under `key` and
/// everything inside it are gone; every other item stays.
#[verifier::external_body]
fn toml_remove(doc: &mut DocumentMut, key: &str)
    ensures
        toml_items(*final(doc)) == without(toml_items(*old(doc)), seq![key@]),
{
    let _ = doc.remove(key);
}

/// `doc.as_table().contains_key(key)`: whether the root holds a present item `key`.
#[verifier::external_body]
fn toml_contains(doc: &DocumentMut, key: &str) -> (r: bool)
    ensures
        r == toml_items(*doc).dom().contains(seq![key@]),
{
    doc.as_table().contains_key(key)
}

/// `doc[key] = toml_edit::value(value)`: the root item `key` becomes the
/// string `value`, replacing whatever it held.
#[verifier::external_body]
fn toml_set_string(doc: &mut DocumentMut, key: &str, value: &str)
    ensures
        toml_items(*final(doc)) == without(toml_items(*old(doc)), seq![key@]).insert(
            seq![key@],
            (kind_string(), value@),
        ),
{
    doc[key] = toml_edit::value(value);
}

/// `doc[key] = toml_edit::table()`: the root item `key` becomes an empty table.
#[verifier::external_body]
fn toml_set_table(doc: &mut DocumentMut, key: &str)
    ensures
        toml_items(*final(doc)) == without(toml_items(*old(doc)), seq![key@]).insert(
            seq![key@],
            (kind_table(), Seq::empty()),
        ),
{
    doc[key] = toml_edit::table();
}

/// Whether `doc[table][slot][..]` can be written without `toml_edit`
/// panicking: the root item `table` is a table or inline table, and its
/// member `slot` is absent or itself a table or inline table.
pub open spec fn slot_writable(items: Map<Seq<Seq<char>>, (int, Seq<char>)>, table: Seq<char>, slot: Seq<char>) -> bool {
    &&& items.dom().contains(seq![table])
    &&& items[seq![table]].0 == kind_table()
    &&& items.dom().contains(seq![table, slot]) ==> items[seq![table, slot]].0 == kind_table()
}

/// The kind of a present item, as the wrappers below report it.
pub enum TomlKind {
    /// A table or an inline table.
    Table,
    /// A string.
    Str,
    /// A boolean.
    Bool,
    /// Any other value: a number, a date-time, an array, an array of tables.
    Other,
}

/// Whether `r` reports the item at `path` in `items`: `None` where there is
/// none, else its kind.
pub open spec fn kind_at(items: Map<Seq<Seq<char>>, (int, Seq<char>)>, path: Seq<Seq<char>>, r: Option<TomlKind>) -> bool {
    match r {
        None => !items.dom().contains(path),
        Some(k) => items.dom().contains(path) && match k {
            TomlKind::Table => items[path].0 == kind_table(),
            TomlKind::Str => items[path].0 == kind_string(),
            TomlKind::Bool => items[path].0 == kind_true() || items[path].0 == kind_false(),
            TomlKind::Other => items[path].0 > kind_false(),
        },
    }
}

/// `doc.get(key)` (`Table::get`, which skips `Item::None`): the kind of the
/// root item `key`, one arm per variant of `Item` and `Value`.
#[verifier::external_body]
fn toml_root_kind(doc: &DocumentMut, key: &str) -> (r: Option<TomlKind>)
    ensures
        kind_at(toml_items(*doc), seq![key@], r),
{
    match doc.get(key) {
        None | Some(Item::None) => None,
        Some(Item::Table(_)) | Some(Item::Value(Value::InlineTable(_))) => Some(TomlKind::Table),
        Some(Item::Value(Value::String(_))) => Some(TomlKind::Str),
        Some(Item::Value(Value::Boolean(_))) => Some(TomlKind::Bool),
        Some(_) => Some(TomlKind::Other),
    }
}

/// `doc.get(table)` then `Item::get(slot)` (a member of a table or an inline
/// table; nothing for any other item): the kind of the item at
/// `table.slot`, one arm per variant of `Item` and `Value`.
#[verifier::external_body]
fn toml_member_kind(doc: &DocumentMut, table: &str, slot: &str) -> (r: Option<TomlKind>)
    ensures
        kind_at(toml_items(*doc), seq![table@, slot@], r),
{
    let item = match doc.get(table) {
        Some(t) => t.get(slot),
        None => None,
    };
    match item {
        None | Some(Item::None) => None,
        Some(Item::Table(_)) | Some(Item::Value(Value::InlineTable(_))) => Some(TomlKind::Table),
        Some(Item::Value(Value::String(_))) => Some(TomlKind::Str),
        Some(Item::Value(Value::Boolean(_))) => Some(TomlKind::Bool),
        Some(_) => Some(TomlKind::Other),
    }
}

/// Whether `doc[table][slot][..]` can be written without `toml_edit`
/// panicking.
fn toml_slot_writable(doc: &DocumentMut, table: &str, slot: &str) -> (r: bool)
    ensures
        r == slot_writable(toml_items(*doc), table@, slot@),
{
    match toml_root_kind(doc, table) {
        Some(TomlKind::Table) => match toml_member_kind(doc, table, slot) {
            None => true,
            Some(TomlKind::Table) => true,
            _ => false,
        },
        _ => false,
    }
}

/// The items after `doc[table][slot][key]` is set to `leaf`: `slot` is (or
/// becomes, as an inline table) a table, and `key` inside it holds `leaf`.
pub open spec fn with_nested(
    items: Map<Seq<Seq<char>>, (int, Seq<char>)>,
    table: Seq<char>,
    slot: Seq<char>,
    key: Seq<char>,
    leaf: (int, Seq<char>),
) -> Map<Seq<Seq<char>>, (int, Seq<char>)> {
    without(items, seq![table, slot, key]).insert(seq![table, slot], (kind_table(), Seq::empty())).insert(
        seq![table, slot, key],
        leaf,
    )
}

/// `doc[table][slot][key] = toml_edit::value(value)` for a string `value`.
#[verifier::external_body]
fn toml_set_nested_string(doc: &mut DocumentMut, table: &str, slot: &str, key: &str, value: &str)
    requires
        slot_writable(toml_items(*old(doc)), table@, slot@),
    ensures
        toml_items(*final(doc)) == with_nested(
            toml_items(*old(doc)),
            table@,
            slot@,
            key@,
            (kind_string(), value@),
        ),
{
    doc[table][slot][key] = toml_edit::value(value);
}

/// `doc[table][slot][key] = toml_edit::value(value)` for a boolean `value`.
#[verifier::external_body]
fn toml_set_nested_bool(doc: &mut DocumentMut, table: &str, slot: &str, key: &str, value: bool)
    requires
        slot_writable(toml_items(*old(doc)), table@, slot@),
    ensures
        toml_items(*final(doc)) == with_nested(
            toml_items(*old(doc)),
            table@,
            slot@,
            key@,
            (
                if value {
                    kind_true()
                } else {
                    kind_false()
                },
                Seq::empty(),
            ),
        ),
{
    doc[table][slot][key] = toml_edit::value(value);
}

/// `doc.to_string()`.
#[verifier::external_body]
fn toml_text(doc: &DocumentMut) -> (r: String)
    ensures
        r@ == toml_document_text(*doc),
{
    doc.to_string()
}

// ---------------------------------------------------------------------
// What a switch writes
// ---------------------------------------------------------------------

/// The change a switch makes to `config.toml`.
#[derive(Debug, Clone)]
pub enum ConfigTomlEdit {
    /// Leave the file alone (it does not exist and there is nothing to add).
    Skip,
    /// Remove `model_provider` and `openai_base_url`.
    ClearProvider,
    /// Remove `model_provider`; set `openai_base_url`.
    OpenAiBaseUrl { base_url: String },
    /// Remove `openai_base_url`; set `model_provider` and the provider's table.
    CustomProvider { id: String, name: String, base_url: String },
}

pub enum ConfigEditModel {
    Skip,
    ClearProvider,
    OpenAiBaseUrl { base_url: Seq<char> },
    CustomProvider { id: Seq<char>, name: Seq<char>, base_url: Seq<char> },
}

impl DeepView for ConfigTomlEdit {
    type V = ConfigEditModel;

    open spec fn deep_view(&self) -> ConfigEditModel {
        match self {
            ConfigTomlEdit::Skip => ConfigEditModel::Skip,
            ConfigTomlEdit::ClearProvider => ConfigEditModel::ClearProvider,
            ConfigTomlEdit::OpenAiBaseUrl { base_url } => ConfigEditModel::OpenAiBaseUrl {
                base_url: base_url@,
            },
            ConfigTomlEdit::CustomProvider { id, name, base_url } => ConfigEditModel::CustomProvider {
                id: id@,
                name: name@,
                base_url: base_url@,
            },
        }
    }
}

/// A provider id made from a base URL: ASCII letters and digits lowercased,
/// each run of other characters one `_` (`prev_sep` says the text before
/// ended in one).
pub open spec fn slug_from(s: Seq<char>, prev_sep: bool) -> Seq<char>
    decreases s.len(),
{
    if s.len() == 0 {
        Seq::empty()
    } else if is_ascii_alnum(s[0]) {
        seq![ascii_lower(s[0])] + slug_from(s.drop_first(), false)
    } else if !prev_sep {
        seq!['_'] + slug_from(s.drop_first(), true)
    } else {
        slug_from(s.drop_first(), true)
    }
}

/// The provider id for a base URL, with leading and trailing `_` removed;
/// `None` where nothing is left.
pub open spec fn provider_id_for(base_url: Seq<char>) -> Option<Seq<char>> {
    let t = strip(slug_from(base_url, false), '_');
    if t.len() == 0 {
        None
    } else {
        Some(t)
    }
}

/// A character a provider id may hold: a lowercase ASCII letter, a digit, or `_`.
pub open spec fn is_id_char(c: char) -> bool {
    ('0' <= c && c <= '9') || ('a' <= c && c <= 'z') || c == '_'
}

/// No two `_` stand next to each other in `s`.
pub open spec fn no_double_sep(s: Seq<char>) -> bool {
    forall|i: int| 0 <= i && i + 1 < s.len() ==> (#[trigger] s[i]) != '_' || s[i + 1] != '_'
}

/// The shape of every provider id: not empty, made of lowercase ASCII
/// letters, digits and `_`, with no `_` at either end and none doubled.
pub open spec fn well_formed_id(s: Seq<char>) -> bool {
    &&& s.len() > 0
    &&& forall|i: int| 0 <= i < s.len() ==> is_id_char(#[trigger] s[i])
    &&& s[0] != '_'
    &&& s.last() != '_'
    &&& no_double_sep(s)
}

/// The ASCII letters and digits of `u`, lowercased, in order.
pub open spec fn alnum_lower(u: Seq<char>) -> Seq<char>
    decreases u.len(),
{
    if u.len() == 0 {
        Seq::empty()
    } else {
        (if is_ascii_alnum(u[0]) {
            seq![ascii_lower(u[0])]
        } else {
            Seq::empty()
        }) + alnum_lower(u.drop_first())
    }
}

/// `s` with every `_` left out.
pub open spec fn without_sep(s: Seq<char>) -> Seq<char>
    decreases s.len(),
{
    if s.len() == 0 {
        Seq::empty()
    } else {
        (if s[0] != '_' {
            seq![s[0]]
        } else {
            Seq::empty()
        }) + without_sep(s.drop_first())
    }
}

proof fn lemma_without_sep_append(x: Seq<char>, y: Seq<char>)
    ensures
        without_sep(x + y) == without_sep(x) + without_sep(y),
    decreases x.len(),
{
    if x.len() == 0 {
        assert(x + y =~= y);
    } else {
        lemma_without_sep_append(x.drop_first(), y);
        assert((x + y).drop_first() =~= x.drop_first() + y);
        assert((x + y)[0] == x[0]);
    }
}

proof fn lemma_without_sep_all_sep(x: Seq<char>)
    requires
        forall|j: int| 0 <= j < x.len() ==> x[j] == '_',
    ensures
        without_sep(x) == Seq::<char>::empty(),
    decreases x.len(),
{
    if x.len() > 0 {
        lemma_without_sep_all_sep(x.drop_first());
    }
}

proof fn lemma_alnum_lower_empty(u: Seq<char>)
    ensures
        alnum_lower(u).len() == 0 <==> forall|i: int| 0 <= i < u.len() ==> !is_ascii_alnum(#[trigger] u[i]),
    decreases u.len(),
{
    if u.len() > 0 {
        lemma_alnum_lower_empty(u.drop_first());
        if alnum_lower(u).len() == 0 {
            assert forall|i: int| 0 <= i < u.len() implies !is_ascii_alnum(#[trigger] u[i]) by {
                if i > 0 {
                    assert(u[i] == u.drop_first()[i - 1]);
                }
            }
        } else {
            if !is_ascii_alnum(u[0]) {
                let i = choose|i: int| 0 <= i < u.drop_first().len() && is_ascii_alnum(#[trigger] u.drop_first()[i]);
                assert(u[i + 1] == u.drop_first()[i]);
            }
        }
    }
}

proof fn lemma_ascii_lower_id(c: char)
    requires
        is_ascii_alnum(c),
    ensures
        is_id_char(ascii_lower(c)),
        ascii_lower(c) != '_',
{
    if 'A' <= c && c <= 'Z' {
        assert(97 <= (c as u32) + 32 <= 122);
        assert((((c as u32) + 32) as char) as u32 == (c as u32) + 32);
    }
}

/// What slugging gives: id characters only, no doubled `_`, no leading `_`
/// after a separator, and the letters and digits of the input, lowercased.
proof fn lemma_slug_shape(u: Seq<char>, p: bool)
    ensures
        forall|i: int| 0 <= i < slug_from(u, p).len() ==> is_id_char(#[trigger] slug_from(u, p)[i]),
        no_double_sep(slug_from(u, p)),
        p && slug_from(u, p).len() > 0 ==> slug_from(u, p)[0] != '_',
        without_sep(slug_from(u, p)) == alnum_lower(u),
    decreases u.len(),
{
    if u.len() > 0 {
        let r = u.drop_first();
        let t = slug_from(u, p);
        if is_ascii_alnum(u[0]) {
            lemma_slug_shape(r, false);
            let rest = slug_from(r, false);
            let l = ascii_lower(u[0]);
            lemma_ascii_lower_id(u[0]);
            assert(t == seq![l] + rest);
            assert forall|i: int| 0 <= i < t.len() implies is_id_char(#[trigger] t[i]) by {
                if i > 0 {
                    assert(t[i] == rest[i - 1]);
                }
            }
            assert forall|i: int| 0 <= i && i + 1 < t.len() implies (#[trigger] t[i]) != '_' || t[i + 1] != '_' by {
                if i > 0 {
                    assert(t[i] == rest[i - 1] && t[i + 1] == rest[i]);
                }
            }
            assert(t.drop_first() =~= rest);
        } else if !p {
            lemma_slug_shape(r, true);
            let rest = slug_from(r, true);
            assert(t == seq!['_'] + rest);
            assert forall|i: int| 0 <= i < t.len() implies is_id_char(#[trigger] t[i]) by {
                if i > 0 {
                    assert(t[i] == rest[i - 1]);
                }
            }
            assert forall|i: int| 0 <= i && i + 1 < t.len() implies (#[trigger] t[i]) != '_' || t[i + 1] != '_' by {
                if i > 0 {
                    assert(t[i] == rest[i - 1] && t[i + 1] == rest[i]);
                } else {
                    assert(t[1] == rest[0]);
                }
            }
            assert(t.drop_first() =~= rest);
        } else {
            lemma_slug_shape(r, true);
        }
    }
}

/// A well-formed id slugs to itself.
proof fn lemma_slug_identity(s: Seq<char>, p: bool)
    requires
        forall|i: int| 0 <= i < s.len() ==> is_id_char(#[trigger] s[i]),
        no_double_sep(s),
        p && s.len() > 0 ==> s[0] != '_',
    ensures
        slug_from(s, p) == s,
    decreases s.len(),
{
    if s.len() > 0 {
        let r = s.drop_first();
        assert forall|i: int| 0 <= i < r.len() implies is_id_char(#[trigger] r[i]) by {
            assert(r[i] == s[i + 1]);
        }
        assert forall|i: int| 0 <= i && i + 1 < r.len() implies (#[trigger] r[i]) != '_' || r[i + 1] != '_' by {
            assert(r[i] == s[i + 1] && r[i + 1] == s[i + 2]);
        }
        assert(is_id_char(s[0]));
        if s[0] == '_' {
            if r.len() > 0 {
                assert(s[1] == r[0]);
            }
            lemma_slug_identity(r, true);
        } else {
            lemma_slug_identity(r, false);
        }
        assert(s =~= seq![s[0]] + r);
    }
}

proof fn lemma_strip_start_skip(t: Seq<char>, c: char) -> (k: int)
    ensures
        0 <= k <= t.len(),
        strip_start(t, c) == t.skip(k),
        forall|j: int| 0 <= j < k ==> t[j] == c,
        k < t.len() ==> t[k] != c,
    decreases t.len(),
{
    if t.len() > 0 && t[0] == c {
        let k1 = lemma_strip_start_skip(t.drop_first(), c);
        assert(t.drop_first().skip(k1) =~= t.skip(k1 + 1));
        assert forall|j: int| 0 <= j < k1 + 1 implies t[j] == c by {
            if j > 0 {
                assert(t[j] == t.drop_first()[j - 1]);
            }
        }
        k1 + 1
    } else {
        assert(t.skip(0) =~= t);
        0
    }
}

proof fn lemma_strip_end_take(t: Seq<char>, c: char) -> (k: int)
    ensures
        0 <= k <= t.len(),
        strip_end(t, c) == t.take(k),
        forall|j: int| k <= j < t.len() ==> t[j] == c,
        k > 0 ==> t[k - 1] != c,
    decreases t.len(),
{
    if t.len() > 0 && t.last() == c {
        let k1 = lemma_strip_end_take(t.drop_last(), c);
        assert(t.drop_last().take(k1) =~= t.take(k1));
        assert forall|j: int| k1 <= j < t.len() implies t[j] == c by {
            if j < t.len() - 1 {
                assert(t[j] == t.drop_last()[j]);
            }
        }
        k1
    } else {
        assert(t.take(t.len() as int) =~= t);
        t.len() as int
    }
}

/// Every provider id made from a base URL is well formed: lowercase ASCII
/// letters, digits and single `_`, with no `_` at either end. It is made of
/// exactly the letters and digits of the URL, lowercased, in order, and there
/// is one exactly where the URL holds a letter or a digit. An id is its own
/// provider id.
pub proof fn lemma_provider_id_shape(base_url: Seq<char>)
    ensures
        provider_id_for(base_url) is None <==> forall|i: int|
            0 <= i < base_url.len() ==> !is_ascii_alnum(#[trigger] base_url[i]),
        provider_id_for(base_url) matches Some(id) ==> {
            &&& well_formed_id(id)
            &&& without_sep(id) == alnum_lower(base_url)
            &&& provider_id_for(id) == Some(id)
        },
{
    let t = slug_from(base_url, false);
    lemma_slug_shape(base_url, false);
    let k1 = lemma_strip_start_skip(t, '_');
    let t1 = t.skip(k1);
    let k2 = lemma_strip_end_take(t1, '_');
    let s = t1.take(k2);
    assert(strip(t, '_') == s);
    assert forall|i: int| 0 <= i < s.len() implies is_id_char(#[trigger] s[i]) by {
        assert(s[i] == t[k1 + i]);
    }
    assert forall|i: int| 0 <= i && i + 1 < s.len() implies (#[trigger] s[i]) != '_' || s[i + 1] != '_' by {
        assert(s[i] == t[k1 + i] && s[i + 1] == t[k1 + i + 1]);
    }
    // The separators removed at the ends hold no letter or digit.
    assert(t =~= t.take(k1) + t1);
    lemma_without_sep_append(t.take(k1), t1);
    lemma_without_sep_all_sep(t.take(k1));
    assert(t1 =~= s + t1.skip(k2));
    lemma_without_sep_append(s, t1.skip(k2));
    assert forall|j: int| 0 <= j < t1.skip(k2).len() implies t1.skip(k2)[j] == '_' by {
        assert(t1.skip(k2)[j] == t1[k2 + j]);
    }
    lemma_without_sep_all_sep(t1.skip(k2));
    assert(without_sep(t1) =~= without_sep(s));
    assert(without_sep(t) =~= without_sep(s));
    lemma_alnum_lower_empty(base_url);
    if s.len() > 0 {
        assert(s[0] == t1[0]);
        assert(s[0] != '_');
        assert(s.last() == t1[k2 - 1]);
        assert(without_sep(s).len() > 0) by {
            assert(without_sep(s) == seq![s[0]] + without_sep(s.drop_first()));
        }
        lemma_slug_identity(s, false);
        assert(strip_start(s, '_') == s);
        assert(strip_end(s, '_') == s);
    }
}

/// A provider id derived from a base URL.
pub fn provider_id_from_base_url(base_url: &str) -> (r: Option<String>)
    ensures
        r.deep_view() == provider_id_for(base_url@),
{
    let v = chars_of(base_url);
    let mut out: Vec<char> = Vec::new();
    let mut prev_sep = false;
    let mut i: usize = 0;
    assert(v@.skip(0) =~= v@);
    while i < v.len()
        invariant
            i <= v@.len(),
            slug_from(v@, false) == out@ + slug_from(v@.skip(i as int), prev_sep),
        decreases v@.len() - i,
    {
        let c = v[i];
        let ghost rest = v@.skip(i as int);
        assert(rest[0] == c);
        assert(rest.drop_first() =~= v@.skip(i + 1));
        if is_ascii_alphanumeric(c) {
            out.push(to_ascii_lower(c));
            prev_sep = false;
        } else if !prev_sep {
            out.push('_');
            prev_sep = true;
        } else {
            prev_sep = true;
        }
        assert(slug_from(v@, false) =~= out@ + slug_from(v@.skip(i + 1), prev_sep));
        i = i + 1;
    }
    assert(v@.skip(i as int) =~= Seq::<char>::empty());
    assert(out@ =~= slug_from(v@, false));
    let stripped = crate::paths::strip_chars(out.as_slice(), '_');
    if stripped.len() == 0 {
        None
    } else {
        Some(string_of(stripped.as_slice()))
    }
}

/// The base URL a switch writes: the account's, trimmed, where that is not
/// empty, with trailing `/` removed.
pub open spec fn base_url_of(d: DetailView) -> Option<Seq<char>> {
    match d.api_base_url {
        Some(u) => if trim(u).len() == 0 {
            None
        } else {
            Some(strip_end(trim(u), '/'))
        },
        None => None,
    }
}

/// The change a switch to the account `d` makes to `config.toml`, which
/// exists or not: nothing where the file is missing and the account has no
/// API base URL to write; an OAuth account clears the provider settings; an
/// API-key account with a base URL sets a custom provider (mode `custom`, any
/// ASCII case) or `openai_base_url`; without a base URL it clears them.
pub open spec fn config_edit_for(d: DetailView, config_exists: bool) -> ConfigEditModel {
    let base = base_url_of(d);
    if !config_exists && (!is_api_key_auth(d) || base is None) {
        ConfigEditModel::Skip
    } else if !is_api_key_auth(d) {
        ConfigEditModel::ClearProvider
    } else {
        match base {
            Some(b) => if d.api_provider_mode matches Some(m) && eq_ignore_case(m, "custom"@) {
                let id = match d.api_provider_id {
                    Some(i) => i,
                    None => match provider_id_for(b) {
                        Some(i) => i,
                        None => "custom_openai"@,
                    },
                };
                let name = match d.api_provider_name {
                    Some(n) => if is_blank(n) {
                        id
                    } else {
                        n
                    },
                    None => id,
                };
                ConfigEditModel::CustomProvider { id, name, base_url: b }
            } else {
                ConfigEditModel::OpenAiBaseUrl { base_url: b }
            },
            None => ConfigEditModel::ClearProvider,
        }
    }
}

/// Whether the account asks for a custom provider (`api_provider_mode` is
/// `custom` in any ASCII case).
pub open spec fn custom_mode(d: DetailView) -> bool {
    d.api_provider_mode matches Some(m) && eq_ignore_case(m, "custom"@)
}

/// What a switch does to `config.toml`, by account:
/// - an existing file is always edited, and a missing one is written only
///   where the edit for it is the same as for an existing one;
/// - an OAuth account clears the provider settings of an existing file and
///   leaves a missing file missing;
/// - an API-key account without a base URL does the same;
/// - an API-key account with a base URL and no custom mode sets
///   `openai_base_url` to that URL, trimmed and without trailing `/`, whether
///   or not the file exists;
/// - with the custom mode it sets a custom provider with that base URL,
///   whether or not the file exists.
pub proof fn lemma_config_edit_follows_account(d: DetailView)
    ensures
        !(config_edit_for(d, true) is Skip),
        !(config_edit_for(d, false) is Skip) ==> config_edit_for(d, true) == config_edit_for(d, false),
        !is_api_key_auth(d) ==> (config_edit_for(d, true) is ClearProvider && config_edit_for(d, false) is Skip),
        is_api_key_auth(d) && (d.api_base_url is None || (d.api_base_url matches Some(u) && is_blank(u)))
            ==> (config_edit_for(d, true) is ClearProvider && config_edit_for(d, false) is Skip),
        is_api_key_auth(d) && (d.api_base_url matches Some(u) && !is_blank(u)) && !custom_mode(d) ==> {
            &&& config_edit_for(d, true) == (ConfigEditModel::OpenAiBaseUrl {
                base_url: strip_end(trim(d.api_base_url->0), '/'),
            })
            &&& config_edit_for(d, false) == (ConfigEditModel::OpenAiBaseUrl {
                base_url: strip_end(trim(d.api_base_url->0), '/'),
            })
        },
        is_api_key_auth(d) && (d.api_base_url matches Some(u) && !is_blank(u)) && custom_mode(d) ==> {
            &&& (config_edit_for(d, true) matches ConfigEditModel::CustomProvider { base_url, .. }
                && base_url == strip_end(trim(d.api_base_url->0), '/'))
            &&& (config_edit_for(d, false) matches ConfigEditModel::CustomProvider { base_url, .. }
                && base_url == strip_end(trim(d.api_base_url->0), '/'))
        },
{
}

/// The change a switch to `account` makes to `config.toml`, which exists or not.
pub fn config_toml_edit(account: &CodexAccountDetail, config_exists: bool) -> (r: ConfigTomlEdit)
    ensures
        r.deep_view() == config_edit_for(account.deep_view(), config_exists),
{
    let api = account.is_api_key_auth();
    let base: Option<String> = match &account.api_base_url {
        Some(u) => {
            let v = chars_of(u.as_str());
            let (a, b) = trim_bounds(v.as_slice());
            if a == b {
                None
            } else {
                let mut t: Vec<char> = Vec::new();
                let mut k: usize = a;
                while k < b
                    invariant
                        a <= k <= b <= v@.len(),
                        t@ == v@.subrange(a as int, k as int),
                    decreases b - k,
                {
                    t.push(v[k]);
                    assert(v@.subrange(a as int, k + 1) =~= v@.subrange(a as int, k as int).push(
                        v@[k as int],
                    ));
                    k = k + 1;
                }
                let s = crate::paths::strip_end_chars(t.as_slice(), '/');
                Some(string_of(s.as_slice()))
            }
        },
        None => None,
    };
    if !config_exists && (!api || base.is_none()) {
        return ConfigTomlEdit::Skip;
    }
    if !api {
        return ConfigTomlEdit::ClearProvider;
    }
    let b = match base {
        Some(b) => b,
        None => {
            return ConfigTomlEdit::ClearProvider;
        },
    };
    let custom = match &account.api_provider_mode {
        Some(m) => {
            let mv = chars_of(m.as_str());
            let cv = chars_of("custom");
            eq_ignore_ascii_case(mv.as_slice(), cv.as_slice())
        },
        None => false,
    };
    if !custom {
        return ConfigTomlEdit::OpenAiBaseUrl { base_url: b };
    }
    let id = match &account.api_provider_id {
        Some(i) => i.clone(),
        None => match provider_id_from_base_url(b.as_str()) {
            Some(i) => i,
            None => copy_str("custom_openai"),
        },
    };
    let name = match &account.api_provider_name {
        Some(n) => if blank(n.as_str()) {
            id.clone()
        } else {
            n.clone()
        },
        None => id.clone(),
    };
    ConfigTomlEdit::CustomProvider { id, name, base_url: b }
}

/// The items of `config.toml` after `edit`, starting from `items`.
pub open spec fn edited_items(items: Map<Seq<Seq<char>>, (int, Seq<char>)>, edit: ConfigEditModel) -> Map<
    Seq<Seq<char>>,
    (int, Seq<char>),
> {
    match edit {
        ConfigEditModel::Skip => items,
        ConfigEditModel::ClearProvider => without(
            without(items, seq!["model_provider"@]),
            seq!["openai_base_url"@],
        ),
        ConfigEditModel::OpenAiBaseUrl { base_url } => without(
            without(items, seq!["model_provider"@]),
            seq!["openai_base_url"@],
        ).insert(seq!["openai_base_url"@], (kind_string(), base_url)),
        ConfigEditModel::CustomProvider { id, name, base_url } => {
            let a = without(items, seq!["openai_base_url"@]);
            let b = without(a, seq!["model_provider"@]).insert(
                seq!["model_provider"@],
                (kind_string(), id),
            );
            let c = if b.dom().contains(seq!["model_providers"@]) {
                b
            } else {
                without(b, seq!["model_providers"@]).insert(
                    seq!["model_providers"@],
                    (kind_table(), Seq::empty()),
                )
            };
            let d = with_nested(c, "model_providers"@, id, "name"@, (kind_string(), name));
            let e = with_nested(d, "model_providers"@, id, "base_url"@, (kind_string(), base_url));
            let f = with_nested(e, "model_providers"@, id, "wire_api"@, (kind_string(), "responses"@));
            with_nested(f, "model_providers"@, id, "requires_openai_auth"@, (kind_true(), Seq::empty()))
        },
    }
}

/// The document a custom provider is written into must have room for it.
pub open spec fn custom_slot_ok(items: Map<Seq<Seq<char>>, (int, Seq<char>)>, id: Seq<char>) -> bool {
    let b = without(without(items, seq!["openai_base_url"@]), seq!["model_provider"@]).insert(
        seq!["model_provider"@],
        (kind_string(), id),
    );
    let c = if b.dom().contains(seq!["model_providers"@]) {
        b
    } else {
        without(b, seq!["model_providers"@]).insert(
            seq!["model_providers"@],
            (kind_table(), Seq::empty()),
        )
    };
    slot_writable(c, "model_providers"@, id)
}

/// The document `config.toml` starts from: empty for blank text, else the parse.
pub open spec fn start_items(existing: Seq<char>) -> Option<Map<Seq<Seq<char>>, (int, Seq<char>)>> {
    if is_blank(existing) {
        Some(Map::empty())
    } else {
        toml_parse_items(existing)
    }
}

/// `config.toml` after `edit`, from its current text `existing` (empty where
/// the file is missing or unreadable). The parser's message follows
/// `parse config.toml: ` where the text does not parse. A custom provider is
/// written only where `model_providers` and the provider's entry are tables
/// (or absent); otherwise the error names the entry.
pub fn apply_config_toml_edit(existing: &str, edit: &ConfigTomlEdit) -> (r: Result<String, String>)
    ensures
        start_items(existing@) is None ==> (r matches Err(e) && exists|m: Seq<char>|
            e@ == "parse config.toml: "@ + m),
        start_items(existing@) matches Some(items) ==> {
            match edit.deep_view() {
                ConfigEditModel::CustomProvider { id, .. } => if custom_slot_ok(items, id) {
                    (r matches Ok(t) && exists|d: DocumentMut|
                        t@ == toml_document_text(d) && toml_items(d) == edited_items(items, edit.deep_view()))
                } else {
                    r is Err
                },
                _ => (r matches Ok(t) && exists|d: DocumentMut|
                    t@ == toml_document_text(d) && toml_items(d) == edited_items(items, edit.deep_view())),
            }
        },
{
    let mut doc = if blank(existing) {
        toml_new()
    } else {
        match toml_parse(existing) {
            Ok(d) => d,
            Err(e) => {
                let m = concat2("parse config.toml: ", e.as_str());
                return Err(m);
            },
        }
    };
    let ghost items = toml_items(doc);
    proof {
        if is_blank(existing@) {
            assert(toml_items(doc) =~= Map::<Seq<Seq<char>>, (int, Seq<char>)>::empty());
        }
        assert(start_items(existing@) == Some(items));
    }
    match edit {
        ConfigTomlEdit::Skip => {},
        ConfigTomlEdit::ClearProvider => {
            toml_remove(&mut doc, "model_provider");
            toml_remove(&mut doc, "openai_base_url");
            assert(toml_items(doc) == edited_items(items, edit.deep_view()));
        },
        ConfigTomlEdit::OpenAiBaseUrl { base_url } => {
            toml_remove(&mut doc, "model_provider");
            toml_set_string(&mut doc, "openai_base_url", base_url.as_str());
            assert(toml_items(doc) == edited_items(items, edit.deep_view()));
        },
        ConfigTomlEdit::CustomProvider { id, name, base_url } => {
            toml_remove(&mut doc, "openai_base_url");
            toml_set_string(&mut doc, "model_provider", id.as_str());
            let ghost b = toml_items(doc);
            assert(b == without(without(items, seq!["openai_base_url"@]), seq!["model_provider"@]).insert(
                seq!["model_provider"@],
                (kind_string(), id@),
            ));
            if !toml_contains(&doc, "model_providers") {
                toml_set_table(&mut doc, "model_providers");
            }
            let ghost c = toml_items(doc);
            if !toml_slot_writable(&doc, "model_providers", id.as_str()) {
                let m = concat2("config.toml entry model_providers.", id.as_str());
                let m = concat2(m.as_str(), " is not a table");
                return Err(m);
            }
            let ghost s0 = toml_items(doc);
            toml_set_nested_string(&mut doc, "model_providers", id.as_str(), "name", name.as_str());
            proof {
                lemma_nested_keeps_writable(s0, "model_providers"@, id@, "name"@, (kind_string(), name@));
            }
            let ghost s1 = toml_items(doc);
            toml_set_nested_string(&mut doc, "model_providers", id.as_str(), "base_url", base_url.as_str());
            proof {
                lemma_nested_keeps_writable(s1, "model_providers"@, id@, "base_url"@, (kind_string(), base_url@));
            }
            let ghost s2 = toml_items(doc);
            toml_set_nested_string(&mut doc, "model_providers", id.as_str(), "wire_api", "responses");
            proof {
                lemma_nested_keeps_writable(s2, "model_providers"@, id@, "wire_api"@, (kind_string(), "responses"@));
            }
            toml_set_nested_bool(&mut doc, "model_providers", id.as_str(), "requires_openai_auth", true);
            assert(toml_items(doc) == edited_items(items, edit.deep_view()));
        },
    }
    let t = toml_text(&doc);
    proof {
        assert(toml_items(doc) == edited_items(items, edit.deep_view()));
        assert(t@ == toml_document_text(doc));
    }
    Ok(t)
}

/// Whether a key path lies outside the three root entries a switch may edit:
/// `model_provider`, `openai_base_url` and `model_providers`.
pub open spec fn outside_provider_keys(p: Seq<Seq<char>>) -> bool {
    &&& !under(p, seq!["model_provider"@])
    &&& !under(p, seq!["openai_base_url"@])
    &&& !under(p, seq!["model_providers"@])
}

/// Whether `r` holds exactly what `items` holds outside the provider entries.
pub open spec fn keeps_other_settings(r: Map<Seq<Seq<char>>, (int, Seq<char>)>, items: Map<Seq<Seq<char>>, (int, Seq<char>)>) -> bool {
    forall|p: Seq<Seq<char>>|
        #![trigger r.dom().contains(p)]
        outside_provider_keys(p) ==> (r.dom().contains(p) == items.dom().contains(p) && (
        items.dom().contains(p) ==> r[p] == items[p]))
}

/// The provider settings that `edit` leaves in the items `r`.
pub open spec fn provider_written(r: Map<Seq<Seq<char>>, (int, Seq<char>)>, items: Map<Seq<Seq<char>>, (int, Seq<char>)>, edit: ConfigEditModel) -> bool {
    match edit {
        ConfigEditModel::Skip => r == items,
        ConfigEditModel::ClearProvider => {
            &&& !r.dom().contains(seq!["model_provider"@])
            &&& !r.dom().contains(seq!["openai_base_url"@])
        },
        ConfigEditModel::OpenAiBaseUrl { base_url } => {
            &&& !r.dom().contains(seq!["model_provider"@])
            &&& r.dom().contains(seq!["openai_base_url"@])
            &&& r[seq!["openai_base_url"@]] == (kind_string(), base_url)
        },
        ConfigEditModel::CustomProvider { id, name, base_url } => {
            let m = "model_providers"@;
            &&& !r.dom().contains(seq!["openai_base_url"@])
            &&& r.dom().contains(seq!["model_provider"@])
            &&& r[seq!["model_provider"@]] == (kind_string(), id)
            &&& r.dom().contains(seq![m, id, "name"@])
            &&& r[seq![m, id, "name"@]] == (kind_string(), name)
            &&& r.dom().contains(seq![m, id, "base_url"@])
            &&& r[seq![m, id, "base_url"@]] == (kind_string(), base_url)
            &&& r.dom().contains(seq![m, id, "wire_api"@])
            &&& r[seq![m, id, "wire_api"@]] == (kind_string(), "responses"@)
            &&& r.dom().contains(seq![m, id, "requires_openai_auth"@])
            &&& r[seq![m, id, "requires_openai_auth"@]] == (kind_true(), Seq::<char>::empty())
        },
    }
}

/// The three root keys a switch edits are distinct, and none lies under another.
proof fn lemma_provider_keys()
    ensures
        "model_provider"@.len() == 14,
        "openai_base_url"@.len() == 15,
        "model_providers"@.len() == 15,
        under(seq!["model_provider"@], seq!["model_provider"@]),
        under(seq!["openai_base_url"@], seq!["openai_base_url"@]),
        !under(seq!["model_provider"@], seq!["openai_base_url"@]),
        !under(seq!["openai_base_url"@], seq!["model_provider"@]),
        !under(seq!["model_provider"@], seq!["model_providers"@]),
        !under(seq!["openai_base_url"@], seq!["model_providers"@]),
{
    reveal_strlit("model_provider");
    reveal_strlit("openai_base_url");
    reveal_strlit("model_providers");
    let mp = seq!["model_provider"@];
    let ob = seq!["openai_base_url"@];
    let ms = seq!["model_providers"@];
    assert("model_provider"@.len() == 14);
    assert("openai_base_url"@.len() == 15);
    assert("model_providers"@.len() == 15);
    assert("model_provider"@ != "openai_base_url"@);
    assert("model_providers"@[0] != "openai_base_url"@[0]);
    assert("model_providers"@ != "openai_base_url"@);
    assert("model_providers"@ != "model_provider"@);
    lemma_under_one(mp, "openai_base_url"@);
    lemma_under_one(mp, "model_provider"@);
    lemma_under_one(ob, "openai_base_url"@);
    lemma_under_one(mp, "model_providers"@);
    lemma_under_one(ob, "model_provider"@);
    lemma_under_one(ob, "model_providers"@);
    assert(!under(mp, ob) && !under(ob, mp) && !under(mp, ms));
    assert(!under(ob, ms));
}

/// `lemma_config_edit_effect` for a custom provider.
#[verifier::spinoff_prover]
proof fn lemma_custom_edit_effect(items: Map<Seq<Seq<char>>, (int, Seq<char>)>, edit: ConfigEditModel)
    requires
        edit is CustomProvider,
    ensures
        keeps_other_settings(edited_items(items, edit), items),
        provider_written(edited_items(items, edit), items, edit),
{
    reveal_strlit("model_provider");
    reveal_strlit("openai_base_url");
    reveal_strlit("model_providers");
    reveal_strlit("name");
    reveal_strlit("base_url");
    reveal_strlit("wire_api");
    reveal_strlit("requires_openai_auth");
    lemma_provider_keys();
    let mp = seq!["model_provider"@];
    let ob = seq!["openai_base_url"@];
    let ms = seq!["model_providers"@];
    let id = edit->CustomProvider_id;
    let name = edit->CustomProvider_name;
    let base_url = edit->CustomProvider_base_url;
    let m = "model_providers"@;
    let a = without(items, ob);
    let b = without(a, mp).insert(mp, (kind_string(), id));
    let c = if b.dom().contains(ms) {
        b
    } else {
        without(b, ms).insert(ms, (kind_table(), Seq::empty()))
    };
    let d = with_nested(c, m, id, "name"@, (kind_string(), name));
    let e = with_nested(d, m, id, "base_url"@, (kind_string(), base_url));
    let f = with_nested(e, m, id, "wire_api"@, (kind_string(), "responses"@));
    let g = with_nested(f, m, id, "requires_openai_auth"@, (kind_true(), Seq::empty()));
    assert(g == edited_items(items, edit));
    let pn = seq![m, id, "name"@];
    let pb = seq![m, id, "base_url"@];
    let pw = seq![m, id, "wire_api"@];
    let pr = seq![m, id, "requires_openai_auth"@];
    assert(pn != pb && pn != pw && pn != pr && pb != pw && pb != pr && pw != pr) by {
        assert("name"@.len() == 4 && "base_url"@.len() == 8 && "wire_api"@.len() == 8);
        assert("requires_openai_auth"@.len() == 20);
        assert("base_url"@[0] != "wire_api"@[0]);
        assert(pn[2] != pb[2] && pn[2] != pw[2] && pn[2] != pr[2]);
        assert(pb[2] != pw[2] && pb[2] != pr[2] && pw[2] != pr[2]);
    }
    assert(!under(pn, pb) && !under(pn, pw) && !under(pn, pr)) by {
        assert(pn.take(3) =~= pn);
    }
    assert(!under(pb, pw) && !under(pb, pr)) by {
        assert(pb.take(3) =~= pb);
    }
    assert(!under(pw, pr)) by {
        assert(pw.take(3) =~= pw);
    }
    assert(!under(mp, pn) && !under(mp, pb) && !under(mp, pw) && !under(mp, pr));
    assert(!under(ob, pn) && !under(ob, pb) && !under(ob, pw) && !under(ob, pr));
    assert forall|p: Seq<Seq<char>>|
        #![trigger g.dom().contains(p)]
        outside_provider_keys(p) implies (g.dom().contains(p) == items.dom().contains(p) && (
        items.dom().contains(p) ==> g[p] == items[p])) by {
        lemma_under_one(p, "model_provider"@);
        lemma_under_one(p, "openai_base_url"@);
        lemma_under_one(p, "model_providers"@);
        assert(p != mp && p != ob && p != ms);
        assert(p != seq![m, id]);
        assert(!under(p, pn) && !under(p, pb) && !under(p, pw) && !under(p, pr)) by {
            if p.len() >= 3 {
                assert(p.take(3)[0] == p[0]);
                assert(pn[0] == m && pb[0] == m && pw[0] == m && pr[0] == m);
            }
        }
        assert(p != pn && p != pb && p != pw && p != pr);
    }
    assert(provider_written(g, items, edit));
    assert(keeps_other_settings(g, items));
}

/// What a switch leaves in `config.toml`: every setting outside the provider
/// entries stays as it was; an OAuth account (or an API-key account without a
/// base URL) leaves neither `model_provider` nor `openai_base_url`; an
/// API-key account's base URL becomes `openai_base_url`, with no
/// `model_provider`; a custom provider becomes `model_provider`, with its
/// name, base URL, the `responses` wire API and OpenAI authentication under
/// `model_providers`, and no `openai_base_url`.
#[verifier::spinoff_prover]
pub proof fn lemma_config_edit_effect(items: Map<Seq<Seq<char>>, (int, Seq<char>)>, edit: ConfigEditModel)
    ensures
        keeps_other_settings(edited_items(items, edit), items),
        provider_written(edited_items(items, edit), items, edit),
{
    lemma_provider_keys();
    let ob = seq!["openai_base_url"@];
    match edit {
        ConfigEditModel::Skip => {
            assert(edited_items(items, edit) == items);
            assert(provider_written(edited_items(items, edit), items, edit));
            assert(keeps_other_settings(edited_items(items, edit), items));
        },
        ConfigEditModel::ClearProvider => {
            let g = edited_items(items, edit);
            assert forall|p: Seq<Seq<char>>|
                #![trigger g.dom().contains(p)]
                outside_provider_keys(p) implies (g.dom().contains(p) == items.dom().contains(p) && (
                items.dom().contains(p) ==> g[p] == items[p])) by {
                lemma_under_one(p, "model_provider"@);
                lemma_under_one(p, "openai_base_url"@);
            }
            assert(provider_written(g, items, edit));
            assert(keeps_other_settings(g, items));
        },
        ConfigEditModel::OpenAiBaseUrl { base_url } => {
            let g = edited_items(items, edit);
            assert forall|p: Seq<Seq<char>>|
                #![trigger g.dom().contains(p)]
                outside_provider_keys(p) implies (g.dom().contains(p) == items.dom().contains(p) && (
                items.dom().contains(p) ==> g[p] == items[p])) by {
                lemma_under_one(p, "model_provider"@);
                lemma_under_one(p, "openai_base_url"@);
                assert(p != ob);
            }
            assert(provider_written(g, items, edit));
            assert(keeps_other_settings(g, items));
        },
        ConfigEditModel::CustomProvider { .. } => {
            lemma_custom_edit_effect(items, edit);
        },
    }
}

/// A path lies under a one-key path exactly where it starts with that key.
proof fn lemma_under_one(p: Seq<Seq<char>>, k: Seq<char>)
    ensures
        under(p, seq![k]) == (p.len() >= 1 && p[0] == k),
{
    if p.len() >= 1 {
        if p[0] == k {
            assert(p.take(1) =~= seq![k]);
        } else {
            assert(p.take(1)[0] != seq![k][0]);
        }
    }
}

/// Writing inside a table entry keeps it writable.
proof fn lemma_nested_keeps_writable(
    items: Map<Seq<Seq<char>>, (int, Seq<char>)>,
    table: Seq<char>,
    slot: Seq<char>,
    key: Seq<char>,
    leaf: (int, Seq<char>),
)
    requires
        slot_writable(items, table, slot),
    ensures
        slot_writable(with_nested(items, table, slot, key, leaf), table, slot),
{
    let w = without(items, seq![table, slot, key]);
    assert(!under(seq![table], seq![table, slot, key]));
    assert(w.dom().contains(seq![table]));
    assert(seq![table] != seq![table, slot]);
    assert(seq![table] != seq![table, slot, key]);
    assert(seq![table, slot] != seq![table, slot, key]);
}

} // verus!
