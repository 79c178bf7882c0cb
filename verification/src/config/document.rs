//! Loading a configuration document: TOML in, configuration and diagnostics
//! out.
//!
//! A document is parsed twice. The first parse gives the generic table, which
//! is walked for keys that the schema does not know; such a key is a warning,
//! and the rest of the file still applies. The second parse gives the typed
//! [`RawConfig`]; it happens outside this crate and is handed in.
use vstd::prelude::*;
use vstd::utf8::*;

use crate::config::diagnostics::{self, Diagnostic, DiagnosticModel, Severity};
use crate::config::resolve::{self, RawConfig};
use crate::config::schema::{self, Config, ConfigModel};
use crate::text::{join2, join3, same};

verus! {

// ---- the TOML crate ---------------------------------------------------------

/// A TOML table.
#[verifier::external_type_specification]
#[verifier::external_body]
#[verifier::reject_recursive_types(K)]
#[verifier::reject_recursive_types(V)]
pub struct ExMap<K, V>(toml::map::Map<K, V>);

/// A TOML value.
#[verifier::external_type_specification]
#[verifier::external_body]
pub struct ExValue(toml::Value);

/// The shape of a TOML value, as far as keys can occur in it.
pub enum Tree {
    Leaf,
    Array(Seq<Tree>),
    Table(Seq<(Seq<char>, Tree)>),
}

/// The entries of a table, in its own order.
pub uninterp spec fn table_entries(table: toml::map::Map<String, toml::Value>) -> Seq<
    (Seq<char>, Tree),
>;

/// The shape of a value.
pub uninterp spec fn value_tree(value: toml::Value) -> Tree;

/// What parsing a document gives: the entries of its root table, or the
/// parser's message and the byte offset at which it objects.
pub uninterp spec fn toml_document(source: Seq<char>) -> Result<
    Seq<(Seq<char>, Tree)>,
    (Seq<char>, Option<usize>),
>;

/// Why a parser refused a document: its message, and the byte offset at which
/// it objects, when it names one.
#[derive(Debug, Clone, PartialEq, Eq)]
pub struct ParseFailure {
    pub message: String,
    pub start: Option<usize>,
}

impl View for ParseFailure {
    type V = (Seq<char>, Option<usize>);

    open spec fn view(&self) -> (Seq<char>, Option<usize>) {
        (self.message@, self.start)
    }
}

/// `toml::from_str` at type `toml::Table`. The result depends on the text
/// alone: the root table, or the error's `message()` and the start of its
/// `span()`. The empty text is a document without entries.
#[verifier::external_body]
fn parse_document(source: &str) -> (r: Result<toml::map::Map<String, toml::Value>, ParseFailure>)
    ensures
        match (r, toml_document(source@)) {
            (Ok(table), Ok(entries)) => table_entries(table) == entries,
            (Err(failure), Err(reason)) => failure@ == reason,
            _ => false,
        },
        source@.len() == 0 ==> r is Ok && table_entries(r->Ok_0).len() == 0,
{
    match toml::from_str::<toml::Table>(source) {
        Ok(table) => Ok(table),
        Err(e) => Err(
            ParseFailure {
                message: e.message().to_string(),
                start: e.span().map(|span| span.start),
            },
        ),
    }
}

/// `toml::map::Map::keys`: the keys, in the order of the table's entries.
#[verifier::external_body]
fn table_keys(table: &toml::map::Map<String, toml::Value>) -> (r: Vec<String>)
    ensures
        schema::texts(r@) == keys_of(table_entries(*table)),
{
    table.keys().cloned().collect()
}

/// `toml::map::Map::get`: the value under `key`. No key occurs twice, so the
/// first entry with that key is the only one.
#[verifier::external_body]
fn table_get<'a>(table: &'a toml::map::Map<String, toml::Value>, key: &str) -> (r: Option<
    &'a toml::Value,
>)
    ensures
        match r {
            Some(v) => entry_of(table_entries(*table), key@) == Some(value_tree(*v)),
            None => entry_of(table_entries(*table), key@) is None,
        },
{
    table.get(key)
}

/// `toml::Value::as_array`: the elements, when the value is an array.
pub assume_specification<'a>[ toml::Value::as_array ](value: &'a toml::Value) -> (r: Option<
    &'a Vec<toml::Value>,
>)
    ensures
        match r {
            Some(list) => value_tree(*value) == Tree::Array(
                list@.map_values(|v: toml::Value| value_tree(v)),
            ),
            None => !(value_tree(*value) is Array),
        },
;

/// `toml::Value::as_table`: the table, when the value is one.
pub assume_specification<'a>[ toml::Value::as_table ](value: &'a toml::Value) -> (r: Option<
    &'a toml::map::Map<String, toml::Value>,
>)
    ensures
        match r {
            Some(table) => value_tree(*value) == Tree::Table(table_entries(*table)),
            None => !(value_tree(*value) is Table),
        },
;

/// The keys of a sequence of entries.
pub open spec fn keys_of(entries: Seq<(Seq<char>, Tree)>) -> Seq<Seq<char>> {
    entries.map_values(|e: (Seq<char>, Tree)| e.0)
}

/// The first entry under `key`.
pub open spec fn entry_of(entries: Seq<(Seq<char>, Tree)>, key: Seq<char>) -> Option<Tree>
    decreases entries.len(),
{
    if entries.len() == 0 {
        None
    } else if entries[0].0 == key {
        Some(entries[0].1)
    } else {
        entry_of(entries.drop_first(), key)
    }
}

// ---- the keys of a document ---------------------------------------------------

/// The keys that a document sets: those of its root table, and those of each
/// table in its `profile` array.
#[derive(Debug, Clone, PartialEq, Eq)]
pub struct DocumentKeys {
    pub top: Vec<String>,
    pub profiles: Vec<Vec<String>>,
}

/// What [`DocumentKeys`] holds.
#[verifier::ext_equal]
pub struct KeysModel {
    pub top: Seq<Seq<char>>,
    pub profiles: Seq<Seq<Seq<char>>>,
}

impl View for DocumentKeys {
    type V = KeysModel;

    open spec fn view(&self) -> KeysModel {
        KeysModel {
            top: schema::texts(self.top@),
            profiles: self.profiles@.map_values(|keys: Vec<String>| schema::texts(keys@)),
        }
    }
}

/// The keys of the tables among `list`; other values are passed over.
pub open spec fn table_key_lists(list: Seq<Tree>) -> Seq<Seq<Seq<char>>>
    decreases list.len(),
{
    if list.len() == 0 {
        Seq::empty()
    } else {
        match list.last() {
            Tree::Table(entries) => table_key_lists(list.drop_last()).push(keys_of(entries)),
            _ => table_key_lists(list.drop_last()),
        }
    }
}

/// The keys of a document with the given root entries.
pub open spec fn document_keys(entries: Seq<(Seq<char>, Tree)>) -> KeysModel {
    KeysModel {
        top: keys_of(entries),
        profiles: match entry_of(entries, "profile"@) {
            Some(Tree::Array(list)) => table_key_lists(list),
            _ => Seq::empty(),
        },
    }
}

/// The keys of the tables among `list`.
fn read_table_keys(list: &Vec<toml::Value>) -> (r: Vec<Vec<String>>)
    ensures
        r@.map_values(|keys: Vec<String>| schema::texts(keys@)) == table_key_lists(
            list@.map_values(|v: toml::Value| value_tree(v)),
        ),
{
    let ghost trees = list@.map_values(|v: toml::Value| value_tree(v));
    let ghost see = |keys: Vec<String>| schema::texts(keys@);
    let mut out: Vec<Vec<String>> = Vec::new();
    let mut i: usize = 0;
    assert(trees.take(0) =~= Seq::<Tree>::empty());
    assert(out@.map_values(see) =~= Seq::<Seq<Seq<char>>>::empty());
    while i < list.len()
        invariant
            i <= list.len(),
            trees == list@.map_values(|v: toml::Value| value_tree(v)),
            see == (|keys: Vec<String>| schema::texts(keys@)),
            out@.map_values(see) == table_key_lists(trees.take(i as int)),
        decreases list.len() - i,
    {
        assert(trees.take(i + 1).drop_last() =~= trees.take(i as int));
        assert(trees.take(i + 1).last() == value_tree(list@[i as int]));
        if let Some(table) = list[i].as_table() {
            let keys = table_keys(table);
            let ghost before = out@;
            out.push(keys);
            assert(out@.map_values(see) =~= before.map_values(see).push(see(keys)));
        }
        i += 1;
    }
    assert(trees.take(i as int) =~= trees);
    out
}

/// The keys that a parsed document sets.
fn read_keys(table: &toml::map::Map<String, toml::Value>) -> (r: DocumentKeys)
    ensures
        r@ == document_keys(table_entries(*table)),
{
    let top = table_keys(table);
    let mut profiles: Vec<Vec<String>> = Vec::new();
    if let Some(value) = table_get(table, "profile") {
        if let Some(list) = value.as_array() {
            profiles = read_table_keys(list);
        }
    }
    let r = DocumentKeys { top, profiles };
    assert(r@ =~= document_keys(table_entries(*table)));
    r
}

/// Whether the schema knows a top-level key.
pub open spec fn known_key(key: Seq<char>) -> bool {
    ||| key == "font-family"@
    ||| key == "font-size"@
    ||| key == "background"@
    ||| key == "foreground"@
    ||| key == "palette"@
    ||| key == "scrollback-limit"@
    ||| key == "keybinds"@
    ||| key == "clipboard-read"@
    ||| key == "clipboard-write-max-bytes"@
    ||| key == "profile"@
}

/// Whether the schema knows a profile key.
pub open spec fn known_profile_key(key: Seq<char>) -> bool {
    ||| key == "name"@
    ||| key == "command"@
    ||| key == "args"@
    ||| key == "cwd"@
    ||| key == "env"@
    ||| key == "type"@
    ||| key == "icon"@
    ||| key == "color"@
    ||| key == "font-size"@
    ||| key == "theme"@
    ||| key == "default"@
}

fn is_known_key(key: &str) -> (r: bool)
    ensures
        r == known_key(key@),
{
    same(key, "font-family") || same(key, "font-size") || same(key, "background") || same(
        key,
        "foreground",
    ) || same(key, "palette") || same(key, "scrollback-limit") || same(key, "keybinds") || same(
        key,
        "clipboard-read",
    ) || same(key, "clipboard-write-max-bytes") || same(key, "profile")
}

fn is_known_profile_key(key: &str) -> (r: bool)
    ensures
        r == known_profile_key(key@),
{
    same(key, "name") || same(key, "command") || same(key, "args") || same(key, "cwd") || same(
        key,
        "env",
    ) || same(key, "type") || same(key, "icon") || same(key, "color") || same(key, "font-size")
        || same(key, "theme") || same(key, "default")
}

/// The warnings for top-level keys that the schema does not know.
pub open spec fn top_warnings(keys: Seq<Seq<char>>) -> Seq<DiagnosticModel>
    decreases keys.len(),
{
    if keys.len() == 0 {
        Seq::empty()
    } else if known_key(keys.last()) {
        top_warnings(keys.drop_last())
    } else {
        top_warnings(keys.drop_last()).push(
            diagnostics::warning_on(
                keys.last(),
                "unrecognized config key \""@ + keys.last() + "\""@,
            ),
        )
    }
}

/// The warnings for the keys of one profile that the schema does not know.
pub open spec fn profile_key_warnings(keys: Seq<Seq<char>>) -> Seq<DiagnosticModel>
    decreases keys.len(),
{
    if keys.len() == 0 {
        Seq::empty()
    } else if known_profile_key(keys.last()) {
        profile_key_warnings(keys.drop_last())
    } else {
        profile_key_warnings(keys.drop_last()).push(
            diagnostics::warning_on(
                "profile."@ + keys.last(),
                "unrecognized profile key \""@ + keys.last() + "\""@,
            ),
        )
    }
}

/// The warnings for the keys of all profiles.
pub open spec fn profiles_warnings(profiles: Seq<Seq<Seq<char>>>) -> Seq<DiagnosticModel>
    decreases profiles.len(),
{
    if profiles.len() == 0 {
        Seq::empty()
    } else {
        profiles_warnings(profiles.drop_last()) + profile_key_warnings(profiles.last())
    }
}

/// The warnings for every key that the schema does not know.
pub open spec fn unknown_key_warnings(keys: KeysModel) -> Seq<DiagnosticModel> {
    top_warnings(keys.top) + profiles_warnings(keys.profiles)
}

fn collect_profile_keys(keys: &Vec<String>, warnings: &mut Vec<Diagnostic>)
    ensures
        diagnostics::models(final(warnings)@) == diagnostics::models(old(warnings)@)
            + profile_key_warnings(schema::texts(keys@)),
{
    let ghost start = diagnostics::models(warnings@);
    let ghost all = schema::texts(keys@);
    let mut i: usize = 0;
    assert(all.take(0) =~= Seq::<Seq<char>>::empty());
    while i < keys.len()
        invariant
            i <= keys.len(),
            all == schema::texts(keys@),
            diagnostics::models(warnings@) == start + profile_key_warnings(all.take(i as int)),
        decreases keys.len() - i,
    {
        assert(all.take(i + 1).drop_last() =~= all.take(i as int));
        let key = keys[i].as_str();
        if !is_known_profile_key(key) {
            let d = Diagnostic::warning(
                join3("unrecognized profile key \"", key, "\""),
            ).with_key(join2("profile.", key));
            proof {
                diagnostics::models_push(warnings@, d);
            }
            warnings.push(d);
        }
        i += 1;
    }
    assert(all.take(i as int) =~= all);
}

/// Appends a warning for every key that the schema does not know: first those
/// of the root table, then those of each profile in turn.
pub fn collect_unknown_keys(keys: &DocumentKeys, warnings: &mut Vec<Diagnostic>)
    ensures
        diagnostics::models(final(warnings)@) == diagnostics::models(old(warnings)@)
            + unknown_key_warnings(keys@),
{
    let ghost start = diagnostics::models(warnings@);
    let ghost all = keys@.top;
    let mut i: usize = 0;
    assert(all.take(0) =~= Seq::<Seq<char>>::empty());
    while i < keys.top.len()
        invariant
            i <= keys.top.len(),
            all == schema::texts(keys.top@),
            diagnostics::models(warnings@) == start + top_warnings(all.take(i as int)),
        decreases keys.top.len() - i,
    {
        assert(all.take(i + 1).drop_last() =~= all.take(i as int));
        let key = keys.top[i].as_str();
        if !is_known_key(key) {
            let d = Diagnostic::warning(
                join3("unrecognized config key \"", key, "\""),
            ).with_key(key.to_owned());
            proof {
                diagnostics::models_push(warnings@, d);
            }
            warnings.push(d);
        }
        i += 1;
    }
    assert(all.take(i as int) =~= all);
    let ghost lists = keys@.profiles;
    i = 0;
    assert(lists.take(0) =~= Seq::<Seq<Seq<char>>>::empty());
    while i < keys.profiles.len()
        invariant
            i <= keys.profiles.len(),
            lists == keys.profiles@.map_values(|keys: Vec<String>| schema::texts(keys@)),
            diagnostics::models(warnings@) == start + top_warnings(all) + profiles_warnings(
                lists.take(i as int),
            ),
        decreases keys.profiles.len() - i,
    {
        assert(lists.take(i + 1).drop_last() =~= lists.take(i as int));
        collect_profile_keys(&keys.profiles[i], warnings);
        i += 1;
    }
    assert(lists.take(i as int) =~= lists);
}

// ---- places in a document -------------------------------------------------------

/// The number of line breaks in `s`.
pub open spec fn line_breaks(s: Seq<char>) -> nat
    decreases s.len(),
{
    if s.len() == 0 {
        0
    } else if s.last() == '\n' {
        line_breaks(s.drop_last()) + 1
    } else {
        line_breaks(s.drop_last())
    }
}

/// The number of characters after the last line break in `s`.
pub open spec fn last_line_length(s: Seq<char>) -> nat
    decreases s.len(),
{
    if s.len() == 0 || s.last() == '\n' {
        0
    } else {
        last_line_length(s.drop_last()) + 1
    }
}

/// `offset`, but no more than the length of the document in bytes.
pub open spec fn capped(source: Seq<char>, offset: usize) -> int {
    if offset as int <= encode_utf8(source).len() {
        offset as int
    } else {
        encode_utf8(source).len() as int
    }
}

/// The text before a byte offset.
pub open spec fn text_before_offset(source: Seq<char>, offset: usize) -> Seq<char> {
    decode_utf8(encode_utf8(source).take(capped(source, offset)))
}

/// The 1-based line and column, in characters, of a byte offset.
pub open spec fn place(source: Seq<char>, offset: usize) -> (usize, usize) {
    let before = text_before_offset(source, offset);
    ((line_breaks(before) + 1) as usize, (last_line_length(before) + 1) as usize)
}

/// Whether an offset, when there is one, falls between two characters.
pub open spec fn between_chars(source: Seq<char>, start: Option<usize>) -> bool {
    start matches Some(offset) ==> is_char_boundary(encode_utf8(source), capped(source, offset))
}

/// The 1-based line and column of a byte offset into `source`, the column in
/// characters. An offset past the end counts as the end.
pub fn line_col_at_byte_offset(source: &str, offset: usize) -> (r: (usize, usize))
    requires
        encode_utf8(source@).len() < usize::MAX,
        between_chars(source@, Some(offset)),
    ensures
        r == place(source@, offset),
        r.0 == line_breaks(text_before_offset(source@, offset)) + 1,
        r.1 == last_line_length(text_before_offset(source@, offset)) + 1,
{
    let total = source.as_bytes().len();
    let end: usize = if offset <= total {
        offset
    } else {
        total
    };
    let (prefix, _) = source.split_at(end);
    proof {
        encode_utf8_decode_utf8(prefix@);
        assert(encode_utf8(prefix@) =~= encode_utf8(source@).take(end as int));
        crate::config::color::lemma_utf8_length(prefix@);
    }
    let ghost text = prefix@;
    let mut line: usize = 1;
    let mut col: usize = 1;
    for c in it: prefix.chars()
        invariant
            it.seq() == text,
            text.len() < usize::MAX,
            line == line_breaks(text.take(it.index() as int)) + 1,
            col == last_line_length(text.take(it.index() as int)) + 1,
            line <= it.index() + 1,
            col <= it.index() + 1,
    {
        assert(text.take(it.index() + 1).drop_last() =~= text.take(it.index() as int));
        if c == '\n' {
            line += 1;
            col = 1;
        } else {
            col += 1;
        }
    }
    assert(text.take(text.len() as int) =~= text);
    (line, col)
}

/// The error diagnostic for a document that a parser refused.
pub open spec fn failure_diagnostic(
    source: Seq<char>,
    failure: (Seq<char>, Option<usize>),
) -> DiagnosticModel {
    DiagnosticModel {
        severity: Severity::Error,
        message: failure.0,
        span: match failure.1 {
            Some(offset) => Some(place(source, offset)),
            None => None,
        },
        key: None,
    }
}

/// The error diagnostic for a document that a parser refused.
pub fn toml_parse_error_to_diagnostic(source: &str, failure: &ParseFailure) -> (r: Diagnostic)
    requires
        encode_utf8(source@).len() < usize::MAX,
        between_chars(source@, failure.start),
    ensures
        r@ == failure_diagnostic(source@, failure@),
{
    let d = Diagnostic::error(failure.message.clone());
    match failure.start {
        Some(offset) => {
            let (line, col) = line_col_at_byte_offset(source, offset);
            d.with_span(line, col)
        },
        None => d,
    }
}

// ---- loading ----------------------------------------------------------------------

/// The outcome of a load: the configuration and its warnings, or every
/// diagnostic of a rejected file.
pub type LoadResult = Result<(Config, Vec<Diagnostic>), Vec<Diagnostic>>;

/// The outcome of a load, by what was parsed: a document that either parse
/// refuses gives that one error; one that fails validation gives its errors
/// and then its warnings; any other gives its configuration and its warnings.
pub open spec fn outcome(
    source: Seq<char>,
    keys: Result<KeysModel, (Seq<char>, Option<usize>)>,
    raw: Result<RawConfig, ParseFailure>,
) -> Result<(ConfigModel, Seq<DiagnosticModel>), Seq<DiagnosticModel>> {
    match (keys, raw) {
        (Err(failure), _) => Err(seq![failure_diagnostic(source, failure)]),
        (Ok(_), Err(failure)) => Err(seq![failure_diagnostic(source, failure@)]),
        (Ok(keys), Ok(raw)) => if resolve::config_errors(raw).len() > 0 {
            Err(resolve::config_errors(raw) + unknown_key_warnings(keys))
        } else {
            Ok((resolve::config_of(raw), unknown_key_warnings(keys)))
        },
    }
}

/// What the outcome of a load says.
pub open spec fn load_model(r: LoadResult) -> Result<
    (ConfigModel, Seq<DiagnosticModel>),
    Seq<DiagnosticModel>,
> {
    match r {
        Ok((config, warnings)) => Ok((config@, diagnostics::models(warnings@))),
        Err(errors) => Err(diagnostics::models(errors@)),
    }
}

/// What the first parse of a document gives.
pub open spec fn parsed_keys(keys: Result<DocumentKeys, ParseFailure>) -> Result<
    KeysModel,
    (Seq<char>, Option<usize>),
> {
    match keys {
        Ok(keys) => Ok(keys@),
        Err(failure) => Err(failure@),
    }
}

/// Whether the offset of the failure that a load reports, if any, falls
/// between two characters.
pub open spec fn reportable(
    source: Seq<char>,
    keys: Result<KeysModel, (Seq<char>, Option<usize>)>,
    raw: Result<RawConfig, ParseFailure>,
) -> bool {
    match (keys, raw) {
        (Err(failure), _) => between_chars(source, failure.1),
        (Ok(_), Err(failure)) => between_chars(source, failure.start),
        (Ok(_), Ok(_)) => true,
    }
}

/// The outcome of a load whose two parses have been made.
pub fn load_parsed(
    source: &str,
    keys: Result<DocumentKeys, ParseFailure>,
    raw: Result<RawConfig, ParseFailure>,
) -> (r: LoadResult)
    requires
        encode_utf8(source@).len() < usize::MAX,
        reportable(source@, parsed_keys(keys), raw),
    ensures
        load_model(r) == outcome(source@, parsed_keys(keys), raw),
        (r matches Ok((config, _)) && (raw matches Ok(raw) && raw.wf())) ==> r->Ok_0.0.wf(),
{
    let keys = match keys {
        Ok(keys) => keys,
        Err(failure) => {
            let d = toml_parse_error_to_diagnostic(source, &failure);
            let mut errors: Vec<Diagnostic> = Vec::new();
            errors.push(d);
            assert(diagnostics::models(errors@) =~= seq![d@]);
            return Err(errors);
        },
    };
    let mut warnings: Vec<Diagnostic> = Vec::new();
    assert(diagnostics::models(warnings@) =~= Seq::<DiagnosticModel>::empty());
    collect_unknown_keys(&keys, &mut warnings);
    assert(diagnostics::models(warnings@) =~= unknown_key_warnings(keys@));
    let raw = match raw {
        Ok(raw) => raw,
        Err(failure) => {
            let d = toml_parse_error_to_diagnostic(source, &failure);
            let mut errors: Vec<Diagnostic> = Vec::new();
            errors.push(d);
            assert(diagnostics::models(errors@) =~= seq![d@]);
            return Err(errors);
        },
    };
    match resolve::resolve(raw) {
        Ok(config) => Ok((config, warnings)),
        Err(errors) => {
            let mut errors = errors;
            proof {
                diagnostics::models_concat(errors@, warnings@);
            }
            errors.append(&mut warnings);
            Err(errors)
        },
    }
}

fn is_between_chars(source: &str, start: Option<usize>) -> (r: bool)
    ensures
        r == between_chars(source@, start),
{
    match start {
        Some(offset) => {
            let total = source.as_bytes().len();
            source.is_char_boundary(
                if offset <= total {
                    offset
                } else {
                    total
                },
            )
        },
        None => true,
    }
}

/// What the first parse of a document gives, by the parser's own account.
pub open spec fn keys_in(source: Seq<char>) -> Result<KeysModel, (Seq<char>, Option<usize>)> {
    match toml_document(source) {
        Ok(entries) => Ok(document_keys(entries)),
        Err(reason) => Err(reason),
    }
}

/// Parses and validates a document. `raw` is what the typed parse of the same
/// text gave. There is no outcome when a parser's complaint points into the
/// middle of a character, which no line and column can name.
pub fn load_str(source: &str, raw: Result<RawConfig, ParseFailure>) -> (r: Option<LoadResult>)
    requires
        encode_utf8(source@).len() < usize::MAX,
    ensures
        r is Some <==> reportable(source@, keys_in(source@), raw),
        r matches Some(result) ==> {
            &&& load_model(result) == outcome(source@, keys_in(source@), raw)
            &&& (result is Ok && (raw matches Ok(raw) && raw.wf())) ==> result->Ok_0.0.wf()
        },
        source@.len() == 0 && raw == Ok::<RawConfig, ParseFailure>(RawConfig::nothing_set()) ==> (
        r matches Some(result) && load_model(result) == Ok::<
            (ConfigModel, Seq<DiagnosticModel>),
            Seq<DiagnosticModel>,
        >((schema::default_config(), Seq::empty()))),
{
    let keys: Result<DocumentKeys, ParseFailure> = match parse_document(source) {
        Ok(table) => Ok(read_keys(&table)),
        Err(failure) => Err(failure),
    };
    let start = match (&keys, &raw) {
        (Err(failure), _) => failure.start,
        (Ok(_), Err(failure)) => failure.start,
        (Ok(_), Ok(_)) => None,
    };
    proof {
        if source@.len() == 0 && raw == Ok::<RawConfig, ParseFailure>(RawConfig::nothing_set()) {
            let none = KeysModel { top: Seq::empty(), profiles: Seq::empty() };
            assert(keys_in(source@)->Ok_0 =~= none);
            empty_file_gives_defaults(source@);
        }
    }
    if !is_between_chars(source, start) {
        return None;
    }
    Some(load_parsed(source, keys, raw))
}

// ---- what every load keeps to ---------------------------------------------------------

/// Every diagnostic of a list has the given severity.
pub open spec fn all_of(list: Seq<DiagnosticModel>, severity: Severity) -> bool {
    forall|i: int| 0 <= i < list.len() ==> (#[trigger] list[i]).severity == severity
}

proof fn lemma_palette_entries_are_errors(entries: Seq<String>)
    ensures
        all_of(resolve::palette_entry_errors(entries), Severity::Error),
    decreases entries.len(),
{
    if entries.len() > 0 {
        lemma_palette_entries_are_errors(entries.drop_last());
    }
}

proof fn lemma_keybinds_are_errors(entries: Seq<(Seq<char>, String)>)
    ensures
        all_of(resolve::keybind_errors(entries), Severity::Error),
    decreases entries.len(),
{
    if entries.len() > 0 {
        lemma_keybinds_are_errors(entries.drop_last());
    }
}

proof fn lemma_profiles_are_errors(list: Seq<resolve::RawProfile>)
    ensures
        all_of(resolve::profile_list_errors(list), Severity::Error),
    decreases list.len(),
{
    if list.len() > 0 {
        lemma_profiles_are_errors(list.drop_last());
        assert(all_of(resolve::profile_errors(list.last()), Severity::Error));
    }
}

proof fn lemma_complaints_are_errors(raw: RawConfig)
    ensures
        all_of(resolve::config_errors(raw), Severity::Error),
{
    if let Some(entries) = raw.palette {
        lemma_palette_entries_are_errors(entries@);
    }
    if let Some(map) = raw.keybinds {
        lemma_keybinds_are_errors(map.listing());
    }
    if let Some(list) = raw.profiles {
        lemma_profiles_are_errors(list@);
    }
}

proof fn lemma_top_warnings(keys: Seq<Seq<char>>)
    ensures
        all_of(top_warnings(keys), Severity::Warning),
    decreases keys.len(),
{
    if keys.len() > 0 {
        lemma_top_warnings(keys.drop_last());
    }
}

proof fn lemma_profile_key_warnings(keys: Seq<Seq<char>>)
    ensures
        all_of(profile_key_warnings(keys), Severity::Warning),
    decreases keys.len(),
{
    if keys.len() > 0 {
        lemma_profile_key_warnings(keys.drop_last());
    }
}

proof fn lemma_profiles_warnings(profiles: Seq<Seq<Seq<char>>>)
    ensures
        all_of(profiles_warnings(profiles), Severity::Warning),
    decreases profiles.len(),
{
    if profiles.len() > 0 {
        lemma_profiles_warnings(profiles.drop_last());
        lemma_profile_key_warnings(profiles.last());
    }
}

/// A rejected file is reported with at least one error, and its errors come
/// first; an applied file is reported with warnings alone.
pub proof fn rejection_names_an_error(
    source: Seq<char>,
    keys: Result<KeysModel, (Seq<char>, Option<usize>)>,
    raw: Result<RawConfig, ParseFailure>,
)
    ensures
        outcome(source, keys, raw) matches Err(list) ==> list.len() > 0 && list[0].severity
            == Severity::Error,
        outcome(source, keys, raw) matches Ok((_, list)) ==> all_of(list, Severity::Warning),
{
    if let Ok(raw) = raw {
        lemma_complaints_are_errors(raw);
    }
    if let Ok(keys) = keys {
        lemma_top_warnings(keys.top);
        lemma_profiles_warnings(keys.profiles);
    }
}

/// A key that the schema does not know never decides whether a file is
/// applied, nor what is applied.
pub proof fn unknown_keys_do_not_decide(
    source: Seq<char>,
    a: KeysModel,
    b: KeysModel,
    raw: Result<RawConfig, ParseFailure>,
)
    ensures
        outcome(source, Ok(a), raw) is Ok <==> outcome(source, Ok(b), raw) is Ok,
        outcome(source, Ok(a), raw) matches Ok((config, _)) ==> outcome(source, Ok(b), raw)->Ok_0.0
            == config,
{
}

/// A file that sets no key gives the default configuration and no diagnostic.
pub proof fn empty_file_gives_defaults(source: Seq<char>)
    ensures
        outcome(
            source,
            Ok(KeysModel { top: Seq::empty(), profiles: Seq::empty() }),
            Ok(RawConfig::nothing_set()),
        ) == Ok::<(ConfigModel, Seq<DiagnosticModel>), Seq<DiagnosticModel>>(
            (schema::default_config(), Seq::empty()),
        ),
{
    let raw = RawConfig::nothing_set();
    assert(resolve::config_errors(raw) =~= Seq::<DiagnosticModel>::empty());
    assert(resolve::config_of(raw) =~= schema::default_config());
    let keys = KeysModel { top: Seq::empty(), profiles: Seq::empty() };
    assert(unknown_key_warnings(keys) =~= Seq::<DiagnosticModel>::empty());
}

/// The keys that a file may set, and those that a `[[profile]]` entry may.
pub proof fn known_keys_are_these(key: Seq<char>)
    ensures
        known_key(key) <==> seq![
            "font-family"@,
            "font-size"@,
            "background"@,
            "foreground"@,
            "palette"@,
            "scrollback-limit"@,
            "keybinds"@,
            "clipboard-read"@,
            "clipboard-write-max-bytes"@,
            "profile"@,
        ].contains(key),
        known_profile_key(key) <==> seq![
            "name"@,
            "command"@,
            "args"@,
            "cwd"@,
            "env"@,
            "type"@,
            "icon"@,
            "color"@,
            "font-size"@,
            "theme"@,
            "default"@,
        ].contains(key),
{
    let top = seq![
        "font-family"@,
        "font-size"@,
        "background"@,
        "foreground"@,
        "palette"@,
        "scrollback-limit"@,
        "keybinds"@,
        "clipboard-read"@,
        "clipboard-write-max-bytes"@,
        "profile"@,
    ];
    let inner = seq![
        "name"@,
        "command"@,
        "args"@,
        "cwd"@,
        "env"@,
        "type"@,
        "icon"@,
        "color"@,
        "font-size"@,
        "theme"@,
        "default"@,
    ];
    assert(top[0] == "font-family"@ && top[1] == "font-size"@ && top[2] == "background"@ && top[3]
        == "foreground"@ && top[4] == "palette"@ && top[5] == "scrollback-limit"@ && top[6]
        == "keybinds"@ && top[7] == "clipboard-read"@ && top[8] == "clipboard-write-max-bytes"@
        && top[9] == "profile"@);
    assert(inner[0] == "name"@ && inner[1] == "command"@ && inner[2] == "args"@ && inner[3]
        == "cwd"@ && inner[4] == "env"@ && inner[5] == "type"@ && inner[6] == "icon"@ && inner[7]
        == "color"@ && inner[8] == "font-size"@ && inner[9] == "theme"@ && inner[10]
        == "default"@);
}

/// Whether a diagnostic is about one of the keys, and that is not known.
pub open spec fn names_unknown_key(d: DiagnosticModel, keys: Seq<Seq<char>>) -> bool {
    d.key is Some && keys.contains(d.key->0) && !known_key(d.key->0)
}

/// Every key at the top of a file that is not known is warned of, under its
/// own name, and of nothing else.
pub proof fn unknown_keys_are_warned_of(keys: Seq<Seq<char>>)
    ensures
        forall|i: int|
            0 <= i < keys.len() && !known_key(#[trigger] keys[i]) ==> top_warnings(keys).contains(
                DiagnosticModel {
                    severity: Severity::Warning,
                    message: "unrecognized config key \""@ + keys[i] + "\""@,
                    span: None,
                    key: Some(keys[i]),
                },
            ),
        forall|j: int|
            0 <= j < top_warnings(keys).len() ==> names_unknown_key(
                #[trigger] top_warnings(keys)[j],
                keys,
            ),
        top_warnings(keys).len() <= keys.len(),
    decreases keys.len(),
{
    if keys.len() > 0 {
        let earlier = keys.drop_last();
        let last = keys.last();
        unknown_keys_are_warned_of(earlier);
        let list = top_warnings(keys);
        let before = top_warnings(earlier);
        let warning = DiagnosticModel {
            severity: Severity::Warning,
            message: "unrecognized config key \""@ + last + "\""@,
            span: None,
            key: Some(last),
        };
        if !known_key(last) {
            assert(list == before.push(warning));
            assert(list[before.len() as int] == warning);
        }
        assert forall|i: int| 0 <= i < keys.len() && !known_key(#[trigger] keys[i]) implies
            list.contains(
            DiagnosticModel {
                severity: Severity::Warning,
                message: "unrecognized config key \""@ + keys[i] + "\""@,
                span: None,
                key: Some(keys[i]),
            },
        ) by {
            if i < earlier.len() {
                assert(earlier[i] == keys[i]);
                let w = DiagnosticModel {
                    severity: Severity::Warning,
                    message: "unrecognized config key \""@ + keys[i] + "\""@,
                    span: None,
                    key: Some(keys[i]),
                };
                assert(before.contains(w));
                let j = choose|j: int| 0 <= j < before.len() && before[j] == w;
                assert(list[j] == w);
            } else {
                assert(list.contains(warning));
            }
        }
        assert forall|j: int| 0 <= j < list.len() implies names_unknown_key(
            #[trigger] list[j],
            keys,
        ) by {
            if j < before.len() {
                assert(list[j] == before[j]);
                assert(names_unknown_key(before[j], earlier));
                let key = before[j].key->0;
                assert(earlier.contains(key));
                let i = choose|i: int| 0 <= i < earlier.len() && earlier[i] == key;
                assert(keys[i] == key);
            } else {
                assert(keys[keys.len() - 1] == last);
            }
        }
    }
}

/// The same of the keys of one `[[profile]]` entry.
pub proof fn unknown_profile_keys_are_warned_of(keys: Seq<Seq<char>>)
    ensures
        forall|i: int|
            0 <= i < keys.len() && !known_profile_key(#[trigger] keys[i]) ==> profile_key_warnings(
                keys,
            ).contains(
                DiagnosticModel {
                    severity: Severity::Warning,
                    message: "unrecognized profile key \""@ + keys[i] + "\""@,
                    span: None,
                    key: Some("profile."@ + keys[i]),
                },
            ),
        (forall|i: int| 0 <= i < keys.len() ==> known_profile_key(#[trigger] keys[i]))
            ==> profile_key_warnings(keys).len() == 0,
        profile_key_warnings(keys).len() <= keys.len(),
    decreases keys.len(),
{
    if keys.len() > 0 {
        let earlier = keys.drop_last();
        let last = keys.last();
        unknown_profile_keys_are_warned_of(earlier);
        let list = profile_key_warnings(keys);
        let before = profile_key_warnings(earlier);
        let warning = DiagnosticModel {
            severity: Severity::Warning,
            message: "unrecognized profile key \""@ + last + "\""@,
            span: None,
            key: Some("profile."@ + last),
        };
        if !known_profile_key(last) {
            assert(list == before.push(warning));
            assert(list[before.len() as int] == warning);
        }
        assert(keys[keys.len() - 1] == last);
        assert forall|i: int| 0 <= i < keys.len() && !known_profile_key(#[trigger] keys[i]) implies
            list.contains(
            DiagnosticModel {
                severity: Severity::Warning,
                message: "unrecognized profile key \""@ + keys[i] + "\""@,
                span: None,
                key: Some("profile."@ + keys[i]),
            },
        ) by {
            if i < earlier.len() {
                assert(earlier[i] == keys[i]);
                let w = DiagnosticModel {
                    severity: Severity::Warning,
                    message: "unrecognized profile key \""@ + keys[i] + "\""@,
                    span: None,
                    key: Some("profile."@ + keys[i]),
                };
                assert(before.contains(w));
                let j = choose|j: int| 0 <= j < before.len() && before[j] == w;
                assert(list[j] == w);
            } else {
                assert(list.contains(warning));
            }
        }
        if forall|i: int| 0 <= i < keys.len() ==> known_profile_key(#[trigger] keys[i]) {
            assert forall|i: int| 0 <= i < earlier.len() implies known_profile_key(
                #[trigger] earlier[i],
            ) by {
                assert(earlier[i] == keys[i]);
            }
        }
    }
}

/// A document that parses is applied if and only if every key that it sets is
/// in order. One that does not parse is refused with the parser's complaint
/// alone.
pub proof fn documents_are_applied_if_valid(
    source: Seq<char>,
    keys: Result<KeysModel, (Seq<char>, Option<usize>)>,
    raw: Result<RawConfig, ParseFailure>,
)
    ensures
        outcome(source, keys, raw) is Ok <==> keys is Ok && raw is Ok && resolve::is_valid_file(
            raw->Ok_0,
        ),
        keys matches Err(failure) ==> outcome(source, keys, raw)->Err_0.len() == 1 && outcome(
            source,
            keys,
            raw,
        )->Err_0[0].message == failure.0,
        keys is Ok && raw is Err ==> outcome(source, keys, raw)->Err_0.len() == 1 && outcome(
            source,
            keys,
            raw,
        )->Err_0[0].message == raw->Err_0.message@,
        outcome(source, keys, raw) matches Ok((config, _)) ==> config == resolve::config_of(
            raw->Ok_0,
        ),
{
    if let Ok(raw) = raw {
        resolve::accepted_iff_valid(raw);
    }
}

/// Lines and columns are counted from 1: behind a line break the line is one
/// more and the column starts over, and every other character moves the column
/// on by one.
pub proof fn places_are_counted_by_line_breaks(a: Seq<char>, b: Seq<char>)
    requires
        forall|i: int| 0 <= i < b.len() ==> #[trigger] b[i] != '\n',
    ensures
        line_breaks(b) == 0,
        last_line_length(b) == b.len(),
        line_breaks(a.push('\n') + b) == line_breaks(a) + 1,
        last_line_length(a.push('\n') + b) == b.len(),
    decreases b.len(),
{
    if b.len() == 0 {
        assert(a.push('\n') + b =~= a.push('\n'));
        assert(a.push('\n').drop_last() =~= a);
    } else {
        let c = b.drop_last();
        assert(b[b.len() - 1] != '\n');
        assert forall|i: int| 0 <= i < c.len() implies #[trigger] c[i] != '\n' by {
            assert(c[i] == b[i]);
        }
        places_are_counted_by_line_breaks(a, c);
        assert((a.push('\n') + b).drop_last() =~= a.push('\n') + c);
        assert((a.push('\n') + b).last() == b.last());
    }
}

/// The keys of a document are those of its root table in their order, and
/// those of each table in its `profile` array. An entry of that array that is
/// no table has none.
pub proof fn keys_are_gathered(
    list: Seq<Tree>,
    entries: Seq<(Seq<char>, Tree)>,
    inner: Seq<(Seq<char>, Tree)>,
    other: Tree,
)
    requires
        !(other is Table),
    ensures
        table_key_lists(list.push(Tree::Table(inner))) == table_key_lists(list).push(
            keys_of(inner),
        ),
        table_key_lists(list.push(other)) == table_key_lists(list),
        document_keys(entries).top.len() == entries.len(),
        forall|i: int|
            0 <= i < entries.len() ==> #[trigger] document_keys(entries).top[i] == entries[i].0,
        document_keys(seq![("profile"@, Tree::Array(list))] + entries).profiles
            == table_key_lists(list),
        document_keys(seq![("profile"@, other)]).profiles.len() == 0 || other is Array,
{
    assert(list.push(Tree::Table(inner)).drop_last() =~= list);
    assert(list.push(other).drop_last() =~= list);
    let with = seq![("profile"@, Tree::Array(list))] + entries;
    assert(with[0] == ("profile"@, Tree::Array(list)));
    reveal_with_fuel(entry_of, 2);
}

} // verus!
