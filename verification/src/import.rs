//! Importing a configuration that was paired elsewhere: the selected config's
//! three identity files are found through its TOML document, and the config
//! is rewritten to point at fresh copies named with a time stamp, so that a
//! failed import never overwrites the identity in use. The `toml` crate parses
//! and renders the document; the caller reads and writes the files.
use crate::text::{concat2, concat3, lemma_decimal_injective, spec_decimal, wide_decimal};
use vstd::prelude::*;

verus! {

/// The `toml` crate's document value, held opaquely: what the import reads of
/// it is named by `string_tables`.
#[verifier::external_type_specification]
#[verifier::external_body]
pub struct ExTomlValue(toml::Value);

/// What a TOML document holds as far as the import reads it: for each
/// top-level key whose value is a table, the keys of that table whose value
/// is a string, with the string.
pub uninterp spec fn string_tables(document: toml::Value) -> Map<Seq<char>, Map<Seq<char>, Seq<char>>>;

/// What `toml::from_str::<toml::Value>` makes of a text: the string tables of
/// the document it parses to, or the text of its error.
pub uninterp spec fn toml_parse(text: Seq<char>) -> Result<Map<Seq<char>, Map<Seq<char>, Seq<char>>>, Seq<char>>;

/// `toml::from_str::<toml::Value>`, with the error as its text. Which texts
/// the TOML grammar accepts, and the document each gives, is named and not
/// stated: the same text gives the same outcome every time.
#[verifier::external_body]
fn parse_toml(text: &str) -> (parsed: Result<toml::Value, String>)
    ensures
        match parsed {
            Ok(document) => toml_parse(text@) == Ok::<
                Map<Seq<char>, Map<Seq<char>, Seq<char>>>,
                Seq<char>,
            >(string_tables(document)),
            Err(message) => toml_parse(text@) == Err::<
                Map<Seq<char>, Map<Seq<char>, Seq<char>>>,
                Seq<char>,
            >(message@),
        },
{
    match toml::from_str::<toml::Value>(text) {
        Ok(document) => Ok(document),
        Err(error) => Err(error.to_string()),
    }
}

/// The string at `key` in the top-level table `table`, if there is one.
pub open spec fn spec_string_at(
    tables: Map<Seq<char>, Map<Seq<char>, Seq<char>>>,
    table: Seq<char>,
    key: Seq<char>,
) -> Option<Seq<char>> {
    if tables.contains_key(table) && tables[table].contains_key(key) {
        Some(tables[table][key])
    } else {
        None
    }
}

/// The tables with the string at `table.key` set to `text`.
pub open spec fn with_string(
    tables: Map<Seq<char>, Map<Seq<char>, Seq<char>>>,
    table: Seq<char>,
    key: Seq<char>,
    text: Seq<char>,
) -> Map<Seq<char>, Map<Seq<char>, Seq<char>>> {
    tables.insert(table, tables[table].insert(key, text))
}

/// `toml::Value::get_mut` with the table's name, then, when that value is a
/// table, `insert` of the key with a string value: when the document has the
/// top-level table, the key now holds `text` there and nothing else changed;
/// otherwise nothing changed.
#[verifier::external_body]
fn set_string_at(document: &mut toml::Value, table: &str, key: &str, text: String) -> (set: bool)
    ensures
        set == string_tables(*old(document)).contains_key(table@),
        set ==> string_tables(*final(document)) == with_string(
            string_tables(*old(document)),
            table@,
            key@,
            text@,
        ),
        !set ==> string_tables(*final(document)) == string_tables(*old(document)),
{
    match document.get_mut(table) {
        Some(toml::Value::Table(values)) => {
            values.insert(key.to_owned(), toml::Value::String(text));
            true
        },
        _ => false,
    }
}

/// A value of a TOML document as the config checks read it.
pub enum TomlLeaf {
    Text(Seq<char>),
    Integer(i64),
    Other,
}

/// What a TOML document holds below its tables: for each path of keys from
/// the root through nested tables, the value found at its end.
pub uninterp spec fn toml_leaves(document: toml::Value) -> Map<Seq<Seq<char>>, TomlLeaf>;

/// The value at `path`, if the document has one there.
pub open spec fn leaf_at(leaves: Map<Seq<Seq<char>>, TomlLeaf>, path: Seq<Seq<char>>) -> Option<
    TomlLeaf,
> {
    if leaves.contains_key(path) {
        Some(leaves[path])
    } else {
        None
    }
}

/// A value read out of a TOML document: a string, an integer, or another kind.
pub enum TomlEntry {
    Text(String),
    Integer(i64),
    Other,
}

impl TomlEntry {
    pub open spec fn leaf(self) -> TomlLeaf {
        match self {
            TomlEntry::Text(text) => TomlLeaf::Text(text@),
            TomlEntry::Integer(value) => TomlLeaf::Integer(value),
            TomlEntry::Other => TomlLeaf::Other,
        }
    }
}

/// `toml::Value::get` with `table`, then `get` with `key`: the value at
/// `table.key`, told apart by `toml::Value`'s variants. A string found there
/// is also the string that `string_tables` holds at `table.key`.
#[verifier::external_body]
fn entry_in_table(document: &toml::Value, table: &str, key: &str) -> (entry: Option<TomlEntry>)
    ensures
        match entry {
            Some(e) => leaf_at(toml_leaves(*document), seq![table@, key@]) == Some(e.leaf()),
            None => leaf_at(toml_leaves(*document), seq![table@, key@]) is None,
        },
        match entry {
            Some(TomlEntry::Text(text)) => spec_string_at(string_tables(*document), table@, key@)
                == Some(text@),
            _ => spec_string_at(string_tables(*document), table@, key@) is None,
        },
{
    Some(match document.get(table)?.get(key)? {
        toml::Value::String(text) => TomlEntry::Text(text.clone()),
        toml::Value::Integer(value) => TomlEntry::Integer(*value),
        _ => TomlEntry::Other,
    })
}

/// `toml::Value::get` with `table`, `sub` and then `key`: the value at
/// `table.sub.key`, told apart by `toml::Value`'s variants.
#[verifier::external_body]
fn entry_in_subtable(document: &toml::Value, table: &str, sub: &str, key: &str) -> (entry: Option<
    TomlEntry,
>)
    ensures
        match entry {
            Some(e) => leaf_at(toml_leaves(*document), seq![table@, sub@, key@]) == Some(e.leaf()),
            None => leaf_at(toml_leaves(*document), seq![table@, sub@, key@]) is None,
        },
{
    Some(match document.get(table)?.get(sub)?.get(key)? {
        toml::Value::String(text) => TomlEntry::Text(text.clone()),
        toml::Value::Integer(value) => TomlEntry::Integer(*value),
        _ => TomlEntry::Other,
    })
}

/// The string at `path`, or the refusal that names it.
pub open spec fn required_text(
    leaves: Map<Seq<Seq<char>>, TomlLeaf>,
    path: Seq<Seq<char>>,
    name: Seq<char>,
) -> Result<Seq<char>, Seq<char>> {
    match leaf_at(leaves, path) {
        Some(TomlLeaf::Text(text)) => Ok(text),
        _ => Err("missing "@ + name),
    }
}

/// The id at `path`, a non-negative integer, or the refusal that names it.
pub open spec fn required_id(
    leaves: Map<Seq<Seq<char>>, TomlLeaf>,
    path: Seq<Seq<char>>,
    name: Seq<char>,
) -> Result<u64, Seq<char>> {
    match leaf_at(leaves, path) {
        Some(TomlLeaf::Integer(value)) => if value >= 0 {
            Ok(value as u64)
        } else {
            Err("missing "@ + name)
        },
        _ => Err("missing "@ + name),
    }
}

/// The integer `session.key`, `default` when the config leaves it out, or the
/// refusal of a value that is not an integer.
pub open spec fn session_integer(
    leaves: Map<Seq<Seq<char>>, TomlLeaf>,
    key: Seq<char>,
    default: i64,
) -> Result<i64, Seq<char>> {
    match leaf_at(leaves, seq!["session"@, key]) {
        None => Ok(default),
        Some(TomlLeaf::Integer(value)) => Ok(value),
        Some(_) => Err("invalid session."@ + key),
    }
}

/// The string at `table.key`.
pub fn text_in_table(document: &toml::Value, table: &str, key: &str, name: &str) -> (text: Result<
    String,
    String,
>)
    ensures
        match required_text(toml_leaves(*document), seq![table@, key@], name@) {
            Ok(t) => text matches Ok(s) && s@ == t,
            Err(m) => text matches Err(s) && s@ == m,
        },
{
    match entry_in_table(document, table, key) {
        Some(TomlEntry::Text(text)) => Ok(text),
        _ => Err(concat2("missing ", name)),
    }
}

/// The string at `table.sub.key`.
pub fn text_in_subtable(document: &toml::Value, table: &str, sub: &str, key: &str, name: &str) -> (text:
    Result<String, String>)
    ensures
        match required_text(toml_leaves(*document), seq![table@, sub@, key@], name@) {
            Ok(t) => text matches Ok(s) && s@ == t,
            Err(m) => text matches Err(s) && s@ == m,
        },
{
    match entry_in_subtable(document, table, sub, key) {
        Some(TomlEntry::Text(text)) => Ok(text),
        _ => Err(concat2("missing ", name)),
    }
}

/// The id at `table.sub.key`.
pub fn id_in_subtable(document: &toml::Value, table: &str, sub: &str, key: &str, name: &str) -> (id:
    Result<u64, String>)
    ensures
        match required_id(toml_leaves(*document), seq![table@, sub@, key@], name@) {
            Ok(v) => id == Ok::<u64, String>(v),
            Err(m) => id matches Err(s) && s@ == m,
        },
{
    match entry_in_subtable(document, table, sub, key) {
        Some(TomlEntry::Integer(value)) => if value >= 0 {
            Ok(value as u64)
        } else {
            Err(concat2("missing ", name))
        },
        _ => Err(concat2("missing ", name)),
    }
}

/// The integer `session.key`, or `default` when it is left out.
pub fn session_integer_or(document: &toml::Value, key: &str, default: i64) -> (value: Result<
    i64,
    String,
>)
    ensures
        match session_integer(toml_leaves(*document), key@, default) {
            Ok(v) => value == Ok::<i64, String>(v),
            Err(m) => value matches Err(s) && s@ == m,
        },
{
    match entry_in_table(document, "session", key) {
        None => Ok(default),
        Some(TomlEntry::Integer(value)) => Ok(value),
        Some(_) => Err(concat2("invalid session.", key)),
    }
}

/// What `toml::to_string_pretty` makes of a document: its text, or the text
/// of its error.
pub uninterp spec fn toml_rendering(document: toml::Value) -> Result<Seq<char>, Seq<char>>;

/// `toml::to_string_pretty` of the document, with the error as its text. What
/// the text looks like depends on every value of the document and is named,
/// not stated: the same document renders the same way every time.
#[verifier::external_body]
fn render_toml(document: &toml::Value) -> (rendered: Result<String, String>)
    ensures
        match rendered {
            Ok(text) => toml_rendering(*document) == Ok::<Seq<char>, Seq<char>>(text@),
            Err(message) => toml_rendering(*document) == Err::<Seq<char>, Seq<char>>(message@),
        },
{
    match toml::to_string_pretty(document) {
        Ok(text) => Ok(text),
        Err(error) => Err(error.to_string()),
    }
}

/// The refusal of a selected config that is not TOML.
pub open spec fn invalid_toml_message(error: Seq<char>) -> Seq<char> {
    "selected config is not valid TOML: "@ + error
}

/// The refusal of a selected config without a path it needs.
pub open spec fn missing_value_message(table: Seq<char>, key: Seq<char>) -> Seq<char> {
    "selected config is missing "@ + table + "."@ + key
}

/// The refusal of a selected config without a table it needs.
pub open spec fn missing_table_message(table: Seq<char>) -> Seq<char> {
    "selected config is missing ["@ + table + "]"@
}

/// The prefix of the refusal of a document that could not be rendered.
pub open spec fn normalize_failure_prefix() -> Seq<char> {
    "failed to normalize imported config: "@
}

/// The selected config's text parsed as a TOML document.
pub fn parse_import_source(source_text: &str) -> (document: Result<toml::Value, String>)
    ensures
        match toml_parse(source_text@) {
            Ok(tables) => document matches Ok(d) && string_tables(d) == tables,
            Err(error) => document matches Err(m) && m@ == invalid_toml_message(error),
        },
{
    match parse_toml(source_text) {
        Ok(document) => Ok(document),
        Err(error) => {
            proof {
                reveal_strlit("selected config is not valid TOML: ");
            }
            Err(concat2("selected config is not valid TOML: ", error.as_str()))
        },
    }
}

/// The path that `table.key` of the selected config names.
pub fn config_asset_path(document: &toml::Value, table: &str, key: &str) -> (path: Result<
    String,
    String,
>)
    ensures
        match spec_string_at(string_tables(*document), table@, key@) {
            Some(text) => path matches Ok(p) && p@ == text,
            None => path matches Err(m) && m@ == missing_value_message(table@, key@),
        },
{
    match entry_in_table(document, table, key) {
        Some(TomlEntry::Text(text)) => Ok(text),
        _ => {
            let head = concat3("selected config is missing ", table, ".");
            proof {
                reveal_strlit("selected config is missing ");
                reveal_strlit(".");
            }
            Err(concat2(head.as_str(), key))
        },
    }
}

/// Points `table.key` of the config at `path`.
pub fn set_config_asset_path(document: &mut toml::Value, table: &str, key: &str, path: &str) -> (set:
    Result<(), String>)
    ensures
        string_tables(*old(document)).contains_key(table@) ==> set is Ok && string_tables(
            *final(document),
        ) == with_string(string_tables(*old(document)), table@, key@, path@),
        !string_tables(*old(document)).contains_key(table@) ==> (set matches Err(m) && m@
            == missing_table_message(table@)) && string_tables(*final(document)) == string_tables(
            *old(document),
        ),
{
    if set_string_at(document, table, key, path.to_owned()) {
        Ok(())
    } else {
        proof {
            reveal_strlit("selected config is missing [");
            reveal_strlit("]");
        }
        Err(concat3("selected config is missing [", table, "]"))
    }
}

/// Where the imported local certificate goes, next to the destination config.
pub open spec fn certificate_target(stamp: u128) -> Seq<char> {
    "identity/certificate-"@ + spec_decimal(stamp as nat) + ".der"@
}

/// Where the imported private key goes.
pub open spec fn private_key_target(stamp: u128) -> Seq<char> {
    "identity/private-key-"@ + spec_decimal(stamp as nat) + ".der"@
}

/// Where the imported peer certificate goes.
pub open spec fn peer_target(stamp: u128) -> Seq<char> {
    "trusted-peer-"@ + spec_decimal(stamp as nat) + ".der"@
}

/// The config's tables with its three identity files pointed at the copies.
pub open spec fn imported_tables(
    tables: Map<Seq<char>, Map<Seq<char>, Seq<char>>>,
    stamp: u128,
) -> Map<Seq<char>, Map<Seq<char>, Seq<char>>> {
    with_string(
        with_string(
            with_string(tables, "local"@, "certificate"@, certificate_target(stamp)),
            "local"@,
            "private_key"@,
            private_key_target(stamp),
        ),
        "peer"@,
        "certificate"@,
        peer_target(stamp),
    )
}

/// The rewritten config, ready to be staged next to the destination.
pub struct ImportedConfig {
    /// Where the local certificate is copied, relative to the destination.
    pub certificate_target: String,
    /// Where the private key is copied.
    pub private_key_target: String,
    /// Where the peer certificate is copied.
    pub peer_target: String,
    /// The config's text, pointing at the copies.
    pub text: String,
    /// The document that was rendered into `text`.
    pub document: Ghost<toml::Value>,
}

/// Points the config's three identity files at copies named with `stamp` and
/// renders it. The config must have the `[local]` and `[peer]` tables; the
/// rendering itself is the `toml` crate's.
pub fn normalized_import(document: &mut toml::Value, stamp: u128) -> (imported: Result<
    ImportedConfig,
    String,
>)
    ensures
        ({
            let tables = string_tables(*old(document));
            if !tables.contains_key("local"@) {
                imported matches Err(m) && m@ == missing_table_message("local"@)
            } else if !tables.contains_key("peer"@) {
                imported matches Err(m) && m@ == missing_table_message("peer"@)
            } else {
                &&& string_tables(*final(document)) == imported_tables(tables, stamp)
                &&& match toml_rendering(*final(document)) {
                    Ok(text) => imported matches Ok(c) && {
                        &&& c.certificate_target@ == certificate_target(stamp)
                        &&& c.private_key_target@ == private_key_target(stamp)
                        &&& c.peer_target@ == peer_target(stamp)
                        &&& c.text@ == text
                        &&& c.document@ == *final(document)
                    },
                    Err(e) => imported matches Err(m) && m@ == normalize_failure_prefix() + e,
                }
            }
        }),
{
    let ghost tables = string_tables(*document);
    let number = wide_decimal(stamp);
    let certificate = concat3("identity/certificate-", number.as_str(), ".der");
    let private_key = concat3("identity/private-key-", number.as_str(), ".der");
    let peer = concat3("trusted-peer-", number.as_str(), ".der");
    proof {
        reveal_strlit("identity/certificate-");
        reveal_strlit("identity/private-key-");
        reveal_strlit("trusted-peer-");
        reveal_strlit(".der");
        reveal_strlit("local");
        reveal_strlit("peer");
        reveal_strlit("certificate");
        reveal_strlit("private_key");
    }
    set_config_asset_path(document, "local", "certificate", certificate.as_str())?;
    set_config_asset_path(document, "local", "private_key", private_key.as_str())?;
    match set_config_asset_path(document, "peer", "certificate", peer.as_str()) {
        Ok(()) => {},
        Err(m) => {
            return Err(m);
        },
    }
    assert(string_tables(*document) == imported_tables(tables, stamp));
    let ghost rendered = *document;
    match render_toml(document) {
        Ok(text) => Ok(ImportedConfig {
            certificate_target: certificate,
            private_key_target: private_key,
            peer_target: peer,
            text,
            document: Ghost(rendered),
        }),
        Err(error) => {
            proof {
                reveal_strlit("failed to normalize imported config: ");
            }
            let message = concat2("failed to normalize imported config: ", error.as_str());
            assert(message@ == normalize_failure_prefix() + error@);
            Err(message)
        },
    }
}

/// What importing a selected config needs: the paths of its three identity
/// files, as the config names them, and the rewritten config.
pub struct ImportPlan {
    pub local_certificate: String,
    pub private_key: String,
    pub peer_certificate: String,
    pub imported: ImportedConfig,
}

/// Plans the import of the selected config `source_text` with the time stamp
/// `stamp`: the config must be TOML and name its local certificate, private
/// key and peer certificate, which are refused in that order when missing.
pub fn imported_config(source_text: &str, stamp: u128) -> (plan: Result<ImportPlan, String>)
    ensures
        match toml_parse(source_text@) {
            Err(error) => plan matches Err(m) && m@ == invalid_toml_message(error),
            Ok(tables) => {
                let certificate = spec_string_at(tables, "local"@, "certificate"@);
                let private_key = spec_string_at(tables, "local"@, "private_key"@);
                let peer = spec_string_at(tables, "peer"@, "certificate"@);
                if certificate is None {
                    plan matches Err(m) && m@ == missing_value_message("local"@, "certificate"@)
                } else if private_key is None {
                    plan matches Err(m) && m@ == missing_value_message("local"@, "private_key"@)
                } else if peer is None {
                    plan matches Err(m) && m@ == missing_value_message("peer"@, "certificate"@)
                } else {
                    match plan {
                        Ok(p) => {
                            &&& p.local_certificate@ == certificate.unwrap()
                            &&& p.private_key@ == private_key.unwrap()
                            &&& p.peer_certificate@ == peer.unwrap()
                            &&& p.imported.certificate_target@ == certificate_target(stamp)
                            &&& p.imported.private_key_target@ == private_key_target(stamp)
                            &&& p.imported.peer_target@ == peer_target(stamp)
                            &&& string_tables(p.imported.document@) == imported_tables(
                                tables,
                                stamp,
                            )
                            &&& toml_rendering(p.imported.document@) == Ok::<
                                Seq<char>,
                                Seq<char>,
                            >(p.imported.text@)
                        },
                        Err(m) => exists|rendered: toml::Value, e: Seq<char>|
                            #![trigger toml_rendering(rendered), normalize_failure_prefix() + e]
                            {
                                &&& string_tables(rendered) == imported_tables(tables, stamp)
                                &&& toml_rendering(rendered) == Err::<Seq<char>, Seq<char>>(e)
                                &&& m@ == normalize_failure_prefix() + e
                            },
                    }
                }
            },
        },
{
    let mut document = parse_import_source(source_text)?;
    proof {
        reveal_strlit("local");
        reveal_strlit("peer");
        reveal_strlit("certificate");
        reveal_strlit("private_key");
    }
    let local_certificate = config_asset_path(&document, "local", "certificate")?;
    let private_key = config_asset_path(&document, "local", "private_key")?;
    let peer_certificate = config_asset_path(&document, "peer", "certificate")?;
    let imported = normalized_import(&mut document, stamp);
    proof {
        let ghost outcome = imported;
        if let Err(m) = outcome {
            if let Err(e) = toml_rendering(document) {
                assert(m@ == normalize_failure_prefix() + e);
            }
        }
    }
    let imported = imported?;
    Ok(ImportPlan { local_certificate, private_key, peer_certificate, imported })
}

proof fn lemma_stamped_name_injective(prefix: Seq<char>, a: u128, b: u128)
    ensures
        prefix + spec_decimal(a as nat) + ".der"@ == prefix + spec_decimal(b as nat) + ".der"@
            ==> a == b,
{
    let x = prefix + spec_decimal(a as nat) + ".der"@;
    let y = prefix + spec_decimal(b as nat) + ".der"@;
    if x == y {
        reveal_strlit(".der");
        let n = prefix.len() as int;
        assert(".der"@.len() == 4);
        assert(x.len() == n + spec_decimal(a as nat).len() + 4);
        assert(y.len() == n + spec_decimal(b as nat).len() + 4);
        assert(spec_decimal(a as nat).len() == spec_decimal(b as nat).len());
        let k = spec_decimal(a as nat).len() as int;
        assert(x.subrange(n, n + k) =~= spec_decimal(a as nat));
        assert(y.subrange(n, n + k) =~= spec_decimal(b as nat));
        lemma_decimal_injective(a as nat, b as nat);
    }
}

/// A failed import never overwrites the identity files of another import:
/// the copies of one import have three different names, and no copy of one
/// import is named like any copy of an import with another time stamp.
pub proof fn law_import_names_are_fresh(stamp: u128, other: u128)
    ensures
        certificate_target(stamp) != private_key_target(other),
        certificate_target(stamp) != peer_target(other),
        private_key_target(stamp) != peer_target(other),
        stamp != other ==> certificate_target(stamp) != certificate_target(other),
        stamp != other ==> private_key_target(stamp) != private_key_target(other),
        stamp != other ==> peer_target(stamp) != peer_target(other),
{
    reveal_strlit("identity/certificate-");
    reveal_strlit("identity/private-key-");
    reveal_strlit("trusted-peer-");
    assert(certificate_target(stamp)[9] == 'c' && private_key_target(other)[9] == 'p');
    assert(certificate_target(stamp)[0] == 'i' && peer_target(other)[0] == 't');
    assert(private_key_target(stamp)[0] == 'i');
    lemma_stamped_name_injective("identity/certificate-"@, stamp, other);
    lemma_stamped_name_injective("identity/private-key-"@, stamp, other);
    lemma_stamped_name_injective("trusted-peer-"@, stamp, other);
}

} // verus!
