//! The locale file: a versioned mapping from locale key to translations,
//! built from the generic data tree that a YAML reader produced.

use indexmap::IndexMap;
use vstd::prelude::*;

verus! {

/// The only version of the locale file layout that is understood.
pub const LOCALE_FILE_VERSION: i64 = 2;

/// A generic data tree, as a YAML reader hands it over.
#[derive(Debug, PartialEq)]
pub enum DataNode {
    Null,
    Bool(bool),
    /// A number that is an integer within the range of `i64`.
    Integer(i64),
    /// Any other number: a float, or an integer beyond the range of `i64`.
    OtherNumber,
    String(String),
    Sequence(Vec<DataNode>),
    /// The pairs of a mapping, in the order of the file.
    Mapping(Vec<(DataNode, DataNode)>),
    /// A value carrying an explicit tag.
    Tagged(String, Box<DataNode>),
}

/// Why a data tree is not a well-formed locale file.
#[derive(Debug, Clone, Copy, PartialEq, Eq)]
pub enum LocaleFileError {
    /// The outermost node is not a mapping.
    NotAMapping,
    /// The `_version` key is absent.
    VersionNotFound,
    /// The value under `_version` is not an integer.
    VersionNotANumber,
    /// The value under `_version` is an integer other than the supported one.
    VersionMismatch,
    /// A locale key is not a string.
    KeyNotString,
    /// The translations of a key are neither null nor a mapping.
    InvalidTranslationFormat,
    /// The English translation is not a string.
    TranslationNotString,
}

/// Translations of one locale key, one optional text per language.
#[derive(Debug, Clone, PartialEq)]
pub struct Translations {
    /// English
    pub en: Option<String>,
}

/// All the locale keys of a locale file with their translations, in file order.
#[derive(Debug, PartialEq)]
pub struct LocalizedTexts {
    /// Locale key => all the translations.
    pub texts: IndexMap<String, Translations>,
}

#[verifier::external_type_specification]
#[verifier::external_body]
#[verifier::reject_recursive_types(K)]
#[verifier::reject_recursive_types(V)]
#[verifier::reject_recursive_types(S)]
pub struct ExIndexMap<K, V, S>(IndexMap<K, V, S>);

/// The entries of a table in their order: each key with its English text.
pub uninterp spec fn table_entries(m: IndexMap<String, Translations>) -> Seq<(Seq<char>, Option<Seq<char>>)>;

/// The view of an optional string.
pub open spec fn opt_view(o: Option<String>) -> Option<Seq<char>> {
    match o {
        Some(s) => Some(s@),
        None => None,
    }
}

/// The position of the first entry at or after `i` whose key is `k`.
pub open spec fn key_index_from<T>(es: Seq<(Seq<char>, T)>, k: Seq<char>, i: int) -> Option<int>
    decreases es.len() - i,
{
    if i < 0 || i >= es.len() {
        None
    } else if es[i].0 == k {
        Some(i)
    } else {
        key_index_from(es, k, i + 1)
    }
}

/// The position of the first entry whose key is `k`.
pub open spec fn index_of_key<T>(es: Seq<(Seq<char>, T)>, k: Seq<char>) -> Option<int> {
    key_index_from(es, k, 0)
}

/// The entries after inserting `(k, v)`: an existing key keeps its place and
/// takes the new value; a new key goes last.
pub open spec fn insert_entry<T>(es: Seq<(Seq<char>, T)>, k: Seq<char>, v: T) -> Seq<(Seq<char>, T)> {
    match index_of_key(es, k) {
        Some(i) => es.update(i, (k, v)),
        None => es.push((k, v)),
    }
}

/// No key occurs twice.
pub open spec fn keys_distinct<T>(es: Seq<(Seq<char>, T)>) -> bool {
    forall|i: int, j: int| 0 <= i < j < es.len() ==> es[i].0 != es[j].0
}

/// Relies on `IndexMap::with_capacity`: a new map holds no entry.
#[verifier::external_body]
fn table_with_capacity(n: usize) -> (r: IndexMap<String, Translations>)
    ensures
        table_entries(r) == Seq::<(Seq<char>, Option<Seq<char>>)>::empty(),
{
    IndexMap::with_capacity(n)
}

/// Relies on `IndexMap::insert`: an existing key keeps its place and takes the
/// new value, a new key is placed last.
#[verifier::external_body]
fn table_insert(m: &mut IndexMap<String, Translations>, k: String, v: Translations)
    ensures
        table_entries(*final(m)) == insert_entry(table_entries(*old(m)), k@, opt_view(v.en)),
{
    m.insert(k, v);
}

/// Relies on `IndexMap::len`: the number of entries.
#[verifier::external_body]
pub(crate) fn table_len(m: &IndexMap<String, Translations>) -> (r: usize)
    ensures
        r == table_entries(*m).len(),
{
    m.len()
}

/// Relies on `IndexMap::get_index`: the entry at a position in the order.
#[verifier::external_body]
pub(crate) fn table_get_index(m: &IndexMap<String, Translations>, i: usize) -> (r: Option<(&String, &Translations)>)
    ensures
        r is Some <==> i < table_entries(*m).len(),
        r is Some ==> ((r->0).0@, opt_view((r->0).1.en)) == table_entries(*m)[i as int],
{
    m.get_index(i)
}

/// Relies on `IndexMap::contains_key`: whether some entry has the key.
#[verifier::external_body]
pub(crate) fn table_contains_key(m: &IndexMap<String, Translations>, k: &String) -> (r: bool)
    ensures
        r == (exists|i: int| 0 <= i < table_entries(*m).len() && #[trigger] table_entries(*m)[i].0 == k@),
{
    m.contains_key(k)
}

impl LocalizedTexts {
    /// The entries of the table, in order.
    pub open spec fn view(&self) -> Seq<(Seq<char>, Option<Seq<char>>)> {
        table_entries(self.texts)
    }
}


/// `key_index_from` finds the first matching entry at or after `i`.
pub proof fn lemma_key_index_from<T>(es: Seq<(Seq<char>, T)>, k: Seq<char>, i: int)
    requires
        0 <= i,
    ensures
        key_index_from(es, k, i) matches Some(j) ==> i <= j < es.len() && es[j].0 == k
            && forall|m: int| i <= m < j ==> es[m].0 != k,
        key_index_from(es, k, i) is None ==> forall|m: int| i <= m < es.len() ==> es[m].0 != k,
    decreases es.len() - i,
{
    if i < es.len() && es[i].0 != k {
        lemma_key_index_from(es, k, i + 1);
    }
}

/// Inserting keeps the keys distinct.
pub proof fn lemma_insert_keeps_keys_distinct<T>(es: Seq<(Seq<char>, T)>, k: Seq<char>, v: T)
    requires
        keys_distinct(es),
    ensures
        keys_distinct(insert_entry(es, k, v)),
{
    lemma_key_index_from(es, k, 0);
}

/// The value with its tags removed.
pub open spec fn untagged(n: DataNode) -> DataNode
    decreases n,
{
    match n {
        DataNode::Tagged(_, inner) => untagged(*inner),
        _ => n,
    }
}

/// Whether a node is the string `s`.
pub open spec fn is_string_node(n: DataNode, s: Seq<char>) -> bool {
    match n {
        DataNode::String(t) => t@ == s,
        _ => false,
    }
}

/// The position of the first pair at or after `i` whose key is the string `s`.
pub open spec fn string_key_index_from(ps: Seq<(DataNode, DataNode)>, s: Seq<char>, i: int) -> Option<int>
    decreases ps.len() - i,
{
    if i < 0 || i >= ps.len() {
        None
    } else if is_string_node(ps[i].0, s) {
        Some(i)
    } else {
        string_key_index_from(ps, s, i + 1)
    }
}

/// `string_key_index_from` finds a pair at or after `i` whose key is `s`.
proof fn lemma_string_key_index_from(ps: Seq<(DataNode, DataNode)>, s: Seq<char>, i: int)
    requires
        0 <= i,
    ensures
        string_key_index_from(ps, s, i) matches Some(j) ==> i <= j < ps.len() && is_string_node(ps[j].0, s),
    decreases ps.len() - i,
{
    if i < ps.len() && !is_string_node(ps[i].0, s) {
        lemma_string_key_index_from(ps, s, i + 1);
    }
}

/// The position of the first pair whose key is the string `s`.
pub open spec fn string_key_index(ps: Seq<(DataNode, DataNode)>, s: Seq<char>) -> Option<int> {
    string_key_index_from(ps, s, 0)
}

/// The English text that the translations node of a key gives: none for a
/// null node or a mapping without `en`, else the string under `en`.
pub open spec fn translation_of(n: DataNode) -> Result<Option<Seq<char>>, LocaleFileError> {
    match n {
        DataNode::Null => Ok(None),
        DataNode::Mapping(ps) => match string_key_index(ps@, "en"@) {
            None => Ok(None),
            Some(j) => match ps@[j].1 {
                DataNode::String(t) => Ok(Some(t@)),
                _ => Err(LocaleFileError::TranslationNotString),
            },
        },
        _ => Err(LocaleFileError::InvalidTranslationFormat),
    }
}

/// The table that the pairs of the locale file give, each inserted in turn,
/// or the error of the first pair that is malformed.
pub open spec fn table_of_pairs(ps: Seq<(DataNode, DataNode)>) -> Result<Seq<(Seq<char>, Option<Seq<char>>)>, LocaleFileError>
    decreases ps.len(),
{
    if ps.len() == 0 {
        Ok(Seq::empty())
    } else {
        match table_of_pairs(ps.drop_last()) {
            Err(e) => Err(e),
            Ok(es) => match ps.last().0 {
                DataNode::String(k) => match translation_of(ps.last().1) {
                    Ok(t) => Ok(insert_entry(es, k@, t)),
                    Err(e) => Err(e),
                },
                _ => Err(LocaleFileError::KeyNotString),
            },
        }
    }
}

/// The table that a locale file's data tree gives: the outer node must be a
/// mapping whose `_version` is the supported version; the other pairs, in
/// their order, make the table.
pub open spec fn parse_locale_file(tree: DataNode) -> Result<Seq<(Seq<char>, Option<Seq<char>>)>, LocaleFileError> {
    match tree {
        DataNode::Mapping(ps) => match string_key_index(ps@, "_version"@) {
            None => Err(LocaleFileError::VersionNotFound),
            Some(i) => match untagged(ps@[i].1) {
                DataNode::Integer(v) => if v == LOCALE_FILE_VERSION {
                    table_of_pairs(ps@.remove(i))
                } else {
                    Err(LocaleFileError::VersionMismatch)
                },
                _ => Err(LocaleFileError::VersionNotANumber),
            },
        },
        _ => Err(LocaleFileError::NotAMapping),
    }
}

/// The integer that a data tree declares as its version, if it declares one.
pub open spec fn declared_version(tree: DataNode) -> Option<i64> {
    match tree {
        DataNode::Mapping(ps) => match string_key_index(ps@, "_version"@) {
            Some(i) => match untagged(ps@[i].1) {
                DataNode::Integer(v) => Some(v),
                _ => None,
            },
            None => None,
        },
        _ => None,
    }
}

/// Once a prefix of the pairs is malformed, so is the whole.
proof fn lemma_table_error_persists(ps: Seq<(DataNode, DataNode)>, k: int)
    requires
        0 <= k <= ps.len(),
        table_of_pairs(ps.take(k)) is Err,
    ensures
        table_of_pairs(ps) == table_of_pairs(ps.take(k)),
    decreases ps.len() - k,
{
    if k == ps.len() {
        assert(ps.take(k) =~= ps);
    } else {
        assert(ps.drop_last().take(k) =~= ps.take(k));
        lemma_table_error_persists(ps.drop_last(), k);
    }
}

/// The node with its tags removed.
fn untag(n: &DataNode) -> (r: &DataNode)
    ensures
        *r == untagged(*n),
    decreases n,
{
    match n {
        DataNode::Tagged(_, inner) => untag(inner),
        _ => n,
    }
}

/// The position of the first pair whose key is the string `s`.
fn find_string_key(ps: &Vec<(DataNode, DataNode)>, s: &String) -> (r: Option<usize>)
    ensures
        r matches Some(i) ==> string_key_index(ps@, s@) == Some(i as int) && i < ps.len(),
        r is None ==> string_key_index(ps@, s@) is None,
{
    let mut i: usize = 0;
    while i < ps.len()
        invariant
            i <= ps.len(),
            string_key_index(ps@, s@) == string_key_index_from(ps@, s@, i as int),
        decreases ps.len() - i,
    {
        let found = match &ps[i].0 {
            DataNode::String(t) => t.eq(s),
            _ => false,
        };
        assert(found == is_string_node(ps@[i as int].0, s@));
        if found {
            return Some(i);
        }
        i += 1;
    }
    None
}

impl Translations {
    /// The translations that a key's node gives: none for a null node; for a
    /// mapping, the string under `en` if there is one.
    pub fn new(translation_yaml: &DataNode) -> (r: Result<Translations, LocaleFileError>)
        ensures
            r matches Ok(t) ==> translation_of(*translation_yaml) == Ok::<_, LocaleFileError>(opt_view(t.en)),
            r matches Err(e) ==> translation_of(*translation_yaml) == Err::<Option<Seq<char>>, _>(e),
    {
        match translation_yaml {
            DataNode::Null => Ok(Translations { en: None }),
            DataNode::Mapping(translation_mapping) => {
                let en_key = String::from_str("en");
                match find_string_key(translation_mapping, &en_key) {
                    None => Ok(Translations { en: None }),
                    Some(j) => match &translation_mapping[j].1 {
                        DataNode::String(en) => Ok(Translations { en: Some(en.clone()) }),
                        _ => Err(LocaleFileError::TranslationNotString),
                    },
                }
            },
            _ => Err(LocaleFileError::InvalidTranslationFormat),
        }
    }
}

impl LocalizedTexts {
    /// Builds the table from a locale file's data tree.
    pub fn new(file_yaml: DataNode) -> (r: Result<LocalizedTexts, LocaleFileError>)
        ensures
            r matches Ok(t) ==> parse_locale_file(file_yaml) == Ok::<_, LocaleFileError>(t@) && keys_distinct(t@),
            r matches Err(e) ==> parse_locale_file(file_yaml) == Err::<Seq<(Seq<char>, Option<Seq<char>>)>, _>(e),
            declared_version(file_yaml) matches Some(v) && v != LOCALE_FILE_VERSION ==> r == Err::<LocalizedTexts, _>(LocaleFileError::VersionMismatch),
    {
        let ghost tree = file_yaml;
        let mut file_mapping = match file_yaml {
            DataNode::Mapping(mapping) => mapping,
            _ => return Err(LocaleFileError::NotAMapping),
        };
        let version_key = String::from_str("_version");
        let vi = match find_string_key(&file_mapping, &version_key) {
            Some(vi) => vi,
            None => return Err(LocaleFileError::VersionNotFound),
        };
        let ghost before = file_mapping@;
        let (_, version_yaml) = file_mapping.remove(vi);
        match untag(&version_yaml) {
            DataNode::Integer(v) => {
                if *v != LOCALE_FILE_VERSION {
                    return Err(LocaleFileError::VersionMismatch);
                }
            },
            _ => return Err(LocaleFileError::VersionNotANumber),
        }
        proof {
            lemma_string_key_index_from(before, "_version"@, 0);
        }
        assert(file_mapping@ == before.remove(vi as int));
        let mut texts = table_with_capacity(file_mapping.len());
        let mut i: usize = 0;
        while i < file_mapping.len()
            invariant
                i <= file_mapping.len(),
                table_of_pairs(file_mapping@.take(i as int)) == Ok::<_, LocaleFileError>(table_entries(texts)),
                keys_distinct(table_entries(texts)),
                parse_locale_file(tree) == table_of_pairs(file_mapping@),
                declared_version(tree) == Some(LOCALE_FILE_VERSION),
                tree == file_yaml,
            decreases file_mapping.len() - i,
        {
            let ghost es = table_entries(texts);
            let (key, translations_yaml) = &file_mapping[i];
            assert(file_mapping@.take(i + 1).drop_last() =~= file_mapping@.take(i as int));
            assert(file_mapping@.take(i + 1).last() == file_mapping@[i as int]);
            let key = match key {
                DataNode::String(key) => key.clone(),
                _ => {
                    assert(table_of_pairs(file_mapping@.take(i + 1)) == Err::<Seq<(Seq<char>, Option<Seq<char>>)>, _>(LocaleFileError::KeyNotString));
                    proof {
                        lemma_table_error_persists(file_mapping@, i + 1);
                    }
                    return Err(LocaleFileError::KeyNotString);
                },
            };
            let translations = match Translations::new(translations_yaml) {
                Ok(t) => t,
                Err(e) => {
                    proof {
                        lemma_table_error_persists(file_mapping@, i + 1);
                    }
                    return Err(e);
                },
            };
            proof {
                lemma_insert_keeps_keys_distinct(es, key@, opt_view(translations.en));
            }
            table_insert(&mut texts, key, translations);
            i += 1;
        }
        assert(file_mapping@.take(i as int) =~= file_mapping@);
        Ok(LocalizedTexts { texts })
    }
}

} // verus!
