use vstd::prelude::*;

use crate::digests::{sha256_hex, sha256_hex_of};

verus! {

/// A TOML value, kept opaque: the pack document carries it through untouched.
#[verifier::external_type_specification]
#[verifier::external_body]
pub struct ExTomlValue(toml::Value);

/// A value in a table of the pack document: a string, or anything else.
pub enum Field {
    Text(String),
    Other(toml::Value),
}

/// A top-level entry of the pack document: a table, or anything else.
pub enum Section {
    Table(Vec<(String, Field)>),
    Other(toml::Value),
}

/// A pack document, its top-level entries in order, each field kept whether
/// or not the merge reads it.
pub struct PackDocument {
    pub entries: Vec<(String, Section)>,
}

/// Why a pack document cannot be rewritten.
#[derive(Clone, Copy, Debug, PartialEq, Eq, Structural)]
pub enum AssembleError {
    /// It has no `options` table.
    MissingOptions,
    /// It has no `index` table.
    MissingIndex,
}

pub enum FieldView {
    Text(Seq<char>),
    Other(toml::Value),
}

pub enum SectionView {
    Table(Seq<(Seq<char>, FieldView)>),
    Other(toml::Value),
}

pub open spec fn field_view(v: Field) -> FieldView {
    match v {
        Field::Text(s) => FieldView::Text(s@),
        Field::Other(o) => FieldView::Other(o),
    }
}

pub open spec fn table_view(t: Seq<(String, Field)>) -> Seq<(Seq<char>, FieldView)> {
    t.map_values(|p: (String, Field)| (p.0@, field_view(p.1)))
}

pub open spec fn section_view(s: Section) -> SectionView {
    match s {
        Section::Table(t) => SectionView::Table(table_view(t@)),
        Section::Other(o) => SectionView::Other(o),
    }
}

pub open spec fn entries_view(s: Seq<(String, Section)>) -> Seq<(Seq<char>, SectionView)> {
    s.map_values(|p: (String, Section)| (p.0@, section_view(p.1)))
}

pub open spec fn document_view(d: PackDocument) -> Seq<(Seq<char>, SectionView)> {
    entries_view(d.entries@)
}

/// `i` is the first position of `key` in `s`.
pub open spec fn first_key_at<V>(s: Seq<(Seq<char>, V)>, key: Seq<char>, i: int) -> bool {
    &&& 0 <= i < s.len()
    &&& s[i].0 == key
    &&& forall|j: int| 0 <= j < i ==> s[j].0 != key
}

/// The first position of `key` in `s`, or -1 where `s` lacks it.
pub open spec fn key_index<V>(s: Seq<(Seq<char>, V)>, key: Seq<char>) -> int {
    if exists|i: int| first_key_at(s, key, i) {
        choose|i: int| first_key_at(s, key, i)
    } else {
        -1
    }
}

/// `s` without the entry for `key`.
pub open spec fn without_key(s: Seq<(Seq<char>, FieldView)>, key: Seq<char>) -> Seq<(Seq<char>, FieldView)> {
    let i = key_index(s, key);
    if i >= 0 {
        s.remove(i)
    } else {
        s
    }
}

/// `s` with the entry for `key` set to the string `text`, in place, or at
/// the end where `s` lacks it.
pub open spec fn with_text(s: Seq<(Seq<char>, FieldView)>, key: Seq<char>, text: Seq<char>) -> Seq<(Seq<char>, FieldView)> {
    let i = key_index(s, key);
    if i >= 0 {
        s.update(i, (key, FieldView::Text(text)))
    } else {
        s.push((key, FieldView::Text(text)))
    }
}

/// The rewritten document: without the parent link, with the digest
/// `index_hash` declared as SHA-256 for the index.
pub open spec fn assembled(d: Seq<(Seq<char>, SectionView)>, index_hash: Seq<char>) -> Result<
    Seq<(Seq<char>, SectionView)>,
    AssembleError,
> {
    let o = key_index(d, "options"@);
    let x = key_index(d, "index"@);
    if o < 0 || !(d[o].1 is Table) {
        Err(AssembleError::MissingOptions)
    } else if x < 0 || !(d[x].1 is Table) {
        Err(AssembleError::MissingIndex)
    } else {
        let options = without_key(d[o].1->Table_0, "parent"@);
        let index = with_text(with_text(d[x].1->Table_0, "hash"@, index_hash), "hash-format"@, "sha256"@);
        Ok(d.update(o, ("options"@, SectionView::Table(options))).update(x, ("index"@, SectionView::Table(index))))
    }
}

proof fn lemma_first_key_unique<V>(s: Seq<(Seq<char>, V)>, key: Seq<char>, i: int)
    requires
        first_key_at(s, key, i),
    ensures
        key_index(s, key) == i,
{
    let c = key_index(s, key);
    assert(first_key_at(s, key, c));
    if c < i {
        assert(s[c].0 != key);
    } else if i < c {
        assert(s[i].0 != key);
    }
}

proof fn lemma_first_key_exists<V>(s: Seq<(Seq<char>, V)>, key: Seq<char>, j: int)
    requires
        0 <= j < s.len(),
        s[j].0 == key,
    ensures
        key_index(s, key) >= 0,
        first_key_at(s, key, key_index(s, key)),
    decreases j,
{
    if exists|i: int| 0 <= i < j && s[i].0 == key {
        let i = choose|i: int| 0 <= i < j && s[i].0 == key;
        lemma_first_key_exists(s, key, i);
    } else {
        assert(first_key_at(s, key, j));
    }
}

proof fn lemma_with_text_sets(s: Seq<(Seq<char>, FieldView)>, key: Seq<char>, text: Seq<char>)
    ensures
        first_key_at(with_text(s, key, text), key, key_index(with_text(s, key, text), key)),
        with_text(s, key, text)[key_index(with_text(s, key, text), key)].1 == FieldView::Text(text),
{
    let i = key_index(s, key);
    let r = with_text(s, key, text);
    if i >= 0 {
        assert(first_key_at(s, key, i));
        assert(first_key_at(r, key, i));
        lemma_first_key_unique(r, key, i);
    } else {
        assert forall|j: int| 0 <= j < s.len() implies s[j].0 != key by {
            if s[j].0 == key {
                lemma_first_key_exists(s, key, j);
            }
        }
        assert(first_key_at(r, key, s.len() as int));
        lemma_first_key_unique(r, key, s.len() as int);
    }
}

proof fn lemma_with_text_keeps(s: Seq<(Seq<char>, FieldView)>, key: Seq<char>, text: Seq<char>, other: Seq<char>, p: int)
    requires
        key != other,
        first_key_at(s, other, p),
    ensures
        first_key_at(with_text(s, key, text), other, p),
        with_text(s, key, text)[p] == s[p],
{
    let i = key_index(s, key);
    if i >= 0 {
        assert(first_key_at(s, key, i));
    }
}

/// The rewritten document declares, under `hash` of its `index` table, the
/// SHA-256 digest of the index text it was given, and `sha256` under
/// `hash-format`: hashing the written index again gives the declared value.
pub proof fn lemma_declared_index_hash(d: Seq<(Seq<char>, SectionView)>, index_text: Seq<u8>)
    requires
        assembled(d, sha256_hex_of(index_text)) is Ok,
    ensures
        ({
            let v = assembled(d, sha256_hex_of(index_text))->Ok_0;
            let x = key_index(v, "index"@);
            &&& x >= 0
            &&& v[x].1 is Table
            &&& {
                let t = v[x].1->Table_0;
                &&& key_index(t, "hash"@) >= 0
                &&& t[key_index(t, "hash"@)].1 == FieldView::Text(sha256_hex_of(index_text))
                &&& key_index(t, "hash-format"@) >= 0
                &&& t[key_index(t, "hash-format"@)].1 == FieldView::Text("sha256"@)
            }
        }),
{
    let h = sha256_hex_of(index_text);
    let v = assembled(d, h)->Ok_0;
    let o = key_index(d, "options"@);
    let x = key_index(d, "index"@);
    assert(first_key_at(d, "options"@, o));
    assert(first_key_at(d, "index"@, x));
    assert("options"@ != "index"@) by {
        reveal_strlit("options");
        reveal_strlit("index");
        assert("options"@.len() != "index"@.len());
    }
    assert(first_key_at(v, "index"@, x));
    lemma_first_key_unique(v, "index"@, x);
    let t0 = d[x].1->Table_0;
    let t1 = with_text(t0, "hash"@, h);
    lemma_with_text_sets(t0, "hash"@, h);
    assert("hash-format"@ != "hash"@) by {
        reveal_strlit("hash");
        reveal_strlit("hash-format");
        assert("hash-format"@.len() != "hash"@.len());
    }
    let p = key_index(t1, "hash"@);
    lemma_with_text_keeps(t1, "hash-format"@, "sha256"@, "hash"@, p);
    let t2 = with_text(t1, "hash-format"@, "sha256"@);
    lemma_first_key_unique(t2, "hash"@, p);
    lemma_with_text_sets(t1, "hash-format"@, "sha256"@);
}

/// The first position of `key` among the keys of `t`.
fn find_key<V>(t: &Vec<(String, V)>, key: &String) -> (r: Option<usize>)
    ensures
        match r {
            Some(i) => {
                &&& i < t@.len()
                &&& t@[i as int].0@ == key@
                &&& forall|j: int| 0 <= j < i ==> t@[j].0@ != key@
            },
            None => forall|j: int| 0 <= j < t@.len() ==> t@[j].0@ != key@,
        },
{
    let mut i: usize = 0;
    while i < t.len()
        invariant
            i <= t@.len(),
            forall|j: int| 0 <= j < i ==> t@[j].0@ != key@,
        decreases t@.len() - i,
    {
        if t[i].0 == *key {
            return Some(i);
        }
        i = i + 1;
    }
    None
}

fn remove_key(t: Vec<(String, Field)>, key: &String) -> (r: Vec<(String, Field)>)
    ensures
        table_view(r@) == without_key(table_view(t@), key@),
{
    let ghost v = table_view(t@);
    let mut t = t;
    match find_key(&t, key) {
        Some(i) => {
            proof {
                assert(v[i as int].0 == key@);
                assert forall|j: int| 0 <= j < i implies v[j].0 != key@ by {
                    assert(v[j].0 == t@[j].0@);
                }
                lemma_first_key_unique(v, key@, i as int);
            }
            let _ = t.remove(i);
            assert(table_view(t@) =~= v.remove(i as int));
            t
        },
        None => {
            proof {
                if exists|i: int| first_key_at(v, key@, i) {
                    let i = choose|i: int| first_key_at(v, key@, i);
                    assert(t@[i].0@ == key@);
                }
            }
            t
        },
    }
}

fn set_text(t: Vec<(String, Field)>, key: &String, text: String) -> (r: Vec<(String, Field)>)
    ensures
        table_view(r@) == with_text(table_view(t@), key@, text@),
{
    let ghost v = table_view(t@);
    let mut t = t;
    match find_key(&t, key) {
        Some(i) => {
            proof {
                assert(v[i as int].0 == key@);
                assert forall|j: int| 0 <= j < i implies v[j].0 != key@ by {
                    assert(v[j].0 == t@[j].0@);
                }
                lemma_first_key_unique(v, key@, i as int);
            }
            t.set(i, (key.clone(), Field::Text(text)));
            assert(table_view(t@) =~= v.update(i as int, (key@, FieldView::Text(text@))));
            t
        },
        None => {
            proof {
                if exists|i: int| first_key_at(v, key@, i) {
                    let i = choose|i: int| first_key_at(v, key@, i);
                    assert(t@[i].0@ == key@);
                }
            }
            t.push((key.clone(), Field::Text(text)));
            assert(table_view(t@) =~= v.push((key@, FieldView::Text(text@))));
            t
        },
    }
}

/// Replaces the table at `at` by what `edit` makes of it.
fn rewrite_table(entries: Vec<(String, Section)>, at: usize, edit: TableEdit, text: String) -> (r: Vec<
    (String, Section),
>)
    requires
        at < entries@.len(),
        entries_view(entries@)[at as int].1 is Table,
    ensures
        entries_view(r@) == entries_view(entries@).update(
            at as int,
            (
                entries_view(entries@)[at as int].0,
                SectionView::Table(
                    edited(entries_view(entries@)[at as int].1->Table_0, edit, text@),
                ),
            ),
        ),
{
    let ghost before = entries@;
    assert(entries_view(before)[at as int] == (before[at as int].0@, section_view(before[at as int].1)));
    let mut entries = entries;
    let (key, section) = entries.remove(at);
    let table = match section {
        Section::Table(t) => t,
        Section::Other(_) => {
            proof {
                assert(false);
            }
            Vec::new()
        },
    };
    let table = match edit {
        TableEdit::RemoveParent => remove_key(table, &"parent".to_string()),
        TableEdit::DeclareHash => {
            let t = set_text(table, &"hash".to_string(), text);
            set_text(t, &"hash-format".to_string(), "sha256".to_string())
        },
    };
    entries.insert(at, (key, Section::Table(table)));
    proof {
        assert(entries_view(entries@) =~= entries_view(before).update(
            at as int,
            (before[at as int].0@, SectionView::Table(table_view(table@))),
        ));
    }
    entries
}

/// The two edits that the rewrite makes to a table.
pub enum TableEdit {
    /// Drop the link to the parent pack.
    RemoveParent,
    /// Declare the given digest, in SHA-256.
    DeclareHash,
}

pub open spec fn edited(t: Seq<(Seq<char>, FieldView)>, edit: TableEdit, text: Seq<char>) -> Seq<(Seq<char>, FieldView)> {
    match edit {
        TableEdit::RemoveParent => without_key(t, "parent"@),
        TableEdit::DeclareHash => with_text(with_text(t, "hash"@, text), "hash-format"@, "sha256"@),
    }
}

/// Rewrites a child pack's document for the merged pack: removes the link to
/// the parent and declares the SHA-256 digest of `index_text`, the merged
/// index as written. Every other field is kept as it was.
pub fn assemble_pack(doc: PackDocument, index_text: &[u8]) -> (r: Result<PackDocument, AssembleError>)
    ensures
        match (r, assembled(document_view(doc), sha256_hex_of(index_text@))) {
            (Ok(d), Ok(v)) => document_view(d) == v,
            (Err(e), Err(f)) => e == f,
            _ => false,
        },
{
    let ghost v = document_view(doc);
    let entries = doc.entries;
    let options_key = "options".to_string();
    let index_key = "index".to_string();
    let o = match find_key(&entries, &options_key) {
        Some(o) => o,
        None => {
            proof {
                if exists|i: int| first_key_at(v, "options"@, i) {
                    let i = choose|i: int| first_key_at(v, "options"@, i);
                    assert(entries@[i].0@ == "options"@);
                }
            }
            return Err(AssembleError::MissingOptions);
        },
    };
    proof {
        assert(v[o as int].0 == "options"@);
        assert forall|j: int| 0 <= j < o implies v[j].0 != "options"@ by {
            assert(v[j].0 == entries@[j].0@);
        }
        lemma_first_key_unique(v, "options"@, o as int);
    }
    match &entries[o].1 {
        Section::Table(_) => {},
        Section::Other(_) => {
            return Err(AssembleError::MissingOptions);
        },
    }
    let x = match find_key(&entries, &index_key) {
        Some(x) => x,
        None => {
            proof {
                if exists|i: int| first_key_at(v, "index"@, i) {
                    let i = choose|i: int| first_key_at(v, "index"@, i);
                    assert(entries@[i].0@ == "index"@);
                }
            }
            return Err(AssembleError::MissingIndex);
        },
    };
    proof {
        assert(v[x as int].0 == "index"@);
        assert forall|j: int| 0 <= j < x implies v[j].0 != "index"@ by {
            assert(v[j].0 == entries@[j].0@);
        }
        lemma_first_key_unique(v, "index"@, x as int);
    }
    match &entries[x].1 {
        Section::Table(_) => {},
        Section::Other(_) => {
            return Err(AssembleError::MissingIndex);
        },
    }
    let hash = sha256_hex(index_text);
    let ghost e0 = entries@;
    let entries = rewrite_table(entries, o, TableEdit::RemoveParent, String::new());
    proof {
        assert(o != x) by {
            reveal_strlit("options");
            reveal_strlit("index");
            assert("options"@.len() != "index"@.len());
        }
        assert(entries_view(entries@).len() == entries@.len());
        assert(entries_view(entries@)[x as int] == v[x as int]);
    }
    let entries = rewrite_table(entries, x, TableEdit::DeclareHash, hash);
    Ok(PackDocument { entries })
}

} // verus!
