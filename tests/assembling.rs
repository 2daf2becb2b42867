use modpack_merge::assemble::{assemble_pack, AssembleError, Field, PackDocument, Section};
use modpack_merge::structs::{HashFormat, Options, Pack, PackIndex};

fn text(key: &str, value: &str) -> (String, Field) {
    (key.to_string(), Field::Text(value.to_string()))
}

fn child_document() -> PackDocument {
    PackDocument {
        entries: vec![
            ("name".to_string(), Section::Other(toml::Value::String("Child".to_string()))),
            (
                "index".to_string(),
                Section::Table(vec![text("file", "index.toml"), text("hash-format", "sha1"), text("hash", "00")]),
            ),
            (
                "options".to_string(),
                Section::Table(vec![
                    text("parent", "https://example.org/pack/pack.toml"),
                    ("acceptable-game-versions".to_string(), Field::Other(toml::Value::Integer(3))),
                ]),
            ),
        ],
    }
}

fn table<'a>(doc: &'a PackDocument, key: &str) -> &'a Vec<(String, Field)> {
    match &doc.entries.iter().find(|e| e.0 == key).unwrap().1 {
        Section::Table(t) => t,
        Section::Other(_) => panic!("{} is not a table", key),
    }
}

fn text_of(t: &[(String, Field)], key: &str) -> Option<String> {
    t.iter().find(|e| e.0 == key).map(|e| match &e.1 {
        Field::Text(s) => s.clone(),
        Field::Other(_) => panic!("{} is not a string", key),
    })
}

#[test]
fn rewrite_declares_sha256_of_index() {
    let index_text = b"hash-format = \"sha256\"\n";
    let out = assemble_pack(child_document(), index_text).ok().unwrap();
    let index = table(&out, "index");
    let expected = HashFormat::Sha256.get_hash(index_text);
    assert_eq!(text_of(index, "hash"), Some(expected));
    assert_eq!(text_of(index, "hash-format"), Some("sha256".to_string()));
    assert_eq!(text_of(index, "file"), Some("index.toml".to_string()));
    assert_eq!(index.len(), 3);
    assert_eq!(index[2].0, "hash");
}

#[test]
fn rewrite_of_empty_index_text() {
    let out = assemble_pack(child_document(), b"").ok().unwrap();
    assert_eq!(
        text_of(table(&out, "index"), "hash"),
        Some("e3b0c44298fc1c149afbf4c8996fb92427ae41e4649b934ca495991b7852b855".to_string())
    );
}

#[test]
fn rewrite_drops_parent_and_keeps_the_rest() {
    let out = assemble_pack(child_document(), b"x").ok().unwrap();
    let options = table(&out, "options");
    assert_eq!(options.len(), 1);
    assert_eq!(options[0].0, "acceptable-game-versions");
    assert!(matches!(options[0].1, Field::Other(toml::Value::Integer(3))));
    assert_eq!(out.entries.len(), 3);
    assert_eq!(out.entries[0].0, "name");
    assert!(matches!(&out.entries[0].1, Section::Other(toml::Value::String(s)) if s == "Child"));
    assert_eq!(out.entries[1].0, "index");
    assert_eq!(out.entries[2].0, "options");
}

#[test]
fn rewrite_adds_missing_hash_fields() {
    let doc = PackDocument {
        entries: vec![
            ("index".to_string(), Section::Table(vec![text("file", "index.toml")])),
            ("options".to_string(), Section::Table(vec![])),
        ],
    };
    let out = assemble_pack(doc, b"abc").ok().unwrap();
    let index = table(&out, "index");
    assert_eq!(index.len(), 3);
    assert_eq!(
        text_of(index, "hash"),
        Some("ba7816bf8f01cfea414140de5dae2223b00361a396177a9cb410ff61f20015ad".to_string())
    );
    assert_eq!(table(&out, "options").len(), 0);
}

#[test]
fn rewrite_twice_gives_same_document_text() {
    let a = assemble_pack(child_document(), b"same").ok().unwrap();
    let b = assemble_pack(child_document(), b"same").ok().unwrap();
    assert_eq!(text_of(table(&a, "index"), "hash"), text_of(table(&b, "index"), "hash"));
}

#[test]
fn missing_options_is_refused() {
    let doc = PackDocument { entries: vec![("index".to_string(), Section::Table(vec![]))] };
    assert_eq!(assemble_pack(doc, b"").err(), Some(AssembleError::MissingOptions));
    let doc = PackDocument {
        entries: vec![
            ("options".to_string(), Section::Other(toml::Value::Boolean(true))),
            ("index".to_string(), Section::Table(vec![])),
        ],
    };
    assert_eq!(assemble_pack(doc, b"").err(), Some(AssembleError::MissingOptions));
}

#[test]
fn missing_index_is_refused() {
    let doc = PackDocument { entries: vec![("options".to_string(), Section::Table(vec![]))] };
    assert_eq!(assemble_pack(doc, b"").err(), Some(AssembleError::MissingIndex));
}

#[test]
fn parent_address_is_read() {
    let index = PackIndex { file: "index.toml".to_string(), hash_format: HashFormat::Sha256, hash: "00".to_string() };
    let pack = Pack { index, options: Some(Options { parent: Some("https://example.org/pack.toml".to_string()) }) };
    assert_eq!(pack.parent_url().map(|s| s.as_str()), Some("https://example.org/pack.toml"));
    let bare = Pack {
        index: PackIndex { file: "i".to_string(), hash_format: HashFormat::Md5, hash: "1".to_string() },
        options: Some(Options { parent: None }),
    };
    assert!(bare.parent_url().is_none());
    let none = Pack {
        index: PackIndex { file: "i".to_string(), hash_format: HashFormat::Md5, hash: "1".to_string() },
        options: None,
    };
    assert!(none.parent_url().is_none());
}
