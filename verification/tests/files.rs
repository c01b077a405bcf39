use std::sync::Arc;

use huff_utils::files::{self, FileSource, FullFileSource, Remapper, Span, WithSpan};

#[test]
fn test_remappings_from_file() {
    // The two remappings of `./tests/remappings.txt`, one per line.
    let remappings_txt = "@huffmate/=lib/huffmate/src/\n@openzeppelin/=lib/openzeppelin-contracts/contracts/\n";
    let remapper = files::Remapper::new("./tests", None, Some(remappings_txt));
    assert_eq!(remapper.remappings.len(), 2);
    assert_eq!(remapper.remappings.get("@huffmate/").unwrap(), "lib/huffmate/src/");
    assert_eq!(
        remapper.remappings.get("@openzeppelin/").unwrap(),
        "lib/openzeppelin-contracts/contracts/"
    );
}

#[test]
fn test_source_seg() {
    let span = Span {
        start: 59,
        end: 67,
        file: Some(Arc::new(
            files::FileSource {
                id: uuid::Uuid::nil(),
                path: "./huff-examples/errors/error.huff".to_string(),
                source: Some("#include \"./import.huff\"\n\n#define function addressGetter() internal returns (address)".to_string()),
                access: None,
                dependencies: Some(vec![
                    Arc::new(files::FileSource {
                        id: uuid::Uuid::nil(),
                        path: "./huff-examples/errors/import.huff".to_string(),
                        source: Some("#define macro SOME_RANDOM_MACRO() = takes(2) returns (1) {\n    // Store the keys in memory\n    dup1 0x00 mstore\n    swap1 dup1 0x00 mstore\n\n    // Hash the data, generating a key.\n    0x40 sha3\n}\n".to_string()),
                        access: None,
                        dependencies: Some(vec![])
                    })
                ])
            }
        ))
    };

    let source_seg = span.source_seg();
    assert_eq!(
        source_seg,
        format!(
            "\n     {}|\n  > {} | {}\n     {}|",
            " ", 3, "#define function addressGetter() internal returns (address)", " ",
        )
    );
}

#[test]
fn test_derive_dir() {
    let localized = files::FileSource::derive_dir("./examples/ERC20.huff").unwrap();
    assert_eq!(localized, "./examples");
    let localized = files::FileSource::derive_dir("./ERC20.huff").unwrap();
    assert_eq!(localized, ".");
    let localized = files::FileSource::derive_dir("ERC20.huff").unwrap();
    assert_eq!(localized, "");
}

#[test]
fn test_localize_file() {
    let localized =
        files::FileSource::localize_file("./examples/ERC20.huff", "./utilities/Address.huff")
            .unwrap();
    assert_eq!(localized, "./examples/utilities/Address.huff");
    let localized =
        files::FileSource::localize_file("./ERC20.huff", "./utilities/Address.huff").unwrap();
    assert_eq!(localized, "./utilities/Address.huff");
    let localized =
        files::FileSource::localize_file("ERC20.huff", "./utilities/Address.huff").unwrap();
    assert_eq!(localized, "./utilities/Address.huff");
    let localized = files::FileSource::localize_file("ERC20.huff", "./Address.huff").unwrap();
    assert_eq!(localized, "./Address.huff");
    let localized = files::FileSource::localize_file("ERC20.huff", "Address.huff").unwrap();
    assert_eq!(localized, "./Address.huff");
    let localized = files::FileSource::localize_file("./ERC20.huff", "Address.huff").unwrap();
    assert_eq!(localized, "./Address.huff");
    let localized =
        files::FileSource::localize_file("./examples/ERC20.huff", "Address.huff").unwrap();
    assert_eq!(localized, "./examples/Address.huff");
    let localized =
        files::FileSource::localize_file("./examples/ERC20.huff", "../Address.huff").unwrap();
    assert_eq!(localized, "./Address.huff");
    let localized =
        files::FileSource::localize_file("./examples/ERC20.huff", "../../Address.huff").unwrap();
    assert_eq!(localized, "../Address.huff");
    let localized =
        files::FileSource::localize_file("./examples/ERC20.huff", "../../../Address.huff").unwrap();
    assert_eq!(localized, "../../Address.huff");
    let localized =
        files::FileSource::localize_file("../examples/ERC20.huff", "../../../Address.huff")
            .unwrap();
    assert_eq!(localized, "../../../Address.huff");
    let localized =
        files::FileSource::localize_file("../examples/ERC20.huff", "./Address.huff").unwrap();
    assert_eq!(localized, "../examples/Address.huff");
    let localized =
        files::FileSource::localize_file("../examples/ERC20.huff", "Address.huff").unwrap();
    assert_eq!(localized, "../examples/Address.huff");
    let localized =
        files::FileSource::localize_file("../../examples/ERC20.huff", "Address.huff").unwrap();
    assert_eq!(localized, "../../examples/Address.huff");
    let localized =
        files::FileSource::localize_file("../../examples/ERC20.huff", "../Address.huff").unwrap();
    assert_eq!(localized, "../../Address.huff");
    let localized =
        files::FileSource::localize_file("../../examples/ERC20.huff", "../../../Address.huff")
            .unwrap();
    assert_eq!(localized, "../../../../Address.huff");
    let localized =
        files::FileSource::localize_file("examples/ERC20.huff", "../random_dir/Address.huff")
            .unwrap();
    assert_eq!(localized, "./random_dir/Address.huff");
}

#[test]
fn localize_keeps_absolute_children() {
    assert_eq!(FileSource::localize_file("./a/b.huff", "/abs/c.huff").unwrap(), "/abs/c.huff");
}

#[test]
fn split_breaks_at_the_first_equals() {
    assert_eq!(Remapper::split("a=b=c"), Some(("a".to_string(), "b=c".to_string())));
    assert_eq!(Remapper::split("=x"), Some((String::new(), "x".to_string())));
    assert_eq!(Remapper::split("novalue"), None);
}

#[test]
fn remapper_reads_foundry_then_file() {
    let foundry = "[profile.default]\nsrc = \"src\"\nremappings = [\"examples/=huff-examples/\", \"lib/=from-foundry/\", \"broken\"]\n";
    let remapper = Remapper::new("../", Some(foundry), Some("lib/=from-file/\n\nx=y"));
    assert_eq!(remapper.base_dir, "../");
    assert_eq!(remapper.remappings.len(), 3);
    assert_eq!(remapper.remappings.get("examples/").unwrap(), "huff-examples/");
    assert_eq!(remapper.remappings.get("lib/").unwrap(), "from-file/");
    assert_eq!(remapper.remappings.get("x").unwrap(), "y");

    assert_eq!(remapper.remap("examples/ERC20.huff"), Some("../huff-examples/ERC20.huff".to_string()));
    assert_eq!(remapper.remap("other/ERC20.huff"), None);
}

#[test]
fn remap_replaces_every_occurrence() {
    let remapper = Remapper::new("base/", None, Some("a/=b/"));
    assert_eq!(remapper.remap("a/x/a/y"), Some("base/b/x/b/y".to_string()));
}

fn source(path: &str, text: &str, deps: Vec<Arc<FileSource>>) -> Arc<FileSource> {
    Arc::new(FileSource {
        id: uuid::Uuid::nil(),
        path: path.to_string(),
        source: Some(text.to_string()),
        access: None,
        dependencies: Some(deps),
    })
}

#[test]
fn fully_flatten_appends_dependencies() {
    let b = source("b.txt", "bb", vec![]);
    let c = source("c.txt", "ccc", vec![]);
    let a = source("a.txt", "a", vec![b, c]);
    let (flat, spans) = FileSource::fully_flatten(a);
    assert_eq!(flat, "abbccc");
    assert_eq!(spans.len(), 5);
    assert_eq!((spans[0].1.start, spans[0].1.end), (0, 1));
    assert_eq!(spans[0].0.path, "a.txt");
    assert_eq!((spans[1].1.start, spans[1].1.end), (0, 2));
    assert_eq!(spans[2].0.path, "b.txt");
    assert_eq!((spans[2].1.start, spans[2].1.end), (1, 3));
    assert_eq!((spans[4].1.start, spans[4].1.end), (3, 6));
}

#[test]
fn relative_span_and_identifier() {
    let f = source("f.huff", "0123456789", vec![]);
    let full = FullFileSource {
        source: "0123456789",
        file: None,
        spans: vec![(f.clone(), Span { start: 2, end: 9, file: None })],
    };
    let inner = Span { start: 4, end: 6, file: None };
    let rel = full.relative_span(&inner).unwrap();
    assert_eq!((rel.start, rel.end), (2, 4));
    assert_eq!(rel.file.unwrap().path, "f.huff");
    assert!(full.relative_span(&Span { start: 1, end: 3, file: None }).is_none());

    let s = Span { start: 3, end: 5, file: Some(f) };
    assert_eq!(s.identifier(), "\n-> f.huff:3-5");
    assert_eq!(Span::eof().identifier(), "");
    assert!(Span::eof().range().is_none());
    assert_eq!(s.range(), Some(3..5));
    let w = WithSpan::new(7u8, Span::new(1..2, None));
    assert_eq!(w.value, 7);
    assert_eq!((w.span.start, w.span.end), (1, 2));
}

#[test]
fn source_seg_without_source_is_empty() {
    let f = Arc::new(FileSource { id: uuid::Uuid::nil(), path: "x".to_string(), source: None, access: None, dependencies: None });
    assert_eq!(Span { start: 0, end: 0, file: Some(f) }.source_seg(), "");
    assert_eq!(Span::eof().source_seg(), "");
}

#[test]
fn test_generate_remappings() {
    // The project's `foundry.toml`.
    let foundry_toml = "[profile.default]\nremappings = [\"examples/=huff-examples/\"]\n";
    let remapper = files::Remapper::new("../", Some(foundry_toml), None);
    assert_eq!(remapper.remappings.len(), 1);
    assert_eq!(remapper.remappings.get("examples/").unwrap(), "huff-examples/");
}

#[test]
fn span_from_range_and_sum() {
    let a = Span::from(1..2);
    assert_eq!(a, Span::new(1..2, None));
    let b = Span::new(5..9, None);
    assert_eq!(a + b, Span::new(1..9, None));
}
