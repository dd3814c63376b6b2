use hop_scip::grammar::ParseErrorKind;
use hop_scip::message::{DescriptorMessage, PackageMessage, Suffix, SymbolMessage};
use hop_scip::parse::ParseError;
use hop_scip::symbol::{Descriptor, GlobalSymbol, Package, Scheme, Symbol};

fn global(scheme: &str, package: Package, descriptors: Vec<Descriptor>) -> Symbol {
    Symbol::Global(GlobalSymbol { scheme: Scheme::new(scheme), package, descriptors })
}

fn ns(name: &str) -> Descriptor {
    Descriptor::Namespace(name.to_string())
}

fn method(name: &str, disambiguator: Option<&str>) -> Descriptor {
    Descriptor::Method {
        name: name.to_string(),
        disambiguator: disambiguator.map(|d| d.to_string()),
    }
}

fn fails(raw: &str, kind: ParseErrorKind, offset: usize) {
    assert_eq!(Symbol::parse(raw), Err(ParseError { kind, offset }), "input {:?}", raw);
}

fn round_trips(symbol: &Symbol, text: &str) {
    assert_eq!(symbol.format(), text);
    assert_eq!(Symbol::parse(text).as_ref(), Ok(symbol));
}

#[test]
fn local_symbol_parses_and_prints() {
    let parsed = Symbol::parse("local 42");
    assert_eq!(parsed, Ok(Symbol::Local { local_id: "42".to_string() }));
    let symbol = parsed.unwrap();
    assert!(symbol.is_local());
    assert_eq!(symbol.format(), "local 42");
}

#[test]
fn local_id_is_taken_verbatim() {
    let parsed = Symbol::parse("local a b`c/.(").unwrap();
    assert_eq!(parsed, Symbol::Local { local_id: "a b`c/.(".to_string() });
    assert_eq!(parsed.format(), "local a b`c/.(");
}

#[test]
fn empty_local_id_is_rejected() {
    fails("local ", ParseErrorKind::EmptyLocalId, 6);
}

#[test]
fn descriptor_order_is_preserved() {
    let symbol = global(
        "scm",
        Package::new(None, None, None),
        vec![ns("pkg"), Descriptor::Type("Widget".to_string()), method("new", None)],
    );
    let text = symbol.format();
    assert_eq!(text, "scm . . . pkg/Widget#new().");
    match Symbol::parse(&text).unwrap() {
        Symbol::Global(g) => assert_eq!(
            g.descriptors,
            vec![ns("pkg"), Descriptor::Type("Widget".to_string()), method("new", None)]
        ),
        Symbol::Local { .. } => panic!("a global symbol came back local"),
    }
}

#[test]
fn absent_package_fields_stay_absent() {
    let package = Package::new(None, None, None);
    assert_eq!(package.manager(), None);
    assert_eq!(package.package_name(), None);
    assert_eq!(package.version(), None);
    assert_eq!(package, Package::default());
    let text = global("scm", package, vec![ns("x")]).format();
    assert_eq!(text, "scm . . . x/");
    match Symbol::parse(&text).unwrap() {
        Symbol::Global(g) => {
            assert_eq!(g.package.manager(), None);
            assert_eq!(g.package.package_name(), None);
            assert_eq!(g.package.version(), None);
        },
        Symbol::Local { .. } => panic!("a global symbol came back local"),
    }
}

#[test]
fn present_package_fields_are_given_back() {
    let package = Package::new(Some("cargo"), None, Some("v1"));
    assert_eq!(package.manager(), Some("cargo"));
    assert_eq!(package.package_name(), None);
    assert_eq!(package.version(), Some("v1"));
    round_trips(&global("scm", package, vec![ns("x")]), "scm cargo . v1 x/");
}

#[test]
fn end_to_end_example() {
    let text = "scm manager pkg `1.0.0` Namespace/Type#method().";
    let expected = global(
        "scm",
        Package::new(Some("manager"), Some("pkg"), Some("1.0.0")),
        vec![ns("Namespace"), Descriptor::Type("Type".to_string()), method("method", None)],
    );
    let parsed = Symbol::parse(text).unwrap();
    assert_eq!(parsed, expected);
    assert!(!parsed.is_local());
    assert_eq!(parsed.format(), text);
}

#[test]
fn unescaped_dot_in_a_coordinate_is_rejected() {
    fails(
        "scm manager pkg 1.0.0 Namespace/Type#method().",
        ParseErrorKind::IllegalUnescapedCharacter,
        17,
    );
}

#[test]
fn malformed_inputs_give_distinct_kinds() {
    let unterminated = Symbol::parse("`scm m p v x/").unwrap_err();
    let empty_scheme = Symbol::parse(" m p v x/").unwrap_err();
    let no_descriptors = Symbol::parse("scm m p v ").unwrap_err();
    assert_eq!(unterminated, ParseError { kind: ParseErrorKind::UnterminatedEscape, offset: 0 });
    assert_eq!(empty_scheme, ParseError { kind: ParseErrorKind::EmptyScheme, offset: 0 });
    assert_eq!(no_descriptors, ParseError { kind: ParseErrorKind::NoDescriptors, offset: 10 });
    assert_ne!(unterminated.kind, empty_scheme.kind);
    assert_ne!(unterminated.kind, no_descriptors.kind);
    assert_ne!(empty_scheme.kind, no_descriptors.kind);
}

#[test]
fn every_error_kind_has_an_input() {
    fails("", ParseErrorKind::EmptyScheme, 0);
    fails(". m p v x/", ParseErrorKind::EmptyScheme, 0);
    fails("`` m p v x/", ParseErrorKind::EmptyScheme, 0);
    fails("scm", ParseErrorKind::UnexpectedEndOfInput, 3);
    fails("scm m p v", ParseErrorKind::UnexpectedEndOfInput, 9);
    fails("scm m p v x", ParseErrorKind::UnexpectedEndOfInput, 11);
    fails("scm m p v x(", ParseErrorKind::UnexpectedEndOfInput, 12);
    fails("scm m p v x()", ParseErrorKind::UnexpectedEndOfInput, 13);
    fails("scm m p v (x", ParseErrorKind::UnexpectedEndOfInput, 12);
    fails("scm m `p v x/", ParseErrorKind::UnterminatedEscape, 6);
    fails("scm m p v `x``/", ParseErrorKind::UnterminatedEscape, 10);
    fails("scm m p v x y/", ParseErrorKind::InvalidSuffix, 11);
    fails("scm m p v x(y]", ParseErrorKind::InvalidSuffix, 13);
    fails("scm m p v x()/", ParseErrorKind::InvalidSuffix, 13);
    fails("scm m p v [x)", ParseErrorKind::InvalidSuffix, 12);
    fails("scm m p v x)", ParseErrorKind::InvalidSuffix, 11);
    fails("scm m p v ", ParseErrorKind::NoDescriptors, 10);
    fails("scm m p v /", ParseErrorKind::IllegalUnescapedCharacter, 10);
    fails("scm  p v x/", ParseErrorKind::IllegalUnescapedCharacter, 4);
    fails("scm m p v ``/", ParseErrorKind::IllegalUnescapedCharacter, 10);
    fails("scm/ m p v x/", ParseErrorKind::IllegalUnescapedCharacter, 3);
    fails("scm m p v. x/", ParseErrorKind::IllegalUnescapedCharacter, 9);
    fails("scm m p v x/()", ParseErrorKind::IllegalUnescapedCharacter, 13);
}

#[test]
fn offsets_count_bytes() {
    fails("\u{e9} m p v", ParseErrorKind::UnexpectedEndOfInput, 8);
    fails("\u{4e16}\u{1f600} m p v \u{e9}\u{e9}", ParseErrorKind::UnexpectedEndOfInput, 18);
    fails("s m p v `\u{e9}`?", ParseErrorKind::InvalidSuffix, 12);
}

#[test]
fn reserved_characters_are_escaped() {
    let names = ["a b", "a`b", "a/b", "a#b", "a.b", "a(b", "a)b", "a[b", "a]b", "a!b", "a:b", "a\tb", "`", "``", " "];
    for name in names {
        let symbol = global("scm", Package::new(None, None, None), vec![ns(name)]);
        let text = symbol.format();
        let doubled = name.replace('`', "``");
        assert_eq!(text, format!("scm . . . `{}`/", doubled));
        assert_eq!(Symbol::parse(&text), Ok(symbol));
    }
}

#[test]
fn plain_identifiers_stay_bare() {
    let symbol = global(
        "rust-analyzer",
        Package::new(Some("cargo"), Some("serde_json"), Some("1-0-2")),
        vec![ns("de"), Descriptor::Term("from_str".to_string())],
    );
    round_trips(&symbol, "rust-analyzer cargo serde_json 1-0-2 de/from_str.");
}

#[test]
fn escaped_scheme_and_coordinates_round_trip() {
    let symbol = global(
        "my scheme",
        Package::new(Some("a b"), Some("x`y"), Some("1.0.0")),
        vec![method("get", Some("a b"))],
    );
    round_trips(&symbol, "`my scheme` `a b` `x``y` `1.0.0` get(`a b`).");
}

#[test]
fn every_descriptor_kind_round_trips() {
    let symbol = global(
        "scm",
        Package::new(None, Some("p"), None),
        vec![
            ns("n"),
            Descriptor::Type("T".to_string()),
            Descriptor::TypeParameter("U".to_string()),
            method("m", Some("+1")),
            Descriptor::Parameter("x".to_string()),
            Descriptor::Term("t".to_string()),
            Descriptor::Meta("meta".to_string()),
            Descriptor::Macro("mac".to_string()),
            method("plain", None),
        ],
    );
    round_trips(&symbol, "scm . p . n/T#[U]m(+1).(x)t.meta:mac!plain().");
}

#[test]
fn over_escaped_text_is_read_and_printed_bare() {
    let parsed = Symbol::parse("`scm` `m` . . `x`/(`y`)").unwrap();
    let expected = global(
        "scm",
        Package::new(Some("m"), None, None),
        vec![ns("x"), Descriptor::Parameter("y".to_string())],
    );
    assert_eq!(parsed, expected);
    assert_eq!(parsed.format(), "scm m . . x/(y)");
}

#[test]
fn escaped_dot_coordinate_reads_as_absent() {
    match Symbol::parse("scm `.` p v x/").unwrap() {
        Symbol::Global(g) => {
            assert_eq!(g.package.manager(), None);
            assert_eq!(g.package.package_name(), Some("p"));
            assert_eq!(g.package.version(), Some("v"));
        },
        Symbol::Local { .. } => panic!("a global symbol came back local"),
    }
}

#[test]
fn any_white_space_separates_segments() {
    let parsed = Symbol::parse("scm\tm\np\rv x/").unwrap();
    assert_eq!(
        parsed,
        global("scm", Package::new(Some("m"), Some("p"), Some("v")), vec![ns("x")])
    );
    assert_eq!(parsed.format(), "scm m p v x/");
}

#[test]
fn empty_disambiguator_is_absent() {
    match Symbol::parse("scm . . . m().").unwrap() {
        Symbol::Global(g) => assert_eq!(g.descriptors, vec![method("m", None)]),
        Symbol::Local { .. } => panic!("a global symbol came back local"),
    }
    match Symbol::parse("scm . . . m(``).").unwrap() {
        Symbol::Global(g) => assert_eq!(g.descriptors, vec![method("m", None)]),
        Symbol::Local { .. } => panic!("a global symbol came back local"),
    }
}

#[test]
fn scheme_new_holds_the_name() {
    assert_eq!(Scheme::new("scip-rust"), Scheme("scip-rust".to_string()));
    assert_eq!(Scheme::default(), Scheme(String::new()));
}

#[test]
fn descriptor_messages() {
    assert_eq!(
        ns("n").to_proto(),
        DescriptorMessage {
            name: "n".to_string(),
            disambiguator: String::new(),
            suffix: Suffix::Namespace
        }
    );
    assert_eq!(
        method("m", Some("d")).to_proto(),
        DescriptorMessage {
            name: "m".to_string(),
            disambiguator: "d".to_string(),
            suffix: Suffix::Method
        }
    );
    assert_eq!(method("m", None).to_proto().disambiguator, "");
    assert_eq!(Descriptor::Type("t".to_string()).to_proto().suffix, Suffix::Type);
    assert_eq!(Descriptor::Term("t".to_string()).to_proto().suffix, Suffix::Term);
    assert_eq!(Descriptor::Meta("t".to_string()).to_proto().suffix, Suffix::Meta);
    assert_eq!(Descriptor::Macro("t".to_string()).to_proto().suffix, Suffix::Macro);
    assert_eq!(
        Descriptor::TypeParameter("t".to_string()).to_proto().suffix,
        Suffix::TypeParameter
    );
    assert_eq!(Descriptor::Parameter("t".to_string()).to_proto().suffix, Suffix::Parameter);
}

#[test]
fn package_message_keeps_the_sentinel() {
    assert_eq!(
        Package::new(Some("cargo"), None, Some("1")).to_proto(),
        PackageMessage {
            manager: "cargo".to_string(),
            name: ".".to_string(),
            version: "1".to_string()
        }
    );
}

#[test]
fn symbol_messages() {
    let local = Symbol::Local { local_id: "7".to_string() };
    assert_eq!(
        local.to_proto(),
        SymbolMessage {
            scheme: "local".to_string(),
            package: None,
            descriptors: vec![DescriptorMessage {
                name: "7".to_string(),
                disambiguator: String::new(),
                suffix: Suffix::Local
            }],
        }
    );
    let symbol = global("scm", Package::new(None, Some("p"), None), vec![ns("a"), method("b", None)]);
    let message = symbol.to_proto();
    assert_eq!(message.scheme, "scm");
    assert_eq!(message.package, Some(Package::new(None, Some("p"), None).to_proto()));
    assert_eq!(message.descriptors, vec![ns("a").to_proto(), method("b", None).to_proto()]);
}

#[test]
fn symbols_key_hash_maps() {
    let mut seen = std::collections::HashSet::new();
    seen.insert(Symbol::parse("local 1").unwrap());
    seen.insert(Symbol::parse("scm . . . x/").unwrap());
    assert!(seen.contains(&Symbol::Local { local_id: "1".to_string() }));
    assert!(seen.contains(&global("scm", Package::default(), vec![ns("x")])));
    assert_eq!(seen.len(), 2);
}
