use house_rules::config::Configuration;
use house_rules::engine::run;
use house_rules::load::{assemble, fn_items_in_file, is_source_path, load_within, LoadError, Loaded};
use house_rules::parser::read::parse_functions;
use house_rules::parser::TEXT_LIMIT;
use house_rules::position::SourcePosition;
use house_rules::rules::{check_instrument, check_loops, check_safety};
use house_rules::syntax::{FunctionItem, RiskKind, SourceFile, SpanError, Statement};
use house_rules::violation::{exit_status, report, RuleKind, Violation};

fn at(line: usize, column: usize) -> SourcePosition {
    SourcePosition { line, column }
}

fn load(path: &str, text: &str) -> Loaded {
    fn_items_in_file(path.to_string(), text.to_string())
}

fn everything() -> Configuration {
    Configuration::from_switches("target".to_string(), true, false, false, false, true).unwrap()
}

const SAMPLE: &str = "\
#[instrument]
#[inline]
fn first() {
    let a = 1;
    unsafe { danger(a) }
}

struct NotAFunction;

#[tracing::instrument]
pub fn second() {
    loop {
        break;
    }
    if true { unsafe {} }
}

impl NotAFunction {
    fn method(&self) {}
}
";

#[test]
fn functions_are_read_in_source_order() {
    let loaded = load("src/sample.rs", SAMPLE);
    assert_eq!(loaded.error, None);
    assert_eq!(loaded.file.path(), "src/sample.rs");
    assert_eq!(loaded.file.text(), SAMPLE);
    assert_eq!(
        loaded.file.functions(),
        &vec![
            FunctionItem {
                name: "first".to_string(),
                attributes: vec!["instrument".to_string(), "inline".to_string()],
                statements: vec![Statement::Other, Statement::UnsafeBlock(at(5, 4))],
                position: at(3, 3),
            },
            FunctionItem {
                name: "second".to_string(),
                attributes: vec![],
                statements: vec![Statement::LoopBlock(at(12, 4)), Statement::Other],
                position: at(11, 7),
            },
        ]
    );
}

#[test]
fn positions_point_at_the_identifier_and_the_keyword() {
    let loaded = load("src/sample.rs", SAMPLE);
    let lines: Vec<&str> = SAMPLE.split('\n').collect();
    for function in loaded.file.functions() {
        let line = lines[function.position.line - 1];
        assert!(line[function.position.column..].starts_with(function.name.as_str()));
        for statement in &function.statements {
            match statement {
                Statement::UnsafeBlock(position) => {
                    assert!(lines[position.line - 1][position.column..].starts_with("unsafe"))
                }
                Statement::LoopBlock(position) => {
                    assert!(lines[position.line - 1][position.column..].starts_with("loop"))
                }
                Statement::Other => {}
            }
        }
    }
}

#[test]
fn only_statements_directly_inside_the_body_are_told_apart() {
    let text = "\
fn f() {
    if ready() {
        unsafe { go() }
    }
    let value = unsafe { read() };
    while busy() {
        loop {}
    }
    call(|| loop {});
    unsafe { go() }.then();
}
";
    let loaded = load("a.rs", text);
    assert_eq!(loaded.error, None);
    assert_eq!(
        loaded.file.functions()[0].statements,
        vec![Statement::Other, Statement::Other, Statement::Other, Statement::Other, Statement::Other]
    );
    assert_eq!(check_safety(&loaded.file), vec![]);
    assert_eq!(check_loops(&loaded.file), vec![]);
}

#[test]
fn statement_with_a_semicolon_is_told_apart_too() {
    let text = "fn f() {\n    unsafe { go() };\n    loop { step() };\n    'outer: loop { break 'outer; }\n}\n";
    let loaded = load("a.rs", text);
    assert_eq!(
        loaded.file.functions()[0].statements,
        vec![Statement::UnsafeBlock(at(2, 4)), Statement::LoopBlock(at(3, 4)), Statement::LoopBlock(at(4, 12))]
    );
}

#[test]
fn unsafe_function_is_not_an_unsafe_block() {
    let text = "unsafe fn raw() {\n    go();\n}\n";
    let loaded = load("a.rs", text);
    assert_eq!(
        loaded.file.functions(),
        &vec![FunctionItem {
            name: "raw".to_string(),
            attributes: vec![],
            statements: vec![Statement::Other],
            position: at(1, 10),
        }]
    );
}

#[test]
fn attributes_with_arguments_keep_their_name() {
    let text = "#[instrument(skip(all))]\n#[doc = \"text\"]\n#[cfg(test)]\n#[a::b]\n#[::c]\nfn f() {}\n";
    let loaded = load("a.rs", text);
    assert_eq!(
        loaded.file.functions()[0].attributes,
        vec!["instrument".to_string(), "doc".to_string(), "cfg".to_string()]
    );
    assert_eq!(check_instrument(&loaded.file, &everything()), vec![]);
}

#[test]
fn attribute_under_a_longer_path_is_not_the_marker() {
    let text = "#[tracing::instrument]\nfn f() {}\n";
    let loaded = load("a.rs", text);
    assert_eq!(
        check_instrument(&loaded.file, &everything()),
        vec![Violation {
            kind: RuleKind::MissingMarkerAttribute,
            message: "No #[instrument] on `f`".to_string(),
            path: "a.rs".to_string(),
            position: at(2, 3),
        }]
    );
}

#[test]
fn function_without_marker_gives_exactly_one_violation_at_its_name() {
    let text = "fn compute() {\n    let x = 1;\n    let y = x + 1;\n}\n";
    let loaded = load("src/engine.rs", text);
    assert_eq!(loaded.error, None);
    let found = run(&vec![loaded.file], &Configuration::from_switches("src".to_string(), true, true, false, false, false).unwrap());
    assert_eq!(
        found,
        vec![Violation {
            kind: RuleKind::MissingMarkerAttribute,
            message: "No #[instrument] on `compute`".to_string(),
            path: "src/engine.rs".to_string(),
            position: at(1, 3),
        }]
    );
    assert_eq!(report(&found), "No #[instrument] on `compute` in src/engine.rs:1:3");
    assert_eq!(exit_status(&found), 1);
}

fn long_function() -> String {
    let mut lines: Vec<String> = Vec::new();
    lines.push("fn process() {".to_string());
    lines.push("    let mut total = 0;".to_string());
    lines.push("    // SAFETY: reason".to_string());
    for line in 4..=40 {
        if line == 10 || line == 30 {
            lines.push("    unsafe { touch(&mut total) }".to_string());
        } else {
            lines.push(format!("    total += {};", line));
        }
    }
    lines.push("}".to_string());
    lines.join("\n")
}

#[test]
fn one_marker_comment_on_line_three_covers_blocks_on_lines_ten_and_thirty() {
    let text = long_function();
    let loaded = load("src/process.rs", &text);
    assert_eq!(loaded.error, None);
    let statements = &loaded.file.functions()[0].statements;
    assert_eq!(statements.len(), 38);
    assert_eq!(statements[7], Statement::UnsafeBlock(at(10, 4)));
    assert_eq!(statements[27], Statement::UnsafeBlock(at(30, 4)));
    assert_eq!(check_safety(&loaded.file), vec![]);
    let config = Configuration::from_switches("src".to_string(), true, false, true, false, false).unwrap();
    let found = run(&vec![loaded.file], &config);
    assert_eq!(found, vec![]);
    assert_eq!(exit_status(&found), 0);
}

#[test]
fn without_the_marker_comment_both_blocks_are_reported() {
    let text = long_function().replace("// SAFETY: reason", "// nothing to see");
    let loaded = load("src/process.rs", &text);
    let expected = |line| Violation {
        kind: RuleKind::MissingPrecedingComment(RiskKind::UnsafeBlock),
        message: "Unsafe block without `// SAFETY`".to_string(),
        path: "src/process.rs".to_string(),
        position: at(line, 4),
    };
    assert_eq!(check_safety(&loaded.file), vec![expected(10), expected(30)]);
}

#[test]
fn marker_comment_between_the_blocks_covers_only_the_later_one() {
    let text = long_function().replace("// SAFETY: reason", "// moved").replace("total += 20;", "//SAFETY: here");
    let loaded = load("src/process.rs", &text);
    assert_eq!(
        check_safety(&loaded.file),
        vec![Violation {
            kind: RuleKind::MissingPrecedingComment(RiskKind::UnsafeBlock),
            message: "Unsafe block without `// SAFETY`".to_string(),
            path: "src/process.rs".to_string(),
            position: at(10, 4),
        }]
    );
}

#[test]
fn file_that_does_not_parse_loads_as_an_empty_file() {
    let loaded = load("src/broken.rs", "fn broken( {\n    unsafe {}\n");
    assert_eq!(loaded.file, SourceFile::empty());
    assert_eq!(loaded.file.functions().len(), 0);
    assert_eq!(loaded.file.path(), "");
    assert_eq!(loaded.file.text(), "");
    assert!(matches!(loaded.error, Some(LoadError::Syntax(_))));
}

#[test]
fn file_that_does_not_parse_gives_no_violation_and_does_not_stop_the_run() {
    let broken = load("src/broken.rs", "this is not rust {{{");
    let whole = load("src/whole.rs", "fn work() {\n    unsafe {}\n    loop {}\n}\n");
    assert!(broken.error.is_some());
    assert_eq!(whole.error, None);
    let config = everything();
    assert_eq!(check_instrument(&broken.file, &config), vec![]);
    assert_eq!(check_safety(&broken.file), vec![]);
    assert_eq!(check_loops(&broken.file), vec![]);
    let found = run(&vec![broken.file, whole.file], &config);
    assert_eq!(found.len(), 3);
    assert_eq!(found[0].kind, RuleKind::MissingMarkerAttribute);
    assert_eq!(found[1].position, at(2, 4));
    assert_eq!(found[2].position, at(3, 4));
    assert_eq!(found[0].path, "src/whole.rs");
}

#[test]
fn parse_failure_is_told_with_the_path_and_the_parser_message() {
    let loaded = load("src/broken.rs", "fn f() { let = ; }");
    let error = loaded.error.unwrap();
    let said = match &error {
        LoadError::Syntax(message) => message.clone(),
        _ => panic!("a syntax error was expected"),
    };
    assert!(!said.is_empty());
    assert_eq!(error.message("src/broken.rs"), format!("Failed to parse file src/broken.rs: {}", said));
}

#[test]
fn empty_text_parses_to_a_file_without_functions() {
    let loaded = load("src/empty.rs", "");
    assert_eq!(loaded.error, None);
    assert_eq!(loaded.file.path(), "src/empty.rs");
    assert_eq!(loaded.file.functions().len(), 0);
}

#[test]
fn text_without_functions_parses_to_a_file_without_functions() {
    let loaded = load("src/types.rs", "struct A;\nenum B { C }\nmod inner { fn hidden() {} }\n");
    assert_eq!(loaded.error, None);
    assert_eq!(loaded.file.functions().len(), 0);
    assert_eq!(loaded.file.text(), "struct A;\nenum B { C }\nmod inner { fn hidden() {} }\n");
}

fn stray_function() -> Vec<FunctionItem> {
    vec![
        FunctionItem {
            name: "fine".to_string(),
            attributes: vec![],
            statements: vec![Statement::UnsafeBlock(at(1, 0)), Statement::Other],
            position: at(50, 50),
        },
        FunctionItem {
            name: "stray".to_string(),
            attributes: vec![],
            statements: vec![Statement::Other, Statement::LoopBlock(at(2, 0)), Statement::UnsafeBlock(at(9, 1)), Statement::LoopBlock(at(0, 0))],
            position: at(1, 3),
        },
    ]
}

#[test]
fn statement_outside_the_text_is_an_error_that_names_the_first_such() {
    let text = "one\ntwo";
    let expected = SpanError { function: 1, statement: 2, position: at(9, 1) };
    assert_eq!(SourceFile::new("a.rs".to_string(), text.to_string(), stray_function()), Err(expected));
    let loaded = assemble("a.rs".to_string(), text.to_string(), Ok(stray_function()));
    assert_eq!(loaded.file, SourceFile::empty());
    assert_eq!(loaded.error, Some(LoadError::Span(expected)));
    assert_eq!(
        loaded.error.unwrap().message("a.rs"),
        "Statement at 9:1 lies outside the text of file a.rs"
    );
}

#[test]
fn statement_is_within_the_text_up_to_its_end() {
    let function = |statement| {
        vec![FunctionItem { name: "f".to_string(), attributes: vec![], statements: vec![statement], position: at(1, 0) }]
    };
    let text = "ab\ncd";
    let new = |statement| SourceFile::new("a.rs".to_string(), text.to_string(), function(statement));
    assert!(new(Statement::UnsafeBlock(at(2, 2))).is_ok());
    assert_eq!(
        new(Statement::UnsafeBlock(at(2, 3))),
        Err(SpanError { function: 0, statement: 0, position: at(2, 3) })
    );
    assert_eq!(
        new(Statement::LoopBlock(at(3, 0))),
        Err(SpanError { function: 0, statement: 0, position: at(3, 0) })
    );
    assert_eq!(
        new(Statement::LoopBlock(at(0, 1))),
        Err(SpanError { function: 0, statement: 0, position: at(0, 1) })
    );
    assert!(new(Statement::Other).is_ok());
}

#[test]
fn assemble_keeps_the_functions_it_is_given() {
    let functions = || {
        vec![FunctionItem {
            name: "f".to_string(),
            attributes: vec!["inline".to_string()],
            statements: vec![Statement::UnsafeBlock(at(1, 9))],
            position: at(1, 3),
        }]
    };
    let loaded = assemble("a.rs".to_string(), "fn f() { unsafe {} }".to_string(), Ok(functions()));
    assert_eq!(loaded.error, None);
    assert_eq!(loaded.file.path(), "a.rs");
    assert_eq!(loaded.file.text(), "fn f() { unsafe {} }");
    assert_eq!(loaded.file.functions(), &functions());
}

#[test]
fn assemble_turns_a_parser_message_into_an_empty_file() {
    let loaded = assemble("a.rs".to_string(), "fn (".to_string(), Err("expected identifier".to_string()));
    assert_eq!(loaded.file, SourceFile::empty());
    assert_eq!(loaded.error, Some(LoadError::Syntax("expected identifier".to_string())));
    assert_eq!(
        loaded.error.unwrap().message("a.rs"),
        "Failed to parse file a.rs: expected identifier"
    );
}

#[test]
fn source_paths_end_in_the_extension() {
    assert!(is_source_path("src/main.rs"));
    assert!(is_source_path("a.rs"));
    assert!(is_source_path(".rs"));
    assert!(!is_source_path("src/main.rs.orig"));
    assert!(!is_source_path("src/main.r"));
    assert!(!is_source_path("src/mainrs"));
    assert!(!is_source_path("src/main.RS"));
    assert!(!is_source_path(""));
}

#[test]
fn text_that_is_not_ascii_is_cut_by_bytes() {
    // The parser counts the column in characters. Added to a count of bytes
    // it falls short of the keyword, here into the middle of a character.
    let text = "fn f() {\n    /*€€*/unsafe {}\n}\n";
    let loaded = load("a.rs", text);
    assert_eq!(loaded.error, None);
    assert_eq!(loaded.file.functions()[0].statements, vec![Statement::UnsafeBlock(at(2, 10))]);
    assert!(!text.is_char_boundary(9 + 10));
    assert_eq!(
        check_safety(&loaded.file),
        vec![Violation {
            kind: RuleKind::MissingPrecedingComment(RiskKind::UnsafeBlock),
            message: "Unsafe block without `// SAFETY`".to_string(),
            path: "a.rs".to_string(),
            position: at(2, 10),
        }]
    );
    let commented = "// SAFETY: fine\nfn f() {\n    /*€€*/unsafe {}\n}\n";
    assert_eq!(check_safety(&load("a.rs", commented).file), vec![]);
}

#[test]
fn text_with_two_byte_terminators_loads_and_is_scanned() {
    let text = "fn f() {\r\n    // SAFETY: fine\r\n    unsafe {}\r\n}\r\n";
    let loaded = load("a.rs", text);
    assert_eq!(loaded.error, None);
    assert_eq!(loaded.file.functions()[0].statements, vec![Statement::UnsafeBlock(at(3, 4))]);
    assert_eq!(check_safety(&loaded.file), vec![]);
}

#[test]
fn functions_are_parsed_from_a_text() {
    let parsed = parse_functions("#[inline]\nfn a() { loop {} }\nfn b() {}\n");
    assert_eq!(
        parsed,
        Ok(vec![
            FunctionItem {
                name: "a".to_string(),
                attributes: vec!["inline".to_string()],
                statements: vec![Statement::LoopBlock(at(2, 9))],
                position: at(2, 3),
            },
            FunctionItem { name: "b".to_string(), attributes: vec![], statements: vec![], position: at(3, 3) },
        ])
    );
    let failed = parse_functions("fn (");
    assert!(matches!(failed, Err(message) if !message.is_empty()));
}

#[test]
fn same_text_gives_the_same_positions_whatever_was_parsed_before() {
    let text = "fn first() {}\n\nfn second() {\n    unsafe {}\n}\n";
    let alone = parse_functions(text);
    for filler in ["", "fn x() {}", "not rust at all (((", "// only a comment\n", SAMPLE] {
        assert!(filler.len() < TEXT_LIMIT);
        let _ = parse_functions(filler);
        assert_eq!(parse_functions(text), alone);
    }
    let first = load("a.rs", text);
    let _ = load("b.rs", SAMPLE);
    let again = load("a.rs", text);
    assert_eq!(first, again);
    assert_eq!(again.file.functions()[1].statements, vec![Statement::UnsafeBlock(at(4, 4))]);
}

#[test]
fn contents_as_long_as_the_limit_are_too_long_to_load() {
    let text = "fn f() {}";
    assert_eq!(text.len(), 9);
    for limit in [0, 1, 8, 9] {
        let loaded = load_within("src/long.rs".to_string(), text.to_string(), limit);
        assert_eq!(loaded.file, SourceFile::empty());
        assert_eq!(loaded.error, Some(LoadError::TooLong));
    }
    for limit in [10, 11, 1000, TEXT_LIMIT, usize::MAX] {
        let loaded = load_within("src/long.rs".to_string(), text.to_string(), limit);
        assert_eq!(loaded.error, None);
        assert_eq!(loaded.file.path(), "src/long.rs");
        assert_eq!(loaded.file.functions().len(), 1);
    }
}

#[test]
fn length_is_tested_before_the_contents_are_parsed() {
    let broken = "fn broken( {";
    let loaded = load_within("a.rs".to_string(), broken.to_string(), broken.len());
    assert_eq!(loaded.error, Some(LoadError::TooLong));
    let loaded = load_within("a.rs".to_string(), broken.to_string(), broken.len() + 1);
    assert!(matches!(loaded.error, Some(LoadError::Syntax(_))));
}

#[test]
fn length_is_counted_in_bytes() {
    let text = "fn f() { \"€\"; }";
    assert_eq!(text.chars().count(), 15);
    assert_eq!(text.len(), 17);
    assert_eq!(load_within("a.rs".to_string(), text.to_string(), 16).error, Some(LoadError::TooLong));
    assert_eq!(load_within("a.rs".to_string(), text.to_string(), 17).error, Some(LoadError::TooLong));
    assert_eq!(load_within("a.rs".to_string(), text.to_string(), 18).error, None);
}

#[test]
fn file_that_is_too_long_is_told_of_and_gives_no_violation() {
    let text = "fn work() {\n    unsafe {}\n    loop {}\n}\n";
    let loaded = load_within("src/long.rs".to_string(), text.to_string(), 10);
    let error = loaded.error.unwrap();
    assert_eq!(error, LoadError::TooLong);
    assert_eq!(error.message("src/long.rs"), "Failed to parse file src/long.rs: the file is too long");
    let config = everything();
    assert_eq!(check_instrument(&loaded.file, &config), vec![]);
    assert_eq!(check_safety(&loaded.file), vec![]);
    assert_eq!(check_loops(&loaded.file), vec![]);
    assert_eq!(run(&vec![loaded.file], &config), vec![]);
}

#[test]
fn files_load_under_the_limit_of_the_parser() {
    assert_eq!(TEXT_LIMIT, 0xffff_ffff);
    for text in ["", "fn f() {}", SAMPLE, "fn broken( {"] {
        assert_eq!(load("a.rs", text), load_within("a.rs".to_string(), text.to_string(), TEXT_LIMIT));
    }
}
