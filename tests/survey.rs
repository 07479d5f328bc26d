use regex::Regex;
use repo_scan::{
    analyze_modules, checked_lines_in_module, count_files_and_lines,
    count_non_blank_non_comment_lines, count_substantive_lines, data_structure_counts,
    extract_struct_declarations, function_names, interpret_selection, is_substantive_line,
    is_substantive_line_strict, line_counts_per_file, module_names, path_names_source,
    struct_declarations, total_lines_in_module, ModuleStructure, Selection, SourceFile,
};

fn file(path: &str, content: &str) -> SourceFile {
    SourceFile { path: path.to_string(), content: content.to_string() }
}

fn regex_names(pattern: &str, content: &str) -> Vec<String> {
    let re = Regex::new(pattern).unwrap();
    re.captures_iter(content).map(|c| c.get(1).unwrap().as_str().to_string()).collect()
}

#[test]
fn blank_and_comment_lines_do_not_count() {
    assert!(!is_substantive_line(""));
    assert!(!is_substantive_line("   \t  "));
    assert!(!is_substantive_line("\u{3000}\u{a0}"));
    assert!(!is_substantive_line("  // note"));
    assert!(!is_substantive_line("//"));
    assert!(is_substantive_line("let x = 1; // note"));
    assert!(is_substantive_line("  /"));
    assert!(is_substantive_line("/* open"));
    assert!(is_substantive_line("*/"));
}

#[test]
fn strict_rule_passes_over_block_comment_markers() {
    assert!(!is_substantive_line_strict("  /* open"));
    assert!(!is_substantive_line_strict("*/"));
    assert!(!is_substantive_line_strict("// x"));
    assert!(!is_substantive_line_strict(""));
    assert!(is_substantive_line_strict(" * inside a block"));
    assert!(is_substantive_line_strict("x /* y */"));
}

#[test]
fn counts_lines_under_both_rules() {
    let text = "a\n\n// c\n/* d\n e\n*/\r\nb";
    assert_eq!(count_non_blank_non_comment_lines(text), 3);
    assert_eq!(count_substantive_lines(text), 5);
    assert_eq!(count_non_blank_non_comment_lines(""), 0);
    assert_eq!(count_non_blank_non_comment_lines("x\n"), 1);
    assert_eq!(count_non_blank_non_comment_lines("x\ny"), 2);
}

#[test]
fn distinct_function_names_are_all_kept() {
    let names = function_names("fn alpha() {}\nfn beta() {}\npub fn gamma(x: u8) {}\n");
    assert_eq!(names, vec!["alpha".to_string(), "beta".to_string(), "gamma".to_string()]);
}

#[test]
fn repeated_function_names_collapse() {
    let names = function_names("fn a() {}\nfn a() {}\nfn b() {}\nfn a() {}");
    assert_eq!(names, vec!["a".to_string(), "b".to_string()]);
    assert!(function_names("no functions here").is_empty());
}

#[test]
fn repeated_structure_names_accumulate() {
    let counts = data_structure_counts("struct S {}\nstruct S {}\nstruct T;\nenum E { A }\nenum S {}");
    assert_eq!(
        counts,
        vec![("S".to_string(), 3), ("T".to_string(), 1), ("E".to_string(), 1)]
    );
    let counts = data_structure_counts("struct P {}\nstruct P {}\nstruct Q {}");
    assert_eq!(counts, vec![("P".to_string(), 2), ("Q".to_string(), 1)]);
}

#[test]
fn scan_is_lexical() {
    let text = "// fn in_comment()\nlet s = \"struct InString\";\ngmod inner;\nmodule x;\nfn fn y\nfn\n  spaced";
    assert_eq!(
        function_names(text),
        vec!["in_comment".to_string(), "fn".to_string(), "spaced".to_string()]
    );
    assert_eq!(module_names(text), vec!["inner".to_string()]);
    assert_eq!(data_structure_counts(text), vec![("InString".to_string(), 1)]);
}

#[test]
fn scan_agrees_with_regex_captures() {
    let text = "mod a;\nmod  b { fn héllo_1() {} }\nfn x(){}fn\ty()\nstruct Zé<T> { v: T }\nenum E{}\nfnz q\nfn fn z\nmodmod c\nstruct\n\nLate {}\n";
    assert_eq!(module_names(text), regex_names(r"mod\s+(\w+)", text));
    let mut expected = Vec::new();
    for n in regex_names(r"fn\s+(\w+)", text) {
        if !expected.contains(&n) {
            expected.push(n);
        }
    }
    assert_eq!(function_names(text), expected);
    let structs = regex_names(r"struct\s+(\w+)", text);
    let enums = regex_names(r"enum\s+(\w+)", text);
    let counts = data_structure_counts(text);
    let total: usize = counts.iter().map(|(_, c)| *c).sum();
    assert_eq!(total, structs.len() + enums.len());
    assert_eq!(counts[0], ("Zé".to_string(), 1));
}

#[test]
fn struct_bodies_end_at_the_first_closing_brace() {
    let text = "struct A { x: u8 }\nstruct B;\nstruct C{y: Inner { z: u8 }}\nstruct D {";
    let decls = struct_declarations(text);
    assert_eq!(
        decls,
        vec!["struct A { x: u8 }".to_string(), "struct C{y: Inner { z: u8 }".to_string()]
    );
    let re = Regex::new(r"(?s)struct\s+(\w+)\s*\{[^}]*\}").unwrap();
    let expected: Vec<String> = re.find_iter(text).map(|m| m.as_str().to_string()).collect();
    assert_eq!(decls, expected);
}

#[test]
fn source_paths_are_recognised() {
    assert!(path_names_source("a.rs"));
    assert!(path_names_source("src/bin/main.rs"));
    assert!(!path_names_source("src/.rs"));
    assert!(!path_names_source(".rs"));
    assert!(!path_names_source("notes.txt"));
    assert!(!path_names_source("a.rsx"));
    assert!(path_names_source("dir/..rs"));
}

#[test]
fn module_shared_by_two_files_has_two_entries() {
    let files = vec![file("a.rs", "mod foo;\n"), file("b.rs", "mod foo;\n")];
    let ms = analyze_modules(&files);
    assert_eq!(ms.modules.len(), 1);
    assert_eq!(ms.modules[0].name, "foo");
    assert_eq!(ms.modules[0].files.len(), 2);
    assert_eq!(ms.modules[0].files[0].path, "a.rs");
    assert_eq!(ms.modules[0].files[1].path, "b.rs");
    assert_eq!(total_lines_in_module(&ms, "foo"), 2);
}

#[test]
fn two_file_tree_end_to_end() {
    let files = vec![
        file("A.rs", "mod m\nfn f\nstruct S {}\n"),
        file("B.rs", "// comment\n\n"),
    ];
    assert_eq!(count_files_and_lines(&files), (2, 3));
    let ms = analyze_modules(&files);
    assert_eq!(ms.modules.len(), 1);
    let m = &ms.modules[0];
    assert_eq!(m.name, "m");
    assert_eq!(m.files.len(), 1);
    assert_eq!(m.files[0].path, "A.rs");
    assert_eq!(m.files[0].summary.line_count, 3);
    assert_eq!(m.files[0].summary.functions, vec!["f".to_string()]);
    assert_eq!(m.files[0].summary.data_structures, vec![("S".to_string(), 1)]);
    assert_eq!(total_lines_in_module(&ms, "m"), 3);
    assert_eq!(total_lines_in_module(&ms, "absent"), 0);
    assert_eq!(checked_lines_in_module(&ms, "m"), Some(3));
}

#[test]
fn later_module_match_in_a_file_overwrites_its_entry() {
    let files = vec![file("x.rs", "mod a;\nmod b;\nmod a;\nfn g() {}\n")];
    let ms = analyze_modules(&files);
    assert_eq!(ms.modules.len(), 2);
    assert_eq!(ms.modules[0].name, "a");
    assert_eq!(ms.modules[1].name, "b");
    assert_eq!(ms.modules[0].files.len(), 1);
    assert_eq!(ms.modules[0].files[0].summary.line_count, 4);
    assert_eq!(ms.modules[1].files[0].summary.functions, vec!["g".to_string()]);
}

#[test]
fn selection_rejects_out_of_range_and_garbage() {
    assert_eq!(interpret_selection("3", 2), Selection::OutOfRange);
    assert_eq!(interpret_selection("abc", 2), Selection::Invalid);
    assert_eq!(interpret_selection("q", 2), Selection::Quit);
    assert_eq!(interpret_selection(" q \n", 2), Selection::Quit);
    assert_eq!(interpret_selection("1\n", 2), Selection::Show(0));
    assert_eq!(interpret_selection("+2", 2), Selection::Show(1));
    assert_eq!(interpret_selection("0", 2), Selection::OutOfRange);
    assert_eq!(interpret_selection("", 2), Selection::Invalid);
    assert_eq!(interpret_selection("+", 2), Selection::Invalid);
    assert_eq!(interpret_selection("-1", 2), Selection::Invalid);
    assert_eq!(interpret_selection("qq", 2), Selection::Invalid);
    assert_eq!(interpret_selection("99999999999999999999999", 2), Selection::Invalid);
    assert_eq!(interpret_selection("18446744073709551615", 2), Selection::OutOfRange);
}

#[test]
fn files_without_source_extension_are_ignored() {
    let files = vec![
        file("lib.rs", "mod m;\nfn f() {}\n"),
        file("notes.txt", "mod n;\nfn g() {}\nstruct H {}\n"),
    ];
    assert_eq!(count_files_and_lines(&files), (1, 2));
    let (count, per_file) = line_counts_per_file(&files);
    assert_eq!(count, 1);
    assert_eq!(per_file, vec![("lib.rs".to_string(), 2)]);
    assert!(extract_struct_declarations(&files).is_empty());
    let ms = analyze_modules(&files);
    assert_eq!(ms.modules.len(), 1);
    assert_eq!(ms.modules[0].name, "m");
    let only_text = vec![file("a.txt", "mod foo\n")];
    assert_eq!(analyze_modules(&only_text).modules.len(), 0);
    assert_eq!(count_files_and_lines(&only_text), (0, 0));
}

#[test]
fn per_file_counts_use_the_comment_rule() {
    let files = vec![file("a.rs", "x\n/* y\n// z\n"), file("b/c.rs", "")];
    let (count, per_file) = line_counts_per_file(&files);
    assert_eq!(count, 2);
    assert_eq!(per_file, vec![("a.rs".to_string(), 2), ("b/c.rs".to_string(), 0)]);
    assert_eq!(count_files_and_lines(&files), (2, 1));
}

#[test]
fn struct_declarations_carry_their_file() {
    let files = vec![file("a.rs", "struct A { x: u8 }"), file("b.rs", "struct B {}\nstruct C {}")];
    assert_eq!(
        extract_struct_declarations(&files),
        vec![
            ("a.rs".to_string(), "struct A { x: u8 }".to_string()),
            ("b.rs".to_string(), "struct B {}".to_string()),
            ("b.rs".to_string(), "struct C {}".to_string()),
        ]
    );
}

#[test]
fn empty_inventory_has_no_lines() {
    let ms = ModuleStructure::new();
    assert_eq!(total_lines_in_module(&ms, "m"), 0);
    assert_eq!(checked_lines_in_module(&ms, "m"), Some(0));
}
