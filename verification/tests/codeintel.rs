use esprit::analysis::references;
use esprit::codeintel::index;

fn files(v: &[(&str, &str)]) -> Vec<(String, String)> {
    v.iter().map(|(a, b)| (a.to_string(), b.to_string())).collect()
}

#[test]
fn declarations_become_symbols() {
    let src = "use x;\npub fn alpha() {}\nstruct Beta;\n\nimpl<T> Gamma for T {}\nenum   Delta { A }\n";
    let syms = index(&files(&[("src/lib.rs", src)])).ok().unwrap();
    let got: Vec<(String, String, String, usize)> =
        syms.iter().map(|s| (s.name.clone(), s.kind.clone(), s.file.clone(), s.line)).collect();
    assert_eq!(
        got,
        vec![
            ("alpha".to_string(), "fn".to_string(), "src/lib.rs".to_string(), 2),
            ("Beta".to_string(), "struct".to_string(), "src/lib.rs".to_string(), 3),
            ("Delta".to_string(), "enum".to_string(), "src/lib.rs".to_string(), 6),
        ]
    );
}

#[test]
fn symbols_follow_file_order() {
    let syms = index(&files(&[("b.rs", "trait B {}"), ("a.rs", "fn a() {}")])).ok().unwrap();
    let names: Vec<&str> = syms.iter().map(|s| s.name.as_str()).collect();
    assert_eq!(names, vec!["B", "a"]);
    assert!(index(&files(&[])).ok().unwrap().is_empty());
}

#[test]
fn references_count_whole_words() {
    let f = files(&[("lib.rs", "fn foo() {}\nfn bar() { foo(); foo_bar(); }\n"), ("main.rs", "fn main() { foo(); }\n")]);
    let mut refs = references(&f).ok().unwrap();
    refs.sort();
    assert_eq!(
        refs,
        vec![("bar".to_string(), 1), ("foo".to_string(), 3), ("main".to_string(), 1)]
    );
}

#[test]
fn repeated_declarations_are_counted_once() {
    let f = files(&[("a.rs", "fn x() {}\n"), ("b.rs", "fn x() {}\n")]);
    let refs = references(&f).ok().unwrap();
    assert_eq!(refs, vec![("x".to_string(), 2)]);
}
