use nix_refs::analysis::{process_reference, report, safety, ReferenceError, Safety};
use nix_refs::extract::{classify_literal, extract_literals, literals_in, Literal, SyntaxItem};
use nix_refs::reference::{resolve, Component, Reference, ResolveError, TargetKind};
use nix_refs::tree::{FileTree, PropagateError, TreeError};

fn holds(v: &Vec<Reference>, file: &str, text: &str) -> bool {
    v.iter().any(|r| r.file == file && r.text == text)
}

/// root(0) -> a(1) -> a/default.nix(2); root -> b(3) -> b/default.nix(4)
fn two_packages() -> FileTree {
    let mut t = FileTree::new();
    let a = t.add_child(0, "a".to_string()).unwrap();
    t.add_child(a, "default.nix".to_string()).unwrap();
    let b = t.add_child(0, "b".to_string()).unwrap();
    t.add_child(b, "default.nix".to_string()).unwrap();
    t
}

#[test]
fn sibling_package_reference() {
    let mut t = two_packages();
    let r = Reference::new("./a/default.nix".to_string(), "../b/default.nix".to_string());
    assert_eq!(process_reference(&mut t, 2, &r, TargetKind::File), Ok(()));
    // the file itself
    assert!(holds(t.move_blockers(2), "./a/default.nix", "../b/default.nix"));
    assert!(t.rename_blockers(2).is_empty());
    // the directory left by `..`
    assert!(holds(t.move_blockers(1), "./a/default.nix", "../b/default.nix"));
    assert!(t.rename_blockers(1).is_empty());
    // the nodes entered by name
    for n in [3usize, 4] {
        assert!(holds(t.move_blockers(n), "./a/default.nix", "../b/default.nix"));
        assert!(holds(t.rename_blockers(n), "./a/default.nix", "../b/default.nix"));
    }
    assert!(t.move_blockers(0).is_empty());
    let verdicts = report(&t, &vec![]);
    assert!(matches!(verdicts[0], Safety::Safe));
    for n in 1..5 {
        assert!(matches!(verdicts[n], Safety::Blocked));
    }
}

#[test]
fn missing_target_is_dropped() {
    let mut t = two_packages();
    let r = Reference::new("./a/default.nix".to_string(), "../c/default.nix".to_string());
    assert_eq!(
        process_reference(&mut t, 2, &r, TargetKind::Missing),
        Err(ReferenceError::Resolve(ResolveError::NotFound))
    );
    for n in 0..5 {
        assert!(t.move_blockers(n).is_empty());
        assert!(t.rename_blockers(n).is_empty());
    }
}

#[test]
fn neither_file_nor_directory_is_dropped() {
    let mut t = two_packages();
    let r = Reference::new("./a/default.nix".to_string(), "../b".to_string());
    assert_eq!(
        process_reference(&mut t, 2, &r, TargetKind::Other),
        Err(ReferenceError::Resolve(ResolveError::NotFileOrDirectory))
    );
    for n in 0..5 {
        assert!(t.move_blockers(n).is_empty());
    }
}

#[test]
fn directory_reference_walks_to_default_entry() {
    let mut t = two_packages();
    let r = Reference::new("./a/default.nix".to_string(), "../b".to_string());
    assert_eq!(process_reference(&mut t, 2, &r, TargetKind::Directory), Ok(()));
    assert!(holds(t.rename_blockers(3), "./a/default.nix", "../b"));
    assert!(holds(t.rename_blockers(4), "./a/default.nix", "../b"));
}

#[test]
fn resolve_directory_appends_default_entry() {
    let comps = resolve(&"./lib".to_string(), TargetKind::Directory).unwrap();
    assert_eq!(comps.len(), 3);
    assert!(matches!(comps[0], Component::CurDir));
    assert!(matches!(&comps[1], Component::Normal(n) if n == "lib"));
    assert!(matches!(&comps[2], Component::Normal(n) if n == "default.nix"));
}

#[test]
fn resolve_file_keeps_literal() {
    let comps = resolve(&"./lib".to_string(), TargetKind::File).unwrap();
    assert_eq!(comps.len(), 2);
    assert!(matches!(comps[0], Component::CurDir));
    assert!(matches!(&comps[1], Component::Normal(n) if n == "lib"));
}

#[test]
fn resolve_parent_and_anchor_components() {
    let comps = resolve(&"../x".to_string(), TargetKind::File).unwrap();
    assert!(matches!(comps[0], Component::ParentDir));
    let comps = resolve(&"/etc/x".to_string(), TargetKind::File).unwrap();
    assert!(matches!(comps[0], Component::Anchor));
}

#[test]
fn sibling_dir_rename_and_move() {
    // root(0) -> pkg(1) -> default.nix(2), pkg -> sibling(3) -> dir(4) -> default.nix(5)
    let mut t = FileTree::new();
    let pkg = t.add_child(0, "pkg".to_string()).unwrap();
    let f = t.add_child(pkg, "default.nix".to_string()).unwrap();
    let s = t.add_child(pkg, "sibling".to_string()).unwrap();
    let d = t.add_child(s, "dir".to_string()).unwrap();
    let e = t.add_child(d, "default.nix".to_string()).unwrap();
    let r = Reference::new("./pkg/default.nix".to_string(), "./sibling/dir".to_string());
    assert_eq!(process_reference(&mut t, f, &r, TargetKind::Directory), Ok(()));
    for n in [s, d, e] {
        assert!(holds(t.move_blockers(n), "./pkg/default.nix", "./sibling/dir"));
        assert!(holds(t.rename_blockers(n), "./pkg/default.nix", "./sibling/dir"));
    }
    assert!(t.move_blockers(pkg).is_empty());
    assert!(holds(t.move_blockers(f), "./pkg/default.nix", "./sibling/dir"));
}

#[test]
fn parent_steps_only_block_moves() {
    // root(0) -> x(1) -> y(2) -> default.nix(3); root -> z(4)
    let mut t = FileTree::new();
    let x = t.add_child(0, "x".to_string()).unwrap();
    let y = t.add_child(x, "y".to_string()).unwrap();
    let f = t.add_child(y, "default.nix".to_string()).unwrap();
    let z = t.add_child(0, "z".to_string()).unwrap();
    let r = Reference::new("./x/y/default.nix".to_string(), "../../z".to_string());
    assert_eq!(process_reference(&mut t, f, &r, TargetKind::File), Ok(()));
    for n in [y, x] {
        assert!(holds(t.move_blockers(n), "./x/y/default.nix", "../../z"));
        assert!(t.rename_blockers(n).is_empty());
    }
    assert!(holds(t.rename_blockers(z), "./x/y/default.nix", "../../z"));
}

#[test]
fn walk_above_root_stops() {
    let mut t = two_packages();
    let r = Reference::new("./a/default.nix".to_string(), "../../b".to_string());
    assert_eq!(
        process_reference(&mut t, 2, &r, TargetKind::File),
        Err(ReferenceError::Propagate(PropagateError::AboveRoot))
    );
    assert!(holds(t.move_blockers(2), "./a/default.nix", "../../b"));
    assert!(holds(t.move_blockers(1), "./a/default.nix", "../../b"));
    assert!(holds(t.move_blockers(0), "./a/default.nix", "../../b"));
    assert!(t.move_blockers(3).is_empty());
}

#[test]
fn missing_child_stops_walk() {
    let mut t = two_packages();
    let r = Reference::new("./a/default.nix".to_string(), "./gone/x".to_string());
    assert_eq!(
        process_reference(&mut t, 2, &r, TargetKind::File),
        Err(ReferenceError::Propagate(PropagateError::MissingChild))
    );
    assert!(holds(t.move_blockers(2), "./a/default.nix", "./gone/x"));
    assert!(t.move_blockers(1).is_empty());
}

#[test]
fn anchor_is_unsupported() {
    let mut t = two_packages();
    let r = Reference::new("./a/default.nix".to_string(), "/b".to_string());
    assert_eq!(
        process_reference(&mut t, 2, &r, TargetKind::File),
        Err(ReferenceError::Propagate(PropagateError::Unsupported))
    );
    assert!(holds(t.move_blockers(2), "./a/default.nix", "/b"));
    assert!(t.move_blockers(3).is_empty());
}

#[test]
fn same_reference_twice_changes_no_verdict() {
    let mut once = two_packages();
    let mut twice = two_packages();
    let r = Reference::new("./a/default.nix".to_string(), "../b/default.nix".to_string());
    process_reference(&mut once, 2, &r, TargetKind::File).unwrap();
    process_reference(&mut twice, 2, &r, TargetKind::File).unwrap();
    process_reference(&mut twice, 2, &r, TargetKind::File).unwrap();
    let low = vec!["./a/default.nix".to_string()];
    let a = report(&once, &low);
    let b = report(&twice, &low);
    for n in 0..5 {
        assert_eq!(std::mem::discriminant(&a[n]), std::mem::discriminant(&b[n]));
    }
    assert!(matches!(&b[4], Safety::OnlyReferencedBy(r) if r.text == "../b/default.nix"));
}

#[test]
fn more_references_only_block_more() {
    let mut t = two_packages();
    let low = vec!["./pkgs/top-level/all-packages.nix".to_string()];
    assert!(matches!(safety(&t, 4, &low), Safety::Safe));
    let top = Reference::new("./pkgs/top-level/all-packages.nix".to_string(), "../b/default.nix".to_string());
    process_reference(&mut t, 2, &top, TargetKind::File).unwrap();
    assert!(matches!(safety(&t, 4, &low), Safety::OnlyReferencedBy(_)));
    let other = Reference::new("./a/default.nix".to_string(), "../b/default.nix".to_string());
    process_reference(&mut t, 2, &other, TargetKind::File).unwrap();
    assert!(matches!(safety(&t, 4, &low), Safety::Blocked));
}

#[test]
fn single_blocker_not_low_priority_is_blocked() {
    let mut t = two_packages();
    let r = Reference::new("./a/default.nix".to_string(), "../b/default.nix".to_string());
    process_reference(&mut t, 2, &r, TargetKind::File).unwrap();
    assert!(matches!(safety(&t, 4, &vec!["./x.nix".to_string()]), Safety::Blocked));
}

#[test]
fn add_child_errors() {
    let mut t = two_packages();
    assert_eq!(t.add_child(0, "a".to_string()), Err(TreeError::DuplicateName));
    assert_eq!(t.add_child(9, "c".to_string()), Err(TreeError::NoSuchNode));
    assert_eq!(t.len(), 5);
    assert_eq!(t.child(0, &"b".to_string()), Some(3));
    assert_eq!(t.child(0, &"c".to_string()), None);
}

#[test]
fn search_path_is_skipped() {
    let file = "./a/default.nix".to_string();
    assert!(matches!(classify_literal(&file, 0, "<nixpkgs>".to_string()), Literal::SearchPath(_)));
}

#[test]
fn interpolated_path_is_skipped() {
    let file = "./a/default.nix".to_string();
    assert!(matches!(classify_literal(&file, 1, "./foo/${x}".to_string()), Literal::Interpolated(_)));
}

#[test]
fn plain_literal_is_reference() {
    let file = "./a/default.nix".to_string();
    match classify_literal(&file, 0, "./lib".to_string()) {
        Literal::Reference(r) => {
            assert_eq!(r.file, "./a/default.nix");
            assert_eq!(r.text, "./lib");
        }
        _ => panic!("expected a reference"),
    }
}

#[test]
fn literals_in_passes_over_other_nodes() {
    let file = "./f.nix".to_string();
    let items = vec![
        SyntaxItem::Other,
        SyntaxItem::PathLiteral { children: 0, text: "./x".to_string() },
        SyntaxItem::Other,
        SyntaxItem::PathLiteral { children: 0, text: "<nixpkgs>".to_string() },
    ];
    let ls = literals_in(&file, &items);
    assert_eq!(ls.len(), 2);
    assert!(matches!(&ls[0], Literal::Reference(r) if r.text == "./x"));
    assert!(matches!(&ls[1], Literal::SearchPath(t) if t == "<nixpkgs>"));
}

#[test]
fn extract_from_nix_source() {
    let file = "./a/default.nix".to_string();
    let src = "{ a = ./lib; b = <nixpkgs>; c = ./foo/${x}; d = \"./not-a-path\"; }";
    let ls = extract_literals(&file, src).unwrap();
    let refs: Vec<&Reference> = ls
        .iter()
        .filter_map(|l| match l {
            Literal::Reference(r) => Some(r),
            _ => None,
        })
        .collect();
    assert_eq!(refs.len(), 1);
    assert_eq!(refs[0].text, "./lib");
    assert!(ls.iter().any(|l| matches!(l, Literal::Interpolated(_))));
    assert!(!ls.iter().any(|l| matches!(l, Literal::Reference(r) if r.text.starts_with('<'))));
}

#[test]
fn extract_reports_parse_error() {
    let file = "./a/default.nix".to_string();
    assert!(extract_literals(&file, "{ a = ; ").is_err());
}
