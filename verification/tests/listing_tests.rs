use bls::entry::{create_file_info, ColorKind, EntryKind};
use bls::listing::{list_files_and_dirs, PathInput};
use bls::names::resolve_name;
use bls::perms::format_permissions;
use bls::render::{fallback_line, header_line, section_line};
use bls::tree::{walk_tree, FsTree};

fn file(name: &str, mode: u32) -> FsTree {
    FsTree {
        name: name.to_string(),
        kind: EntryKind::File,
        uid: 1000,
        gid: 1000,
        mode,
        children: Vec::new(),
    }
}

fn dir(name: &str, mode: u32, children: Vec<FsTree>) -> FsTree {
    FsTree { name: name.to_string(), kind: EntryKind::Directory, uid: 1000, gid: 1000, mode, children }
}

fn sample_tree() -> FsTree {
    dir("root", 0o755, vec![file("a.txt", 0o644), dir("sub", 0o755, vec![file("b.txt", 0o600)])])
}

fn input(tree: FsTree) -> PathInput {
    PathInput { label: "root".to_string(), root: Some(tree) }
}

#[test]
fn permissions_three_octal_digits() {
    assert_eq!(format_permissions(0o755), "755");
    assert_eq!(format_permissions(0o644), "644");
    assert_eq!(format_permissions(0), "000");
    assert_eq!(format_permissions(0o7), "007");
    assert_eq!(format_permissions(0o40777), "777");
    for mode in [0u32, 0o1, 0o644, 0o777, 0o4755, 0o100644] {
        let s = format_permissions(mode);
        assert_eq!(s.len(), 3);
        assert!(s.chars().all(|c| ('0'..='7').contains(&c)));
    }
}

#[test]
fn permissions_formatting_idempotent() {
    for mode in [0u32, 0o644, 0o40755, 0o177777] {
        assert_eq!(format_permissions(mode & 0o777), format_permissions(mode));
    }
}

#[test]
fn unknown_ids_render_as_unknown() {
    assert_eq!(resolve_name(Some("alice".to_string())), "alice");
    assert_eq!(resolve_name(None), "Unknown");
}

#[test]
fn implausible_ids_do_not_crash() {
    let name = "odd.bin".to_string();
    let info = create_file_info(&name, EntryKind::File, u32::MAX, u32::MAX, 0o644);
    assert_eq!(info.name, "odd.bin");
    assert_eq!(info.file_type, "File");
    assert_eq!(info.permissions, "644");
    assert_eq!(info.color, ColorKind::FileColor);
    assert!(!info.owner.is_empty());
    assert!(!info.group.is_empty());
}

#[test]
fn nonrecursive_walk_lists_immediate_children_only() {
    let t = sample_tree();
    let visits = walk_tree(&t, false);
    let names: Vec<(String, usize)> = visits.iter().map(|v| (v.name.clone(), v.depth)).collect();
    assert_eq!(
        names,
        vec![
            ("root".to_string(), 0),
            ("a.txt".to_string(), 1),
            ("sub".to_string(), 1),
        ]
    );
}

#[test]
fn recursive_walk_lists_every_descendant_once() {
    let t = sample_tree();
    let visits = walk_tree(&t, true);
    let names: Vec<(String, usize)> = visits.iter().map(|v| (v.name.clone(), v.depth)).collect();
    assert_eq!(
        names,
        vec![
            ("root".to_string(), 0),
            ("a.txt".to_string(), 1),
            ("sub".to_string(), 1),
            ("b.txt".to_string(), 2),
        ]
    );
}

#[test]
fn nonrecursive_listing_shows_root_and_children() {
    let out = list_files_and_dirs(&vec![input(sample_tree())], false, false);
    let texts: Vec<&str> = out.iter().map(|l| l.text.as_str()).collect();
    assert_eq!(out.len(), 5);
    assert_eq!(texts[0], header_line());
    assert_eq!(texts[1], section_line("root"));
    assert!(texts[2].starts_with(&format!("{:<60} {:<10}", "root", "Directory")));
    assert!(texts[3].starts_with(&format!("{:<60} {:<10}", "  > a.txt", "File")));
    assert!(texts[4].starts_with(&format!("{:<60} {:<10}", "  > sub", "Directory")));
    assert!(!texts.iter().any(|t| t.contains("b.txt")));
    assert_eq!(out[2].color, Some(ColorKind::DirColor));
    assert_eq!(out[3].color, Some(ColorKind::FileColor));
    assert_eq!(out[4].color, Some(ColorKind::DirColor));
    assert_eq!(out[0].color, None);
    assert_eq!(out[1].color, None);
}

#[test]
fn recursive_listing_adds_deep_entries_with_indentation() {
    let out = list_files_and_dirs(&vec![input(sample_tree())], true, false);
    let texts: Vec<&str> = out.iter().map(|l| l.text.as_str()).collect();
    assert_eq!(out.len(), 6);
    assert!(texts[5].starts_with(&format!("{:<60} {:<10}", "    > b.txt", "File")));
    assert!(texts[5].ends_with(&format!("{:<10}", "600")));
    assert_eq!(out[5].color, Some(ColorKind::FileColor));
}

#[test]
fn hidden_entries_excluded_by_default_and_shown_on_request() {
    let t = dir("root", 0o755, vec![file(".secret", 0o600), file("a.txt", 0o644)]);
    let hidden_off = list_files_and_dirs(&vec![input(t)], false, false);
    assert!(!hidden_off.iter().any(|l| l.text.contains(".secret")));
    assert!(hidden_off.iter().any(|l| l.text.contains("a.txt")));

    let t = dir("root", 0o755, vec![file(".secret", 0o600), file("a.txt", 0o644)]);
    let hidden_on = list_files_and_dirs(&vec![input(t)], false, true);
    assert!(hidden_on.iter().any(|l| l.text.contains(".secret")));
    assert!(hidden_on.iter().any(|l| l.text.contains("a.txt")));
    assert_eq!(hidden_on.len(), hidden_off.len() + 1);
}

#[test]
fn hidden_root_is_filtered_but_its_children_are_not() {
    let t = dir(".cfg", 0o755, vec![file("inner.txt", 0o644)]);
    let out = list_files_and_dirs(&vec![input(t)], false, false);
    assert!(!out.iter().any(|l| l.text.contains(".cfg ")));
    assert!(out.iter().any(|l| l.text.contains("inner.txt")));
}

#[test]
fn fallback_printed_once_when_nothing_matched() {
    let inputs = vec![
        PathInput { label: "missing".to_string(), root: None },
        PathInput { label: "also-missing".to_string(), root: None },
    ];
    let out = list_files_and_dirs(&inputs, false, false);
    let texts: Vec<&str> = out.iter().map(|l| l.text.as_str()).collect();
    assert_eq!(out.len(), 4);
    assert_eq!(texts[0], header_line());
    assert_eq!(texts[1], section_line("missing"));
    assert_eq!(texts[2], section_line("also-missing"));
    assert_eq!(texts[3], fallback_line());
    let hits = texts.iter().filter(|t| **t == fallback_line()).count();
    assert_eq!(hits, 1);
}

#[test]
fn no_fallback_when_any_path_matched() {
    let inputs = vec![
        PathInput { label: "missing".to_string(), root: None },
        input(sample_tree()),
    ];
    let out = list_files_and_dirs(&inputs, false, false);
    assert!(!out.iter().any(|l| l.text == fallback_line()));
}

#[test]
fn file_path_lists_the_file_itself_unindented() {
    let inputs = vec![PathInput { label: "notes.txt".to_string(), root: Some(file("notes.txt", 0o640)) }];
    let out = list_files_and_dirs(&inputs, false, false);
    assert_eq!(out.len(), 3);
    assert!(out[2].text.starts_with(&format!("{:<60} {:<10}", "notes.txt", "File")));
    assert!(out[2].text.ends_with(&format!("{:<10}", "640")));
    assert_eq!(out[2].color, Some(ColorKind::FileColor));
}

#[test]
fn recursion_indents_two_spaces_per_level() {
    let t = dir(
        "root",
        0o755,
        vec![dir("sub1", 0o755, vec![dir("sub2", 0o755, vec![file("c.txt", 0o644)])])],
    );
    let out = list_files_and_dirs(&vec![input(t)], true, false);
    let texts: Vec<&str> = out.iter().map(|l| l.text.as_str()).collect();
    assert!(texts[3].starts_with("  > sub1"));
    assert!(texts[4].starts_with("    > sub2"));
    assert!(texts[5].starts_with("      > c.txt"));
}

#[test]
fn header_and_section_have_exact_text() {
    assert_eq!(
        header_line(),
        format!("{:<60} {:<10} {:<20} {:<20} {:<10}", "Name", "Type", "Owner", "Group", "Permissions")
    );
    assert_eq!(section_line("root"), "\nListing in: root");
    assert_eq!(fallback_line(), "No files or directories found.");
}
