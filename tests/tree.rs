use colored::Color;
use rustree::entry::{is_executable_mode, is_hidden, style_of, Entry, EntryKind, Style};
use rustree::layer::{kept_indices, plan_layer, within_depth, Line};
use rustree::options::{Options, OptionsBuilder};
use rustree::style_color::color_of;

fn entry(name: &str, kind: EntryKind, is_executable: bool) -> Entry {
    Entry { name: name.to_string(), kind, is_executable }
}

fn unlimited() -> Options {
    OptionsBuilder::new().build()
}

fn with_hidden() -> Options {
    let mut b = OptionsBuilder::new();
    b.show_hidden();
    b.build()
}

fn with_depth(depth: usize) -> Options {
    let mut b = OptionsBuilder::new();
    b.with_depth(depth);
    b.build()
}

fn summary(lines: &[Line]) -> Vec<(usize, String, String, Style, Option<(usize, String)>)> {
    lines
        .iter()
        .map(|l| {
            (
                l.index,
                l.lead.clone(),
                l.name.clone(),
                l.style,
                l.descend.as_ref().map(|d| (d.depth, d.prefix.clone())),
            )
        })
        .collect()
}

#[test]
fn builder_defaults() {
    let o = OptionsBuilder::new().build();
    assert_eq!(o.depth, None);
    assert!(!o.show_hidden);
    let d = <OptionsBuilder as Default>::default().build();
    assert_eq!(d.depth, None);
    assert!(!d.show_hidden);
}

#[test]
fn builder_sets_both_options() {
    let mut b = OptionsBuilder::new();
    b.with_depth(3);
    b.show_hidden();
    let o = b.build();
    assert_eq!(o.depth, Some(3));
    assert!(o.show_hidden);
}

#[test]
fn classify_kinds() {
    assert_eq!(EntryKind::classify(true, false, false), Some(EntryKind::File));
    assert_eq!(EntryKind::classify(false, true, false), Some(EntryKind::Dir));
    assert_eq!(EntryKind::classify(false, false, true), Some(EntryKind::Symlink));
    assert_eq!(EntryKind::classify(false, false, false), None);
}

#[test]
fn executable_styling() {
    assert_eq!(style_of(EntryKind::File, false), Style::Plain);
    assert_eq!(style_of(EntryKind::File, true), Style::Executable);
    assert_eq!(style_of(EntryKind::Dir, true), Style::Directory);
    assert_eq!(style_of(EntryKind::Dir, false), Style::Directory);
    assert_eq!(style_of(EntryKind::Symlink, true), Style::Link);
    assert_eq!(style_of(EntryKind::Symlink, false), Style::Link);
    assert_eq!(entry("run.sh", EntryKind::File, true).style(), Style::Executable);
}

#[test]
fn execute_bits() {
    assert!(!is_executable_mode(0o644));
    assert!(is_executable_mode(0o744));
    assert!(is_executable_mode(0o654));
    assert!(is_executable_mode(0o645));
    assert!(is_executable_mode(0o100755));
    assert!(!is_executable_mode(0o100666));
}

#[test]
fn hidden_names() {
    assert!(is_hidden(".git"));
    assert!(is_hidden("."));
    assert!(!is_hidden("a.txt"));
    assert!(!is_hidden(""));
    assert!(entry(".env", EntryKind::File, false).is_hidden());
}

#[test]
fn depth_guard() {
    assert!(within_depth(0, unlimited()));
    assert!(within_depth(usize::MAX, unlimited()));
    assert!(!within_depth(0, with_depth(0)));
    assert!(within_depth(1, with_depth(2)));
    assert!(!within_depth(2, with_depth(2)));
}

#[test]
fn example_dir_and_file() {
    let entries = vec![entry("a", EntryKind::Dir, false), entry("b.txt", EntryKind::File, false)];
    let lines = plan_layer(&entries, 0, "", unlimited());
    assert_eq!(
        summary(&lines),
        vec![
            (0, "├── ".to_string(), "a".to_string(), Style::Directory, Some((1, "│   ".to_string()))),
            (1, "└── ".to_string(), "b.txt".to_string(), Style::Plain, None),
        ]
    );
    // `a` is empty: its own level lists nothing.
    let inner = plan_layer(&Vec::new(), 1, "│   ", unlimited());
    assert!(inner.is_empty());
}

#[test]
fn unreadable_subdirectory_still_listed() {
    let entries = vec![entry("locked", EntryKind::Dir, false), entry("ok.txt", EntryKind::File, false)];
    let lines = plan_layer(&entries, 0, "", unlimited());
    assert_eq!(lines.len(), 2);
    assert_eq!(lines[0].lead, "├── ");
    assert_eq!(lines[0].name, "locked");
    assert_eq!(lines[0].style, Style::Directory);
    assert!(lines[0].descend.is_some());
    assert_eq!(lines[1].lead, "└── ");
    assert_eq!(lines[1].name, "ok.txt");
}

#[test]
fn zero_depth_lists_nothing() {
    let entries = vec![entry("a", EntryKind::Dir, false), entry("b", EntryKind::File, false)];
    assert!(plan_layer(&entries, 0, "", with_depth(0)).is_empty());
}

#[test]
fn depth_limit_stops_descent() {
    let entries = vec![entry("a", EntryKind::Dir, false)];
    let top = plan_layer(&entries, 0, "", with_depth(1));
    assert_eq!(top.len(), 1);
    let level = top[0].descend.as_ref().unwrap();
    assert_eq!(level.depth, 1);
    assert!(plan_layer(&entries, level.depth, &level.prefix, with_depth(1)).is_empty());
    assert!(plan_layer(&entries, 5, "", with_depth(1)).is_empty());
}

#[test]
fn last_sibling_gets_terminal_connector() {
    let entries = vec![
        entry("x", EntryKind::File, false),
        entry("y", EntryKind::Symlink, false),
        entry("z", EntryKind::Dir, false),
    ];
    let lines = plan_layer(&entries, 2, "│   ", unlimited());
    assert_eq!(
        summary(&lines),
        vec![
            (0, "│   ├── ".to_string(), "x".to_string(), Style::Plain, None),
            (1, "│   ├── ".to_string(), "y".to_string(), Style::Link, None),
            (2, "│   └── ".to_string(), "z".to_string(), Style::Directory, Some((3, "│       ".to_string()))),
        ]
    );
}

#[test]
fn hidden_entries_filtered_before_last_choice() {
    let entries = vec![
        entry("a", EntryKind::File, false),
        entry("b", EntryKind::File, false),
        entry(".hidden", EntryKind::File, false),
    ];
    let lines = plan_layer(&entries, 0, "", unlimited());
    assert_eq!(
        summary(&lines),
        vec![
            (0, "├── ".to_string(), "a".to_string(), Style::Plain, None),
            (1, "└── ".to_string(), "b".to_string(), Style::Plain, None),
        ]
    );
    assert_eq!(kept_indices(&entries, unlimited()), vec![0, 1]);
}

#[test]
fn hidden_entries_shown_on_request() {
    let entries = vec![
        entry("a", EntryKind::File, false),
        entry(".hidden", EntryKind::Dir, false),
    ];
    let lines = plan_layer(&entries, 0, "", with_hidden());
    assert_eq!(
        summary(&lines),
        vec![
            (0, "├── ".to_string(), "a".to_string(), Style::Plain, None),
            (1, "└── ".to_string(), ".hidden".to_string(), Style::Directory, Some((1, "    ".to_string()))),
        ]
    );
    assert_eq!(kept_indices(&entries, with_hidden()), vec![0, 1]);
}

#[test]
fn planning_twice_gives_same_lines() {
    let entries = vec![
        entry("d", EntryKind::Dir, false),
        entry(".h", EntryKind::File, false),
        entry("f", EntryKind::File, true),
    ];
    let first = plan_layer(&entries, 1, "    ", unlimited());
    let second = plan_layer(&entries, 1, "    ", unlimited());
    assert_eq!(summary(&first), summary(&second));
    assert_eq!(first.len(), 2);
    assert_eq!(first[1].style, Style::Executable);
}

#[test]
fn empty_directory_lists_nothing() {
    assert!(plan_layer(&Vec::new(), 0, "", with_hidden()).is_empty());
}

#[test]
fn style_colors() {
    assert_eq!(color_of(Style::Plain), Color::White);
    assert_eq!(color_of(Style::Executable), Color::Green);
    assert_eq!(color_of(Style::Directory), Color::Blue);
    assert_eq!(color_of(Style::Link), Color::Cyan);
}
