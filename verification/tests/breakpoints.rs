use nvim_vadre::breakpoints::{sorted_lines, BreakpointError, Breakpoints, DebuggerBreakpoint};
use nvim_vadre::listing::{
    breakpoint_under_cursor, process_breakpoints_output, ListingError,
};

fn enabled(b: &Breakpoints, file: &str, line: i64) -> Option<bool> {
    b.get_all_breakpoint_line_numbers_for_file(file)
        .ok()
        .and_then(|lines| lines.get(&line))
        .map(|x| x.enabled)
}

fn lines(b: &Breakpoints, file: &str) -> Vec<i64> {
    match b.get_all_breakpoint_line_numbers_for_file(file) {
        Ok(lines) => sorted_lines(lines),
        Err(_) => vec![],
    }
}

#[test]
fn breakpoints_are_placed_and_taken_away() {
    let mut b = Breakpoints::new();
    assert!(b.get_all_files().is_empty());
    for line in [7, -2, 3] {
        b.add_pending_breakpoint("/b.rs".to_string(), line).unwrap();
    }
    b.add_pending_breakpoint("/a.rs".to_string(), 1).unwrap();
    assert_eq!(b.get_all_files(), vec!["/a.rs".to_string(), "/b.rs".to_string()]);
    assert_eq!(lines(&b, "/b.rs"), vec![-2, 3, 7]);
    b.remove_breakpoint("/b.rs".to_string(), 3).unwrap();
    assert_eq!(lines(&b, "/b.rs"), vec![-2, 7]);
    // The other file is not touched, and a file stays known without breakpoints.
    assert_eq!(lines(&b, "/a.rs"), vec![1]);
    b.remove_breakpoint("/a.rs".to_string(), 1).unwrap();
    assert_eq!(b.get_all_files().len(), 2);
    assert!(b.get_all_breakpoint_line_numbers_for_file("/a.rs").unwrap().is_empty());
    // What was taken away can be placed again.
    b.add_pending_breakpoint("/b.rs".to_string(), 3).unwrap();
    assert_eq!(lines(&b, "/b.rs"), vec![-2, 3, 7]);
    assert!(b.get_all_breakpoint_line_numbers_for_file("/c.rs").is_err());
}

#[test]
fn a_breakpoint_is_found_by_the_id_of_the_debugger() {
    let mut b = Breakpoints::new();
    b.add_pending_breakpoint("/a.rs".to_string(), 4).unwrap();
    b.add_pending_breakpoint("/b.rs".to_string(), 9).unwrap();
    b.set_breakpoint_resolved("/b.rs".to_string(), 9, 11, "-3".to_string()).unwrap();
    assert_eq!(b.get_breakpoint_for_id(&-3), Some(("/b.rs".to_string(), 9)));
    assert_eq!(b.get_breakpoint_for_id(&3), None);
    let found = b.get_all_breakpoint_line_numbers_for_file("/b.rs").unwrap();
    assert_eq!(found.get(&9).unwrap().resolved.get("-3"), Some(&11));
    // Placing it anew forgets where it was put.
    b.add_pending_breakpoint("/b.rs".to_string(), 9).unwrap();
    assert_eq!(b.get_breakpoint_for_id(&-3), None);
}

#[test]
fn breakpoints_are_switched_on_and_off() {
    let mut b = Breakpoints::new();
    b.add_pending_breakpoint("/a.rs".to_string(), 4).unwrap();
    assert_eq!(enabled(&b, "/a.rs", 4), Some(false));
    b.set_breakpoint_resolved("/a.rs".to_string(), 4, 5, "1".to_string()).unwrap();
    b.set_breakpoint_enabled("/a.rs".to_string(), 4).unwrap();
    assert_eq!(enabled(&b, "/a.rs", 4), Some(true));
    b.set_breakpoint_disabled("/a.rs".to_string(), 4).unwrap();
    assert_eq!(enabled(&b, "/a.rs", 4), Some(false));
    // Where the debugger put it is kept.
    assert_eq!(b.get_breakpoint_for_id(&1), Some(("/a.rs".to_string(), 4)));
}

#[test]
fn what_is_missing_is_told() {
    let mut b = Breakpoints::new();
    b.add_pending_breakpoint("/a.rs".to_string(), 4).unwrap();
    let e = b.remove_breakpoint("/x.rs".to_string(), 1).unwrap_err();
    assert!(matches!(&e, BreakpointError::NoFile(f) if f == "/x.rs"));
    assert_eq!(e.message(), "Can't find existing breakpoints for file /x.rs");
    let e = b.set_breakpoint_enabled("/a.rs".to_string(), -5).unwrap_err();
    assert!(matches!(&e, BreakpointError::NoLine(f, -5) if f == "/a.rs"));
    assert_eq!(e.message(), "Can't find existing breakpoints for file /a.rs and line -5");
    assert!(b.set_breakpoint_disabled("/x.rs".to_string(), 4).is_err());
    assert!(b.set_breakpoint_resolved("/a.rs".to_string(), 5, 5, "1".to_string()).is_err());
    assert!(b.get_all_breakpoint_line_numbers_for_file("/x.rs").is_err());
}

#[test]
fn a_copy_has_the_same_breakpoints() {
    let mut b = Breakpoints::new();
    b.add_pending_breakpoint("/a.rs".to_string(), 4).unwrap();
    b.set_breakpoint_enabled("/a.rs".to_string(), 4).unwrap();
    b.set_breakpoint_resolved("/a.rs".to_string(), 4, 6, "8".to_string()).unwrap();
    let c = b.copy();
    b.remove_breakpoint("/a.rs".to_string(), 4).unwrap();
    assert_eq!(enabled(&c, "/a.rs", 4), Some(true));
    assert_eq!(c.get_breakpoint_for_id(&8), Some(("/a.rs".to_string(), 4)));
    let one = DebuggerBreakpoint::new();
    assert!(!one.copy().enabled);
}

#[test]
fn breakpoints_are_listed_with_where_they_are() {
    let mut b = Breakpoints::new();
    b.add_pending_breakpoint("/b.rs".to_string(), 12).unwrap();
    b.add_pending_breakpoint("/a.rs".to_string(), 3).unwrap();
    b.add_pending_breakpoint("/a.rs".to_string(), 1).unwrap();
    b.set_breakpoint_enabled("/a.rs".to_string(), 3).unwrap();
    b.set_breakpoint_resolved("/a.rs".to_string(), 3, 5, "2".to_string()).unwrap();
    b.set_breakpoint_resolved("/a.rs".to_string(), 3, 3, "4".to_string()).unwrap();
    b.set_breakpoint_resolved("/a.rs".to_string(), 1, 1, "7".to_string()).unwrap();
    let listing = process_breakpoints_output(&b);
    assert_eq!(listing, vec!["/a.rs:", "  ○  1", "  ⬤  3", "  ⬤  3 -> 5", "/b.rs:"]);
    // The listing down to a line is understood again.
    let (file, line, on) = breakpoint_under_cursor(&listing[..2].to_vec()).unwrap();
    assert_eq!((file.as_str(), line, on), ("/a.rs", 1, false));
    for end in [3, 4] {
        let (file, line, on) = breakpoint_under_cursor(&listing[..end].to_vec()).unwrap();
        assert_eq!((file.as_str(), line, on), ("/a.rs", 3, true));
    }
}

#[test]
fn what_stands_under_the_cursor_may_be_no_breakpoint() {
    let say = |lines: &[&str]| {
        let lines: Vec<String> = lines.iter().map(|s| s.to_string()).collect();
        breakpoint_under_cursor(&lines).unwrap_err()
    };
    assert!(matches!(say(&[]), ListingError::NoFile));
    assert!(matches!(say(&["  ○ 1"]), ListingError::NoFile));
    assert!(matches!(say(&["/a.rs:", ""]), ListingError::EmptyLine));
    assert!(matches!(say(&[":"]), ListingError::EmptyName));
    assert!(matches!(say(&["/a.rs:", "  nothing"]), ListingError::NotANumber(n) if n.is_empty()));
    let lines = vec!["/a.rs:".to_string(), "  ○ ٣".to_string()];
    let e = breakpoint_under_cursor(&lines).unwrap_err();
    assert_eq!(
        e.message(&lines),
        format!("can't parse source line from `٣`: {:?}", "  ○ ٣")
    );
}
