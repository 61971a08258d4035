//! The window that lists the breakpoints: what it shows, and which breakpoint a
//! line of it stands for.

use crate::breakpoints::{
    increasing, lines_view, lines_wf, sorted_lines, BreakpointView, Breakpoints, BreakpointsView,
    DebuggerBreakpoint,
};
use crate::number::{
    decimal_int, decimal_int_read_back, decimal_is_digits, is_digit, parse_i64, read_signed,
    signed_text,
};
use crate::str_map::{text_less, text_less_irreflexive};
use crate::text::{chars_of, debug_list, debug_listed, debug_quoted, debug_text, string_of, texts};
use crate::whitespace::is_number;
use std::collections::BTreeMap;
use vstd::prelude::*;

verus! {

/// The numbers of a set in increasing order.
pub open spec fn ascending(numbers: Set<i64>) -> Seq<i64> {
    choose|s: Seq<i64>| increasing(s) && s.to_set() == numbers
}

/// Whether texts stand in increasing order.
pub open spec fn increasing_texts(s: Seq<Seq<char>>) -> bool {
    forall|i: int, j: int| 0 <= i < j < s.len() ==> text_less(#[trigger] s[i], #[trigger] s[j])
}

/// The texts of a set in increasing order.
pub open spec fn ascending_texts(names: Set<Seq<char>>) -> Seq<Seq<char>> {
    choose|s: Seq<Seq<char>>| increasing_texts(s) && s.to_set() == names
}

proof fn increasing_is_unique(a: Seq<i64>, b: Seq<i64>)
    requires
        increasing(a),
        increasing(b),
        a.to_set() == b.to_set(),
    ensures
        a == b,
    decreases a.len(),
{
    if a.len() == 0 {
        if b.len() > 0 {
            assert(b.to_set().contains(b[0]));
            assert(a.to_set().contains(b[0]));
        }
        assert(a =~= b);
    } else {
        assert(a.to_set().contains(a.last()));
        assert(b.to_set().contains(a.last()));
        assert(b.contains(a.last()));
        assert(b.len() > 0);
        assert(b.to_set().contains(b.last()));
        assert(a.to_set().contains(b.last()));
        assert(a.contains(b.last()));
        let i = choose|i: int| 0 <= i < b.len() && b[i] == a.last();
        let j = choose|j: int| 0 <= j < a.len() && a[j] == b.last();
        assert(a.last() == b.last()) by {
            if i < b.len() - 1 {
                assert(b[i] < b[b.len() - 1]);
            }
            if j < a.len() - 1 {
                assert(a[j] < a[a.len() - 1]);
            }
        }
        let x = a.drop_last();
        let y = b.drop_last();
        assert(x.to_set() =~= y.to_set()) by {
            assert forall|n: i64| x.to_set().contains(n) == y.to_set().contains(n) by {
                if x.contains(n) {
                    let k = choose|k: int| 0 <= k < x.len() && x[k] == n;
                    assert(a[k] == n);
                    assert(a.to_set().contains(n));
                    assert(b.contains(n));
                    let l = choose|l: int| 0 <= l < b.len() && b[l] == n;
                    assert(a[k] < a[a.len() - 1]);
                    assert(y[l] == n);
                }
                if y.contains(n) {
                    let k = choose|k: int| 0 <= k < y.len() && y[k] == n;
                    assert(b[k] == n);
                    assert(b.to_set().contains(n));
                    assert(a.contains(n));
                    let l = choose|l: int| 0 <= l < a.len() && a[l] == n;
                    assert(b[k] < b[b.len() - 1]);
                    assert(x[l] == n);
                }
            }
        }
        increasing_is_unique(x, y);
        assert(a =~= x.push(a.last()));
        assert(b =~= y.push(b.last()));
    }
}

/// Increasing numbers are those of their set in increasing order.
pub proof fn ascending_is(s: Seq<i64>, numbers: Set<i64>)
    requires
        increasing(s),
        s.to_set() == numbers,
    ensures
        ascending(numbers) == s,
{
    increasing_is_unique(ascending(numbers), s);
}

proof fn increasing_texts_unique(a: Seq<Seq<char>>, b: Seq<Seq<char>>)
    requires
        increasing_texts(a),
        increasing_texts(b),
        a.to_set() == b.to_set(),
    ensures
        a == b,
    decreases a.len(),
{
    if a.len() == 0 {
        if b.len() > 0 {
            assert(b.to_set().contains(b[0]));
            assert(a.to_set().contains(b[0]));
        }
        assert(a =~= b);
    } else {
        assert(a.to_set().contains(a.last()));
        assert(b.to_set().contains(a.last()));
        assert(b.contains(a.last()));
        assert(b.len() > 0);
        assert(b.to_set().contains(b.last()));
        assert(a.to_set().contains(b.last()));
        assert(a.contains(b.last()));
        let i = choose|i: int| 0 <= i < b.len() && b[i] == a.last();
        let j = choose|j: int| 0 <= j < a.len() && a[j] == b.last();
        assert(a.last() == b.last()) by {
            if i < b.len() - 1 && j < a.len() - 1 {
                assert(text_less(b[i], b[b.len() - 1]));
                assert(text_less(a[j], a[a.len() - 1]));
                crate::str_map::text_less_transitive(a.last(), b.last(), a.last());
                text_less_irreflexive(a.last());
            }
        }
        let x = a.drop_last();
        let y = b.drop_last();
        assert(x.to_set() =~= y.to_set()) by {
            assert forall|n: Seq<char>| x.to_set().contains(n) == y.to_set().contains(n) by {
                text_less_irreflexive(n);
                if x.contains(n) {
                    let k = choose|k: int| 0 <= k < x.len() && x[k] == n;
                    assert(a[k] == n);
                    assert(a.to_set().contains(n));
                    assert(b.contains(n));
                    let l = choose|l: int| 0 <= l < b.len() && b[l] == n;
                    assert(text_less(a[k], a[a.len() - 1]));
                    assert(y[l] == n);
                }
                if y.contains(n) {
                    let k = choose|k: int| 0 <= k < y.len() && y[k] == n;
                    assert(b[k] == n);
                    assert(b.to_set().contains(n));
                    assert(a.contains(n));
                    let l = choose|l: int| 0 <= l < a.len() && a[l] == n;
                    assert(text_less(b[k], b[b.len() - 1]));
                    assert(x[l] == n);
                }
            }
        }
        increasing_texts_unique(x, y);
        assert(a =~= x.push(a.last()));
        assert(b =~= y.push(b.last()));
    }
}

proof fn ascending_texts_is(s: Seq<Seq<char>>, names: Set<Seq<char>>)
    requires
        increasing_texts(s),
        s.to_set() == names,
    ensures
        ascending_texts(names) == s,
{
    increasing_texts_unique(ascending_texts(names), s);
}

/// The line for a breakpoint that the debugger put on a line: a filled circle
/// where it is enabled, and both lines where they differ.
pub open spec fn place_entry(enabled: bool, source: i64, actual: i64) -> Seq<char> {
    let mark = if enabled {
        "  ⬤  "@
    } else {
        "  ○  "@
    };
    if source != actual {
        mark + decimal_int(source as int) + " -> "@ + decimal_int(actual as int)
    } else {
        mark + decimal_int(source as int)
    }
}

/// The lines for a breakpoint: one for each line that the debugger put it on.
pub open spec fn breakpoint_entries(source: i64, b: BreakpointView) -> Seq<Seq<char>> {
    ascending(b.resolved.values()).map_values(
        |actual: i64| place_entry(b.enabled, source, actual),
    )
}

/// The lines for the breakpoints on the given lines of a file.
pub open spec fn line_entries(numbers: Seq<i64>, lines: Map<i64, BreakpointView>) -> Seq<Seq<char>>
    decreases numbers.len(),
{
    if numbers.len() == 0 {
        Seq::empty()
    } else {
        line_entries(numbers.drop_last(), lines) + breakpoint_entries(
            numbers.last(),
            lines[numbers.last()],
        )
    }
}

/// The lines for the given files: its name, and below it its breakpoints.
pub open spec fn file_entries(names: Seq<Seq<char>>, m: BreakpointsView) -> Seq<Seq<char>>
    decreases names.len(),
{
    if names.len() == 0 {
        Seq::empty()
    } else {
        file_entries(names.drop_last(), m).push(names.last() + ":"@) + line_entries(
            ascending(m[names.last()].dom()),
            m[names.last()],
        )
    }
}

/// What the window shows: the files in order, and the breakpoints of each by line.
pub open spec fn breakpoint_listing(m: BreakpointsView) -> Seq<Seq<char>> {
    file_entries(ascending_texts(m.dom()), m)
}

/// Puts a number into its place among increasing ones, unless it is there.
fn insert_number(numbers: &mut Vec<i64>, n: i64)
    requires
        increasing(old(numbers)@),
    ensures
        increasing(final(numbers)@),
        final(numbers)@.to_set() == old(numbers)@.to_set().insert(n),
{
    let ghost before = numbers@;
    let mut i: usize = 0;
    while i < numbers.len() && numbers[i] < n
        invariant
            i <= numbers@.len(),
            numbers@ == before,
            forall|j: int| 0 <= j < i ==> numbers@[j] < n,
        decreases numbers@.len() - i,
    {
        i = i + 1;
    }
    if i < numbers.len() && numbers[i] == n {
        proof {
            assert(before.contains(n));
            assert(before.to_set() =~= before.to_set().insert(n));
        }
        return;
    }
    numbers.insert(i, n);
    proof {
        assert forall|a: int, b: int| 0 <= a < b < numbers@.len() implies numbers@[a]
            < numbers@[b] by {
            if a < i && b > i {
                assert(before[a] < before[b - 1]);
            } else if a > i {
                assert(before[a - 1] < before[b - 1]);
            } else if a == i && b > i + 1 {
                assert(before[i as int] < before[b - 1]);
            }
        }
        assert forall|x: i64| numbers@.to_set().contains(x) == before.to_set().insert(n).contains(
            x,
        ) by {
            if numbers@.contains(x) {
                let k = choose|k: int| 0 <= k < numbers@.len() && numbers@[k] == x;
                if k < i {
                    assert(before[k] == x);
                } else if k > i {
                    assert(before[k - 1] == x);
                }
            }
            if before.contains(x) {
                let k = choose|k: int| 0 <= k < before.len() && before[k] == x;
                if k < i {
                    assert(numbers@[k] == x);
                } else {
                    assert(numbers@[k + 1] == x);
                }
            }
            if x == n {
                assert(numbers@[i as int] == n);
            }
        }
        assert(numbers@.to_set() =~= before.to_set().insert(n));
    }
}

/// The lines that the debugger put a breakpoint on, each once, in order.
fn resolved_lines(b: &DebuggerBreakpoint) -> (r: Vec<i64>)
    requires
        b.wf(),
    ensures
        r@ == ascending(b@.resolved.values()),
{
    let mut r: Vec<i64> = Vec::new();
    let mut i: usize = 0;
    assert(r@.to_set() =~= Set::empty());
    let ghost mut seen: Set<i64> = Set::empty();
    while i < b.resolved.entries.len()
        invariant
            b.wf(),
            i <= b.resolved.entries@.len(),
            increasing(r@),
            r@.to_set() == seen,
            forall|n: i64| #[trigger]
                seen.contains(n) <==> exists|j: int|
                    0 <= j < i && #[trigger] b.resolved.entries@[j].1 == n,
        decreases b.resolved.entries@.len() - i,
    {
        let n: i64 = b.resolved.entries[i].1;
        insert_number(&mut r, n);
        proof {
            let before = seen;
            seen = seen.insert(n);
            assert forall|x: i64| #[trigger] seen.contains(x) <==> exists|j: int|
                0 <= j < i + 1 && #[trigger] b.resolved.entries@[j].1 == x by {
                if before.contains(x) {
                    let j = choose|j: int| 0 <= j < i && b.resolved.entries@[j].1 == x;
                    assert(b.resolved.entries@[j].1 == x);
                }
                if x == n {
                    assert(b.resolved.entries@[i as int].1 == x);
                }
            }
        }
        i = i + 1;
    }
    proof {
        let m = b.resolved;
        assert forall|n: i64| seen.contains(n) == m@.values().contains(n) by {
            if seen.contains(n) {
                let j = choose|j: int| 0 <= j < m.entries@.len() && m.entries@[j].1 == n;
                assert(m.holds_at(m.key(j), j));
                m.index_is_unique(m.key(j), j);
                assert(m@.contains_key(m.key(j)) && m@[m.key(j)] == n);
            }
            if m@.values().contains(n) {
                let k = choose|k: Seq<char>| m@.contains_key(k) && m@[k] == n;
                let j = m.index(k);
                assert(m.holds_at(k, j));
                assert(m.entries@[j].1 == n);
            }
        }
        assert(seen =~= m@.values());
        ascending_is(r@, m@.values());
    }
    r
}

/// The line for a breakpoint that the debugger put on a line.
fn show_place(enabled: bool, source: i64, actual: i64) -> (r: String)
    ensures
        r@ == place_entry(enabled, source, actual),
{
    let mark = if enabled {
        "  ⬤  ".to_string()
    } else {
        "  ○  ".to_string()
    };
    let first = signed_text(source);
    if source != actual {
        let second = signed_text(actual);
        mark.concat(first.as_str()).concat(" -> ").concat(second.as_str())
    } else {
        mark.concat(first.as_str())
    }
}

/// Appends the lines for a breakpoint.
fn show_breakpoint(source: i64, b: &DebuggerBreakpoint, out: &mut Vec<String>)
    requires
        b.wf(),
    ensures
        texts(final(out)@) == texts(old(out)@) + breakpoint_entries(source, b@),
{
    let ghost before = texts(out@);
    let places = resolved_lines(b);
    let ghost f = |actual: i64| place_entry(b@.enabled, source, actual);
    let mut i: usize = 0;
    assert(texts(out@) =~= before + places@.take(0).map_values(f));
    while i < places.len()
        invariant
            i <= places@.len(),
            f == (|actual: i64| place_entry(b@.enabled, source, actual)),
            texts(out@) == before + places@.take(i as int).map_values(f),
        decreases places@.len() - i,
    {
        let ghost shown = texts(out@);
        out.push(show_place(b.enabled, source, places[i]));
        assert(texts(out@) =~= shown.push(f(places@[i as int])));
        assert(places@.take(i + 1).map_values(f) =~= places@.take(i as int).map_values(f).push(
            f(places@[i as int]),
        ));
        i = i + 1;
    }
    assert(places@.take(i as int) =~= places@);
}

/// Appends the lines for the breakpoints of a file.
fn show_lines(lines: &BTreeMap<i64, DebuggerBreakpoint>, out: &mut Vec<String>)
    requires
        lines_wf(*lines),
    ensures
        texts(final(out)@) == texts(old(out)@) + line_entries(
            ascending(lines_view(*lines).dom()),
            lines_view(*lines),
        ),
{
    let ghost before = texts(out@);
    let numbers = sorted_lines(lines);
    proof {
        assert(numbers@.to_set() =~= lines_view(*lines).dom()) by {
            assert forall|n: i64| numbers@.to_set().contains(n) == lines_view(
                *lines,
            ).dom().contains(n) by {
                assert(lines@.contains_key(n) <==> numbers@.contains(n));
            }
        }
        ascending_is(numbers@, lines_view(*lines).dom());
        assert(texts(out@) =~= before + line_entries(numbers@.take(0), lines_view(*lines)));
    }
    let mut i: usize = 0;
    while i < numbers.len()
        invariant
            i <= numbers@.len(),
            lines_wf(*lines),
            forall|line: i64| #[trigger] lines@.contains_key(line) <==> numbers@.contains(line),
            texts(out@) == before + line_entries(numbers@.take(i as int), lines_view(*lines)),
        decreases numbers@.len() - i,
    {
        let line: i64 = numbers[i];
        let ghost shown = texts(out@);
        assert(numbers@.contains(line));
        assert(lines@.contains_key(line));
        if let Some(b) = lines.get(&line) {
            show_breakpoint(line, b, out);
        }
        proof {
            let more = numbers@.take(i + 1);
            assert(more.drop_last() =~= numbers@.take(i as int));
            assert(more.last() == line);
            assert(texts(out@) =~= before + line_entries(more, lines_view(*lines)));
        }
        i = i + 1;
    }
    assert(numbers@.take(i as int) =~= numbers@);
}

/// What the window for the breakpoints shows.
pub fn process_breakpoints_output(breakpoints: &Breakpoints) -> (r: Vec<String>)
    requires
        breakpoints.wf(),
    ensures
        texts(r@) == breakpoint_listing(breakpoints@),
{
    let files = breakpoints.get_all_files();
    let ghost names = texts(files@);
    let ghost m = breakpoints@;
    proof {
        assert(names.to_set() =~= m.dom()) by {
            assert forall|f: Seq<char>| names.to_set().contains(f) == m.dom().contains(f) by {
                assert(m.contains_key(f) <==> texts(files@).contains(f));
            }
        }
        ascending_texts_is(names, m.dom());
    }
    let mut r: Vec<String> = Vec::new();
    let mut i: usize = 0;
    assert(texts(r@) =~= file_entries(names.take(0), m));
    while i < files.len()
        invariant
            breakpoints.wf(),
            i <= files@.len(),
            m == breakpoints@,
            names == texts(files@),
            forall|f: Seq<char>| #[trigger] m.contains_key(f) <==> names.contains(f),
            texts(r@) == file_entries(names.take(i as int), m),
        decreases files@.len() - i,
    {
        let ghost shown = texts(r@);
        let ghost name = names[i as int];
        assert(names.contains(name));
        assert(m.contains_key(name));
        let header = files[i].clone().concat(":");
        r.push(header);
        assert(texts(r@) =~= shown.push(name + ":"@));
        if let Ok(lines) = breakpoints.get_all_breakpoint_line_numbers_for_file(files[i].as_str()) {
            show_lines(lines, &mut r);
        }
        proof {
            let more = names.take(i + 1);
            assert(more.drop_last() =~= names.take(i as int));
            assert(more.last() == name);
        }
        i = i + 1;
    }
    assert(names.take(i as int) =~= names);
    r
}

/// Why the lines of the window do not tell of a breakpoint.
#[derive(Debug)]
pub enum ListingError {
    EmptyLine,
    EmptyName,
    NoFile,
    NotANumber(String),
}

/// Why the lines of the window do not tell of a breakpoint.
#[verifier::ext_equal]
pub enum ListingFault {
    EmptyLine,
    EmptyName,
    NoFile,
    NotANumber(Seq<char>),
}

impl ListingError {
    /// The error as mathematics.
    pub open spec fn view(&self) -> ListingFault {
        match self {
            ListingError::EmptyLine => ListingFault::EmptyLine,
            ListingError::EmptyName => ListingFault::EmptyName,
            ListingError::NoFile => ListingFault::NoFile,
            ListingError::NotANumber(n) => ListingFault::NotANumber(n@),
        }
    }

    /// The error in words, where it is about these lines.
    pub fn message(&self, lines: &Vec<String>) -> (r: String)
        requires
            self is NotANumber ==> lines@.len() > 0,
        ensures
            r@ == fault_words(self.view(), texts(lines@)),
    {
        match self {
            ListingError::EmptyLine => "Can't get first char of line: \"\"".to_string(),
            ListingError::EmptyName => "Can't find file in line: None".to_string(),
            ListingError::NoFile => {
                let all = debug_list(lines);
                "Can't find file for breakpoint in lines: ".to_string().concat(all.as_str())
            },
            ListingError::NotANumber(n) => {
                let line = debug_text(lines[lines.len() - 1].as_str());
                "can't parse source line from `".to_string().concat(n.as_str()).concat(
                    "`: ",
                ).concat(line.as_str())
            },
        }
    }
}

/// The words for an error about these lines.
pub open spec fn fault_words(e: ListingFault, lines: Seq<Seq<char>>) -> Seq<char> {
    match e {
        ListingFault::EmptyLine => "Can't get first char of line: \"\""@,
        ListingFault::EmptyName => "Can't find file in line: None"@,
        ListingFault::NoFile => "Can't find file for breakpoint in lines: "@ + debug_listed(lines),
        ListingFault::NotANumber(n) => "can't parse source line from `"@ + n + "`: "@
            + debug_quoted(lines.last()),
    }
}

/// The file that the last of the lines belongs to: the nearest line above that
/// does not start with a space, without the colon at its end.
pub open spec fn file_above(lines: Seq<Seq<char>>) -> Result<Seq<char>, ListingFault>
    decreases lines.len(),
{
    if lines.len() == 0 {
        Err(ListingFault::NoFile)
    } else {
        let line = lines.last();
        if line.len() == 0 {
            Err(ListingFault::EmptyLine)
        } else if line[0] != ' ' {
            if line.len() == 1 {
                Err(ListingFault::EmptyName)
            } else {
                Ok(line.drop_last())
            }
        } else {
            file_above(lines.drop_last())
        }
    }
}

/// Reading a line of the window from position `at` on: whether a filled circle
/// was met, and the first number, which ends at a space.
pub open spec fn read_entry(line: Seq<char>, at: int, enabled: bool, number: Seq<char>) -> (
    bool,
    Seq<char>,
)
    decreases line.len() - at,
{
    if at < 0 || at >= line.len() {
        (enabled, number)
    } else {
        let c = line[at];
        let e = enabled || c == '⬤';
        let n = if is_number(c) {
            number.push(c)
        } else {
            number
        };
        if n.len() > 0 && c == ' ' {
            (e, n)
        } else {
            read_entry(line, at + 1, e, n)
        }
    }
}

/// The breakpoint that the last of the lines stands for: its file, its line in
/// the source, and whether it is shown as enabled.
pub open spec fn listed_breakpoint(lines: Seq<Seq<char>>) -> Result<
    (Seq<char>, int, bool),
    ListingFault,
> {
    match file_above(lines) {
        Err(e) => Err(e),
        Ok(file) => {
            let (enabled, number) = read_entry(lines.last(), 0, false, Seq::empty());
            match read_signed(number) {
                Ok(n) => Ok((file, n, enabled)),
                Err(_) => Err(ListingFault::NotANumber(number)),
            }
        },
    }
}

/// Whether the line that names the file of the last of the lines ends in one byte
/// that can be cut off.
pub open spec fn name_can_be_cut(lines: Seq<Seq<char>>) -> bool
    decreases lines.len(),
{
    if lines.len() == 0 || lines.last().len() == 0 {
        true
    } else if lines.last()[0] != ' ' {
        (lines.last().last() as u32) < 128
    } else {
        name_can_be_cut(lines.drop_last())
    }
}

/// The breakpoint that the last of the lines stands for.
pub fn breakpoint_under_cursor(lines: &Vec<String>) -> (r: Result<(String, i64, bool), ListingError>)
    requires
        name_can_be_cut(texts(lines@)),
    ensures
        match r {
            Ok((file, line, enabled)) => listed_breakpoint(texts(lines@)) == Ok::<
                (Seq<char>, int, bool),
                ListingFault,
            >((file@, line as int, enabled)),
            Err(e) => listed_breakpoint(texts(lines@)) == Err::<
                (Seq<char>, int, bool),
                ListingFault,
            >(e.view()),
        },
{
    let ghost all = texts(lines@);
    let mut i: usize = lines.len();
    let mut file: Option<String> = None;
    assert(all.take(i as int) =~= all);
    while i > 0 && file.is_none()
        invariant
            i <= lines@.len(),
            all == texts(lines@),
            match file {
                Some(name) => file_above(all) == Ok::<Seq<char>, ListingFault>(name@),
                None => file_above(all) == file_above(all.take(i as int)),
            },
        decreases i, (if file is None { 1int } else { 0int }),
    {
        let chars = chars_of(lines[i - 1].as_str());
        assert(all.take(i as int).last() == lines@[i - 1]@);
        assert(all.take(i as int).drop_last() =~= all.take(i - 1));
        if chars.len() == 0 {
            return Err(ListingError::EmptyLine);
        }
        if chars[0] != ' ' {
            let end: usize = chars.len() - 1;
            if end == 0 {
                return Err(ListingError::EmptyName);
            }
            let name = string_of(&chars, 0, end);
            assert(name@ =~= chars@.drop_last());
            file = Some(name);
        } else {
            i = i - 1;
        }
    }
    let file = match file {
        Some(name) => name,
        None => {
            return Err(ListingError::NoFile);
        },
    };
    let source_line = chars_of(lines[lines.len() - 1].as_str());
    assert(all.last() == source_line@);
    let mut enabled = false;
    let mut number = String::new();
    let mut at: usize = 0;
    assert(number@ =~= Seq::<char>::empty());
    while at < source_line.len()
        invariant
            at <= source_line@.len(),
            read_entry(source_line@, 0, false, Seq::empty()) == read_entry(
                source_line@,
                at as int,
                enabled,
                number@,
            ),
        ensures
            read_entry(source_line@, 0, false, Seq::empty()) == (enabled, number@),
        decreases source_line@.len() - at,
    {
        let c = source_line[at];
        if c == '⬤' {
            enabled = true;
        }
        if c.is_numeric() {
            number.push(c);
        }
        if !number.as_str().is_empty() && c == ' ' {
            break;
        }
        at = at + 1;
    }
    match parse_i64(number.as_str()) {
        Ok(n) => Ok((file, n, enabled)),
        Err(_) => Err(ListingError::NotANumber(number)),
    }
}

proof fn read_entry_digits(line: Seq<char>, at: int, end: int, enabled: bool, number: Seq<char>)
    requires
        0 <= at <= end <= line.len(),
        forall|i: int| at <= i < end ==> is_digit(#[trigger] line[i]),
        end == line.len() || (line[end] == ' ' && number.len() + (end - at) > 0),
    ensures
        read_entry(line, at, enabled, number) == (enabled, number + line.subrange(at, end)),
    decreases end - at,
{
    if at == end {
        assert(number + line.subrange(at, end) =~= number);
    } else {
        let c = line[at];
        assert(is_digit(c));
        let more = number.push(c);
        read_entry_digits(line, at + 1, end, enabled, more);
        assert(more + line.subrange(at + 1, end) =~= number + line.subrange(at, end));
    }
}

/// A line that the window shows for a breakpoint is understood: below the line
/// for its file it stands for the breakpoint that it was written for. Sources
/// have no negative lines, whose sign would be lost.
pub proof fn listing_is_understood(
    above: Seq<Seq<char>>,
    file: Seq<char>,
    enabled: bool,
    source: i64,
    actual: i64,
)
    requires
        file.len() > 0,
        file[0] != ' ',
        source >= 0,
    ensures
        listed_breakpoint(above.push(file + ":"@).push(place_entry(enabled, source, actual)))
            == Ok::<(Seq<char>, int, bool), ListingFault>((file, source as int, enabled)),
{
    reveal_strlit(":");
    reveal_strlit("  ⬤  ");
    reveal_strlit("  ○  ");
    reveal_strlit(" -> ");
    let line = place_entry(enabled, source, actual);
    let lines = above.push(file + ":"@).push(line);
    let mark = if enabled {
        "  ⬤  "@
    } else {
        "  ○  "@
    };
    let d = decimal_int(source as int);
    decimal_is_digits(source as nat);
    decimal_int_read_back(source as int);
    assert(mark.len() == 5 && mark[0] == ' ' && mark[1] == ' ' && mark[3] == ' ' && mark[4] == ' ');
    assert forall|i: int| 0 <= i < 5 implies line[i] == mark[i] by {}
    assert(lines.drop_last().last() =~= file + ":"@);
    assert((file + ":"@).drop_last() =~= file);
    assert(file_above(lines.drop_last()) == Ok::<Seq<char>, ListingFault>(file));
    assert(file_above(lines) == Ok::<Seq<char>, ListingFault>(file));
    let end = 5 + d.len() as int;
    assert forall|i: int| 5 <= i < end implies is_digit(#[trigger] line[i]) by {
        assert(line[i] == d[i - 5]);
    }
    assert(line.subrange(5, end) =~= d);
    if end < line.len() {
        assert(line[end] == ' ');
    }
    let none = Seq::<char>::empty();
    read_entry_digits(line, 5, end, enabled, none);
    assert(none + d =~= d);
    if enabled {
        read_circle(line, true);
    } else {
        read_circle(line, false);
    }
}

/// Up to its number a line is read as the circle that it shows.
proof fn read_circle(line: Seq<char>, enabled: bool)
    requires
        line.len() > 5,
        line[0] == ' ',
        line[1] == ' ',
        line[2] == (if enabled {
            '⬤'
        } else {
            '○'
        }),
        line[3] == ' ',
        line[4] == ' ',
    ensures
        read_entry(line, 0, false, Seq::empty()) == read_entry(line, 5, enabled, Seq::empty()),
{
    reveal_with_fuel(read_entry, 6);
}

/// The numbers of a finite set stand in increasing order, each once, and all of them.
pub proof fn ascending_of(numbers: Set<i64>)
    requires
        numbers.finite(),
    ensures
        ascending(numbers).to_set() == numbers,
        forall|i: int, j: int|
            0 <= i < j < ascending(numbers).len() ==> #[trigger] ascending(numbers)[i]
                < #[trigger] ascending(numbers)[j],
    decreases numbers.len(),
{
    if numbers.len() == 0 {
        assert(numbers =~= Set::empty());
        assert(Seq::<i64>::empty().to_set() =~= numbers);
        ascending_is(Seq::empty(), numbers);
    } else {
        let top = largest(numbers);
        let fewer = numbers.remove(top);
        ascending_of(fewer);
        let s = ascending(fewer);
        let all = s.push(top);
        assert forall|i: int, j: int| 0 <= i < j < all.len() implies all[i] < all[j] by {
            if j == s.len() {
                assert(s.to_set().contains(s[i]));
                assert(numbers.contains(s[i]));
            }
        }
        assert(all.to_set() =~= numbers) by {
            assert forall|n: i64| all.to_set().contains(n) == numbers.contains(n) by {
                if numbers.contains(n) && n != top {
                    assert(s.to_set().contains(n));
                    let i = choose|i: int| 0 <= i < s.len() && s[i] == n;
                    assert(all[i] == n);
                }
                assert(all[s.len() as int] == top);
                if all.contains(n) && n != top {
                    let i = choose|i: int| 0 <= i < all.len() && all[i] == n;
                    assert(s[i] == n);
                    assert(s.to_set().contains(n));
                }
            }
        }
        ascending_is(all, numbers);
    }
}

/// The largest of some numbers.
proof fn largest(numbers: Set<i64>) -> (top: i64)
    requires
        numbers.finite(),
        numbers.len() > 0,
    ensures
        numbers.contains(top),
        forall|n: i64| #[trigger] numbers.contains(n) ==> n <= top,
    decreases numbers.len(),
{
    let some = numbers.choose();
    let fewer = numbers.remove(some);
    if fewer.len() == 0 {
        assert(fewer =~= Set::empty());
        assert forall|n: i64| #[trigger] numbers.contains(n) implies n <= some by {
            assert(!fewer.contains(n));
        }
        some
    } else {
        let top = largest(fewer);
        let r = if top > some {
            top
        } else {
            some
        };
        assert forall|n: i64| #[trigger] numbers.contains(n) implies n <= r by {
            if n != some {
                assert(fewer.contains(n));
            }
        }
        r
    }
}

/// Whether a line tells a breakpoint: a filled circle where it is enabled, its line in
/// the source, and the line that it was put on where that is another.
pub open spec fn tells_breakpoint(
    line: Seq<char>,
    enabled: bool,
    source: i64,
    actual: i64,
) -> bool {
    line == (if enabled {
        "  ⬤  "@
    } else {
        "  ○  "@
    }) + decimal_int(source as int) + (if source == actual {
        Seq::empty()
    } else {
        " -> "@ + decimal_int(actual as int)
    })
}

/// Whether a file stands in `lines` from `from` up to `to`: its name, and below it a line
/// for each place that one of its breakpoints was put on, by the line in the source and
/// then by that place, each once.
pub open spec fn file_stands(
    lines: Seq<Seq<char>>,
    from: int,
    to: int,
    name: Seq<char>,
    known: Map<i64, BreakpointView>,
    places: Seq<(i64, i64)>,
) -> bool {
    &&& 0 <= from
    &&& to == from + 1 + places.len()
    &&& to <= lines.len()
    &&& lines[from] == name + ":"@
    &&& forall|i: int, j: int|
        0 <= i < j < places.len() ==> (#[trigger] places[i]).0 < (#[trigger] places[j]).0 || (
        places[i].0 == places[j].0 && places[i].1 < places[j].1)
    &&& forall|source: i64, actual: i64| #[trigger]
        places.contains((source, actual)) <==> known.contains_key(source)
            && known[source].resolved.values().contains(actual)
    &&& forall|i: int|
        #![trigger places[i]]
        0 <= i < places.len() ==> tells_breakpoint(
            lines[from + 1 + i],
            known[places[i].0].enabled,
            places[i].0,
            places[i].1,
        )
}

/// Whether the files stand in `lines` one below the other, by name, each from its start
/// up to that of the next.
pub open spec fn files_stand(
    lines: Seq<Seq<char>>,
    m: BreakpointsView,
    names: Seq<Seq<char>>,
    starts: Seq<int>,
    places: Seq<Seq<(i64, i64)>>,
) -> bool {
    &&& starts.len() == names.len() + 1
    &&& places.len() == names.len()
    &&& starts[0] == 0
    &&& starts[names.len() as int] == lines.len()
    &&& forall|i: int|
        #![trigger names[i]]
        0 <= i < names.len() ==> file_stands(
            lines,
            starts[i],
            starts[i + 1],
            names[i],
            m[names[i]],
            places[i],
        )
}

proof fn line_entries_stand(numbers: Seq<i64>, known: Map<i64, BreakpointView>) -> (places: Seq<
    (i64, i64),
>)
    requires
        increasing(numbers),
        forall|i: int|
            0 <= i < numbers.len() ==> known[#[trigger] numbers[i]].resolved.values().finite(),
    ensures
        line_entries(numbers, known).len() == places.len(),
        forall|i: int, j: int|
            0 <= i < j < places.len() ==> (#[trigger] places[i]).0 < (#[trigger] places[j]).0 || (
            places[i].0 == places[j].0 && places[i].1 < places[j].1),
        forall|source: i64, actual: i64| #[trigger]
            places.contains((source, actual)) <==> numbers.contains(source)
                && known[source].resolved.values().contains(actual),
        forall|i: int|
            #![trigger places[i]]
            0 <= i < places.len() ==> tells_breakpoint(
                line_entries(numbers, known)[i],
                known[places[i].0].enabled,
                places[i].0,
                places[i].1,
            ),
    decreases numbers.len(),
{
    if numbers.len() == 0 {
        Seq::empty()
    } else {
        let fewer = numbers.drop_last();
        let last = numbers.last();
        assert forall|i: int| 0 <= i < fewer.len() implies known[#[trigger] fewer[i]]
            .resolved.values().finite() by {
            assert(fewer[i] == numbers[i]);
        }
        let before = line_entries_stand(fewer, known);
        assert(known[numbers[numbers.len() - 1]].resolved.values().finite());
        let values = known[last].resolved.values();
        ascending_of(values);
        let s = ascending(values);
        let own = s.map_values(|a: i64| (last, a));
        let places = before + own;
        let lines = line_entries(numbers, known);
        let shorter = line_entries(fewer, known);
        let entries = breakpoint_entries(last, known[last]);
        assert(lines == shorter + entries);
        assert forall|n: i64| #[trigger] fewer.contains(n) implies n < last by {
            let i = choose|i: int| 0 <= i < fewer.len() && fewer[i] == n;
            assert(numbers[i] < numbers[numbers.len() - 1]);
        }
        assert forall|n: i64| #[trigger] numbers.contains(n) <==> fewer.contains(n) || n
            == last by {
            if numbers.contains(n) {
                let i = choose|i: int| 0 <= i < numbers.len() && numbers[i] == n;
                if i < fewer.len() {
                    assert(fewer[i] == n);
                }
            }
            if fewer.contains(n) {
                let i = choose|i: int| 0 <= i < fewer.len() && fewer[i] == n;
                assert(numbers[i] == n);
            }
            assert(numbers[numbers.len() - 1] == last);
        }
        assert forall|i: int, j: int| 0 <= i < j < places.len() implies (#[trigger] places[i]).0 < (
        #[trigger] places[j]).0 || (places[i].0 == places[j].0 && places[i].1 < places[j].1) by {
            if j >= before.len() {
                if i < before.len() {
                    assert(places[i] == before[i]);
                    assert(before.contains((before[i].0, before[i].1)));
                    assert(fewer.contains(before[i].0));
                } else {
                    assert(s[i - before.len()] < s[j - before.len()]);
                }
            }
        }
        assert forall|source: i64, actual: i64| #[trigger] places.contains(
            (source, actual),
        ) <==> numbers.contains(source) && known[source].resolved.values().contains(actual) by {
            let p = (source, actual);
            if places.contains(p) {
                let i = choose|i: int| 0 <= i < places.len() && places[i] == p;
                if i < before.len() {
                    assert(before[i] == p);
                    assert(before.contains(p));
                } else {
                    assert(s.to_set().contains(s[i - before.len()]));
                }
            }
            if fewer.contains(source) && known[source].resolved.values().contains(actual) {
                assert(before.contains(p));
                let i = choose|i: int| 0 <= i < before.len() && before[i] == p;
                assert(places[i] == p);
            }
            if source == last && values.contains(actual) {
                assert(s.to_set().contains(actual));
                let i = choose|i: int| 0 <= i < s.len() && s[i] == actual;
                assert(own[i] == p);
                assert(places[before.len() + i] == p);
            }
        }
        assert forall|i: int|
            #![trigger places[i]]
            0 <= i < places.len() implies tells_breakpoint(
            lines[i],
            known[places[i].0].enabled,
            places[i].0,
            places[i].1,
        ) by {
            if i < before.len() {
                assert(places[i] == before[i]);
                assert(lines[i] == shorter[i]);
            } else {
                assert(lines[i] == entries[i - before.len()]);
                assert(entries[i - before.len()] == place_entry(
                    known[last].enabled,
                    last,
                    s[i - before.len()],
                ));
                let line = lines[i];
                assert(line + Seq::<char>::empty() =~= line);
                let actual = s[i - before.len()];
                let mark = if known[last].enabled {
                    "  ⬤  "@
                } else {
                    "  ○  "@
                };
                assert(mark + decimal_int(last as int) + " -> "@ + decimal_int(actual as int)
                    =~= mark + decimal_int(last as int) + (" -> "@ + decimal_int(actual as int)));
            }
        }
        places
    }
}

proof fn file_entries_stand(names: Seq<Seq<char>>, m: BreakpointsView) -> (r: (
    Seq<int>,
    Seq<Seq<(i64, i64)>>,
))
    requires
        forall|i: int|
            0 <= i < names.len() ==> m[#[trigger] names[i]].dom().finite() && forall|l: i64|
                m[names[i]].contains_key(l)
                    ==> (#[trigger] m[names[i]][l]).resolved.values().finite(),
    ensures
        files_stand(file_entries(names, m), m, names, r.0, r.1),
    decreases names.len(),
{
    let lines = file_entries(names, m);
    if names.len() == 0 {
        (seq![0], Seq::empty())
    } else {
        let fewer = names.drop_last();
        let name = names.last();
        assert forall|i: int| 0 <= i < fewer.len() implies m[#[trigger] fewer[i]].dom().finite()
            && forall|l: i64|
            m[fewer[i]].contains_key(l)
                ==> (#[trigger] m[fewer[i]][l]).resolved.values().finite() by {
            assert(fewer[i] == names[i]);
        }
        let (starts, places) = file_entries_stand(fewer, m);
        let before = file_entries(fewer, m);
        assert(names[names.len() - 1] == name);
        ascending_of(m[name].dom());
        let numbers = ascending(m[name].dom());
        assert forall|i: int| 0 <= i < numbers.len() implies m[name][#[trigger] numbers[i]]
            .resolved.values().finite() by {
            assert(numbers.to_set().contains(numbers[i]));
            assert(m[name].contains_key(numbers[i]));
        }
        let own = line_entries_stand(numbers, m[name]);
        let entries = line_entries(numbers, m[name]);
        let all_starts = starts.push(lines.len() as int);
        let all_places = places.push(own);
        assert(lines == before.push(name + ":"@) + entries);
        assert forall|i: int|
            #![trigger names[i]]
            0 <= i < names.len() implies file_stands(
            lines,
            all_starts[i],
            all_starts[i + 1],
            names[i],
            m[names[i]],
            all_places[i],
        ) by {
            if i < fewer.len() {
                assert(fewer[i] == names[i]);
                assert(file_stands(
                    before,
                    starts[i],
                    starts[i + 1],
                    fewer[i],
                    m[fewer[i]],
                    places[i],
                ));
                assert forall|j: int|
                    #![trigger places[i][j]]
                    0 <= j < places[i].len() implies tells_breakpoint(
                    lines[starts[i] + 1 + j],
                    m[names[i]][places[i][j].0].enabled,
                    places[i][j].0,
                    places[i][j].1,
                ) by {
                    assert(lines[starts[i] + 1 + j] == before[starts[i] + 1 + j]);
                }
                assert(lines[starts[i]] == before[starts[i]]);
            } else {
                assert(lines[before.len() as int] == name + ":"@);
                assert forall|source: i64, actual: i64| #[trigger] own.contains(
                    (source, actual),
                ) <==> m[name].contains_key(source) && m[name][source].resolved.values().contains(
                    actual,
                ) by {
                    assert(numbers.to_set().contains(source) <==> m[name].dom().contains(source));
                }
                assert forall|j: int|
                    #![trigger own[j]]
                    0 <= j < own.len() implies tells_breakpoint(
                    lines[before.len() + 1 + j],
                    m[name][own[j].0].enabled,
                    own[j].0,
                    own[j].1,
                ) by {
                    assert(lines[before.len() + 1 + j] == entries[j]);
                }
            }
        }
        (all_starts, all_places)
    }
}

/// The list of breakpoints has every file, by name, and below each a line for each place
/// that one of its breakpoints was put on, by line: no breakpoint that was put somewhere
/// is missing, and none is made up.
pub proof fn every_breakpoint_is_listed(
    breakpoints: &Breakpoints,
    r: Vec<String>,
) -> (names: Seq<Seq<char>>)
    requires
        breakpoints.wf(),
        call_ensures(process_breakpoints_output, (breakpoints,), r),
    ensures
        forall|i: int, j: int|
            0 <= i < j < names.len() ==> text_less(#[trigger] names[i], #[trigger] names[j]),
        forall|f: Seq<char>| #[trigger] names.contains(f) <==> breakpoints@.contains_key(f),
        exists|starts: Seq<int>, places: Seq<Seq<(i64, i64)>>| #[trigger]
            files_stand(texts(r@), breakpoints@, names, starts, places),
{
    let m = breakpoints@;
    let names = crate::breakpoints::finitely_many(*breakpoints);
    assert forall|f: Seq<char>| #[trigger] names.contains(f) <==> m.contains_key(f) by {
        assert(m.contains_key(f) <==> names.contains(f));
    }
    assert(names.to_set() =~= m.dom()) by {
        assert forall|f: Seq<char>| names.to_set().contains(f) == m.dom().contains(f) by {
            assert(m.contains_key(f) <==> names.contains(f));
        }
    }
    ascending_texts_is(names, m.dom());
    assert forall|i: int| 0 <= i < names.len() implies m[#[trigger] names[i]].dom().finite()
        && forall|l: i64|
        m[names[i]].contains_key(l)
            ==> (#[trigger] m[names[i]][l]).resolved.values().finite() by {
        assert(names.contains(names[i]));
        assert(m.contains_key(names[i]));
        assert forall|l: i64| m[names[i]].contains_key(l) implies (#[trigger] m[names[i]][l])
            .resolved.values().finite() by {
            assert(crate::breakpoints::has_breakpoint(m, names[i], l));
        }
    }
    let (starts, places) = file_entries_stand(names, m);
    assert(files_stand(texts(r@), m, names, starts, places));
    names
}

/// The line of the list that tells a breakpoint is understood as that breakpoint, below
/// the name of its file and any lines that tell others of the same file.
pub proof fn told_breakpoint_is_understood(
    lines: &Vec<String>,
    header: int,
    file: Seq<char>,
    enabled: bool,
    source: i64,
    actual: i64,
    r: Result<(String, i64, bool), ListingError>,
)
    requires
        file.len() > 0,
        file[0] != ' ',
        source >= 0,
        0 <= header < lines@.len() - 1,
        lines@[header]@ == file + ":"@,
        forall|i: int|
            header < i < lines@.len() ==> (#[trigger] lines@[i])@.len() > 0 && lines@[i]@[0] == ' ',
        tells_breakpoint(lines@.last()@, enabled, source, actual),
        call_ensures(breakpoint_under_cursor, (lines,), r),
    ensures
        r matches Ok((f, line, on)) && f@ == file && line == source && on == enabled,
{
    let all = texts(lines@);
    let line = lines@.last()@;
    reveal_strlit(":");
    file_above_header(all, header, file);
    let mark = if enabled {
        "  ⬤  "@
    } else {
        "  ○  "@
    };
    assert(line =~= place_entry(enabled, source, actual));
    listing_is_understood(Seq::empty(), file, enabled, source, actual);
    let short = Seq::empty().push(file + ":"@).push(line);
    assert(short.last() == line);
    assert(all.last() == line);
    assert(short.drop_last().last() == file + ":"@);
    assert((file + ":"@).drop_last() =~= file);
}

proof fn file_above_header(lines: Seq<Seq<char>>, header: int, file: Seq<char>)
    requires
        file.len() > 0,
        file[0] != ' ',
        0 <= header < lines.len(),
        lines[header] == file + ":"@,
        forall|i: int|
            header < i < lines.len() ==> (#[trigger] lines[i]).len() > 0 && lines[i][0] == ' ',
    ensures
        file_above(lines) == Ok::<Seq<char>, ListingFault>(file),
    decreases lines.len(),
{
    reveal_strlit(":");
    assert((file + ":"@).drop_last() =~= file);
    if header < lines.len() - 1 {
        assert(lines[lines.len() - 1].len() > 0);
        file_above_header(lines.drop_last(), header, file);
    }
}

} // verus!
