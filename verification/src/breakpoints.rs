//! The breakpoints a user has placed, by source file and line.

use crate::number::{decimal_int, signed_text};
use crate::str_map::{text_less, StrMap};
use crate::text::texts;
use std::collections::BTreeMap;
use vstd::prelude::*;
use vstd::std_specs::cmp::OrdSpec;
use vstd::std_specs::iter::IteratorSpec;

verus! {

/// A breakpoint in the source. The debugger may place it in several places, or
/// on another line: `resolved` has the line for each id that it gave out.
#[derive(Debug)]
pub struct DebuggerBreakpoint {
    pub enabled: bool,
    pub resolved: StrMap<i64>,
}

/// What is known of a breakpoint.
#[verifier::ext_equal]
pub struct BreakpointView {
    pub enabled: bool,
    pub resolved: Map<Seq<char>, i64>,
}

/// The breakpoints of every file, by line.
pub type BreakpointsView = Map<Seq<char>, Map<i64, BreakpointView>>;

impl View for DebuggerBreakpoint {
    type V = BreakpointView;

    open spec fn view(&self) -> BreakpointView {
        BreakpointView { enabled: self.enabled, resolved: self.resolved@ }
    }
}

impl DebuggerBreakpoint {
    /// The ids are kept in order.
    pub open spec fn wf(self) -> bool {
        self.resolved.wf()
    }

    /// A breakpoint that no debugger knows of yet.
    pub fn new() -> (r: Self)
        ensures
            r.wf(),
            r@ == fresh(),
    {
        DebuggerBreakpoint { enabled: false, resolved: StrMap::new() }
    }
}

impl DebuggerBreakpoint {
    /// The same breakpoint once more.
    pub fn copy(&self) -> (r: Self)
        requires
            self.wf(),
        ensures
            r.wf(),
            r@ == self@,
    {
        let mut resolved: StrMap<i64> = StrMap::new();
        let mut i: usize = 0;
        while i < self.resolved.entries.len()
            invariant
                self.wf(),
                i <= self.resolved.entries@.len(),
                resolved.wf(),
                forall|k: Seq<char>| #[trigger]
                    resolved@.contains_key(k) == (self.resolved.has(k) && self.resolved.index(k)
                        < i),
                forall|k: Seq<char>| #[trigger]
                    resolved@.contains_key(k) ==> resolved@[k] == self.resolved@[k],
            decreases self.resolved.entries@.len() - i,
        {
            let ghost key = self.resolved.key(i as int);
            resolved.insert(self.resolved.entries[i].0.clone(), self.resolved.entries[i].1);
            proof {
                assert(self.resolved.holds_at(key, i as int));
                self.resolved.index_is_unique(key, i as int);
                assert forall|k: Seq<char>|
                    self.resolved.has(k) && k != key implies self.resolved.index(k) != i by {
                    assert(self.resolved.holds_at(k, self.resolved.index(k)));
                }
            }
            i = i + 1;
        }
        proof {
            assert forall|k: Seq<char>| self.resolved.has(k) implies self.resolved.index(k)
                < self.resolved.entries@.len() by {
                assert(self.resolved.holds_at(k, self.resolved.index(k)));
            }
            assert(resolved@ =~= self.resolved@);
        }
        DebuggerBreakpoint { enabled: self.enabled, resolved }
    }
}

/// The breakpoints of a file once more.
fn copy_lines(lines: &BTreeMap<i64, DebuggerBreakpoint>) -> (r: BTreeMap<i64, DebuggerBreakpoint>)
    requires
        lines_wf(*lines),
    ensures
        lines_wf(r),
        lines_view(r) == lines_view(*lines),
{
    let numbers = sorted_lines(lines);
    let mut r: BTreeMap<i64, DebuggerBreakpoint> = BTreeMap::new();
    let mut i: usize = 0;
    while i < numbers.len()
        invariant
            i <= numbers@.len(),
            increasing(numbers@),
            lines_wf(*lines),
            lines_wf(r),
            forall|line: i64| #[trigger] lines@.contains_key(line) <==> numbers@.contains(line),
            forall|line: i64| #[trigger]
                r@.contains_key(line) <==> numbers@.take(i as int).contains(line),
            forall|line: i64| #[trigger] r@.contains_key(line) ==> r@[line]@ == lines@[line]@,
        decreases numbers@.len() - i,
    {
        let line: i64 = numbers[i];
        assert(numbers@.contains(line));
        assert(lines@.contains_key(line));
        let ghost before = r;
        if let Some(breakpoint) = lines.get(&line) {
            r.insert(line, breakpoint.copy());
        }
        proof {
            assert(r@.dom() =~= before@.dom().insert(line));
            assert(numbers@.take(i + 1) == numbers@.take(i as int).push(line));
            assert forall|l: i64| #[trigger] r@.contains_key(l) <==> numbers@.take(
                i + 1,
            ).contains(l) by {
                let shorter = numbers@.take(i as int);
                let longer = numbers@.take(i + 1);
                if shorter.contains(l) {
                    let j = choose|j: int| 0 <= j < shorter.len() && shorter[j] == l;
                    assert(longer[j] == l);
                }
                if l == line {
                    assert(longer[i as int] == l);
                }
                if longer.contains(l) && l != line {
                    let j = choose|j: int| 0 <= j < longer.len() && longer[j] == l;
                    assert(shorter[j] == l);
                }
            }
        }
        i = i + 1;
    }
    assert(numbers@.take(i as int) == numbers@);
    assert(lines_view(r) =~= lines_view(*lines));
    r
}

/// A breakpoint that no debugger knows of yet.
pub open spec fn fresh() -> BreakpointView {
    BreakpointView { enabled: false, resolved: Map::empty() }
}

/// The breakpoints of `file`, none where the file is not known.
pub open spec fn lines_of(m: BreakpointsView, file: Seq<char>) -> Map<i64, BreakpointView> {
    if m.contains_key(file) {
        m[file]
    } else {
        Map::empty()
    }
}

/// Whether there is a breakpoint on that line.
pub open spec fn has_breakpoint(m: BreakpointsView, file: Seq<char>, line: i64) -> bool {
    m.contains_key(file) && m[file].contains_key(line)
}

/// Whether no breakpoint was put anywhere under that id.
pub open spec fn id_is_unknown(m: BreakpointsView, id: Seq<char>) -> bool {
    forall|file: Seq<char>, line: i64| #[trigger]
        has_breakpoint(m, file, line) ==> !m[file][line].resolved.contains_key(id)
}

/// Whether these are the files that are known, in order, each once.
pub open spec fn lists_files(m: BreakpointsView, files: Seq<Seq<char>>) -> bool {
    &&& forall|i: int, j: int|
        0 <= i < j < files.len() ==> text_less(#[trigger] files[i], #[trigger] files[j])
    &&& forall|f: Seq<char>| #[trigger] m.contains_key(f) <==> files.contains(f)
}

/// `m` with a fresh breakpoint on that line.
pub open spec fn with_pending(m: BreakpointsView, file: Seq<char>, line: i64) -> BreakpointsView {
    m.insert(file, lines_of(m, file).insert(line, fresh()))
}

/// `m` without the breakpoint on that line. The file stays known.
pub open spec fn without_breakpoint(
    m: BreakpointsView,
    file: Seq<char>,
    line: i64,
) -> BreakpointsView {
    m.insert(file, lines_of(m, file).remove(line))
}

/// `m` with the breakpoint on that line changed to `b`.
pub open spec fn with_breakpoint(
    m: BreakpointsView,
    file: Seq<char>,
    line: i64,
    b: BreakpointView,
) -> BreakpointsView {
    m.insert(file, lines_of(m, file).insert(line, b))
}

/// Why a breakpoint was not found.
#[derive(Debug)]
pub enum BreakpointError {
    NoFile(String),
    NoLine(String, i64),
}

/// What is missing, by its texts.
pub enum BreakpointFault {
    NoFile(Seq<char>),
    NoLine(Seq<char>, i64),
}

/// What is missing for a breakpoint on that line to exist: the file, or else the
/// line.
pub open spec fn missing(m: BreakpointsView, file: Seq<char>, line: i64) -> Option<
    BreakpointFault,
> {
    if !m.contains_key(file) {
        Some(BreakpointFault::NoFile(file))
    } else if !m[file].contains_key(line) {
        Some(BreakpointFault::NoLine(file, line))
    } else {
        None
    }
}

impl BreakpointError {
    /// The error as mathematics.
    pub open spec fn view(&self) -> BreakpointFault {
        match self {
            BreakpointError::NoFile(file) => BreakpointFault::NoFile(file@),
            BreakpointError::NoLine(file, line) => BreakpointFault::NoLine(file@, *line),
        }
    }

    /// The words for the error.
    pub open spec fn words(self) -> Seq<char> {
        match self {
            BreakpointError::NoFile(file) => "Can't find existing breakpoints for file "@ + file@,
            BreakpointError::NoLine(file, line) => "Can't find existing breakpoints for file "@
                + file@ + " and line "@ + decimal_int(line as int),
        }
    }

    /// The error in words.
    pub fn message(&self) -> (r: String)
        ensures
            r@ == self.words(),
    {
        let start = "Can't find existing breakpoints for file ".to_string();
        match self {
            BreakpointError::NoFile(file) => start.concat(file.as_str()),
            BreakpointError::NoLine(file, line) => {
                let number = signed_text(*line);
                start.concat(file.as_str()).concat(" and line ").concat(number.as_str())
            },
        }
    }
}

/// Whether `r` tells rightly what is missing: `Ok` where the breakpoint exists,
/// else whether the file or only the line is unknown.
pub open spec fn found(
    m: BreakpointsView,
    file: String,
    line: i64,
    r: Result<(), BreakpointError>,
) -> bool {
    match r {
        Ok(_) => has_breakpoint(m, file@, line),
        Err(BreakpointError::NoFile(f)) => !m.contains_key(file@) && f == file,
        Err(BreakpointError::NoLine(f, l)) => m.contains_key(file@) && !m[file@].contains_key(line)
            && f == file && l == line,
    }
}

/// The breakpoints of one file.
pub open spec fn lines_view(m: BTreeMap<i64, DebuggerBreakpoint>) -> Map<i64, BreakpointView> {
    m@.map_values(|b: DebuggerBreakpoint| b@)
}

/// Whether each breakpoint of a file keeps its ids in order.
pub open spec fn lines_wf(m: BTreeMap<i64, DebuggerBreakpoint>) -> bool {
    forall|line: i64| #[trigger] m@.contains_key(line) ==> m@[line].wf()
}

/// The breakpoints a user has placed.
#[derive(Debug)]
pub struct Breakpoints {
    files: StrMap<BTreeMap<i64, DebuggerBreakpoint>>,
}

impl View for Breakpoints {
    type V = BreakpointsView;

    closed spec fn view(&self) -> BreakpointsView {
        self.files@.map_values(|lines: BTreeMap<i64, DebuggerBreakpoint>| lines_view(lines))
    }
}

impl Breakpoints {
    /// The files, the lines and the ids are kept in order.
    pub closed spec fn wf(self) -> bool {
        self.files.wf() && forall|f: Seq<char>| #[trigger]
            self.files@.contains_key(f) ==> lines_wf(self.files@[f])
    }

    /// No breakpoints.
    pub fn new() -> (r: Self)
        ensures
            r.wf(),
            r@ == Map::<Seq<char>, Map<i64, BreakpointView>>::empty(),
    {
        let r = Breakpoints { files: StrMap::new() };
        assert(r@ =~= Map::<Seq<char>, Map<i64, BreakpointView>>::empty());
        r
    }

    /// The lines of `file`, taken out of the store.
    fn take_lines(&mut self, file: &str) -> (r: Option<BTreeMap<i64, DebuggerBreakpoint>>)
        requires
            old(self).wf(),
        ensures
            final(self).wf(),
            final(self)@ == old(self)@.remove(file@),
            match r {
                Some(lines) => old(self)@.contains_key(file@) && lines_wf(lines) && lines_view(
                    lines,
                ) == old(self)@[file@],
                None => !old(self)@.contains_key(file@) && final(self)@ == old(self)@,
            },
    {
        let ghost before = *self;
        let r = self.files.remove(file);
        assert(self@ =~= before@.remove(file@));
        if r.is_none() {
            assert(self@ =~= before@);
        }
        r
    }

    /// Puts the lines of `file` back into the store.
    fn put_lines(&mut self, file: String, lines: BTreeMap<i64, DebuggerBreakpoint>)
        requires
            old(self).wf(),
            lines_wf(lines),
        ensures
            final(self).wf(),
            final(self)@ == old(self)@.insert(file@, lines_view(lines)),
    {
        let ghost before = *self;
        self.files.insert(file, lines);
        assert(self@ =~= before@.insert(file@, lines_view(lines)));
    }

    /// Places a breakpoint that no debugger knows of yet, in place of any other
    /// on that line.
    pub fn add_pending_breakpoint(
        &mut self,
        source_file_path: String,
        source_line_number: i64,
    ) -> (r: Result<(), BreakpointError>)
        requires
            old(self).wf(),
        ensures
            r is Ok,
            final(self).wf(),
            final(self)@ == with_pending(old(self)@, source_file_path@, source_line_number),
            final(self)@ == after_call(
                old(self)@,
                StoreCall::Add(source_file_path@, source_line_number),
            ),
    {
        let ghost before = self@;
        let ghost file = source_file_path@;
        let mut lines = match self.take_lines(source_file_path.as_str()) {
            Some(lines) => lines,
            None => BTreeMap::new(),
        };
        assert(lines_view(lines) =~= lines_of(before, file));
        let ghost old_lines = lines;
        let fresh_one = DebuggerBreakpoint::new();
        lines.insert(source_line_number, fresh_one);
        assert(lines_view(lines) =~= lines_view(old_lines).insert(source_line_number, fresh()));
        self.put_lines(source_file_path, lines);
        assert(self@ =~= with_pending(before, file, source_line_number));
        Ok(())
    }

    /// Takes a breakpoint away. In a file that is known the line must have one.
    pub fn remove_breakpoint(
        &mut self,
        source_file_path: String,
        source_line_number: i64,
    ) -> (r: Result<(), BreakpointError>)
        requires
            old(self).wf(),
            old(self)@.contains_key(source_file_path@) ==> old(
                self,
            )@[source_file_path@].contains_key(source_line_number),
        ensures
            final(self).wf(),
            found(old(self)@, source_file_path, source_line_number, r),
            r is Ok ==> final(self)@ == without_breakpoint(
                old(self)@,
                source_file_path@,
                source_line_number,
            ),
            r is Err ==> final(self)@ == old(self)@,
            final(self)@ == after_call(
                old(self)@,
                StoreCall::Remove(source_file_path@, source_line_number),
            ),
    {
        let ghost before = self@;
        let ghost file = source_file_path@;
        match self.take_lines(source_file_path.as_str()) {
            Some(mut lines) => {
                let ghost old_lines = lines;
                let _ = lines.remove(&source_line_number);
                assert(lines_view(lines) =~= lines_view(old_lines).remove(source_line_number));
                self.put_lines(source_file_path, lines);
                assert(self@ =~= without_breakpoint(before, file, source_line_number));
                Ok(())
            },
            None => Err(BreakpointError::NoFile(source_file_path)),
        }
    }

    /// Changes the breakpoint on a line: sets whether it is enabled, and adds
    /// the place where the debugger put it.
    fn change(
        &mut self,
        file_path: String,
        source_line_number: i64,
        enabled: Option<bool>,
        resolved: Option<(String, i64)>,
    ) -> (r: Result<(), BreakpointError>)
        requires
            old(self).wf(),
        ensures
            final(self).wf(),
            found(old(self)@, file_path, source_line_number, r),
            r is Ok ==> final(self)@ == with_breakpoint(
                old(self)@,
                file_path@,
                source_line_number,
                changed(old(self)@[file_path@][source_line_number], enabled, resolved),
            ),
            r is Err ==> final(self)@ == old(self)@,
    {
        let ghost before = self@;
        let ghost file = file_path@;
        let mut lines = match self.take_lines(file_path.as_str()) {
            Some(lines) => lines,
            None => {
                return Err(BreakpointError::NoFile(file_path));
            },
        };
        let ghost old_lines = lines;
        match lines.remove(&source_line_number) {
            Some(mut breakpoint) => {
                let ghost old_breakpoint = breakpoint@;
                assert(old_breakpoint == before[file][source_line_number]);
                if let Some(value) = enabled {
                    breakpoint.enabled = value;
                }
                if let Some((id, line)) = resolved {
                    breakpoint.resolved.insert(id, line);
                }
                assert(breakpoint@ == changed(old_breakpoint, enabled, resolved));
                lines.insert(source_line_number, breakpoint);
                assert(lines_view(lines) =~= lines_view(old_lines).insert(
                    source_line_number,
                    breakpoint@,
                ));
                self.put_lines(file_path, lines);
                assert(self@ =~= with_breakpoint(
                    before,
                    file,
                    source_line_number,
                    changed(old_breakpoint, enabled, resolved),
                ));
                Ok(())
            },
            None => {
                assert(lines_view(lines) =~= lines_view(old_lines));
                self.put_lines(file_path.clone(), lines);
                assert(self@ =~= before);
                Err(BreakpointError::NoLine(file_path, source_line_number))
            },
        }
    }

    /// Notes that the debugger put the breakpoint on a line, under an id.
    pub fn set_breakpoint_resolved(
        &mut self,
        file_path: String,
        source_line_number: i64,
        actual_line_number: i64,
        id: String,
    ) -> (r: Result<(), BreakpointError>)
        requires
            old(self).wf(),
        ensures
            final(self).wf(),
            found(old(self)@, file_path, source_line_number, r),
            r is Ok ==> final(self)@ == with_breakpoint(
                old(self)@,
                file_path@,
                source_line_number,
                resolved_at(
                    old(self)@[file_path@][source_line_number],
                    id@,
                    actual_line_number,
                ),
            ),
            r is Err ==> final(self)@ == old(self)@,
            final(self)@ == after_call(
                old(self)@,
                StoreCall::Resolve(file_path@, source_line_number, id@, actual_line_number),
            ),
    {
        self.change(file_path, source_line_number, None, Some((id, actual_line_number)))
    }

    /// Notes that the breakpoint is enabled.
    pub fn set_breakpoint_enabled(&mut self, file_path: String, source_line_number: i64) -> (r:
        Result<(), BreakpointError>)
        requires
            old(self).wf(),
        ensures
            final(self).wf(),
            found(old(self)@, file_path, source_line_number, r),
            r is Ok ==> final(self)@ == with_breakpoint(
                old(self)@,
                file_path@,
                source_line_number,
                switched(old(self)@[file_path@][source_line_number], true),
            ),
            r is Err ==> final(self)@ == old(self)@,
            final(self)@ == after_call(
                old(self)@,
                StoreCall::Switch(file_path@, source_line_number, true),
            ),
    {
        self.change(file_path, source_line_number, Some(true), None)
    }

    /// Notes that the breakpoint is not enabled.
    pub fn set_breakpoint_disabled(&mut self, file_path: String, source_line_number: i64) -> (r:
        Result<(), BreakpointError>)
        requires
            old(self).wf(),
        ensures
            final(self).wf(),
            found(old(self)@, file_path, source_line_number, r),
            r is Ok ==> final(self)@ == with_breakpoint(
                old(self)@,
                file_path@,
                source_line_number,
                switched(old(self)@[file_path@][source_line_number], false),
            ),
            r is Err ==> final(self)@ == old(self)@,
            final(self)@ == after_call(
                old(self)@,
                StoreCall::Switch(file_path@, source_line_number, false),
            ),
    {
        self.change(file_path, source_line_number, Some(false), None)
    }

    /// The same breakpoints once more.
    pub fn copy(&self) -> (r: Self)
        requires
            self.wf(),
        ensures
            r.wf(),
            r@ == self@,
    {
        let mut r = Breakpoints::new();
        let mut i: usize = 0;
        while i < self.files.entries.len()
            invariant
                self.wf(),
                r.wf(),
                i <= self.files.entries@.len(),
                forall|k: Seq<char>| #[trigger]
                    r@.contains_key(k) == (self.files.has(k) && self.files.index(k) < i),
                forall|k: Seq<char>| #[trigger] r@.contains_key(k) ==> r@[k] == self@[k],
            decreases self.files.entries@.len() - i,
        {
            let ghost key = self.files.key(i as int);
            proof {
                assert(self.files.holds_at(key, i as int));
                self.files.index_is_unique(key, i as int);
                assert(self.files@.contains_key(key));
            }
            let lines = copy_lines(&self.files.entries[i].1);
            r.put_lines(self.files.entries[i].0.clone(), lines);
            proof {
                assert forall|k: Seq<char>| self.files.has(k) && k != key implies self.files.index(
                    k,
                ) != i by {
                    assert(self.files.holds_at(k, self.files.index(k)));
                }
            }
            i = i + 1;
        }
        proof {
            assert forall|k: Seq<char>| self.files.has(k) implies self.files.index(k)
                < self.files.entries@.len() by {
                assert(self.files.holds_at(k, self.files.index(k)));
            }
            assert(r@ =~= self@);
        }
        r
    }

    /// The files that are known, in order.
    pub fn get_all_files(&self) -> (r: Vec<String>)
        requires
            self.wf(),
        ensures
            lists_files(self@, texts(r@)),
    {
        let mut r: Vec<String> = Vec::new();
        let mut i: usize = 0;
        while i < self.files.entries.len()
            invariant
                self.wf(),
                i <= self.files.entries@.len(),
                r@.len() == i,
                forall|j: int| 0 <= j < i ==> #[trigger] r@[j]@ == self.files.key(j),
            decreases self.files.entries@.len() - i,
        {
            r.push(self.files.entries[i].0.clone());
            i = i + 1;
        }
        proof {
            assert forall|i: int, j: int| 0 <= i < j < r@.len() implies text_less(
                #[trigger] texts(r@)[i],
                #[trigger] texts(r@)[j],
            ) by {
                assert(text_less(self.files.key(i), self.files.key(j)));
            }
            assert forall|f: Seq<char>| #[trigger] self@.contains_key(f) <==> texts(r@).contains(
                f,
            ) by {
                if self.files.has(f) {
                    let j = self.files.index(f);
                    assert(self.files.holds_at(f, j));
                    assert(texts(r@)[j] == f);
                }
                if texts(r@).contains(f) {
                    let j = choose|j: int| 0 <= j < texts(r@).len() && texts(r@)[j] == f;
                    assert(self.files.holds_at(f, j));
                }
            }
        }
        r
    }

    /// A breakpoint that the debugger put somewhere under `id`: its file and line.
    pub fn get_breakpoint_for_id(&self, id: &i64) -> (r: Option<(String, i64)>)
        requires
            self.wf(),
        ensures
            match r {
                Some((file, line)) => has_breakpoint(self@, file@, line)
                    && self@[file@][line].resolved.contains_key(decimal_int(*id as int)),
                None => id_is_unknown(self@, decimal_int(*id as int)),
            },
    {
        let key = signed_text(*id);
        let mut i: usize = 0;
        while i < self.files.entries.len()
            invariant
                self.wf(),
                i <= self.files.entries@.len(),
                key@ == decimal_int(*id as int),
                forall|j: int, line: i64|
                    #![trigger has_breakpoint(self@, self.files.key(j), line)]
                    0 <= j < i && has_breakpoint(self@, self.files.key(j), line)
                        ==> !self@[self.files.key(j)][line].resolved.contains_key(key@),
            decreases self.files.entries@.len() - i,
        {
            let ghost file = self.files.key(i as int);
            proof {
                assert(self.files.holds_at(file, i as int));
                self.files.index_is_unique(file, i as int);
                assert(self.files@.contains_key(file));
                assert(self@[file] == lines_view(self.files.entries@[i as int].1));
            }
            if let Some(line) = line_for_id(&self.files.entries[i].1, key.as_str()) {
                return Some((self.files.entries[i].0.clone(), line));
            }
            i = i + 1;
        }
        proof {
            assert forall|file: Seq<char>, line: i64| #[trigger]
                has_breakpoint(self@, file, line) implies !self@[file][line].resolved.contains_key(
                decimal_int(*id as int),
            ) by {
                let j = self.files.index(file);
                assert(self.files.has(file));
                assert(self.files.holds_at(file, j));
                assert(has_breakpoint(self@, self.files.key(j), line));
            }
        }
        None
    }

    /// The breakpoints of a file, by line.
    pub fn get_all_breakpoint_line_numbers_for_file(&self, file_path: &str) -> (r: Result<
        &BTreeMap<i64, DebuggerBreakpoint>,
        BreakpointError,
    >)
        requires
            self.wf(),
        ensures
            match r {
                Ok(lines) => self@.contains_key(file_path@) && lines_wf(*lines) && lines_view(
                    *lines,
                ) == self@[file_path@],
                Err(BreakpointError::NoFile(f)) => !self@.contains_key(file_path@) && f@
                    == file_path@,
                Err(BreakpointError::NoLine(_, _)) => false,
            },
    {
        match self.files.get(file_path) {
            Some(lines) => Ok(lines),
            None => Err(BreakpointError::NoFile(file_path.to_string())),
        }
    }
}

/// The first line of a file whose breakpoint was put somewhere under `id`.
fn line_for_id(lines: &BTreeMap<i64, DebuggerBreakpoint>, id: &str) -> (r: Option<i64>)
    requires
        lines_wf(*lines),
    ensures
        match r {
            Some(line) => lines_view(*lines).contains_key(line) && lines_view(
                *lines,
            )[line].resolved.contains_key(id@),
            None => forall|line: i64| #[trigger]
                lines_view(*lines).contains_key(line) ==> !lines_view(
                    *lines,
                )[line].resolved.contains_key(id@),
        },
{
    let numbers = sorted_lines(lines);
    let mut i: usize = 0;
    while i < numbers.len()
        invariant
            i <= numbers@.len(),
            lines_wf(*lines),
            forall|line: i64| #[trigger] lines@.contains_key(line) <==> numbers@.contains(line),
            forall|j: int|
                0 <= j < i ==> !lines_view(*lines)[#[trigger] numbers@[j]].resolved.contains_key(
                    id@,
                ),
        decreases numbers@.len() - i,
    {
        let line: i64 = numbers[i];
        assert(numbers@.contains(line));
        assert(lines@.contains_key(line));
        if let Some(breakpoint) = lines.get(&line) {
            if breakpoint.resolved.get(id).is_some() {
                return Some(line);
            }
        }
        i = i + 1;
    }
    None
}

/// The lines of a file that have a breakpoint, in order.
pub fn sorted_lines(lines: &BTreeMap<i64, DebuggerBreakpoint>) -> (r: Vec<i64>)
    ensures
        increasing(r@),
        forall|line: i64| #[trigger] lines@.contains_key(line) <==> r@.contains(line),
        r@.to_set() == lines@.dom(),
{
    broadcast use {vstd::std_specs::btree::group_btree_axioms, vstd::laws_cmp::group_laws_cmp};

    let mut r: Vec<i64> = Vec::new();
    let all = lines.iter();
    let ghost pairs = all.remaining();
    let ghost keys = pairs.map_values(|kv: (&i64, &DebuggerBreakpoint)| *kv.0);
    for kv in it: all
        invariant
            it.seq() == pairs,
            keys == pairs.map_values(|kv: (&i64, &DebuggerBreakpoint)| *kv.0),
            r@ == keys.take(it.index()),
    {
        r.push(*kv.0);
    }
    proof {
        assert(r@ == keys);
        assert(vstd::std_specs::btree::increasing_seq(keys));
        assert forall|i: int, j: int| 0 <= i < j < keys.len() implies keys[i] < keys[j] by {
            assert(keys[i].cmp_spec(&keys[j]) is Less);
        }
        assert forall|line: i64| #[trigger] lines@.contains_key(line) <==> r@.contains(line) by {
            if lines@.contains_key(line) {
                let p = (&line, &lines@[line]);
                assert(pairs.contains(p));
                let i = choose|i: int| 0 <= i < pairs.len() && pairs[i] == p;
                assert(keys[i] == line);
            }
            if r@.contains(line) {
                let i = choose|i: int| 0 <= i < r@.len() && r@[i] == line;
                assert(lines@.contains_key(*pairs[i].0));
            }
        }
        assert(r@.to_set() =~= lines@.dom());
    }
    r
}

/// Whether the numbers increase.
pub open spec fn increasing(s: Seq<i64>) -> bool {
    forall|i: int, j: int| 0 <= i < j < s.len() ==> s[i] < s[j]
}

/// `b` with the places where the debugger put it and whether it is enabled.
pub open spec fn changed(
    b: BreakpointView,
    enabled: Option<bool>,
    resolved: Option<(String, i64)>,
) -> BreakpointView {
    let switched = match enabled {
        Some(value) => switched(b, value),
        None => b,
    };
    match resolved {
        Some((id, line)) => resolved_at(switched, id@, line),
        None => switched,
    }
}

/// `b` with one more place where the debugger put it.
pub open spec fn resolved_at(b: BreakpointView, id: Seq<char>, line: i64) -> BreakpointView {
    BreakpointView { resolved: b.resolved.insert(id, line), ..b }
}

/// `b` switched on or off.
pub open spec fn switched(b: BreakpointView, enabled: bool) -> BreakpointView {
    BreakpointView { enabled, ..b }
}

/// A call that may change the breakpoints.
pub enum StoreCall {
    Add(Seq<char>, i64),
    Remove(Seq<char>, i64),
    /// The debugger put the breakpoint on a line, under an id.
    Resolve(Seq<char>, i64, Seq<char>, i64),
    Switch(Seq<char>, i64, bool),
}

/// The breakpoints after a call. A call that finds nothing changes nothing.
pub open spec fn after_call(m: BreakpointsView, call: StoreCall) -> BreakpointsView {
    match call {
        StoreCall::Add(file, line) => with_pending(m, file, line),
        StoreCall::Remove(file, line) => if m.contains_key(file) {
            without_breakpoint(m, file, line)
        } else {
            m
        },
        StoreCall::Resolve(file, line, id, actual) => if has_breakpoint(m, file, line) {
            with_breakpoint(m, file, line, resolved_at(m[file][line], id, actual))
        } else {
            m
        },
        StoreCall::Switch(file, line, enabled) => if has_breakpoint(m, file, line) {
            with_breakpoint(m, file, line, switched(m[file][line], enabled))
        } else {
            m
        },
    }
}

/// The breakpoints after some calls, from none at the start.
pub open spec fn after_calls(calls: Seq<StoreCall>) -> BreakpointsView
    decreases calls.len(),
{
    if calls.len() == 0 {
        Map::empty()
    } else {
        after_call(after_calls(calls.drop_last()), calls.last())
    }
}

/// Whether some breakpoint was ever placed in a file.
pub open spec fn ever_added(calls: Seq<StoreCall>, file: Seq<char>) -> bool {
    exists|i: int| 0 <= i < calls.len() && adds_in(#[trigger] calls[i], file)
}

/// Whether a call places a breakpoint in a file.
pub open spec fn adds_in(call: StoreCall, file: Seq<char>) -> bool {
    call matches StoreCall::Add(f, _) && f == file
}

/// Whether a breakpoint was placed on a line and not taken away since.
pub open spec fn in_place(calls: Seq<StoreCall>, file: Seq<char>, line: i64) -> bool {
    exists|i: int|
        0 <= i < calls.len() && #[trigger] calls[i] == StoreCall::Add(file, line) && (forall|j: int|
            i < j < calls.len() ==> #[trigger] calls[j] != StoreCall::Remove(file, line))
}

proof fn one_call_more(calls: Seq<StoreCall>, file: Seq<char>, line: i64)
    requires
        calls.len() > 0,
    ensures
        ever_added(calls, file) == (ever_added(calls.drop_last(), file) || adds_in(
            calls.last(),
            file,
        )),
        in_place(calls, file, line) == (calls.last() == StoreCall::Add(file, line) || (in_place(
            calls.drop_last(),
            file,
            line,
        ) && calls.last() != StoreCall::Remove(file, line))),
{
    let fewer = calls.drop_last();
    let last = calls.len() - 1;
    if ever_added(fewer, file) {
        let i = choose|i: int| 0 <= i < fewer.len() && adds_in(#[trigger] fewer[i], file);
        assert(adds_in(calls[i], file));
    }
    if ever_added(calls, file) && !adds_in(calls.last(), file) {
        let i = choose|i: int| 0 <= i < calls.len() && adds_in(#[trigger] calls[i], file);
        assert(adds_in(fewer[i], file));
    }
    if adds_in(calls.last(), file) {
        assert(adds_in(calls[last], file));
    }
    if calls.last() == StoreCall::Add(file, line) {
        assert(calls[last] == StoreCall::Add(file, line));
    } else {
        if in_place(calls, file, line) {
            let i = choose|i: int|
                0 <= i < calls.len() && #[trigger] calls[i] == StoreCall::Add(file, line) && (
                forall|j: int|
                    i < j < calls.len() ==> #[trigger] calls[j] != StoreCall::Remove(file, line));
            assert(fewer[i] == calls[i]);
            assert(calls[last] != StoreCall::Remove(file, line));
            assert forall|j: int| i < j < fewer.len() implies #[trigger] fewer[j]
                != StoreCall::Remove(file, line) by {
                assert(fewer[j] == calls[j]);
            }
        }
        if in_place(fewer, file, line) && calls.last() != StoreCall::Remove(file, line) {
            let i = choose|i: int|
                0 <= i < fewer.len() && #[trigger] fewer[i] == StoreCall::Add(file, line) && (
                forall|j: int|
                    i < j < fewer.len() ==> #[trigger] fewer[j] != StoreCall::Remove(file, line));
            assert(calls[i] == fewer[i]);
            assert forall|j: int| i < j < calls.len() implies #[trigger] calls[j]
                != StoreCall::Remove(file, line) by {
                if j < last {
                    assert(calls[j] == fewer[j]);
                }
            }
        }
    }
}

/// After any calls the files that are known are those in which a breakpoint was
/// ever placed: no call takes a file out. Whatever lists the files that are known
/// lists those.
pub proof fn known_files(calls: Seq<StoreCall>, files: Seq<Seq<char>>, file: Seq<char>)
    ensures
        after_calls(calls).contains_key(file) == ever_added(calls, file),
        lists_files(after_calls(calls), files) ==> files.contains(file) == ever_added(calls, file),
    decreases calls.len(),
{
    if calls.len() > 0 {
        one_call_more(calls, file, 0);
        known_files(calls.drop_last(), files, file);
    }
}

/// After any calls a file has breakpoints on exactly the lines on which one was
/// placed and not taken away since. When none is left, the file is known still,
/// with no lines.
pub proof fn known_lines(calls: Seq<StoreCall>, file: Seq<char>)
    ensures
        forall|line: i64| #[trigger]
            has_breakpoint(after_calls(calls), file, line) == in_place(calls, file, line),
        ever_added(calls, file) && (forall|line: i64| !#[trigger] in_place(calls, file, line))
            ==> after_calls(calls).contains_key(file) && after_calls(calls)[file] == Map::<
            i64,
            BreakpointView,
        >::empty(),
{
    let m = after_calls(calls);
    assert forall|line: i64| #[trigger] has_breakpoint(m, file, line) == in_place(
        calls,
        file,
        line,
    ) by {
        known_line(calls, file, line);
    }
    known_files(calls, Seq::empty(), file);
    if ever_added(calls, file) && (forall|line: i64| !#[trigger] in_place(calls, file, line)) {
        assert forall|line: i64| !#[trigger] m[file].contains_key(line) by {
            assert(has_breakpoint(m, file, line) == in_place(calls, file, line));
        }
        assert(m[file] =~= Map::<i64, BreakpointView>::empty());
    }
}

proof fn known_line(calls: Seq<StoreCall>, file: Seq<char>, line: i64)
    ensures
        has_breakpoint(after_calls(calls), file, line) == in_place(calls, file, line),
    decreases calls.len(),
{
    if calls.len() > 0 {
        one_call_more(calls, file, line);
        known_line(calls.drop_last(), file, line);
    }
}

/// What is done to the breakpoints of one file leaves those of every other as
/// they were.
pub proof fn other_files_stay(
    m: BreakpointsView,
    file: Seq<char>,
    line: i64,
    b: BreakpointView,
    other: Seq<char>,
)
    requires
        other != file,
    ensures
        lines_of(with_pending(m, file, line), other) == lines_of(m, other),
        lines_of(without_breakpoint(m, file, line), other) == lines_of(m, other),
        lines_of(with_breakpoint(m, file, line, b), other) == lines_of(m, other),
{
}

/// Taking away a breakpoint that was just placed on a free line of a known file
/// gives the breakpoints as they were.
pub proof fn remove_undoes_add(m: BreakpointsView, file: Seq<char>, line: i64)
    requires
        m.contains_key(file),
        !m[file].contains_key(line),
    ensures
        without_breakpoint(with_pending(m, file, line), file, line) == m,
{
    let after = without_breakpoint(with_pending(m, file, line), file, line);
    assert(after[file] =~= m[file]);
    assert(after =~= m);
}

/// Placing a breakpoint anew forgets whether it was enabled and where the
/// debugger had put it.
pub proof fn add_forgets(m: BreakpointsView, file: Seq<char>, line: i64, b: BreakpointView)
    ensures
        with_pending(with_breakpoint(m, file, line, b), file, line) == with_pending(m, file, line),
{
    let after = with_pending(with_breakpoint(m, file, line, b), file, line);
    assert(after[file] =~= with_pending(m, file, line)[file]);
    assert(after =~= with_pending(m, file, line));
}

/// Switching a breakpoint off after switching it on leaves only that it is off,
/// and neither changes where the debugger put it.
pub proof fn switching_keeps_places(b: BreakpointView, enabled: bool)
    ensures
        switched(switched(b, !enabled), enabled) == switched(b, enabled),
        switched(b, enabled).resolved == b.resolved,
{
}

/// A breakpoint that the debugger reported under an id is found by that id, as
/// long as no other breakpoint has it.
pub proof fn resolved_is_found_by_id(
    m: BreakpointsView,
    file: Seq<char>,
    line: i64,
    id: Seq<char>,
    actual: i64,
    found_file: Seq<char>,
    found_line: i64,
)
    requires
        has_breakpoint(m, file, line),
        forall|f: Seq<char>, l: i64| #[trigger]
            has_breakpoint(m, f, l) ==> !m[f][l].resolved.contains_key(id),
        ({
            let after = with_breakpoint(m, file, line, resolved_at(m[file][line], id, actual));
            has_breakpoint(after, found_file, found_line)
                && after[found_file][found_line].resolved.contains_key(id)
        }),
    ensures
        found_file == file,
        found_line == line,
{
    if found_file != file {
        assert(has_breakpoint(m, found_file, found_line));
    } else if found_line != line {
        assert(has_breakpoint(m, found_file, found_line));
    }
}

/// Whether the breakpoints are the same before and after, but possibly for the one on
/// that line of that file.
pub open spec fn others_stay(
    before: BreakpointsView,
    after: BreakpointsView,
    file: Seq<char>,
    line: i64,
) -> bool {
    forall|f: Seq<char>, l: i64|
        #![trigger after[f].contains_key(l)]
        #![trigger before[f].contains_key(l)]
        f != file || l != line ==> (after.contains_key(f) && after[f].contains_key(l)) == (
        before.contains_key(f) && before[f].contains_key(l)) && (before.contains_key(f)
            && before[f].contains_key(l) ==> after[f][l] == before[f][l])
}

/// Placing a breakpoint puts one there that is not enabled and was put nowhere yet,
/// whatever was there before. No other breakpoint changes.
pub proof fn placed_breakpoint_is_fresh(
    before: Breakpoints,
    file: String,
    line: i64,
    after: Breakpoints,
    r: Result<(), BreakpointError>,
)
    requires
        exists|b: &mut Breakpoints|
            *b == before && *final(b) == after && #[trigger] call_ensures(
                Breakpoints::add_pending_breakpoint,
                (b, file, line),
                r,
            ),
    ensures
        r is Ok,
        after@.contains_key(file@),
        after@[file@].contains_key(line),
        !after@[file@][line].enabled,
        forall|id: Seq<char>| !#[trigger] after@[file@][line].resolved.contains_key(id),
        others_stay(before@, after@, file@, line),
        forall|f: Seq<char>|
            f != file@ ==> #[trigger] after@.contains_key(f) == before@.contains_key(f),
{
}

/// Taking a breakpoint away takes that one away and no other. The file stays known.
pub proof fn removed_breakpoint_is_gone(
    before: Breakpoints,
    file: String,
    line: i64,
    after: Breakpoints,
    r: Result<(), BreakpointError>,
)
    requires
        exists|b: &mut Breakpoints|
            *b == before && *final(b) == after && #[trigger] call_ensures(
                Breakpoints::remove_breakpoint,
                (b, file, line),
                r,
            ),
        before@.contains_key(file@) ==> before@[file@].contains_key(line),
    ensures
        r is Ok == before@.contains_key(file@),
        !(after@.contains_key(file@) && after@[file@].contains_key(line)),
        others_stay(before@, after@, file@, line),
        forall|f: Seq<char>| #[trigger] after@.contains_key(f) == before@.contains_key(f),
{
}

/// A breakpoint that was put on a line under an id is there under that id. Its other
/// ids stay, and so does whether it is enabled. No other breakpoint changes, and a
/// breakpoint that does not exist is not made up.
pub proof fn resolved_breakpoint_has_the_place(
    before: Breakpoints,
    file: String,
    line: i64,
    actual: i64,
    id: String,
    after: Breakpoints,
    r: Result<(), BreakpointError>,
)
    requires
        exists|b: &mut Breakpoints|
            *b == before && *final(b) == after && #[trigger] call_ensures(
                Breakpoints::set_breakpoint_resolved,
                (b, file, line, actual, id),
                r,
            ),
    ensures
        r is Ok == (before@.contains_key(file@) && before@[file@].contains_key(line)),
        r is Err ==> after@ == before@,
        r is Ok ==> {
            let was = before@[file@][line];
            let is = after@[file@][line];
            &&& after@.contains_key(file@) && after@[file@].contains_key(line)
            &&& is.enabled == was.enabled
            &&& is.resolved.contains_key(id@) && is.resolved[id@] == actual
            &&& forall|other: Seq<char>|
                other != id@ ==> #[trigger] is.resolved.contains_key(other)
                    == was.resolved.contains_key(other) && (was.resolved.contains_key(other)
                    ==> is.resolved[other] == was.resolved[other])
        },
        others_stay(before@, after@, file@, line),
        forall|f: Seq<char>| #[trigger] after@.contains_key(f) == before@.contains_key(f),
{
}

/// Switching a breakpoint on or off changes only that, and only of that breakpoint. A
/// breakpoint that does not exist is not made up.
pub proof fn switched_breakpoint_is_switched(
    before: Breakpoints,
    file: String,
    line: i64,
    on: bool,
    after: Breakpoints,
    r: Result<(), BreakpointError>,
)
    requires
        exists|b: &mut Breakpoints|
            *b == before && *final(b) == after && if on {
                #[trigger] call_ensures(
                    Breakpoints::set_breakpoint_enabled,
                    (b, file, line),
                    r,
                )
            } else {
                call_ensures(Breakpoints::set_breakpoint_disabled, (b, file, line), r)
            },
    ensures
        r is Ok == (before@.contains_key(file@) && before@[file@].contains_key(line)),
        r is Err ==> after@ == before@,
        r is Ok ==> {
            &&& after@.contains_key(file@) && after@[file@].contains_key(line)
            &&& after@[file@][line].enabled == on
            &&& after@[file@][line].resolved == before@[file@][line].resolved
        },
        others_stay(before@, after@, file@, line),
        forall|f: Seq<char>| #[trigger] after@.contains_key(f) == before@.contains_key(f),
{
}

/// What is missing is told rightly: the file, or the line in it.
pub proof fn missing_breakpoint_is_told(
    before: Breakpoints,
    file: String,
    line: i64,
    r: Result<(), BreakpointError>,
)
    requires
        exists|b: &mut Breakpoints|
            *b == before && #[trigger] call_ensures(
                Breakpoints::set_breakpoint_enabled,
                (b, file, line),
                r,
            ),
    ensures
        !before@.contains_key(file@) ==> r == Err::<(), BreakpointError>(
            BreakpointError::NoFile(file),
        ),
        before@.contains_key(file@) && !before@[file@].contains_key(line) ==> r == Err::<
            (),
            BreakpointError,
        >(BreakpointError::NoLine(file, line)),
{
}

/// After a breakpoint was put somewhere under a new id, the id leads back to it, and to
/// no other.
pub proof fn id_leads_to_its_breakpoint(
    before: Breakpoints,
    file: String,
    line: i64,
    actual: i64,
    number: i64,
    id: String,
    after: Breakpoints,
    held: &Breakpoints,
    found: Option<(String, i64)>,
)
    requires
        *held == after,
        id@ == decimal_int(number as int),
        before@.contains_key(file@) && before@[file@].contains_key(line),
        forall|f: Seq<char>, l: i64|
            #![trigger before@[f].contains_key(l)]
            before@.contains_key(f) && before@[f].contains_key(l)
                ==> !before@[f][l].resolved.contains_key(id@),
        exists|b: &mut Breakpoints|
            *b == before && *final(b) == after && #[trigger] call_ensures(
                Breakpoints::set_breakpoint_resolved,
                (b, file, line, actual, id),
                Ok(()),
            ),
        call_ensures(Breakpoints::get_breakpoint_for_id, (held, &number), found),
    ensures
        found matches Some((f, l)) && f@ == file@ && l == line,
{
    assert(has_breakpoint(after@, file@, line));
    if let Some((f, l)) = found {
        assert(before@[f@].contains_key(l) || !before@[f@].contains_key(l));
    }
}

/// The files are listed once each, in the order of their names, and all of them.
pub proof fn all_files_are_listed(held: &Breakpoints, r: Vec<String>)
    requires
        call_ensures(Breakpoints::get_all_files, (held,), r),
    ensures
        forall|i: int, j: int|
            0 <= i < j < r@.len() ==> text_less((#[trigger] r@[i])@, (#[trigger] r@[j])@),
        forall|i: int| 0 <= i < r@.len() ==> held@.contains_key((#[trigger] r@[i])@),
        forall|f: Seq<char>| #[trigger]
            held@.contains_key(f) ==> exists|i: int| 0 <= i < r@.len() && (#[trigger] r@[i])@ == f,
{
    let names = texts(r@);
    assert forall|i: int, j: int| 0 <= i < j < r@.len() implies text_less(
        (#[trigger] r@[i])@,
        (#[trigger] r@[j])@,
    ) by {
        assert(text_less(names[i], names[j]));
    }
    assert forall|i: int| 0 <= i < r@.len() implies held@.contains_key((#[trigger] r@[i])@) by {
        assert(names[i] == r@[i]@);
        assert(names.contains(names[i]));
    }
    assert forall|f: Seq<char>| #[trigger] held@.contains_key(f) implies exists|i: int|
        0 <= i < r@.len() && (#[trigger] r@[i])@ == f by {
        let i = choose|i: int| 0 <= i < names.len() && names[i] == f;
        assert(r@[i]@ == f);
    }
}

/// The lines of a file are listed once each, in increasing order, and all of them.
pub proof fn all_lines_are_listed(lines: &BTreeMap<i64, DebuggerBreakpoint>, r: Vec<i64>)
    requires
        call_ensures(sorted_lines, (lines,), r),
    ensures
        forall|i: int, j: int| 0 <= i < j < r@.len() ==> #[trigger] r@[i] < #[trigger] r@[j],
        forall|line: i64| #[trigger] r@.contains(line) <==> lines@.contains_key(line),
{
    assert forall|line: i64| #[trigger] r@.contains(line) <==> lines@.contains_key(line) by {
        assert(r@.to_set().contains(line) <==> lines@.dom().contains(line));
    }
}

/// There are finitely many breakpoints, put in finitely many places, and the files can be
/// put in order.
pub proof fn finitely_many(b: Breakpoints) -> (files: Seq<Seq<char>>)
    requires
        b.wf(),
    ensures
        lists_files(b@, files),
        forall|f: Seq<char>| #[trigger] b@.contains_key(f) ==> b@[f].dom().finite(),
        forall|f: Seq<char>, l: i64| #[trigger]
            has_breakpoint(b@, f, l) ==> b@[f][l].resolved.values().finite(),
{
    let files = b.files.keys();
    assert forall|f: Seq<char>| #[trigger] b@.contains_key(f) implies b@[f].dom().finite() by {
        vstd::std_specs::btree::axiom_btree_map_view_finite_dom(b.files@[f]);
        assert(b@[f].dom() =~= b.files@[f]@.dom());
    }
    assert forall|f: Seq<char>, l: i64| #[trigger] has_breakpoint(
        b@,
        f,
        l,
    ) implies b@[f][l].resolved.values().finite() by {
        crate::str_map::finitely_many_keys(b.files@[f]@[l].resolved);
    }
    assert forall|i: int, j: int| 0 <= i < j < files.len() implies text_less(
        #[trigger] files[i],
        #[trigger] files[j],
    ) by {
        assert(text_less(b.files.key(i), b.files.key(j)));
    }
    assert forall|f: Seq<char>| #[trigger] b@.contains_key(f) <==> files.contains(f) by {
        if b.files.has(f) {
            let i = b.files.index(f);
            assert(b.files.holds_at(f, i));
            assert(files[i] == f);
        }
        if files.contains(f) {
            let i = choose|i: int| 0 <= i < files.len() && files[i] == f;
            assert(b.files.holds_at(f, i));
        }
    }
    files
}

} // verus!
