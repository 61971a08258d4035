//! Text as sequences of characters: searching, splitting, joining and the
//! decimal notation of integers.

use vstd::prelude::*;

verus! {

/// `String::push` appends one character at the end.
pub assume_specification[ String::push ](text: &mut String, c: char)
    ensures
        final(text)@ == old(text)@.push(c),
;

/// The characters of `text`, in order.
pub fn chars_of(text: &str) -> (chars: Vec<char>)
    ensures
        chars@ == text@,
{
    let mut chars: Vec<char> = Vec::new();
    for c in it: text.chars()
        invariant
            chars@ == it.seq().take(it.index()),
            it.seq() == text@,
    {
        chars.push(c);
    }
    chars
}

/// The text made of the characters from `from` up to `to`.
pub fn string_of(chars: &Vec<char>, from: usize, to: usize) -> (text: String)
    requires
        from <= to <= chars@.len(),
    ensures
        text@ == chars@.subrange(from as int, to as int),
{
    let mut text = String::new();
    let mut i: usize = from;
    while i < to
        invariant
            from <= i <= to <= chars@.len(),
            text@ == chars@.subrange(from as int, i as int),
        decreases to - i,
    {
        text.push(chars[i]);
        i = i + 1;
        assert(chars@.subrange(from as int, i as int) == chars@.subrange(from as int, i - 1).push(chars@[i - 1]));
    }
    text
}

/// A text as `{:?}` shows it: in double quotes, with escapes.
pub uninterp spec fn debug_quoted(s: Seq<char>) -> Seq<char>;

/// `format!` with `{:?}` shows a text in double quotes, with escapes, which
/// depends on the text alone.
#[verifier::external_body]
pub(crate) fn debug_text(s: &str) -> (r: String)
    ensures
        r@ == debug_quoted(s@),
{
    format!("{:?}", s)
}

/// Whether two texts have the same characters.
pub fn same(a: &str, b: &str) -> (r: bool)
    ensures
        r == (a@ == b@),
{
    a.to_string() == b.to_string()
}

/// A text that may be missing.
pub open spec fn text_if_any(t: Option<String>) -> Option<Seq<char>> {
    match t {
        Some(s) => Some(s@),
        None => None,
    }
}

/// The texts of a list, as sequences of characters.
pub open spec fn texts(list: Seq<String>) -> Seq<Seq<char>> {
    list.map_values(|s: String| s@)
}

/// Whether `part` stands in `s` at position `at`.
pub open spec fn stands_at(s: Seq<char>, part: Seq<char>, at: int) -> bool {
    0 <= at && at + part.len() <= s.len() && s.subrange(at, at + part.len()) == part
}

/// Whether `part` stands anywhere in `s`.
pub open spec fn contains_text(s: Seq<char>, part: Seq<char>) -> bool {
    exists|at: int| stands_at(s, part, at)
}

/// The first position from `from` on at which `part` stands in `s`.
pub open spec fn find(s: Seq<char>, part: Seq<char>, from: int) -> Option<int>
    decreases s.len() - from + 1,
{
    if from < 0 || from + part.len() > s.len() {
        None
    } else if stands_at(s, part, from) {
        Some(from)
    } else {
        find(s, part, from + 1)
    }
}

/// The last position up to `from` at which `part` stands in `s`.
pub open spec fn find_last(s: Seq<char>, part: Seq<char>, from: int) -> Option<int>
    decreases from + 1,
{
    if from < 0 {
        None
    } else if stands_at(s, part, from) {
        Some(from)
    } else {
        find_last(s, part, from - 1)
    }
}

/// What `find` gives is the leftmost place, and it gives one where there is one.
pub proof fn find_is_leftmost(s: Seq<char>, part: Seq<char>, from: int)
    requires
        0 <= from,
    ensures
        match find(s, part, from) {
            Some(at) => from <= at && stands_at(s, part, at) && (forall|j: int|
                from <= j < at ==> !#[trigger] stands_at(s, part, j)),
            None => forall|j: int| from <= j ==> !#[trigger] stands_at(s, part, j),
        },
    decreases s.len() - from + 1,
{
    if from + part.len() <= s.len() && !stands_at(s, part, from) {
        find_is_leftmost(s, part, from + 1);
    }
}

/// Whether `part` stands in `chars` at `at`.
pub fn part_at(chars: &Vec<char>, part: &Vec<char>, at: usize) -> (r: bool)
    ensures
        r == stands_at(chars@, part@, at as int),
{
    if part.len() > chars.len() || at > chars.len() - part.len() {
        return false;
    }
    let mut i: usize = 0;
    while i < part.len()
        invariant
            i <= part@.len(),
            at + part@.len() <= chars.len(),
            forall|j: int| 0 <= j < i ==> chars@[at + j] == part@[j],
        decreases part@.len() - i,
    {
        if chars[at + i] != part[i] {
            assert(chars@.subrange(at as int, at + part@.len())[i as int] != part@[i as int]);
            return false;
        }
        i = i + 1;
    }
    assert(chars@.subrange(at as int, at + part@.len()) == part@);
    true
}

/// The first position from `from` on at which `part` stands in `chars`.
pub fn position(chars: &Vec<char>, part: &Vec<char>, from: usize) -> (r: Option<usize>)
    requires
        from <= chars@.len(),
    ensures
        match r {
            Some(at) => find(chars@, part@, from as int) == Some(at as int),
            None => find(chars@, part@, from as int) is None,
        },
{
    let mut at: usize = from;
    while at < chars.len()
        invariant
            from <= at <= chars@.len(),
            find(chars@, part@, from as int) == find(chars@, part@, at as int),
        decreases chars@.len() - at,
    {
        if part.len() > chars.len() - at {
            return None;
        }
        if part_at(chars, part, at) {
            return Some(at);
        }
        at = at + 1;
    }
    if part.len() == 0 {
        assert(chars@.subrange(at as int, at as int) == part@);
        Some(at)
    } else {
        None
    }
}

/// The parts of `s` from `start` on, between the places where `separator` stands.
pub open spec fn split_from(s: Seq<char>, separator: Seq<char>, start: int) -> Seq<Seq<char>>
    decreases s.len() - start + 1,
{
    match find(s, separator, start) {
        Some(at) => if separator.len() > 0 && start <= at && at + separator.len() <= s.len() {
            seq![s.subrange(start, at)] + split_from(s, separator, at + separator.len())
        } else {
            seq![s.subrange(start, s.len() as int)]
        },
        None => seq![s.subrange(start, s.len() as int)],
    }
}

/// The parts of `s` between the places where `separator` stands, from the left.
pub open spec fn split(s: Seq<char>, separator: Seq<char>) -> Seq<Seq<char>> {
    split_from(s, separator, 0)
}

/// The parts put one after the other, with `separator` between two of them.
pub open spec fn join(parts: Seq<Seq<char>>, separator: Seq<char>) -> Seq<char>
    decreases parts.len(),
{
    if parts.len() == 0 {
        Seq::empty()
    } else if parts.len() == 1 {
        parts[0]
    } else {
        join(parts.drop_last(), separator) + separator + parts.last()
    }
}

/// `parts` with `separator` between them, read from the front.
proof fn join_from_front(parts: Seq<Seq<char>>, separator: Seq<char>)
    requires
        parts.len() >= 2,
    ensures
        join(parts, separator) == parts[0] + separator + join(parts.skip(1), separator),
    decreases parts.len(),
{
    if parts.len() == 2 {
        assert(parts.drop_last()[0] == parts[0]);
        assert(join(parts.drop_last(), separator) == parts[0]);
        assert(parts.skip(1)[0] == parts[1]);
        assert(join(parts.skip(1), separator) == parts[1]);
    } else {
        join_from_front(parts.drop_last(), separator);
        assert(parts.drop_last().skip(1) == parts.skip(1).drop_last());
        assert(parts.skip(1).last() == parts.last());
        assert(parts[0] + separator + join(parts.drop_last().skip(1), separator) + separator
            + parts.last() == parts[0] + separator + (join(parts.skip(1).drop_last(), separator)
            + separator + parts.last()));
    }
}

/// Splitting loses nothing: the parts, joined with the separator, are the text.
pub proof fn split_then_join(s: Seq<char>, separator: Seq<char>, start: int)
    requires
        separator.len() > 0,
        0 <= start <= s.len(),
    ensures
        split_from(s, separator, start).len() > 0,
        join(split_from(s, separator, start), separator) == s.subrange(start, s.len() as int),
    decreases s.len() - start,
{
    find_is_leftmost(s, separator, start);
    match find(s, separator, start) {
        Some(at) => {
            let next = at + separator.len();
            let rest = split_from(s, separator, next);
            split_then_join(s, separator, next);
            let parts = split_from(s, separator, start);
            assert(parts == seq![s.subrange(start, at)] + rest);
            join_from_front(parts, separator);
            assert(parts.skip(1) == rest);
            assert(s.subrange(start, at) + separator + s.subrange(next, s.len() as int)
                == s.subrange(start, s.len() as int)) by {
                assert(s.subrange(at, next) == separator);
            }
        },
        None => {},
    }
}

/// No part of a split text holds the separator.
pub proof fn split_parts_are_free_of_separator(s: Seq<char>, separator: Seq<char>, start: int)
    requires
        separator.len() > 0,
        0 <= start <= s.len(),
    ensures
        forall|i: int|
            0 <= i < split_from(s, separator, start).len() ==> !contains_text(
                #[trigger] split_from(s, separator, start)[i],
                separator,
            ),
    decreases s.len() - start,
{
    find_is_leftmost(s, separator, start);
    let parts = split_from(s, separator, start);
    let end = match find(s, separator, start) {
        Some(at) => at,
        None => s.len() as int,
    };
    assert(parts[0] == s.subrange(start, end));
    assert forall|j: int| !stands_at(parts[0], separator, j) by {
        if stands_at(parts[0], separator, j) {
            assert(s.subrange(start + j, start + j + separator.len()) == parts[0].subrange(
                j,
                j + separator.len(),
            ));
            assert(stands_at(s, separator, start + j));
        }
    }
    if let Some(at) = find(s, separator, start) {
        let next = at + separator.len();
        split_parts_are_free_of_separator(s, separator, next);
        let rest = split_from(s, separator, next);
        assert(parts == seq![s.subrange(start, at)] + rest);
        assert forall|i: int| 0 <= i < parts.len() implies !contains_text(
            #[trigger] parts[i],
            separator,
        ) by {
            if i > 0 {
                assert(parts[i] == rest[i - 1]);
            }
        }
    }
}

/// The parts of `text` between the places where `separator` stands.
pub fn split_text(text: &str, separator: &str) -> (parts: Vec<String>)
    requires
        separator@.len() > 0,
    ensures
        texts(parts@) == split(text@, separator@),
        parts@.len() > 0,
{
    let chars = chars_of(text);
    let sep = chars_of(separator);
    let mut parts: Vec<String> = Vec::new();
    let mut start: usize = 0;
    loop
        invariant
            chars@ == text@,
            sep@ == separator@,
            sep@.len() > 0,
            start <= chars.len(),
            split(text@, separator@) == texts(parts@) + split_from(chars@, sep@, start as int),
        decreases chars@.len() - start,
    {
        proof {
            find_is_leftmost(chars@, sep@, start as int);
        }
        let ghost before = texts(parts@);
        match position(&chars, &sep, start) {
            Some(at) => {
                parts.push(string_of(&chars, start, at));
                assert(texts(parts@) == before + seq![chars@.subrange(start as int, at as int)]);
                start = at + sep.len();
            },
            None => {
                let end: usize = chars.len();
                parts.push(string_of(&chars, start, end));
                assert(texts(parts@) == before + seq![chars@.subrange(start as int, end as int)]);
                return parts;
            },
        }
    }
}

/// The texts put one after the other, with `separator` between two of them.
pub fn join_texts(parts: &Vec<String>, separator: &str) -> (text: String)
    ensures
        text@ == join(texts(parts@), separator@),
{
    let mut text = String::new();
    let mut i: usize = 0;
    while i < parts.len()
        invariant
            i <= parts@.len(),
            text@ == join(texts(parts@).take(i as int), separator@),
        decreases parts@.len() - i,
    {
        if i > 0 {
            text.append(separator);
        }
        text.append(parts[i].as_str());
        i = i + 1;
        assert(texts(parts@).take(i as int).drop_last() == texts(parts@).take(i - 1));
    }
    assert(texts(parts@).take(i as int) == texts(parts@));
    text
}

/// Whether `text` starts with `prefix`.
pub fn has_prefix(text: &str, prefix: &str) -> (r: bool)
    ensures
        r == prefix@.is_prefix_of(text@),
{
    let chars = chars_of(text);
    let part = chars_of(prefix);
    let r = part_at(&chars, &part, 0);
    assert(r == prefix@.is_prefix_of(text@));
    r
}

/// Whether `text` ends with `suffix`.
pub fn has_suffix(text: &str, suffix: &str) -> (r: bool)
    ensures
        r == suffix@.is_suffix_of(text@),
{
    let chars = chars_of(text);
    let part = chars_of(suffix);
    if part.len() > chars.len() {
        return false;
    }
    let r = part_at(&chars, &part, chars.len() - part.len());
    assert(r == suffix@.is_suffix_of(text@));
    r
}

/// Whether `part` stands anywhere in `text`.
pub fn has_part(text: &str, part: &str) -> (r: bool)
    ensures
        r == contains_text(text@, part@),
{
    let chars = chars_of(text);
    let wanted = chars_of(part);
    proof {
        find_is_leftmost(text@, part@, 0);
    }
    position(&chars, &wanted, 0).is_some()
}

/// The text after its first `count` characters.
pub fn without_first(text: &str, count: usize) -> (r: String)
    requires
        count <= text@.len(),
    ensures
        r@ == text@.skip(count as int),
{
    let chars = chars_of(text);
    let r = string_of(&chars, count, chars.len());
    assert(chars@.subrange(count as int, chars@.len() as int) == text@.skip(count as int));
    r
}

/// `text` without its characters `c`.
pub fn without_char(text: &str, c: char) -> (r: String)
    ensures
        r@ == text@.filter(|x: char| x != c),
{
    let chars = chars_of(text);
    let mut r = String::new();
    let mut i: usize = 0;
    while i < chars.len()
        invariant
            i <= chars@.len(),
            chars@ == text@,
            r@ == chars@.take(i as int).filter(|x: char| x != c),
        decreases chars@.len() - i,
    {
        proof {
            let next = chars@.take(i + 1);
            assert(next.drop_last() == chars@.take(i as int));
            reveal(Seq::filter);
        }
        if chars[i] != c {
            r.push(chars[i]);
        }
        i = i + 1;
    }
    assert(chars@.take(i as int) == chars@);
    r
}

/// A character, and for a capital ASCII letter the small one.
pub open spec fn ascii_lower(c: char) -> char {
    if 'A' <= c <= 'Z' {
        (c as u32 + 32) as char
    } else {
        c
    }
}

/// A text with small ASCII letters.
pub open spec fn ascii_lowered(s: Seq<char>) -> Seq<char> {
    s.map_values(|c: char| ascii_lower(c))
}

/// A character, and for a small ASCII letter the capital one.
pub open spec fn ascii_upper(c: char) -> char {
    if 'a' <= c <= 'z' {
        (c as u32 - 32) as char
    } else {
        c
    }
}

/// A text with capital ASCII letters.
pub open spec fn ascii_uppered(s: Seq<char>) -> Seq<char> {
    s.map_values(|c: char| ascii_upper(c))
}

/// The text with capital ASCII letters.
pub fn to_ascii_uppercase(text: &str) -> (r: String)
    ensures
        r@ == ascii_uppered(text@),
{
    let chars = chars_of(text);
    let mut r = String::new();
    let mut i: usize = 0;
    while i < chars.len()
        invariant
            i <= chars@.len(),
            chars@ == text@,
            r@ == ascii_uppered(chars@.take(i as int)),
        decreases chars@.len() - i,
    {
        let c = chars[i];
        let up: char = if 'a' <= c && c <= 'z' {
            (c as u8 - 32) as char
        } else {
            c
        };
        assert(up == ascii_upper(c));
        r.push(up);
        i = i + 1;
        assert(ascii_uppered(chars@.take(i as int)) =~= ascii_uppered(chars@.take(i - 1)).push(up));
    }
    assert(chars@.take(i as int) =~= chars@);
    r
}

/// The lower case of a text that is not all ASCII.
pub uninterp spec fn wide_lowercase(s: Seq<char>) -> Seq<char>;

/// The lower case of a text.
pub open spec fn lowercased(s: Seq<char>) -> Seq<char> {
    if vstd::utf8::is_ascii_chars(s) {
        ascii_lowered(s)
    } else {
        wide_lowercase(s)
    }
}

/// `str::to_lowercase` gives the lower case of a text by the rules of Unicode,
/// which depends on the text alone. Of ASCII characters they change only the
/// capital letters, each into the small one.
pub assume_specification[ str::to_lowercase ](s: &str) -> (r: String)
    ensures
        vstd::utf8::is_ascii_chars(s@) ==> r@ == ascii_lowered(s@),
        !vstd::utf8::is_ascii_chars(s@) ==> r@ == wide_lowercase(s@),
;

/// What follows the last place where `separator` stands in `s`, and the whole
/// of `s` where it stands nowhere.
pub open spec fn after_last(s: Seq<char>, separator: Seq<char>) -> Seq<char> {
    match find_last(s, separator, s.len() as int) {
        Some(at) => s.skip(at + separator.len()),
        None => s,
    }
}

/// The last position at which `part` stands in `chars`.
pub fn last_position(chars: &Vec<char>, part: &Vec<char>) -> (r: Option<usize>)
    ensures
        match r {
            Some(at) => find_last(chars@, part@, chars@.len() as int) == Some(at as int) && at
                + part@.len() <= chars@.len(),
            None => find_last(chars@, part@, chars@.len() as int) is None,
        },
{
    let mut at: usize = chars.len();
    loop
        invariant
            at <= chars@.len(),
            find_last(chars@, part@, chars@.len() as int) == find_last(chars@, part@, at as int),
        decreases at,
    {
        if part_at(chars, part, at) {
            return Some(at);
        }
        if at == 0 {
            assert(find_last(chars@, part@, -1) is None);
            return None;
        }
        at = at - 1;
    }
}

/// What follows the last place where `separator` stands in `text`.
pub fn text_after_last(text: &str, separator: &str) -> (r: String)
    ensures
        r@ == after_last(text@, separator@),
{
    let chars = chars_of(text);
    let part = chars_of(separator);
    match last_position(&chars, &part) {
        Some(at) => {
            let end: usize = chars.len();
            let start: usize = at + part.len();
            let r = string_of(&chars, start, end);
            assert(r@ =~= text@.skip(at + separator@.len()));
            r
        },
        None => text.to_string(),
    }
}

/// A list of texts as `{:?}` shows it.
pub open spec fn debug_listed(list: Seq<Seq<char>>) -> Seq<char> {
    "["@ + join(list.map_values(|s: Seq<char>| debug_quoted(s)), ", "@) + "]"@
}

/// A list of texts as `{:?}` shows it.
pub(crate) fn debug_list(list: &Vec<String>) -> (r: String)
    ensures
        r@ == debug_listed(texts(list@)),
{
    let ghost f = |s: Seq<char>| debug_quoted(s);
    let mut parts: Vec<String> = Vec::new();
    let mut i: usize = 0;
    assert(texts(parts@) =~= texts(list@).take(0).map_values(f));
    while i < list.len()
        invariant
            i <= list@.len(),
            f == (|s: Seq<char>| debug_quoted(s)),
            texts(parts@) == texts(list@).take(i as int).map_values(f),
        decreases list@.len() - i,
    {
        let ghost before = texts(parts@);
        parts.push(debug_text(list[i].as_str()));
        assert(texts(parts@) =~= before.push(f(list@[i as int]@)));
        assert(texts(list@).take(i + 1).map_values(f) =~= texts(list@).take(i as int).map_values(
            f,
        ).push(f(list@[i as int]@)));
        i = i + 1;
    }
    assert(texts(list@).take(i as int) =~= texts(list@));
    let inner = join_texts(&parts, ", ");
    "[".to_string().concat(inner.as_str()).concat("]")
}

/// A text with one separator in it is split into what stands before it and what stands
/// behind it.
pub proof fn split_in_two(head: Seq<char>, tail: Seq<char>, c: char)
    requires
        !head.contains(c),
        !tail.contains(c),
    ensures
        split(head + seq![c] + tail, seq![c]) == seq![head, tail],
{
    let separator = seq![c];
    let s = head + separator + tail;
    find_is_leftmost(s, separator, 0);
    assert(s.subrange(head.len() as int, (head.len() + 1) as int) =~= separator);
    assert(stands_at(s, separator, head.len() as int));
    assert forall|j: int| 0 <= j < head.len() implies !#[trigger] stands_at(s, separator, j) by {
        if stands_at(s, separator, j) {
            assert(s.subrange(j, j + 1)[0] == c);
            assert(head[j] == c);
        }
    }
    let next: int = head.len() as int + 1;
    find_is_leftmost(s, separator, next);
    assert forall|j: int| next <= j implies !#[trigger] stands_at(s, separator, j) by {
        if stands_at(s, separator, j) {
            assert(s.subrange(j, j + 1)[0] == c);
            assert(tail[j - next] == c);
        }
    }
    assert(s.subrange(0, head.len() as int) =~= head);
    assert(s.subrange(next, s.len() as int) =~= tail);
    assert(split_from(s, separator, next) =~= seq![tail]);
    assert(seq![head] + seq![tail] =~= seq![head, tail]);
}

/// Joining one text more puts the separator and that text behind what was joined, and
/// one text alone is joined to itself.
pub proof fn joining_one_more(
    parts: &Vec<String>,
    more: &Vec<String>,
    last: String,
    separator: &str,
    r: String,
    longer: String,
)
    requires
        more@ == parts@.push(last),
        call_ensures(join_texts, (parts, separator), r),
        call_ensures(join_texts, (more, separator), longer),
    ensures
        parts@.len() == 0 ==> r@.len() == 0 && longer@ == last@,
        parts@.len() > 0 ==> longer@ == r@ + separator@ + last@,
{
    assert(texts(more@) =~= texts(parts@).push(last@));
    assert(texts(more@).drop_last() =~= texts(parts@));
}

/// Splitting a text and joining the parts gives the text back, and no part holds the
/// separator: nothing is lost, and nothing is left to split.
pub proof fn splitting_loses_nothing(
    text: &str,
    separator: &str,
    parts: Vec<String>,
    held: &Vec<String>,
    joined: String,
)
    requires
        separator@.len() > 0,
        call_ensures(split_text, (text, separator), parts),
        *held == parts,
        call_ensures(join_texts, (held, separator), joined),
    ensures
        parts@.len() > 0,
        joined@ == text@,
        forall|i: int, at: int|
            #![trigger parts@[i]@.subrange(at, at + separator@.len())]
            0 <= i < parts@.len() && 0 <= at && at + separator@.len() <= parts@[i]@.len()
                ==> parts@[i]@.subrange(at, at + separator@.len()) != separator@,
{
    split_then_join(text@, separator@, 0);
    split_parts_are_free_of_separator(text@, separator@, 0);
    assert(text@.subrange(0, text@.len() as int) =~= text@);
    assert(texts(parts@).len() == parts@.len());
    assert forall|i: int, at: int|
        #![trigger parts@[i]@.subrange(at, at + separator@.len())]
        0 <= i < parts@.len() && 0 <= at && at + separator@.len() <= parts@[i]@.len()
        implies parts@[i]@.subrange(at, at + separator@.len()) != separator@ by {
        assert(texts(parts@)[i] == parts@[i]@);
        assert(!contains_text(split_from(text@, separator@, 0)[i], separator@));
        if parts@[i]@.subrange(at, at + separator@.len()) == separator@ {
            assert(stands_at(parts@[i]@, separator@, at));
        }
    }
}

/// A part stands in a text exactly where the text can be cut in three with the part in the
/// middle.
pub proof fn part_is_found(text: &str, part: &str, before: Seq<char>, after: Seq<char>, r: bool)
    requires
        call_ensures(has_part, (text, part), r),
    ensures
        text@ == before + part@ + after ==> r,
        r ==> exists|at: int|
            0 <= at && at + part@.len() <= text@.len() && #[trigger] text@.subrange(
                at,
                at + part@.len(),
            ) == part@,
{
    if text@ == before + part@ + after {
        let at = before.len() as int;
        assert(text@.subrange(at, at + part@.len()) =~= part@);
        assert(stands_at(text@, part@, at));
    }
    if r {
        let at = choose|at: int| stands_at(text@, part@, at);
        assert(text@.subrange(at, at + part@.len()) == part@);
    }
}

/// The first position from somewhere on is one at which the part stands, and none before it
/// is; where it stands nowhere, there is none.
pub proof fn first_position_is_first(
    chars: &Vec<char>,
    part: &Vec<char>,
    from: usize,
    r: Option<usize>,
)
    requires
        from <= chars@.len(),
        call_ensures(position, (chars, part, from), r),
    ensures
        match r {
            Some(at) => {
                &&& from <= at && at + part@.len() <= chars@.len()
                &&& chars@.subrange(at as int, at + part@.len()) == part@
                &&& forall|j: int|
                    from <= j < at && j + part@.len() <= chars@.len() ==> #[trigger] chars@.subrange(
                        j,
                        j + part@.len(),
                    ) != part@
            },
            None => forall|j: int|
                from <= j && j + part@.len() <= chars@.len() ==> #[trigger] chars@.subrange(
                    j,
                    j + part@.len(),
                ) != part@,
        },
{
    find_is_leftmost(chars@, part@, from as int);
    assert forall|j: int|
        from <= j && j + part@.len() <= chars@.len() && !stands_at(
            chars@,
            part@,
            j,
        ) implies #[trigger] chars@.subrange(j, j + part@.len()) != part@ by {}
}

proof fn find_last_is_rightmost(s: Seq<char>, part: Seq<char>, from: int)
    ensures
        match find_last(s, part, from) {
            Some(at) => 0 <= at <= from && stands_at(s, part, at) && (forall|j: int|
                at < j <= from ==> !#[trigger] stands_at(s, part, j)),
            None => forall|j: int| 0 <= j <= from ==> !#[trigger] stands_at(s, part, j),
        },
    decreases from + 1,
{
    if from >= 0 && !stands_at(s, part, from) {
        find_last_is_rightmost(s, part, from - 1);
    }
}

/// What follows the last separator is the end of the text: what stands before it ends in
/// the separator, and it holds none itself. A text without a separator is all of it.
pub proof fn end_after_the_last_separator(text: &str, separator: &str, r: String)
    requires
        separator@.len() > 0,
        call_ensures(text_after_last, (text, separator), r),
    ensures
        r@.is_suffix_of(text@),
        r@.len() == text@.len() || separator@.is_suffix_of(
            text@.take(text@.len() - r@.len()),
        ),
        forall|j: int|
            0 <= j && j + separator@.len() <= r@.len() ==> #[trigger] r@.subrange(
                j,
                j + separator@.len(),
            ) != separator@,
{
    let s = text@;
    let n = separator@.len();
    find_last_is_rightmost(s, separator@, s.len() as int);
    match find_last(s, separator@, s.len() as int) {
        Some(at) => {
            assert(r@ =~= s.skip(at + n));
            assert(r@ =~= s.subrange(s.len() - r@.len(), s.len() as int));
            let front = s.take(s.len() - r@.len());
            assert(front.subrange(front.len() - n, front.len() as int) =~= s.subrange(at, at + n));
            assert forall|j: int| 0 <= j && j + n <= r@.len() implies #[trigger] r@.subrange(
                j,
                j + n,
            ) != separator@ by {
                assert(r@.subrange(j, j + n) =~= s.subrange(at + n + j, at + n + j + n));
                assert(!stands_at(s, separator@, at + n + j));
            }
        },
        None => {
            assert(r@ =~= s.subrange(0, s.len() as int));
            assert forall|j: int| 0 <= j && j + n <= r@.len() implies #[trigger] r@.subrange(
                j,
                j + n,
            ) != separator@ by {
                assert(!stands_at(s, separator@, j));
            }
        },
    }
}

/// Small ASCII letters become the capital ones, and every other character stays, each in
/// its place.
pub proof fn capitals_letter_by_letter(text: &str, r: String)
    requires
        call_ensures(to_ascii_uppercase, (text,), r),
    ensures
        r@.len() == text@.len(),
        forall|i: int|
            #![trigger r@[i]]
            0 <= i < text@.len() ==> if 'a' <= text@[i] <= 'z' {
                r@[i] as u32 + 32 == text@[i] as u32
            } else {
                r@[i] == text@[i]
            },
{
}

/// What is cut off the front of a text and what is left make up the text, and a text that
/// begins or ends with another is known by it.
pub proof fn front_and_rest_make_the_text(
    front: Seq<char>,
    back: Seq<char>,
    text: &str,
    part: &str,
    count: usize,
    r: String,
    begins: bool,
    ends: bool,
)
    requires
        text@ == front + back,
        count == front.len(),
        call_ensures(without_first, (text, count), r),
        call_ensures(has_prefix, (text, part), begins),
        call_ensures(has_suffix, (text, part), ends),
    ensures
        r@ == back,
        part@ == front ==> begins,
        part@ == back ==> ends,
        part@.len() == front.len() ==> begins == (part@ == front),
        part@.len() == back.len() ==> ends == (part@ == back),
{
    assert(text@.skip(count as int) =~= back);
    assert(text@.take(count as int) =~= front);
}

/// Taking a character out of a text takes out each of it and nothing else: what was cut in
/// two stays in order.
pub proof fn character_is_taken_out(
    a: &str,
    b: &str,
    whole: &str,
    c: char,
    r: String,
    s: String,
    both: String,
)
    requires
        whole@ == a@ + b@,
        call_ensures(without_char, (a, c), r),
        call_ensures(without_char, (b, c), s),
        call_ensures(without_char, (whole, c), both),
    ensures
        both@ == r@ + s@,
        a@.len() == 0 ==> r@.len() == 0,
        a@.len() == 1 ==> r@ == if a@[0] == c {
            Seq::empty()
        } else {
            a@
        },
{
    let f = |x: char| x != c;
    Seq::filter_distributes_over_add(a@, b@, f);
    reveal(Seq::filter);
    if a@.len() == 1 {
        assert(a@.drop_last() =~= Seq::empty());
        assert(a@ =~= seq![a@[0]]);
        assert(a@.drop_last().filter(f) =~= Seq::empty());
    }
}

} // verus!
