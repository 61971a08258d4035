//! Characters by class, and the trimming and splitting that goes by them.

use crate::text::{chars_of, string_of, texts};
use vstd::prelude::*;

verus! {

/// Whether a character is whitespace: it has the Unicode property `White_Space`.
/// Those are the five controls from the tab to the carriage return, the space, the
/// next line, and the spaces and separators beyond ASCII.
pub open spec fn is_white_space(c: char) -> bool {
    let n = c as u32;
    ||| 0x9 <= n <= 0xD
    ||| n == 0x20
    ||| n == 0x85
    ||| n == 0xA0
    ||| n == 0x1680
    ||| 0x2000 <= n <= 0x200A
    ||| n == 0x2028
    ||| n == 0x2029
    ||| n == 0x202F
    ||| n == 0x205F
    ||| n == 0x3000
}

/// `char::is_whitespace` tells whether a character has the Unicode property
/// `White_Space`.
pub assume_specification[ char::is_whitespace ](c: char) -> (r: bool)
    ensures
        r == is_white_space(c),
;

/// Whether Unicode counts a character beyond ASCII among the numbers.
pub uninterp spec fn wide_number(c: char) -> bool;

/// Whether a character counts among the numbers: of the ASCII characters the
/// ten digits. The circles that mark breakpoints are symbols.
pub open spec fn is_number(c: char) -> bool {
    if (c as u32) < 128 {
        '0' <= c <= '9'
    } else {
        c != '⬤' && c != '○' && wide_number(c)
    }
}

/// `char::is_numeric` tells whether a character is in one of the three Unicode
/// categories for numbers. Of the ASCII characters those are the ten digits.
/// The two circles are in the category for other symbols.
pub assume_specification[ char::is_numeric ](c: char) -> (r: bool)
    ensures
        (c as u32) < 128 ==> r == ('0' <= c <= '9'),
        (c as u32) >= 128 ==> r == (c != '⬤' && c != '○' && wide_number(c)),
;

/// `s` without the whitespace at its end.
pub open spec fn trimmed_end(s: Seq<char>) -> Seq<char>
    decreases s.len(),
{
    if s.len() > 0 && is_white_space(s.last()) {
        trimmed_end(s.drop_last())
    } else {
        s
    }
}

/// `s` without the whitespace at its start.
pub open spec fn trimmed_start(s: Seq<char>) -> Seq<char>
    decreases s.len(),
{
    if s.len() > 0 && is_white_space(s[0]) {
        trimmed_start(s.skip(1))
    } else {
        s
    }
}

/// `s` without the whitespace at both its ends.
pub open spec fn trimmed(s: Seq<char>) -> Seq<char> {
    trimmed_end(trimmed_start(s))
}

/// `text` without the whitespace at its end.
pub fn trim_end(text: &str) -> (r: String)
    ensures
        r@ == trimmed_end(text@),
{
    let chars = chars_of(text);
    let mut end: usize = chars.len();
    assert(chars@.take(end as int) == text@);
    while end > 0
        invariant
            end <= chars@.len(),
            chars@ == text@,
            trimmed_end(text@) == trimmed_end(chars@.take(end as int)),
        ensures
            end == 0 || !is_white_space(chars@[end - 1]),
        decreases end,
    {
        if !chars[end - 1].is_whitespace() {
            break;
        }
        assert(chars@.take(end as int).drop_last() == chars@.take(end - 1));
        end = end - 1;
    }
    assert(chars@.subrange(0, end as int) == chars@.take(end as int));
    string_of(&chars, 0, end)
}

/// `text` without the whitespace at its start.
pub fn trim_start(text: &str) -> (r: String)
    ensures
        r@ == trimmed_start(text@),
{
    let chars = chars_of(text);
    let mut start: usize = 0;
    assert(chars@.skip(0) == text@);
    while start < chars.len()
        invariant
            start <= chars@.len(),
            chars@ == text@,
            trimmed_start(text@) == trimmed_start(chars@.skip(start as int)),
        ensures
            start == chars@.len() || !is_white_space(chars@[start as int]),
        decreases chars@.len() - start,
    {
        if !chars[start].is_whitespace() {
            break;
        }
        assert(chars@.skip(start as int).skip(1) == chars@.skip(start + 1));
        start = start + 1;
    }
    let end: usize = chars.len();
    assert(chars@.subrange(start as int, end as int) == chars@.skip(start as int));
    string_of(&chars, start, end)
}

/// `text` without the whitespace at both its ends.
pub fn trim(text: &str) -> (r: String)
    ensures
        r@ == trimmed(text@),
{
    let rest = trim_start(text);
    trim_end(rest.as_str())
}

/// How many of the first characters of `s` are not whitespace.
pub open spec fn word_length(s: Seq<char>) -> nat
    decreases s.len(),
{
    if s.len() > 0 && !is_white_space(s[0]) {
        1 + word_length(s.skip(1))
    } else {
        0
    }
}

/// A word is at most as long as the text it starts.
pub proof fn word_length_bound(s: Seq<char>)
    ensures
        word_length(s) <= s.len(),
        s.len() > 0 && !is_white_space(s[0]) ==> word_length(s) > 0,
    decreases s.len(),
{
    if s.len() > 0 && !is_white_space(s[0]) {
        word_length_bound(s.skip(1));
    }
}

/// The words of `s`: its longest stretches without whitespace, in order.
pub open spec fn words(s: Seq<char>) -> Seq<Seq<char>>
    decreases s.len(),
{
    if s.len() == 0 {
        Seq::empty()
    } else if is_white_space(s[0]) {
        words(s.skip(1))
    } else {
        let n = word_length(s) as int;
        if 0 < n <= s.len() {
            seq![s.take(n)] + words(s.skip(n))
        } else {
            Seq::empty()
        }
    }
}

/// The words of `text`, in order.
pub fn split_whitespace(text: &str) -> (parts: Vec<String>)
    ensures
        texts(parts@) == words(text@),
{
    let chars = chars_of(text);
    let mut parts: Vec<String> = Vec::new();
    let mut start: usize = 0;
    assert(chars@.skip(0) == text@);
    while start < chars.len()
        invariant
            start <= chars@.len(),
            chars@ == text@,
            words(text@) == texts(parts@) + words(chars@.skip(start as int)),
        decreases chars@.len() - start,
    {
        let ghost rest = chars@.skip(start as int);
        if chars[start].is_whitespace() {
            assert(rest.skip(1) == chars@.skip(start + 1));
            start = start + 1;
        } else {
            proof {
                word_length_bound(rest);
            }
            let mut end: usize = start + 1;
            proof {
                word_length_bound(rest.skip(1));
                assert(rest.skip(1) == chars@.skip(end as int));
            }
            while end < chars.len()
                invariant
                    start < end <= chars@.len(),
                    rest == chars@.skip(start as int),
                    word_length(rest) == end - start + word_length(chars@.skip(end as int)),
                ensures
                    start < end <= chars@.len(),
                    word_length(rest) == end - start,
                decreases chars@.len() - end,
            {
                if chars[end].is_whitespace() {
                    break;
                }
                assert(chars@.skip(end as int).skip(1) == chars@.skip(end + 1));
                end = end + 1;
            }
            let ghost before = texts(parts@);
            parts.push(string_of(&chars, start, end));
            proof {
                let n = end - start;
                assert(chars@.subrange(start as int, end as int) == rest.take(n));
                assert(texts(parts@) == before + seq![rest.take(n)]);
                assert(rest.skip(n) == chars@.skip(end as int));
                assert(words(rest) == seq![rest.take(n)] + words(rest.skip(n)));
                assert(before + (seq![rest.take(n)] + words(rest.skip(n))) == texts(parts@)
                    + words(chars@.skip(end as int)));
            }
            start = end;
        }
    }
    assert(texts(parts@) + words(chars@.skip(start as int)) == texts(parts@));
    parts
}

proof fn trimmed_end_cuts(s: Seq<char>)
    ensures
        trimmed_end(s).len() <= s.len(),
        trimmed_end(s) == s.take(trimmed_end(s).len() as int),
        forall|i: int| trimmed_end(s).len() <= i < s.len() ==> is_white_space(#[trigger] s[i]),
        trimmed_end(s).len() > 0 ==> !is_white_space(trimmed_end(s).last()),
    decreases s.len(),
{
    if s.len() > 0 && is_white_space(s.last()) {
        let t = s.drop_last();
        trimmed_end_cuts(t);
        assert(t.take(trimmed_end(t).len() as int) =~= s.take(trimmed_end(t).len() as int));
        assert forall|i: int| trimmed_end(s).len() <= i < s.len() implies is_white_space(
            #[trigger] s[i],
        ) by {
            if i < t.len() {
                assert(t[i] == s[i]);
            }
        }
    } else {
        assert(s.take(s.len() as int) =~= s);
    }
}

proof fn trimmed_start_cuts(s: Seq<char>)
    ensures
        trimmed_start(s).len() <= s.len(),
        trimmed_start(s) == s.skip(s.len() - trimmed_start(s).len()),
        forall|i: int|
            0 <= i < s.len() - trimmed_start(s).len() ==> is_white_space(#[trigger] s[i]),
        trimmed_start(s).len() > 0 ==> !is_white_space(trimmed_start(s)[0]),
    decreases s.len(),
{
    if s.len() > 0 && is_white_space(s[0]) {
        let t = s.skip(1);
        trimmed_start_cuts(t);
        let n = trimmed_start(t).len();
        assert(t.skip(t.len() - n) =~= s.skip(s.len() - n));
        assert forall|i: int| 0 <= i < s.len() - n implies is_white_space(#[trigger] s[i]) by {
            if i > 0 {
                assert(t[i - 1] == s[i]);
            }
        }
    } else {
        assert(s.skip(0) =~= s);
    }
}

/// Trimming cuts off white space only, all of it at that end, and nothing else.
pub proof fn only_white_space_is_cut_off(text: &str, end: String, start: String, both: String)
    requires
        call_ensures(trim_end, (text,), end),
        call_ensures(trim_start, (text,), start),
        call_ensures(trim, (text,), both),
    ensures
        end@.is_prefix_of(text@),
        forall|i: int| end@.len() <= i < text@.len() ==> is_white_space(#[trigger] text@[i]),
        end@.len() > 0 ==> !is_white_space(end@.last()),
        start@.is_suffix_of(text@),
        forall|i: int|
            0 <= i < text@.len() - start@.len() ==> is_white_space(#[trigger] text@[i]),
        start@.len() > 0 ==> !is_white_space(start@[0]),
        both@.is_prefix_of(start@),
        forall|i: int| both@.len() <= i < start@.len() ==> is_white_space(#[trigger] start@[i]),
        both@.len() > 0 ==> !is_white_space(both@[0]) && !is_white_space(both@.last()),
{
    trimmed_end_cuts(text@);
    trimmed_start_cuts(text@);
    trimmed_end_cuts(start@);
    assert(end@ =~= text@.subrange(0, end@.len() as int));
    assert(start@ =~= text@.subrange(text@.len() - start@.len(), text@.len() as int));
    assert(both@ =~= start@.subrange(0, both@.len() as int));
}

proof fn word_length_is_word(s: Seq<char>)
    ensures
        word_length(s) <= s.len(),
        forall|i: int| 0 <= i < word_length(s) ==> !is_white_space(#[trigger] s[i]),
        word_length(s) < s.len() ==> is_white_space(s[word_length(s) as int]),
    decreases s.len(),
{
    if s.len() > 0 && !is_white_space(s[0]) {
        let t = s.skip(1);
        word_length_is_word(t);
        assert forall|i: int| 0 <= i < word_length(s) implies !is_white_space(#[trigger] s[i]) by {
            if i > 0 {
                assert(t[i - 1] == s[i]);
            }
        }
        if word_length(s) < s.len() {
            assert(t[word_length(t) as int] == s[word_length(s) as int]);
        }
    }
}

/// Whether each of the words stands in the text from its start on, one behind the other,
/// with white space before the first, between two of them, and behind the last.
pub open spec fn words_stand(s: Seq<char>, parts: Seq<Seq<char>>, starts: Seq<int>) -> bool {
    &&& starts.len() == parts.len()
    &&& forall|k: int|
        #![trigger parts[k]]
        0 <= k < parts.len() ==> {
            &&& parts[k].len() > 0
            &&& 0 <= starts[k]
            &&& starts[k] + parts[k].len() <= s.len()
            &&& s.subrange(starts[k], starts[k] + parts[k].len()) == parts[k]
            &&& forall|i: int|
                starts[k] <= i < starts[k] + parts[k].len() ==> !is_white_space(#[trigger] s[i])
            &&& k + 1 < parts.len() ==> starts[k] + parts[k].len() < starts[k + 1]
        }
    &&& forall|i: int|
        #![trigger s[i]]
        0 <= i < s.len() && !is_white_space(s[i]) ==> exists|k: int|
            0 <= k < parts.len() && starts[k] <= i < starts[k] + (#[trigger] parts[k]).len()
}

proof fn words_stand_in(s: Seq<char>) -> (starts: Seq<int>)
    ensures
        words_stand(s, words(s), starts),
    decreases s.len(),
{
    if s.len() == 0 {
        Seq::empty()
    } else if is_white_space(s[0]) {
        let t = s.skip(1);
        let before = words_stand_in(t);
        let starts = before.map_values(|i: int| i + 1);
        let parts = words(s);
        assert forall|k: int|
            #![trigger parts[k]]
            0 <= k < parts.len() implies {
            &&& parts[k].len() > 0
            &&& 0 <= starts[k]
            &&& starts[k] + parts[k].len() <= s.len()
            &&& s.subrange(starts[k], starts[k] + parts[k].len()) == parts[k]
            &&& forall|i: int|
                starts[k] <= i < starts[k] + parts[k].len() ==> !is_white_space(#[trigger] s[i])
            &&& k + 1 < parts.len() ==> starts[k] + parts[k].len() < starts[k + 1]
        } by {
            assert(s.subrange(starts[k], starts[k] + parts[k].len()) =~= t.subrange(
                before[k],
                before[k] + parts[k].len(),
            ));
            assert forall|i: int| starts[k] <= i < starts[k] + parts[k].len() implies
                !is_white_space(#[trigger] s[i]) by {
                assert(t[i - 1] == s[i]);
            }
        }
        assert forall|i: int|
            #![trigger s[i]]
            0 <= i < s.len() && !is_white_space(s[i]) implies exists|k: int|
            0 <= k < parts.len() && starts[k] <= i < starts[k] + (#[trigger] parts[k]).len() by {
            assert(t[i - 1] == s[i]);
            let k = choose|k: int|
                0 <= k < parts.len() && before[k] <= i - 1 < before[k] + (
                #[trigger] parts[k]).len();
            assert(starts[k] == before[k] + 1);
        }
        starts
    } else {
        word_length_is_word(s);
        word_length_bound(s);
        let n = word_length(s) as int;
        let t = s.skip(n);
        let before = words_stand_in(t);
        let rest = words(t);
        let parts = words(s);
        let starts = seq![0] + before.map_values(|i: int| i + n);
        assert(parts == seq![s.take(n)] + rest);
        assert forall|k: int|
            #![trigger parts[k]]
            0 <= k < parts.len() implies {
            &&& parts[k].len() > 0
            &&& 0 <= starts[k]
            &&& starts[k] + parts[k].len() <= s.len()
            &&& s.subrange(starts[k], starts[k] + parts[k].len()) == parts[k]
            &&& forall|i: int|
                starts[k] <= i < starts[k] + parts[k].len() ==> !is_white_space(#[trigger] s[i])
            &&& k + 1 < parts.len() ==> starts[k] + parts[k].len() < starts[k + 1]
        } by {
            if k == 0 {
                assert(s.subrange(0, n) =~= s.take(n));
                if parts.len() > 1 {
                    assert(parts[1] == rest[0]);
                    assert(starts[1] == before[0] + n);
                    if before[0] == 0 {
                        assert(t[0] == s[n]);
                        assert(!is_white_space(t[0]));
                    }
                }
            } else {
                assert(parts[k] == rest[k - 1]);
                assert(starts[k] == before[k - 1] + n);
                assert(s.subrange(starts[k], starts[k] + parts[k].len()) =~= t.subrange(
                    before[k - 1],
                    before[k - 1] + parts[k].len(),
                ));
                assert forall|i: int| starts[k] <= i < starts[k] + parts[k].len() implies
                    !is_white_space(#[trigger] s[i]) by {
                    assert(t[i - n] == s[i]);
                }
                if k + 1 < parts.len() {
                    assert(parts[k + 1] == rest[k]);
                    assert(starts[k + 1] == before[k] + n);
                }
            }
        }
        assert forall|i: int|
            #![trigger s[i]]
            0 <= i < s.len() && !is_white_space(s[i]) implies exists|k: int|
            0 <= k < parts.len() && starts[k] <= i < starts[k] + (#[trigger] parts[k]).len() by {
            if i < n {
                assert(parts[0].len() == n);
            } else {
                assert(t[i - n] == s[i]);
                let k = choose|k: int|
                    0 <= k < rest.len() && before[k] <= i - n < before[k] + (
                    #[trigger] rest[k]).len();
                assert(parts[k + 1] == rest[k]);
                assert(starts[k + 1] == before[k] + n);
            }
        }
        starts
    }
}

/// A text is split into its words: the stretches without white space, all of them, in
/// order, each as long as it goes.
pub proof fn every_word_is_there(text: &str, r: Vec<String>)
    requires
        call_ensures(split_whitespace, (text,), r),
    ensures
        exists|starts: Seq<int>| #[trigger] words_stand(text@, texts(r@), starts),
{
    let starts = words_stand_in(text@);
    assert(words_stand(text@, texts(r@), starts));
}

} // verus!
