//! The signs for breakpoints: finding the one on a line, placing it and taking
//! it away.

use crate::number::{
    decimal, decimal_int, parse_unsigned, read_unsigned, signed_text, unsigned_text, IntError,
};
use crate::text::{contains_text, has_part, has_prefix, split, split_text, texts, without_first};
use crate::window::SignIds;
use vstd::prelude::*;

verus! {

/// Why the sign on a line is not known.
#[derive(Clone, Copy, Debug, PartialEq, Eq, Structural)]
pub enum SignError {
    /// Several signs are on the line.
    Several,
    /// The sign on the line has no number, or nought.
    NoId,
    NotANumber(IntError),
}

/// Whether a line of what Neovim lists is taken for a breakpoint on that line: it
/// names the sign, and the number of the line stands in it, at least as the start
/// of a number. So a sign on line 50 is taken for one on line 5 too.
pub open spec fn lists_breakpoint(listed: Seq<char>, line_number: i64) -> bool {
    contains_text(listed, "name=VadreSourceBreakpoint"@) && contains_text(
        listed,
        "line="@ + decimal_int(line_number as int),
    )
}

/// The lines of what Neovim lists that are taken for a breakpoint on that line.
pub open spec fn listed_signs(signs: Seq<char>, line_number: i64) -> Seq<Seq<char>> {
    split(signs, "\n"@).filter(|l: Seq<char>| lists_breakpoint(l, line_number))
}

/// The number that the last of the parts with `id=` gives, after `id` before
/// them.
pub open spec fn number_in(parts: Seq<Seq<char>>, id: nat) -> Result<nat, IntError>
    decreases parts.len(),
{
    if parts.len() == 0 {
        Ok(id)
    } else if "id="@.is_prefix_of(parts[0]) {
        match read_unsigned(parts[0].skip(3), u64::MAX as nat) {
            Ok(n) => number_in(parts.skip(1), n),
            Err(e) => Err(e),
        }
    } else {
        number_in(parts.skip(1), id)
    }
}

/// The number of the sign for a breakpoint on a line, if there is one.
pub open spec fn placed_sign(signs: Seq<char>, line_number: i64) -> Result<
    Option<nat>,
    SignError,
> {
    let listed = listed_signs(signs, line_number);
    if listed.len() == 0 {
        Ok(None)
    } else if listed.len() > 1 {
        Err(SignError::Several)
    } else {
        match number_in(split(listed[0], " "@), 0) {
            Err(e) => Err(SignError::NotANumber(e)),
            Ok(id) => if id == 0 {
                Err(SignError::NoId)
            } else {
                Ok(Some(id))
            },
        }
    }
}

/// The number of a sign in the parts of its line.
fn read_number(parts: &Vec<String>) -> (r: Result<u64, IntError>)
    ensures
        match r {
            Ok(n) => number_in(texts(parts@), 0) == Ok::<nat, IntError>(n as nat),
            Err(e) => number_in(texts(parts@), 0) == Err::<nat, IntError>(e),
        },
{
    proof {
        reveal_strlit("id=");
    }
    let mut id: u64 = 0;
    let mut i: usize = 0;
    assert(texts(parts@).skip(0) =~= texts(parts@));
    while i < parts.len()
        invariant
            i <= parts@.len(),
            "id="@.len() == 3,
            number_in(texts(parts@), 0) == number_in(texts(parts@).skip(i as int), id as nat),
        decreases parts@.len() - i,
    {
        let ghost left = texts(parts@).skip(i as int);
        assert(left[0] == parts@[i as int]@);
        assert(left.skip(1) =~= texts(parts@).skip(i + 1));
        if has_prefix(parts[i].as_str(), "id=") {
            let number = without_first(parts[i].as_str(), 3);
            match parse_unsigned(number.as_str(), u64::MAX) {
                Ok(n) => {
                    id = n;
                },
                Err(e) => {
                    return Err(e);
                },
            }
        }
        i = i + 1;
    }
    Ok(id)
}

/// The number of the sign for a breakpoint on a line, if there is one, from what
/// Neovim lists.
pub fn line_is_breakpoint(signs_in_file: &str, line_number: i64) -> (r: Result<
    Option<u64>,
    SignError,
>)
    ensures
        match r {
            Ok(Some(id)) => placed_sign(signs_in_file@, line_number) == Ok::<
                Option<nat>,
                SignError,
            >(Some(id as nat)),
            Ok(None) => placed_sign(signs_in_file@, line_number) == Ok::<Option<nat>, SignError>(
                None,
            ),
            Err(e) => placed_sign(signs_in_file@, line_number) == Err::<Option<nat>, SignError>(e),
        },
{
    proof {
        reveal_strlit("\n");
        reveal_strlit(" ");
    }
    let parts = split_text(signs_in_file, "\n");
    let number = signed_text(line_number);
    let wanted = "line=".to_string().concat(number.as_str());
    let mut found: Vec<String> = Vec::new();
    let ghost p = |l: Seq<char>| lists_breakpoint(l, line_number);
    let mut i: usize = 0;
    proof {
        reveal(Seq::filter);
        assert(texts(found@) =~= texts(parts@).take(0).filter(p));
    }
    while i < parts.len()
        invariant
            i <= parts@.len(),
            p == (|l: Seq<char>| lists_breakpoint(l, line_number)),
            wanted@ == "line="@ + decimal_int(line_number as int),
            texts(found@) == texts(parts@).take(i as int).filter(p),
        decreases parts@.len() - i,
    {
        let ghost before = texts(found@);
        proof {
            let next = texts(parts@).take(i + 1);
            assert(next.drop_last() =~= texts(parts@).take(i as int));
            assert(next.last() == parts@[i as int]@);
            reveal(Seq::filter);
        }
        if has_part(parts[i].as_str(), "name=VadreSourceBreakpoint") && has_part(
            parts[i].as_str(),
            wanted.as_str(),
        ) {
            found.push(parts[i].clone());
            assert(texts(found@) =~= before.push(parts@[i as int]@));
        }
        i = i + 1;
    }
    assert(texts(parts@).take(i as int) =~= texts(parts@));
    if found.len() == 0 {
        return Ok(None);
    }
    if found.len() > 1 {
        return Err(SignError::Several);
    }
    assert(texts(found@)[0] == found@[0]@);
    let pieces = split_text(found[0].as_str(), " ");
    match read_number(&pieces) {
        Ok(id) => if id == 0 {
            Err(SignError::NoId)
        } else {
            Ok(Some(id))
        },
        Err(e) => Err(SignError::NotANumber(e)),
    }
}

/// The command that lists the signs of a buffer.
pub fn list_signs_command(buffer_number: &str) -> (r: String)
    ensures
        r@ == "sign place buffer="@ + buffer_number@,
{
    "sign place buffer=".to_string().concat(buffer_number)
}

/// The command that takes the sign for a breakpoint away.
pub fn unplace_command(sign_id: u64, buffer_number: &str) -> (r: String)
    ensures
        r@ == "sign unplace "@ + decimal(sign_id as nat) + " buffer="@ + buffer_number@,
{
    let id = unsigned_text(sign_id);
    "sign unplace ".to_string().concat(id.as_str()).concat(" buffer=").concat(buffer_number)
}

/// The command that places the sign for a breakpoint.
pub fn place_command(sign_id: usize, line_number: i64, buffer_number: &str) -> (r: String)
    ensures
        r@ == "sign place "@ + decimal(sign_id as nat) + " line="@ + decimal_int(
            line_number as int,
        ) + " name=VadreSourceBreakpoint buffer="@ + buffer_number@,
{
    let id = unsigned_text(sign_id as u64);
    let line = signed_text(line_number);
    "sign place ".to_string().concat(id.as_str()).concat(" line=").concat(line.as_str()).concat(
        " name=VadreSourceBreakpoint buffer=",
    ).concat(buffer_number)
}

/// What to do to switch the breakpoint on a line.
#[derive(Debug)]
pub enum SignAction {
    /// Take its sign away with this command.
    Unplace(String),
    /// Place a sign with this command.
    Place(String),
}

/// What to do to switch the breakpoint on a line, by the signs that Neovim lists
/// for the buffer: its sign is taken away, and where there is none, one is placed,
/// with the next number.
pub fn toggle_breakpoint_sign(
    signs_in_file: &str,
    line_number: i64,
    buffer_number: &str,
    ids: &mut SignIds,
) -> (r: Result<SignAction, SignError>)
    ensures
        match placed_sign(signs_in_file@, line_number) {
            Ok(Some(id)) => (r matches Ok(SignAction::Unplace(command)) && command@
                == "sign unplace "@ + decimal(id) + " buffer="@ + buffer_number@) && *final(ids)
                == *old(ids),
            Ok(None) => (r matches Ok(SignAction::Place(command)) && command@ == "sign place "@
                + decimal(old(ids).next as nat) + " line="@ + decimal_int(line_number as int)
                + " name=VadreSourceBreakpoint buffer="@ + buffer_number@) && final(ids).next
                == old(ids).next.wrapping_add(1),
            Err(e) => r == Err::<SignAction, SignError>(e) && *final(ids) == *old(ids),
        },
{
    match line_is_breakpoint(signs_in_file, line_number) {
        Ok(Some(id)) => Ok(SignAction::Unplace(unplace_command(id, buffer_number))),
        Ok(None) => {
            let id: usize = ids.take();
            Ok(SignAction::Place(place_command(id, line_number, buffer_number)))
        },
        Err(e) => Err(e),
    }
}

/// Whether a line of what Neovim lists names the sign of a breakpoint, and that line.
pub open spec fn names_sign_on(listed: Seq<char>, line_number: i64) -> bool {
    &&& exists|at: int| #[trigger]
        crate::text::stands_at(listed, "name=VadreSourceBreakpoint"@, at)
    &&& exists|at: int| #[trigger]
        crate::text::stands_at(listed, "line="@ + decimal_int(line_number as int), at)
}

/// Whether the parts of a line give the number: the last part that starts with `id=` has it
/// behind that.
pub open spec fn gives_number(parts: Seq<Seq<char>>, id: u64) -> bool {
    exists|k: int|
        {
            &&& 0 <= k < parts.len()
            &&& "id="@.is_prefix_of(#[trigger] parts[k])
            &&& read_unsigned(parts[k].skip(3), u64::MAX as nat) == Ok::<nat, IntError>(id as nat)
            &&& forall|j: int| k < j < parts.len() ==> !"id="@.is_prefix_of(#[trigger] parts[j])
        }
}

proof fn number_is_the_last(parts: Seq<Seq<char>>, id: nat)
    ensures
        number_in(parts, id) matches Ok(n) ==> (exists|k: int|
            {
                &&& 0 <= k < parts.len()
                &&& "id="@.is_prefix_of(#[trigger] parts[k])
                &&& read_unsigned(parts[k].skip(3), u64::MAX as nat) == Ok::<nat, IntError>(n)
                &&& forall|j: int| k < j < parts.len() ==> !"id="@.is_prefix_of(#[trigger] parts[j])
            }) || (n == id && forall|j: int|
            0 <= j < parts.len() ==> !"id="@.is_prefix_of(#[trigger] parts[j])),
    decreases parts.len(),
{
    if parts.len() > 0 {
        let rest = parts.skip(1);
        if "id="@.is_prefix_of(parts[0]) {
            if let Ok(first) = read_unsigned(parts[0].skip(3), u64::MAX as nat) {
                number_is_the_last(rest, first);
                if let Ok(n) = number_in(rest, first) {
                    if exists|k: int|
                        {
                            &&& 0 <= k < rest.len()
                            &&& "id="@.is_prefix_of(#[trigger] rest[k])
                            &&& read_unsigned(rest[k].skip(3), u64::MAX as nat) == Ok::<
                                nat,
                                IntError,
                            >(n)
                            &&& forall|j: int|
                                k < j < rest.len() ==> !"id="@.is_prefix_of(#[trigger] rest[j])
                        } {
                        let k = choose|k: int|
                            {
                                &&& 0 <= k < rest.len()
                                &&& "id="@.is_prefix_of(#[trigger] rest[k])
                                &&& read_unsigned(rest[k].skip(3), u64::MAX as nat) == Ok::<
                                    nat,
                                    IntError,
                                >(n)
                                &&& forall|j: int|
                                    k < j < rest.len() ==> !"id="@.is_prefix_of(#[trigger] rest[j])
                            };
                        last_moves(parts, k);
                        assert(parts[k + 1] == rest[k]);
                    } else {
                        assert forall|j: int| 0 < j < parts.len() implies !"id="@.is_prefix_of(
                            #[trigger] parts[j],
                        ) by {
                            assert(parts[j] == rest[j - 1]);
                        }
                        assert("id="@.is_prefix_of(parts[0]));
                    }
                }
            }
        } else {
            number_is_the_last(rest, id);
            if let Ok(n) = number_in(rest, id) {
                if exists|k: int|
                    {
                        &&& 0 <= k < rest.len()
                        &&& "id="@.is_prefix_of(#[trigger] rest[k])
                        &&& read_unsigned(rest[k].skip(3), u64::MAX as nat) == Ok::<nat, IntError>(n)
                        &&& forall|j: int|
                            k < j < rest.len() ==> !"id="@.is_prefix_of(#[trigger] rest[j])
                    } {
                    let k = choose|k: int|
                        {
                            &&& 0 <= k < rest.len()
                            &&& "id="@.is_prefix_of(#[trigger] rest[k])
                            &&& read_unsigned(rest[k].skip(3), u64::MAX as nat) == Ok::<
                                nat,
                                IntError,
                            >(n)
                            &&& forall|j: int|
                                k < j < rest.len() ==> !"id="@.is_prefix_of(#[trigger] rest[j])
                        };
                    last_moves(parts, k);
                    assert(parts[k + 1] == rest[k]);
                } else {
                    assert forall|j: int| 0 <= j < parts.len() implies !"id="@.is_prefix_of(
                        #[trigger] parts[j],
                    ) by {
                        if j > 0 {
                            assert(parts[j] == rest[j - 1]);
                        }
                    }
                }
            }
        }
    }
}

proof fn last_moves(parts: Seq<Seq<char>>, k: int)
    requires
        0 <= k < parts.len() - 1,
        forall|j: int|
            k < j < parts.len() - 1 ==> !"id="@.is_prefix_of(#[trigger] parts.skip(1)[j]),
    ensures
        forall|j: int| k + 1 < j < parts.len() ==> !"id="@.is_prefix_of(#[trigger] parts[j]),
{
    assert forall|j: int| k + 1 < j < parts.len() implies !"id="@.is_prefix_of(
        #[trigger] parts[j],
    ) by {
        assert(parts[j] == parts.skip(1)[j - 1]);
    }
}

proof fn kept_lines(s: Seq<Seq<char>>, keep: spec_fn(Seq<char>) -> bool)
    ensures
        s.filter(keep).len() == 0 <==> forall|i: int|
            0 <= i < s.len() ==> !keep(#[trigger] s[i]),
        s.filter(keep).len() > 1 ==> exists|i: int, j: int|
            0 <= i < j < s.len() && keep(#[trigger] s[i]) && keep(#[trigger] s[j]),
        s.filter(keep).len() == 1 ==> exists|i: int|
            {
                &&& 0 <= i < s.len()
                &&& keep(#[trigger] s[i])
                &&& s.filter(keep)[0] == s[i]
                &&& forall|j: int| 0 <= j < s.len() && j != i ==> !keep(#[trigger] s[j])
            },
    decreases s.len(),
{
    reveal(Seq::filter);
    if s.len() > 0 {
        let fewer = s.drop_last();
        let last = s.len() - 1;
        kept_lines(fewer, keep);
        assert forall|i: int| 0 <= i < fewer.len() implies fewer[i] == #[trigger] s[i] by {}
        if keep(s[last]) {
            if fewer.filter(keep).len() == 0 {
                assert forall|j: int| 0 <= j < s.len() && j != last implies !keep(
                    #[trigger] s[j],
                ) by {
                    assert(!keep(fewer[j]));
                }
                assert(s.filter(keep) =~= seq![s[last]]);
            } else if fewer.filter(keep).len() == 1 {
                let i = choose|i: int| 0 <= i < fewer.len() && keep(#[trigger] fewer[i]);
                assert(keep(s[i]) && keep(s[last]));
            } else {
                let (i, j) = choose|i: int, j: int|
                    0 <= i < j < fewer.len() && keep(#[trigger] fewer[i]) && keep(
                        #[trigger] fewer[j],
                    );
                assert(keep(s[i]) && keep(s[j]));
            }
        } else {
            if fewer.filter(keep).len() > 1 {
                let (i, j) = choose|i: int, j: int|
                    0 <= i < j < fewer.len() && keep(#[trigger] fewer[i]) && keep(
                        #[trigger] fewer[j],
                    );
                assert(keep(s[i]) && keep(s[j]));
            } else if fewer.filter(keep).len() == 1 {
                let i = choose|i: int|
                    {
                        &&& 0 <= i < fewer.len()
                        &&& keep(#[trigger] fewer[i])
                        &&& fewer.filter(keep)[0] == fewer[i]
                        &&& forall|j: int| 0 <= j < fewer.len() && j != i ==> !keep(
                            #[trigger] fewer[j],
                        )
                    };
                assert(keep(s[i]));
                assert forall|j: int| 0 <= j < s.len() && j != i implies !keep(#[trigger] s[j]) by {
                    if j < last {
                        assert(!keep(fewer[j]));
                    }
                }
            } else {
                assert forall|i: int| 0 <= i < s.len() implies !keep(#[trigger] s[i]) by {
                    if i < last {
                        assert(!keep(fewer[i]));
                    }
                }
            }
        }
        if s.filter(keep).len() == 0 {
            assert(!keep(s[last]));
        }
        if forall|i: int| 0 <= i < s.len() ==> !keep(#[trigger] s[i]) {
            assert(!keep(s[last]));
            assert forall|i: int| 0 <= i < fewer.len() implies !keep(#[trigger] fewer[i]) by {
                assert(!keep(s[i]));
            }
        }
    }
}

/// A breakpoint is on a line exactly where one of the lines that Neovim lists names its
/// sign and that line. Its number is the one in that line. Several such lines are refused.
pub proof fn listed_sign_is_found(
    signs: &str,
    line_number: i64,
    r: Result<Option<u64>, SignError>,
)
    requires
        call_ensures(line_is_breakpoint, (signs, line_number), r),
    ensures
        ({
            let lines = split(signs@, "\n"@);
            match r {
                Ok(None) => forall|i: int|
                    0 <= i < lines.len() ==> !names_sign_on(#[trigger] lines[i], line_number),
                Ok(Some(id)) => id > 0 && exists|i: int|
                    {
                        &&& 0 <= i < lines.len()
                        &&& names_sign_on(#[trigger] lines[i], line_number)
                        &&& gives_number(split(lines[i], " "@), id)
                        &&& forall|j: int|
                            0 <= j < lines.len() && j != i ==> !names_sign_on(
                                #[trigger] lines[j],
                                line_number,
                            )
                    },
                Err(SignError::Several) => exists|i: int, j: int|
                    0 <= i < j < lines.len() && names_sign_on(#[trigger] lines[i], line_number)
                        && names_sign_on(#[trigger] lines[j], line_number),
                Err(_) => exists|i: int|
                    0 <= i < lines.len() && names_sign_on(#[trigger] lines[i], line_number),
            }
        }),
{
    let lines = split(signs@, "\n"@);
    let keep = |l: Seq<char>| lists_breakpoint(l, line_number);
    kept_lines(lines, keep);
    assert forall|l: Seq<char>| keep(l) == #[trigger] names_sign_on(l, line_number) by {}
    let listed = listed_signs(signs@, line_number);
    if listed.len() == 0 {
        assert forall|i: int| 0 <= i < lines.len() implies !names_sign_on(
            #[trigger] lines[i],
            line_number,
        ) by {
            assert(!keep(lines[i]));
        }
    } else if listed.len() > 1 {
        let (i, j) = choose|i: int, j: int|
            0 <= i < j < lines.len() && keep(#[trigger] lines[i]) && keep(#[trigger] lines[j]);
        assert(names_sign_on(lines[i], line_number) && names_sign_on(lines[j], line_number));
    } else {
        let i = choose|i: int|
            {
                &&& 0 <= i < lines.len()
                &&& keep(#[trigger] lines[i])
                &&& lines.filter(keep)[0] == lines[i]
                &&& forall|j: int| 0 <= j < lines.len() && j != i ==> !keep(#[trigger] lines[j])
            };
        assert(names_sign_on(lines[i], line_number));
        number_is_the_last(split(lines[i], " "@), 0);
        if let Ok(Some(id)) = r {
            let parts = split(lines[i], " "@);
            assert(number_in(parts, 0) == Ok::<nat, IntError>(id as nat));
            assert(gives_number(parts, id));
            assert forall|j: int| 0 <= j < lines.len() && j != i implies !names_sign_on(
                #[trigger] lines[j],
                line_number,
            ) by {
                assert(!keep(lines[j]));
            }
        }
    }
}

/// Switching the breakpoint on a line takes its sign away where it has one, by the number
/// of that sign, and places one with the next number where it has none.
pub proof fn sign_is_switched(
    signs: &str,
    line_number: i64,
    buffer: &str,
    before: SignIds,
    after: SignIds,
    found: Result<Option<u64>, SignError>,
    taken: String,
    placed: String,
    r: Result<SignAction, SignError>,
)
    requires
        exists|ids: &mut SignIds|
            *ids == before && *final(ids) == after && #[trigger] call_ensures(
                toggle_breakpoint_sign,
                (signs, line_number, buffer, ids),
                r,
            ),
        call_ensures(line_is_breakpoint, (signs, line_number), found),
        found matches Ok(Some(id)) ==> call_ensures(unplace_command, (id, buffer), taken),
        call_ensures(place_command, (before.next, line_number, buffer), placed),
    ensures
        match found {
            Ok(Some(_)) => (r matches Ok(SignAction::Unplace(c)) && c@ == taken@) && after.next
                == before.next,
            Ok(None) => (r matches Ok(SignAction::Place(c)) && c@ == placed@) && (before.next
                < usize::MAX ==> after.next == before.next + 1),
            Err(e) => r == Err::<SignAction, SignError>(e) && after.next == before.next,
        },
{
}

} // verus!
