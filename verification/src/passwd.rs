//! The password file: lines of fields parted by colons, of which the first is
//! the user's name and the third the user ID.

use vstd::prelude::*;
use vstd::slice::slice_subrange;
use vstd::utf8::{encode_utf8, valid_utf8};

use crate::bytes::lacks;
use crate::decimal::{
    ascii_bytes, decimal, is_digit, law_decimal_round_trip, lemma_decimal_digits, parse_u32, parsed,
};
use crate::text::from_utf8;

verus! {

/// Where `sep` first occurs in `s`, or the length of `s` where it does not.
pub open spec fn first(s: Seq<u8>, sep: u8) -> int
    decreases s.len(),
{
    if s.len() == 0 || s[0] == sep {
        0
    } else {
        1 + first(s.drop_first(), sep)
    }
}

/// `line` without the one carriage return that it may end with.
pub open spec fn without_return(line: Seq<u8>) -> Seq<u8> {
    if line.len() > 0 && line.last() == 13 {
        line.drop_last()
    } else {
        line
    }
}

/// The lines of a file. A line ends with a newline, or with a carriage return
/// and a newline, which are not part of it. The last line may lack its newline,
/// and then keeps a carriage return at its end.
pub open spec fn lines(file: Seq<u8>) -> Seq<Seq<u8>>
    decreases file.len(),
    via lines_decreases
{
    let end = first(file, 10);
    if file.len() == 0 {
        seq![]
    } else if end == file.len() {
        seq![file]
    } else {
        seq![without_return(file.take(end))] + lines(file.skip(end + 1))
    }
}

/// The fields of a line: what stands before, between and after its colons.
pub open spec fn fields(line: Seq<u8>) -> Seq<Seq<u8>>
    decreases line.len(),
    via fields_decreases
{
    let end = first(line, 58);
    if end == line.len() {
        seq![line]
    } else {
        seq![line.take(end)] + fields(line.skip(end + 1))
    }
}

/// The user ID that a list of lines gives for `name`. The lines are read in
/// order. The first with fewer than three fields ends the search without a
/// result; the first whose first field is `name` decides it by its third.
pub open spec fn uid_in(lines: Seq<Seq<u8>>, name: Seq<u8>) -> Option<u32>
    decreases lines.len(),
{
    if lines.len() == 0 {
        None
    } else {
        let f = fields(lines[0]);
        if f.len() < 3 {
            None
        } else if f[0] == name {
            parsed(f[2])
        } else {
            uid_in(lines.drop_first(), name)
        }
    }
}

/// The user ID that a password file gives for `name`; none where the file is
/// not UTF-8 text.
pub open spec fn uid_of(file: Seq<u8>, name: Seq<u8>) -> Option<u32> {
    if valid_utf8(file) {
        uid_in(lines(file), name)
    } else {
        None
    }
}

proof fn lemma_first_bound(s: Seq<u8>, sep: u8)
    ensures
        0 <= first(s, sep) <= s.len(),
        first(s, sep) < s.len() ==> s[first(s, sep)] == sep,
        forall|j: int| 0 <= j < first(s, sep) ==> s[j] != sep,
    decreases s.len(),
{
    if s.len() > 0 && s[0] != sep {
        let rest = s.drop_first();
        lemma_first_bound(rest, sep);
        assert forall|j: int| 0 <= j < first(s, sep) implies s[j] != sep by {
            if j > 0 {
                assert(s[j] == rest[j - 1]);
            }
        }
    }
}

proof fn lemma_first_is(s: Seq<u8>, sep: u8, n: int)
    requires
        0 <= n <= s.len(),
        forall|j: int| 0 <= j < n ==> s[j] != sep,
        n < s.len() ==> s[n] == sep,
    ensures
        first(s, sep) == n,
{
    lemma_first_bound(s, sep);
}

#[via_fn]
proof fn lines_decreases(file: Seq<u8>) {
    lemma_first_bound(file, 10);
}

#[via_fn]
proof fn fields_decreases(line: Seq<u8>) {
    lemma_first_bound(line, 58);
}

/// Finds `sep` in `s` at `from` or later.
fn find(s: &[u8], sep: u8, from: usize) -> (r: usize)
    requires
        from <= s@.len(),
    ensures
        from <= r <= s@.len(),
        r == from + first(s@.skip(from as int), sep),
{
    let mut i: usize = from;
    while i < s.len() && s[i] != sep
        invariant
            from <= i <= s@.len(),
            forall|j: int| from <= j < i ==> s@[j] != sep,
        decreases s@.len() - i,
    {
        i = i + 1;
    }
    proof {
        let t = s@.skip(from as int);
        assert forall|j: int| 0 <= j < i - from implies t[j] != sep by {
            assert(t[j] == s@[from + j]);
        }
        lemma_first_is(t, sep, i - from);
    }
    i
}

/// Whether two byte strings are the same.
fn same(a: &[u8], b: &[u8]) -> (r: bool)
    ensures
        r == (a@ == b@),
{
    if a.len() != b.len() {
        return false;
    }
    let mut i: usize = 0;
    while i < a.len()
        invariant
            i <= a@.len(),
            a@.len() == b@.len(),
            a@.take(i as int) == b@.take(i as int),
        decreases a@.len() - i,
    {
        if a[i] != b[i] {
            assert(a@ != b@);
            return false;
        }
        assert(a@.take(i + 1) =~= a@.take(i as int).push(a@[i as int]));
        assert(b@.take(i + 1) =~= b@.take(i as int).push(b@[i as int]));
        i = i + 1;
    }
    assert(a@.take(i as int) =~= a@);
    assert(b@.take(i as int) =~= b@);
    true
}

/// What one line says of the user `name`.
enum LineSays {
    /// The line has fewer than three fields.
    Malformed,
    /// The line is about another user.
    Other,
    /// The line is about `name` and gives this user ID, if it gives one.
    Uid(Option<u32>),
}

/// Reads one line of the file.
fn read_line(line: &[u8], name: &[u8]) -> (r: LineSays)
    ensures
        r == ({
            let f = fields(line@);
            if f.len() < 3 {
                LineSays::Malformed
            } else if f[0] == name@ {
                LineSays::Uid(parsed(f[2]))
            } else {
                LineSays::Other
            }
        }),
{
    let ghost whole = line@;
    assert(whole.skip(0) =~= whole);
    let c0: usize = find(line, 58, 0);
    if c0 == line.len() {
        return LineSays::Malformed;
    }
    let ghost after0 = whole.skip(c0 + 1);
    assert(fields(whole) == seq![whole.take(c0 as int)] + fields(after0));
    let c1: usize = find(line, 58, c0 + 1);
    if c1 == line.len() {
        assert(fields(after0) == seq![after0]);
        return LineSays::Malformed;
    }
    let ghost after1 = whole.skip(c1 + 1);
    assert(after0.skip(first(after0, 58) + 1) =~= after1);
    assert(fields(after0) == seq![after0.take(first(after0, 58))] + fields(after1));
    let c2: usize = find(line, 58, c1 + 1);
    let third = slice_subrange(line, c1 + 1, c2);
    assert(after1.take(first(after1, 58)) =~= third@);
    assert(third@ =~= fields(after1)[0]);
    assert(fields(whole)[2] == third@);
    assert(fields(whole).len() >= 3);
    let user = slice_subrange(line, 0, c0);
    assert(user@ =~= whole.take(c0 as int));
    assert(fields(whole)[0] == user@);
    if same(user, name) {
        LineSays::Uid(parse_u32(third))
    } else {
        LineSays::Other
    }
}

/// Looks up a user's ID in the contents of a password file.
pub fn get_uid(passwd: &[u8], username: &str) -> (uid: Option<u32>)
    ensures
        uid == uid_of(passwd@, encode_utf8(username@)),
{
    if from_utf8(passwd).is_none() {
        return None;
    }
    let name: &[u8] = username.as_bytes();
    let mut pos: usize = 0;
    assert(passwd@.skip(0) =~= passwd@);
    while pos < passwd.len()
        invariant
            pos <= passwd@.len(),
            name@ == encode_utf8(username@),
            valid_utf8(passwd@),
            uid_of(passwd@, name@) == uid_in(lines(passwd@.skip(pos as int)), name@),
        decreases passwd@.len() - pos,
    {
        let ghost left = passwd@.skip(pos as int);
        let end: usize = find(passwd, 10, pos);
        let last: bool = end == passwd.len();
        let stop: usize = if !last && end > pos && passwd[end - 1] == 13 {
            end - 1
        } else {
            end
        };
        let line = slice_subrange(passwd, pos, stop);
        proof {
            if last {
                assert(line@ =~= left);
            } else {
                assert(left.take(end - pos) =~= passwd@.subrange(pos as int, end as int));
                assert(line@ =~= without_return(left.take(end - pos)));
                assert(left.skip(end - pos + 1) =~= passwd@.skip(end + 1));
            }
            assert(lines(left)[0] == line@);
            assert(lines(left).drop_first() =~= if last {
                Seq::<Seq<u8>>::empty()
            } else {
                lines(passwd@.skip(end + 1))
            });
        }
        match read_line(line, name) {
            LineSays::Malformed => {
                return None;
            },
            LineSays::Uid(uid) => {
                return uid;
            },
            LineSays::Other => {},
        }
        if last {
            return None;
        }
        pos = end + 1;
    }
    assert(passwd@.skip(pos as int) =~= Seq::<u8>::empty());
    None
}

/// Whether every line before the one at `i` is well formed, with at least three
/// fields, and about someone else.
pub open spec fn others_before(lines: Seq<Seq<u8>>, name: Seq<u8>, i: int) -> bool {
    forall|j: int|
        0 <= j < i ==> fields(#[trigger] lines[j]).len() >= 3 && fields(lines[j])[0] != name
}

/// The first entry for a user decides: where every earlier line is well formed
/// and about someone else, the line at `i` gives the result.
pub proof fn law_first_entry_decides(lines: Seq<Seq<u8>>, name: Seq<u8>, i: int)
    requires
        0 <= i < lines.len(),
        others_before(lines, name, i),
        fields(lines[i]).len() >= 3,
        fields(lines[i])[0] == name,
    ensures
        uid_in(lines, name) == parsed(fields(lines[i])[2]),
    decreases i,
{
    if i > 0 {
        let rest = lines.drop_first();
        assert(fields(lines[0]).len() >= 3);
        assert forall|j: int| 0 <= j < i - 1 implies fields(#[trigger] rest[j]).len() >= 3
            && fields(rest[j])[0] != name by {
            assert(rest[j] == lines[j + 1]);
        }
        law_first_entry_decides(rest, name, i - 1);
    }
}

/// A user ID is found only where some line has the user's name for its first
/// field and that ID for its third, and every line before it is well formed and
/// about someone else.
pub proof fn law_uid_comes_from_an_entry(lines: Seq<Seq<u8>>, name: Seq<u8>)
    requires
        uid_in(lines, name) is Some,
    ensures
        exists|i: int|
            0 <= i < lines.len() && fields(#[trigger] lines[i]).len() >= 3 && fields(lines[i])[0]
                == name && parsed(fields(lines[i])[2]) == uid_in(lines, name) && others_before(
                lines,
                name,
                i,
            ),
    decreases lines.len(),
{
    if fields(lines[0])[0] != name {
        let rest = lines.drop_first();
        law_uid_comes_from_an_entry(rest, name);
        let k = choose|k: int|
            0 <= k < rest.len() && fields(#[trigger] rest[k]).len() >= 3 && fields(rest[k])[0]
                == name && parsed(fields(rest[k])[2]) == uid_in(rest, name) && others_before(
                rest,
                name,
                k,
            );
        assert(lines[k + 1] == rest[k]);
        assert forall|j: int| 0 <= j < k + 1 implies fields(#[trigger] lines[j]).len() >= 3
            && fields(lines[j])[0] != name by {
            if j > 0 {
                assert(lines[j] == rest[j - 1]);
            }
        }
        assert(others_before(lines, name, k + 1));
    } else {
        assert(others_before(lines, name, 0));
    }
}

/// A user without an entry has no user ID.
pub proof fn law_no_entry_no_uid(lines: Seq<Seq<u8>>, name: Seq<u8>)
    requires
        forall|i: int| 0 <= i < lines.len() ==> fields(#[trigger] lines[i])[0] != name,
    ensures
        uid_in(lines, name) is None,
    decreases lines.len(),
{
    if lines.len() > 0 {
        let rest = lines.drop_first();
        assert(fields(lines[0])[0] != name);
        assert forall|i: int| 0 <= i < rest.len() implies fields(#[trigger] rest[i])[0] != name by {
            assert(rest[i] == lines[i + 1]);
        }
        law_no_entry_no_uid(rest, name);
    }
}

/// An entry of a password file, without its newline: the name, the password
/// placeholder, the user ID in decimal, and the remaining fields.
pub open spec fn entry(name: Seq<u8>, placeholder: Seq<u8>, uid: u32, remainder: Seq<u8>) -> Seq<
    u8,
> {
    name.push(58) + (placeholder.push(58) + (ascii_bytes(decimal(uid as nat)).push(58)
        + remainder))
}

proof fn lemma_fields_step(field: Seq<u8>, others: Seq<u8>)
    requires
        lacks(field, 58),
    ensures
        fields(field.push(58) + others) == seq![field] + fields(others),
{
    let s = field.push(58) + others;
    lemma_first_is(s, 58, field.len() as int);
    assert(s.take(field.len() as int) =~= field);
    assert(s.skip(field.len() as int + 1) =~= others);
}

/// A file that starts with an entry for a user gives the ID that the entry
/// holds, whatever follows.
pub proof fn law_entry_is_read_back(
    name: Seq<u8>,
    placeholder: Seq<u8>,
    uid: u32,
    remainder: Seq<u8>,
    more: Seq<u8>,
)
    requires
        lacks(name, 58),
        lacks(name, 10),
        lacks(placeholder, 58),
        lacks(placeholder, 10),
        lacks(remainder, 10),
        valid_utf8(entry(name, placeholder, uid, remainder).push(10) + more),
    ensures
        uid_of(entry(name, placeholder, uid, remainder).push(10) + more, name) == Some(uid),
{
    let number = ascii_bytes(decimal(uid as nat));
    let line = entry(name, placeholder, uid, remainder);
    let file = line.push(10) + more;
    law_decimal_round_trip(uid);
    lemma_decimal_digits(uid as nat);
    assert forall|i: int| 0 <= i < number.len() implies number[i] != 58 && number[i] != 10 by {
        assert(is_digit(number[i]));
    }
    assert(lacks(number, 58));
    assert(lacks(line, 10));
    lemma_first_is(file, 10, line.len() as int);
    assert(file.take(line.len() as int) =~= line);
    let kept = without_return(line);
    let last = if remainder.len() > 0 && remainder.last() == 13 {
        remainder.drop_last()
    } else {
        remainder
    };
    assert(line.last() == if remainder.len() > 0 {
        remainder.last()
    } else {
        58u8
    });
    assert(kept =~= entry(name, placeholder, uid, last));
    lemma_fields_step(name, placeholder.push(58) + (number.push(58) + last));
    lemma_fields_step(placeholder, number.push(58) + last);
    lemma_fields_step(number, last);
    assert(fields(kept)[0] == name);
    assert(fields(kept)[2] == number);
    assert(lines(file)[0] == kept);
}

/// What a newline ends is a line, less one carriage return at its end, and what
/// follows the newline has its own lines, all of which count.
pub proof fn law_newline_ends_a_line(line: Seq<u8>, more: Seq<u8>)
    requires
        !line.contains(10),
    ensures
        line.len() > 0 && line.last() == 13 ==> lines(line.push(10) + more) == seq![
            line.drop_last(),
        ] + lines(more),
        line.len() == 0 || line.last() != 13 ==> lines(line.push(10) + more) == seq![line] + lines(
            more,
        ),
{
    let s = line.push(10) + more;
    assert forall|j: int| 0 <= j < line.len() implies s[j] != 10 by {
        assert(line.contains(line[j]));
    }
    lemma_first_is(s, 10, line.len() as int);
    assert(s.take(line.len() as int) =~= line);
    assert(s.skip(line.len() as int + 1) =~= more);
}

/// What no newline ends is the last line, as it is. Nothing has no lines.
pub proof fn law_last_line_may_lack_its_newline(line: Seq<u8>)
    requires
        !line.contains(10),
    ensures
        line.len() > 0 ==> lines(line) == seq![line],
        line.len() == 0 ==> lines(line).len() == 0,
{
    assert forall|j: int| 0 <= j < line.len() implies line[j] != 10 by {
        assert(line.contains(line[j]));
    }
    lemma_first_is(line, 10, line.len() as int);
}

/// What a colon ends is a field, as it is, and what follows the colon has its
/// own fields, all of which count. What no colon ends is the last field.
pub proof fn law_colon_ends_a_field(field: Seq<u8>, more: Seq<u8>)
    requires
        !field.contains(58),
    ensures
        fields(field.push(58) + more) == seq![field] + fields(more),
        fields(field) == seq![field],
{
    assert forall|j: int| 0 <= j < field.len() implies field[j] != 58 by {
        assert(field.contains(field[j]));
    }
    lemma_fields_step(field, more);
    lemma_first_is(field, 58, field.len() as int);
}

/// The contents of a file of these lines, each ended by a newline.
pub open spec fn file_of(lines: Seq<Seq<u8>>) -> Seq<u8>
    decreases lines.len(),
{
    if lines.len() == 0 {
        Seq::<u8>::empty()
    } else {
        lines[0].push(10) + file_of(lines.drop_first())
    }
}

/// Whether `line` is one line, with at least two colons, whose part before the
/// first of them is not `name`.
pub open spec fn is_about_another(line: Seq<u8>, name: Seq<u8>) -> bool {
    &&& !line.contains(10)
    &&& exists|user: Seq<u8>, placeholder: Seq<u8>, more: Seq<u8>|
        line == #[trigger] three_parts(user, placeholder, more) && user != name && !user.contains(
            58,
        ) && !placeholder.contains(58)
}

/// Three parts with colons between them.
pub open spec fn three_parts(a: Seq<u8>, b: Seq<u8>, c: Seq<u8>) -> Seq<u8> {
    a.push(58) + (b.push(58) + c)
}

/// `line` less one carriage return at its end has the same first fields.
proof fn lemma_other_line(line: Seq<u8>, name: Seq<u8>)
    requires
        is_about_another(line, name),
    ensures
        fields(without_return(line)).len() >= 3,
        fields(without_return(line))[0] != name,
        fields(line).len() >= 3,
        fields(line)[0] != name,
{
    let (user, placeholder, more) = choose|user: Seq<u8>, placeholder: Seq<u8>, more: Seq<u8>|
        line == #[trigger] three_parts(user, placeholder, more) && user != name && !user.contains(
            58,
        ) && !placeholder.contains(58);
    lemma_three_parts(user, placeholder, more);
    let kept = without_return(line);
    let last = without_return(more);
    if more.len() > 0 {
        assert(kept =~= three_parts(user, placeholder, last));
    } else {
        assert(line.last() == 58);
        assert(kept =~= three_parts(user, placeholder, last));
    }
    lemma_three_parts(user, placeholder, last);
}

proof fn lemma_three_parts(a: Seq<u8>, b: Seq<u8>, c: Seq<u8>)
    requires
        !a.contains(58),
        !b.contains(58),
    ensures
        fields(three_parts(a, b, c)) == seq![a, b] + fields(c),
        fields(c).len() >= 1,
{
    law_colon_ends_a_field(a, b.push(58) + c);
    law_colon_ends_a_field(b, c);
    assert(seq![a] + (seq![b] + fields(c)) =~= seq![a, b] + fields(c));
}

/// Lines about others do not bear on the search, however many and however long
/// they are: it goes on behind them as if it had started there.
pub proof fn law_lines_about_others_are_passed_over(
    others: Seq<Seq<u8>>,
    more: Seq<u8>,
    name: Seq<u8>,
)
    requires
        forall|i: int| 0 <= i < others.len() ==> is_about_another(#[trigger] others[i], name),
    ensures
        uid_in(lines(file_of(others) + more), name) == uid_in(lines(more), name),
    decreases others.len(),
{
    if others.len() == 0 {
        assert(file_of(others) + more =~= more);
    } else {
        let line = others[0];
        let rest = others.drop_first();
        assert(is_about_another(line, name));
        assert forall|i: int| 0 <= i < rest.len() implies is_about_another(
            #[trigger] rest[i],
            name,
        ) by {
            assert(rest[i] == others[i + 1]);
        }
        law_lines_about_others_are_passed_over(rest, more, name);
        lemma_other_line(line, name);
        assert(file_of(others) + more =~= line.push(10) + (file_of(rest) + more));
        law_newline_ends_a_line(line, file_of(rest) + more);
        let all = lines(file_of(others) + more);
        assert(all[0] == without_return(line));
        assert(all.drop_first() =~= lines(file_of(rest) + more));
    }
}

/// An entry is found wherever it stands in the file. Behind lines about others,
/// an entry for the user gives what its third field reads as, whatever its
/// other fields are and whatever follows it; the entry may be the last line and
/// lack its newline.
pub proof fn law_entry_is_found_anywhere(
    others: Seq<Seq<u8>>,
    name: Seq<u8>,
    placeholder: Seq<u8>,
    third: Seq<u8>,
    remainder: Seq<u8>,
    more: Seq<u8>,
)
    requires
        forall|i: int| 0 <= i < others.len() ==> is_about_another(#[trigger] others[i], name),
        !name.contains(58) && !name.contains(10),
        !placeholder.contains(58) && !placeholder.contains(10),
        !third.contains(58) && !third.contains(10),
        !remainder.contains(10),
        more.len() == 0 || more[0] == 10,
        valid_utf8(
            file_of(others) + (three_parts(name, placeholder, third.push(58) + remainder) + more),
        ),
    ensures
        uid_of(
            file_of(others) + (three_parts(name, placeholder, third.push(58) + remainder) + more),
            name,
        ) == parsed(third),
{
    let line = three_parts(name, placeholder, third.push(58) + remainder);
    law_lines_about_others_are_passed_over(others, line + more, name);
    assert(!line.contains(10)) by {
        assert forall|i: int| 0 <= i < line.len() implies line[i] != 10 by {
            let a = name.len() as int;
            let b = placeholder.len() as int;
            let c = third.len() as int;
            if i < a {
                assert(line[i] == name[i]);
                assert(name.contains(name[i]));
            } else if a < i < a + 1 + b {
                assert(line[i] == placeholder[i - a - 1]);
                assert(placeholder.contains(placeholder[i - a - 1]));
            } else if a + b + 1 < i < a + b + 2 + c {
                assert(line[i] == third[i - a - b - 2]);
                assert(third.contains(third[i - a - b - 2]));
            } else if i > a + b + c + 2 {
                assert(line[i] == remainder[i - a - b - c - 3]);
                assert(remainder.contains(remainder[i - a - b - c - 3]));
            }
        }
    }
    let last = if more.len() > 0 {
        without_return(remainder)
    } else {
        remainder
    };
    let kept = three_parts(name, placeholder, third.push(58) + last);
    lemma_three_parts(name, placeholder, third.push(58) + last);
    law_colon_ends_a_field(third, last);
    if more.len() > 0 {
        assert(line + more =~= line.push(10) + more.drop_first());
        law_newline_ends_a_line(line, more.drop_first());
        if remainder.len() == 0 {
            assert(line.last() == 58);
        } else {
            assert(line.last() == remainder.last());
        }
        assert(without_return(line) =~= kept);
    } else {
        assert(line + more =~= line);
        law_last_line_may_lack_its_newline(line);
        assert(kept =~= line);
    }
    assert(lines(line + more)[0] == kept);
    assert(fields(kept)[0] == name);
    assert(fields(kept)[2] == third);
}

/// An entry may end with its third field.
pub proof fn law_third_field_may_be_the_last(
    others: Seq<Seq<u8>>,
    name: Seq<u8>,
    placeholder: Seq<u8>,
    third: Seq<u8>,
    more: Seq<u8>,
)
    requires
        forall|i: int| 0 <= i < others.len() ==> is_about_another(#[trigger] others[i], name),
        !name.contains(58) && !name.contains(10),
        !placeholder.contains(58) && !placeholder.contains(10),
        !third.contains(58) && !third.contains(10) && !third.contains(13),
        more.len() == 0 || more[0] == 10,
        valid_utf8(file_of(others) + (three_parts(name, placeholder, third) + more)),
    ensures
        uid_of(file_of(others) + (three_parts(name, placeholder, third) + more), name) == parsed(
            third,
        ),
{
    let line = three_parts(name, placeholder, third);
    law_lines_about_others_are_passed_over(others, line + more, name);
    assert(!line.contains(10)) by {
        assert forall|i: int| 0 <= i < line.len() implies line[i] != 10 by {
            let a = name.len() as int;
            let b = placeholder.len() as int;
            if i < a {
                assert(line[i] == name[i]);
                assert(name.contains(name[i]));
            } else if a < i < a + 1 + b {
                assert(line[i] == placeholder[i - a - 1]);
                assert(placeholder.contains(placeholder[i - a - 1]));
            } else if i > a + b + 1 {
                assert(line[i] == third[i - a - b - 2]);
                assert(third.contains(third[i - a - b - 2]));
            }
        }
    }
    if third.len() > 0 {
        assert(line.last() == third.last());
        assert(third.contains(third.last()));
    } else {
        assert(line.last() == 58);
    }
    if more.len() > 0 {
        assert(line + more =~= line.push(10) + more.drop_first());
        law_newline_ends_a_line(line, more.drop_first());
    } else {
        assert(line + more =~= line);
        law_last_line_may_lack_its_newline(line);
    }
    assert(lines(line + more)[0] == line);
    lemma_three_parts(name, placeholder, third);
    law_colon_ends_a_field(third, more);
    assert(fields(line)[0] == name);
    assert(fields(line)[2] == third);
}

/// An entry for the user gives the user ID that it holds in decimal, wherever
/// it stands.
pub proof fn law_listed_user_is_found(
    others: Seq<Seq<u8>>,
    name: Seq<u8>,
    placeholder: Seq<u8>,
    uid: u32,
    remainder: Seq<u8>,
    more: Seq<u8>,
)
    requires
        forall|i: int| 0 <= i < others.len() ==> is_about_another(#[trigger] others[i], name),
        !name.contains(58) && !name.contains(10),
        !placeholder.contains(58) && !placeholder.contains(10),
        !remainder.contains(10),
        more.len() == 0 || more[0] == 10,
        valid_utf8(file_of(others) + (entry(name, placeholder, uid, remainder) + more)),
    ensures
        uid_of(file_of(others) + (entry(name, placeholder, uid, remainder) + more), name) == Some(
            uid,
        ),
{
    let number = ascii_bytes(decimal(uid as nat));
    law_decimal_round_trip(uid);
    lemma_decimal_digits(uid as nat);
    assert forall|i: int| 0 <= i < number.len() implies number[i] != 58 && number[i] != 10 by {
        assert(is_digit(number[i]));
    }
    law_entry_is_found_anywhere(others, name, placeholder, number, remainder, more);
}

/// A file whose lines are all about others gives no user ID, whether or not its
/// last line has its newline.
pub proof fn law_unlisted_user_is_not_found(
    others: Seq<Seq<u8>>,
    last: Seq<u8>,
    name: Seq<u8>,
)
    requires
        forall|i: int| 0 <= i < others.len() ==> is_about_another(#[trigger] others[i], name),
        last.len() == 0 || is_about_another(last, name),
    ensures
        uid_of(file_of(others) + last, name) is None,
{
    law_lines_about_others_are_passed_over(others, last, name);
    if last.len() > 0 {
        law_last_line_may_lack_its_newline(last);
        lemma_other_line(last, name);
        assert(lines(last).drop_first() =~= Seq::<Seq<u8>>::empty());
        assert(uid_in(lines(last).drop_first(), name) is None);
    } else {
        law_last_line_may_lack_its_newline(last);
    }
}

/// A line with fewer than two colons ends the search: behind lines about others
/// it leaves the user without an ID, whatever follows it.
pub proof fn law_malformed_line_ends_the_search(
    others: Seq<Seq<u8>>,
    a: Seq<u8>,
    b: Seq<u8>,
    more: Seq<u8>,
    name: Seq<u8>,
)
    requires
        forall|i: int| 0 <= i < others.len() ==> is_about_another(#[trigger] others[i], name),
        !a.contains(58) && !a.contains(10),
        !b.contains(58) && !b.contains(10),
    ensures
        uid_of(file_of(others) + (a.push(10) + more), name) is None,
        uid_of(file_of(others) + ((a.push(58) + b).push(10) + more), name) is None,
{
    law_lines_about_others_are_passed_over(others, a.push(10) + more, name);
    law_newline_ends_a_line(a, more);
    assert(!without_return(a).contains(58)) by {
        assert forall|i: int| 0 <= i < without_return(a).len() implies without_return(a)[i]
            != 58 by {
            assert(a.contains(a[i]));
        }
    }
    law_colon_ends_a_field(without_return(a), more);
    assert(lines(a.push(10) + more)[0] == without_return(a));
    let line = a.push(58) + b;
    law_lines_about_others_are_passed_over(others, line.push(10) + more, name);
    assert(!line.contains(10)) by {
        assert forall|i: int| 0 <= i < line.len() implies line[i] != 10 by {
            if i < a.len() {
                assert(a.contains(a[i]));
            } else if i > a.len() {
                assert(line[i] == b[i - a.len() - 1]);
                assert(b.contains(b[i - a.len() - 1]));
            }
        }
    }
    law_newline_ends_a_line(line, more);
    let last = without_return(b);
    assert(!last.contains(58)) by {
        assert forall|i: int| 0 <= i < last.len() implies last[i] != 58 by {
            assert(b.contains(b[i]));
        }
    }
    if b.len() == 0 {
        assert(line.last() == 58);
    } else {
        assert(line.last() == b.last());
    }
    assert(without_return(line) =~= a.push(58) + last);
    law_colon_ends_a_field(a, last);
    law_colon_ends_a_field(last, more);
    assert(lines(line.push(10) + more)[0] == without_return(line));
    assert(fields(without_return(line)).len() == 2);
}

/// A file that is not text gives no user ID.
pub proof fn law_file_is_text(file: Seq<u8>, name: Seq<u8>)
    requires
        !valid_utf8(file),
    ensures
        uid_of(file, name) is None,
{
}

} // verus!
