//! Unix paths as text, taken apart into components the way `std::path::Path` does: repeated slashes
//! and `.` components do not count, except a leading `.`.

use vstd::prelude::*;
use vstd::string::*;

use crate::text::{chars_of, text_of};

verus! {

/// One component of a path.
pub enum Part {
    Root,
    Here,
    Name(Seq<char>),
}

/// The position of the first slash, or the length.
pub open spec fn first_slash(s: Seq<char>) -> nat
    decreases s.len(),
{
    if s.len() == 0 || s[0] == '/' {
        0
    } else {
        1 + first_slash(s.skip(1))
    }
}

/// What follows the last slash, or the whole text.
pub open spec fn last_name(s: Seq<char>) -> Seq<char>
    decreases s.len(),
{
    if s.len() == 0 || s.last() == '/' {
        Seq::empty()
    } else {
        last_name(s.drop_last()).push(s.last())
    }
}

/// A name that does not count as a component.
pub open spec fn skipped(name: Seq<char>) -> bool {
    name.len() == 0 || name == seq!['.']
}

/// The text from its first component on.
pub open spec fn from_first_part(s: Seq<char>) -> Seq<char>
    decreases s.len(),
    via first_slash_decreases
{
    if s.len() == 0 || !skipped(s.take(first_slash(s) as int)) {
        s
    } else if first_slash(s) < s.len() {
        from_first_part(s.skip(first_slash(s) as int + 1))
    } else {
        Seq::empty()
    }
}

#[via_fn]
proof fn first_slash_decreases(s: Seq<char>) {
    slash_bounds(s);
}

proof fn slash_bounds(s: Seq<char>)
    ensures
        first_slash(s) <= s.len(),
    decreases s.len(),
{
    if s.len() > 0 && s[0] != '/' {
        slash_bounds(s.skip(1));
    }
}

/// The text up to its last component.
pub open spec fn to_last_part(s: Seq<char>) -> Seq<char>
    decreases s.len(),
    via last_name_decreases
{
    if s.len() == 0 || !skipped(last_name(s)) {
        s
    } else if last_name(s).len() < s.len() {
        to_last_part(s.take(s.len() - last_name(s).len() - 1))
    } else {
        Seq::empty()
    }
}

#[via_fn]
proof fn last_name_decreases(s: Seq<char>) {
    name_bounds(s);
}

proof fn name_bounds(s: Seq<char>)
    ensures
        last_name(s).len() <= s.len(),
        last_name(s) == s.skip(s.len() - last_name(s).len()),
    decreases s.len(),
{
    if s.len() > 0 && s.last() != '/' {
        let most = s.drop_last();
        name_bounds(most);
        assert(last_name(s) =~= s.skip(s.len() - last_name(s).len()));
    } else {
        assert(last_name(s) =~= s.skip(s.len() - last_name(s).len()));
    }
}

/// The length of a leading slash or `.`, which the rest of the path follows.
pub open spec fn lead(s: Seq<char>) -> int {
    if s.len() > 0 && (s[0] == '/' || (s[0] == '.' && (s.len() == 1 || s[1] == '/'))) {
        1
    } else {
        0
    }
}

/// The first component and what follows it. Only the start of a path can have a root or a `.`.
pub open spec fn next_part(s: Seq<char>, start: bool) -> Option<(Part, Seq<char>)> {
    if start && lead(s) == 1 {
        Some(
            (
                if s[0] == '/' {
                    Part::Root
                } else {
                    Part::Here
                },
                s.skip(1),
            ),
        )
    } else {
        let rest = from_first_part(s);
        let n = first_slash(rest) as int;
        if rest.len() == 0 {
            None
        } else if n < rest.len() {
            Some((Part::Name(rest.take(n)), rest.skip(n + 1)))
        } else {
            Some((Part::Name(rest.take(n)), Seq::empty()))
        }
    }
}

/// What is left of a path, without leading and trailing parts that do not count.
pub open spec fn tidy(s: Seq<char>, start: bool) -> Seq<char> {
    if start {
        s.take(lead(s)) + to_last_part(s.skip(lead(s)))
    } else {
        to_last_part(from_first_part(s))
    }
}

/// What is left of `path` after the components of `base`, if it starts with them.
pub open spec fn stripped(path: Seq<char>, base: Seq<char>, start: bool) -> Option<Seq<char>>
    decreases base.len(),
    via stripped_decreases
{
    match next_part(base, start) {
        None => Some(tidy(path, start)),
        Some((part, base_rest)) => match next_part(path, start) {
            Some((other, path_rest)) => if part == other {
                stripped(path_rest, base_rest, false)
            } else {
                None
            },
            None => None,
        },
    }
}

#[via_fn]
proof fn stripped_decreases(path: Seq<char>, base: Seq<char>, start: bool) {
    next_is_shorter(base, start);
}

proof fn next_is_shorter(s: Seq<char>, start: bool)
    ensures
        next_part(s, start) matches Some((_, rest)) ==> rest.len() < s.len(),
{
    first_part_is_suffix(s);
    slash_bounds(from_first_part(s));
    if !(start && lead(s) == 1) {
        let rest = from_first_part(s);
        if rest.len() > 0 {
            assert(!skipped(rest.take(first_slash(rest) as int)));
        }
    }
}

proof fn first_part_is_suffix(s: Seq<char>)
    ensures
        from_first_part(s).len() <= s.len(),
        from_first_part(s) == s.skip(s.len() - from_first_part(s).len()),
        from_first_part(s).len() > 0 ==> !skipped(
            from_first_part(s).take(first_slash(from_first_part(s)) as int),
        ),
    decreases s.len(),
{
    slash_bounds(s);
    let n = first_slash(s) as int;
    if s.len() == 0 || !skipped(s.take(n)) {
        assert(s.skip(0) =~= s);
    } else if n < s.len() {
        let rest = s.skip(n + 1);
        first_part_is_suffix(rest);
        assert(from_first_part(s) =~= s.skip(s.len() - from_first_part(s).len()));
    } else {
        assert(s.skip(s.len() as int) =~= Seq::<char>::empty());
    }
}

/// The path that `base` and `rest` make together. An absolute `rest` replaces `base`.
pub open spec fn joined_path(base: Seq<char>, rest: Seq<char>) -> Seq<char> {
    if rest.len() > 0 && rest[0] == '/' {
        rest
    } else if base.len() > 0 && base.last() != '/' {
        base.push('/') + rest
    } else {
        base + rest
    }
}

/// The last component, if it is a name.
pub open spec fn name_of(path: Seq<char>) -> Option<Seq<char>> {
    let body = to_last_part(path.skip(lead(path)));
    if body.len() == 0 || last_name(body) == seq!['.', '.'] {
        None
    } else {
        Some(last_name(body))
    }
}

/// The position of the first slash from `from` on, or the length.
fn find_slash(s: &[char], from: usize) -> (at: usize)
    requires
        from <= s@.len(),
    ensures
        at == from + first_slash(s@.skip(from as int)),
        at <= s@.len(),
{
    let ghost whole = s@.skip(from as int);
    let mut at: usize = from;
    while at < s.len() && s[at] != '/'
        invariant
            from <= at <= s@.len(),
            whole == s@.skip(from as int),
            first_slash(whole) == (at - from) + first_slash(s@.skip(at as int)),
        decreases s@.len() - at,
    {
        assert(s@.skip(at as int).skip(1) =~= s@.skip(at + 1));
        at += 1;
    }
    at
}

/// True when the text between two positions does not count as a component.
fn is_skipped(s: &[char], from: usize, to: usize) -> (yes: bool)
    requires
        from <= to <= s@.len(),
    ensures
        yes == skipped(s@.subrange(from as int, to as int)),
{
    let ghost name = s@.subrange(from as int, to as int);
    if to - from == 1 && s[from] == '.' {
        assert(name =~= seq!['.']);
        true
    } else {
        assert(name.len() == 1 ==> name[0] == s@[from as int]);
        to == from
    }
}

/// The position of the first component from `from` on.
fn find_first_part(s: &[char], from: usize) -> (at: usize)
    requires
        from <= s@.len(),
    ensures
        from <= at <= s@.len(),
        s@.skip(at as int) == from_first_part(s@.skip(from as int)),
{
    let ghost whole = s@.skip(from as int);
    let mut at: usize = from;
    while at < s.len()
        invariant
            from <= at <= s@.len(),
            whole == s@.skip(from as int),
            from_first_part(whole) == from_first_part(s@.skip(at as int)),
        decreases s@.len() - at,
    {
        let ghost tail = s@.skip(at as int);
        let end: usize = find_slash(s, at);
        assert(tail.take(end - at) =~= s@.subrange(at as int, end as int));
        if !is_skipped(s, at, end) {
            return at;
        }
        if end < s.len() {
            assert(tail.skip(end - at + 1) =~= s@.skip(end + 1));
            at = end + 1;
        } else {
            assert(s@.skip(s@.len() as int) =~= Seq::<char>::empty());
            return s.len();
        }
    }
    at
}

/// Where the last component up to `to` starts.
fn find_last_name(s: &[char], from: usize, to: usize) -> (at: usize)
    requires
        from <= to <= s@.len(),
    ensures
        from <= at <= to,
        s@.subrange(at as int, to as int) == last_name(s@.subrange(from as int, to as int)),
{
    let ghost whole = s@.subrange(from as int, to as int);
    let mut at: usize = to;
    assert(s@.subrange(from as int, at as int) =~= whole);
    assert(last_name(s@.subrange(from as int, at as int)) + s@.subrange(at as int, to as int)
        =~= last_name(whole));
    while at > from && s[at - 1] != '/'
        invariant
            from <= at <= to <= s@.len(),
            whole == s@.subrange(from as int, to as int),
            last_name(s@.subrange(from as int, at as int)) + s@.subrange(at as int, to as int)
                == last_name(whole),
        decreases at,
    {
        let ghost part = s@.subrange(from as int, at as int);
        assert(part.drop_last() =~= s@.subrange(from as int, at - 1));
        assert(part.last() == s@[at - 1]);
        assert(last_name(part.drop_last()).push(part.last()) + s@.subrange(at as int, to as int)
            =~= last_name(part.drop_last()) + s@.subrange(at - 1, to as int));
        at -= 1;
    }
    assert(last_name(s@.subrange(from as int, at as int)) =~= Seq::<char>::empty());
    assert(last_name(whole) =~= s@.subrange(at as int, to as int));
    at
}

/// Where the last component between two positions ends.
fn find_last_part(s: &[char], from: usize, to: usize) -> (at: usize)
    requires
        from <= to <= s@.len(),
    ensures
        from <= at <= to,
        s@.subrange(from as int, at as int) == to_last_part(s@.subrange(from as int, to as int)),
{
    let ghost whole = s@.subrange(from as int, to as int);
    let mut at: usize = to;
    while at > from
        invariant
            from <= at <= to <= s@.len(),
            whole == s@.subrange(from as int, to as int),
            to_last_part(whole) == to_last_part(s@.subrange(from as int, at as int)),
        decreases at,
    {
        let ghost part = s@.subrange(from as int, at as int);
        let begin: usize = find_last_name(s, from, at);
        if !is_skipped(s, begin, at) {
            return at;
        }
        if begin > from {
            assert(part.take(part.len() - last_name(part).len() - 1) =~= s@.subrange(
                from as int,
                begin - 1,
            ));
            at = begin - 1;
        } else {
            assert(s@.subrange(from as int, from as int) =~= Seq::<char>::empty());
            return from;
        }
    }
    at
}

/// The length of a leading slash or `.`.
fn lead_length(s: &[char]) -> (n: usize)
    ensures
        n == lead(s@),
        n <= s@.len(),
{
    if s.len() > 0 && (s[0] == '/' || (s[0] == '.' && (s.len() == 1 || s[1] == '/'))) {
        1
    } else {
        0
    }
}

/// True when two texts hold the same characters between the given positions.
fn same_name(a: &[char], a_from: usize, a_to: usize, b: &[char], b_from: usize, b_to: usize) -> (
    same: bool)
    requires
        a_from <= a_to <= a@.len(),
        b_from <= b_to <= b@.len(),
    ensures
        same == (a@.subrange(a_from as int, a_to as int) == b@.subrange(
            b_from as int,
            b_to as int,
        )),
{
    let ghost left = a@.subrange(a_from as int, a_to as int);
    let ghost right = b@.subrange(b_from as int, b_to as int);
    if a_to - a_from != b_to - b_from {
        assert(left.len() != right.len());
        return false;
    }
    let count: usize = a_to - a_from;
    for i in 0..count
        invariant
            a_from + count == a_to,
            b_from + count == b_to,
            a_to <= a@.len(),
            b_to <= b@.len(),
            left == a@.subrange(a_from as int, a_to as int),
            right == b@.subrange(b_from as int, b_to as int),
            forall|j: int| 0 <= j < i ==> left[j] == right[j],
    {
        if a[a_from + i] != b[b_from + i] {
            assert(left[i as int] != right[i as int]);
            return false;
        }
    }
    assert(left =~= right);
    true
}

/// Removes the components of `base` from the front of `path`, like `Path::strip_prefix`.
pub fn strip_prefix(path: &str, base: &str) -> (rest: Option<String>)
    ensures
        rest is Some <==> stripped(path@, base@, true) is Some,
        rest matches Some(r) ==> stripped(path@, base@, true) == Some(r@),
{
    let p = chars_of(path);
    let b = chars_of(base);
    let p_lead: usize = lead_length(&p);
    let b_lead: usize = lead_length(&b);
    assert(p@.skip(0) =~= p@);
    assert(b@.skip(0) =~= b@);
    let mut i: usize = 0;
    let mut j: usize = 0;
    let mut start = true;
    if b_lead == 1 {
        if p_lead != 1 || p[0] != b[0] {
            proof {
                if p_lead == 1 {
                    assert((next_part(p@, true)->0).0 != (next_part(b@, true)->0).0);
                } else if next_part(p@, true) is Some {
                    assert((next_part(p@, true)->0).0 is Name);
                }
            }
            return None;
        }
        i = 1;
        j = 1;
        start = false;
    } else if p_lead == 1 {
        let first: usize = find_first_part(&b, 0);
        if first < b.len() {
            assert((next_part(b@, true)->0).0 is Name);
            return None;
        }
        let end: usize = find_last_part(&p, 1, p.len());
        let rest = text_of(&p, 0, end);
        proof {
            assert(p@.skip(1) =~= p@.subrange(1, p@.len() as int));
            assert(p@.subrange(0, end as int) =~= p@.take(1) + p@.subrange(1, end as int));
            assert(from_first_part(b@).len() == 0);
        }
        return Some(rest);
    }
    while j < b.len()
        invariant
            i <= p@.len(),
            j <= b@.len(),
            stripped(path@, base@, true) == stripped(p@.skip(i as int), b@.skip(j as int), start),
            start ==> i == 0 && lead(p@) == 0 && lead(b@.skip(j as int)) == 0,
        decreases b@.len() - j,
    {
        let ghost p_tail = p@.skip(i as int);
        let ghost b_tail = b@.skip(j as int);
        let b_from: usize = find_first_part(&b, j);
        if b_from == b.len() {
            assert(from_first_part(b_tail).len() == 0);
            j = b.len();
            assert(from_first_part(b@.skip(j as int)).len() == 0);
            assert(next_part(b_tail, start) is None);
        } else {
            let p_from: usize = find_first_part(&p, i);
            if p_from == p.len() {
                assert(from_first_part(p_tail).len() == 0);
                return None;
            }
            let b_to: usize = find_slash(&b, b_from);
            let p_to: usize = find_slash(&p, p_from);
            assert(b@.skip(b_from as int).take(b_to - b_from) =~= b@.subrange(
                b_from as int,
                b_to as int,
            ));
            assert(p@.skip(p_from as int).take(p_to - p_from) =~= p@.subrange(
                p_from as int,
                p_to as int,
            ));
            if !same_name(&p, p_from, p_to, &b, b_from, b_to) {
                return None;
            }
            proof {
                if b_to < b@.len() {
                    assert(b@.skip(b_from as int).skip(b_to - b_from + 1) =~= b@.skip(b_to + 1));
                } else {
                    assert(b@.skip(b@.len() as int) =~= Seq::<char>::empty());
                }
                if p_to < p@.len() {
                    assert(p@.skip(p_from as int).skip(p_to - p_from + 1) =~= p@.skip(p_to + 1));
                } else {
                    assert(p@.skip(p@.len() as int) =~= Seq::<char>::empty());
                }
            }
            j = if b_to < b.len() {
                b_to + 1
            } else {
                b.len()
            };
            i = if p_to < p.len() {
                p_to + 1
            } else {
                p.len()
            };
            start = false;
        }
    }
    let ghost tail = p@.skip(i as int);
    assert(b@.skip(j as int).len() == 0);
    assert(next_part(b@.skip(j as int), start) is None);
    let from: usize = if start {
        i
    } else {
        find_first_part(&p, i)
    };
    let end: usize = find_last_part(&p, from, p.len());
    assert(p@.skip(from as int) =~= p@.subrange(from as int, p@.len() as int));
    proof {
        if start {
            assert(tail.take(0) + to_last_part(tail.skip(0)) =~= to_last_part(tail)) by {
                assert(tail.skip(0) =~= tail);
            }
        }
    }
    Some(text_of(&p, from, end))
}

/// Appends `rest` to `base`, like `Path::join`.
pub fn join_path(base: &str, rest: &str) -> (path: String)
    ensures
        path@ == joined_path(base@, rest@),
{
    let r = chars_of(rest);
    if r.len() > 0 && r[0] == '/' {
        return rest.to_owned();
    }
    let b = chars_of(base);
    let mut path = base.to_owned();
    if b.len() > 0 && b[b.len() - 1] != '/' {
        path.push('/');
    }
    path.append(rest);
    path
}

/// True for a path that starts at the root.
pub fn is_absolute(path: &str) -> (yes: bool)
    ensures
        yes == (path@.len() > 0 && path@[0] == '/'),
{
    let p = chars_of(path);
    p.len() > 0 && p[0] == '/'
}

/// The last component of a path, if it is a name, like `Path::file_name`.
pub fn file_name(path: &str) -> (name: Option<String>)
    ensures
        name is Some <==> name_of(path@) is Some,
        name matches Some(n) ==> name_of(path@) == Some(n@),
{
    let p = chars_of(path);
    let from: usize = lead_length(&p);
    let end: usize = find_last_part(&p, from, p.len());
    assert(p@.skip(from as int) =~= p@.subrange(from as int, p@.len() as int));
    if end == from {
        return None;
    }
    let at: usize = find_last_name(&p, from, end);
    let ghost name = p@.subrange(at as int, end as int);
    if end - at == 2 && p[at] == '.' && p[at + 1] == '.' {
        assert(name =~= seq!['.', '.']);
        return None;
    }
    assert(name.len() == 2 ==> name[0] == p@[at as int] && name[1] == p@[at + 1]);
    Some(text_of(&p, at, end))
}

/// A relative rest stands behind the base and a slash. An absolute one replaces the base.
pub proof fn a_relative_path_is_appended(base: Seq<char>, rest: Seq<char>)
    requires
        base.len() > 0,
    ensures
        rest.len() > 0 && rest[0] == '/' ==> joined_path(base, rest) == rest,
        !(rest.len() > 0 && rest[0] == '/') && base.last() != '/' ==> joined_path(base, rest)
            == base + seq!['/'] + rest,
        !(rest.len() > 0 && rest[0] == '/') && base.last() == '/' ==> joined_path(base, rest)
            == base + rest,
{
    assert(base.push('/') =~= base + seq!['/']);
}

/// A path whose ends count: it starts and ends with a component that is more than a dot.
pub open spec fn dark_ends(s: Seq<char>) -> bool {
    &&& s.len() > 0
    &&& s[0] != '/'
    &&& s.last() != '/'
    &&& !(s[0] == '.' && (s.len() == 1 || s[1] == '/'))
    &&& !(s.last() == '.' && (s.len() == 1 || s[s.len() - 2] == '/'))
}

proof fn dark_ends_stay(s: Seq<char>)
    requires
        dark_ends(s),
    ensures
        from_first_part(s) == s,
        to_last_part(s) == s,
        lead(s) == 0,
{
    slash_bounds(s);
    let first = s.take(first_slash(s) as int);
    assert(first_slash(s) > 0);
    slash_ends(s);
    if first == seq!['.'] {
        assert(first.len() == 1 && first[0] == '.');
        assert(s[0] == first[0]);
    }
    assert(!skipped(first));
    name_bounds(s);
    let last = last_name(s);
    assert(last == last_name(s.drop_last()).push(s.last()));
    if last == seq!['.'] {
        assert(last.len() == 1 && last[0] == '.');
        assert(last_name(s.drop_last()).len() == 0);
        assert(s.last() == last.last());
        if s.len() > 1 {
            assert(s.drop_last().last() == s[s.len() - 2]);
        }
    }
    assert(!skipped(last));
}

proof fn slash_ends(s: Seq<char>)
    ensures
        first_slash(s) < s.len() ==> s[first_slash(s) as int] == '/',
        forall|i: int| 0 <= i < first_slash(s) ==> #[trigger] s[i] != '/',
        first_slash(s) <= s.len(),
    decreases s.len(),
{
    if s.len() > 0 && s[0] != '/' {
        let rest = s.skip(1);
        slash_ends(rest);
        assert(first_slash(s) < s.len() ==> s[first_slash(s) as int] == rest[first_slash(
            rest,
        ) as int]);
        assert forall|i: int| 0 <= i < first_slash(s) implies #[trigger] s[i] != '/' by {
            if i > 0 {
                assert(s[i] == rest[i - 1]);
            }
        }
    }
}

proof fn slash_found(s: Seq<char>, n: nat)
    requires
        n <= s.len(),
        forall|i: int| 0 <= i < n ==> #[trigger] s[i] != '/',
        n < s.len() ==> s[n as int] == '/',
    ensures
        first_slash(s) == n,
    decreases n,
{
    if n > 0 {
        assert(s[0] != '/');
        let rest = s.skip(1);
        assert forall|i: int| 0 <= i < n - 1 implies #[trigger] rest[i] != '/' by {
            assert(rest[i] == s[i + 1]);
        }
        slash_found(rest, (n - 1) as nat);
    }
}

/// A leading `~` and a slash come off a path, and what follows stays as it is.
pub proof fn a_leading_tilde_comes_off(rest: Seq<char>)
    requires
        dark_ends(rest),
    ensures
        stripped(seq!['~', '/'] + rest, seq!['~'], true) == Some(rest),
{
    let path = seq!['~', '/'] + rest;
    let base = seq!['~'];
    slash_found(base, 1);
    assert(base.take(1) =~= base);
    assert(from_first_part(base) == base);
    assert(next_part(base, true) == Some((Part::Name(base), Seq::<char>::empty())));
    slash_found(path, 1);
    assert(path.take(1) =~= base);
    assert(from_first_part(path) == path);
    assert(path.skip(2) =~= rest);
    assert(next_part(path, true) == Some((Part::Name(base), rest)));
    dark_ends_stay(rest);
    assert(next_part(Seq::<char>::empty(), false) is None);
    assert(stripped(rest, Seq::<char>::empty(), false) == Some(rest));
}

/// A path that does not start with `~`, or with a `~` that more than a slash follows, keeps it.
pub proof fn another_start_stays(path: Seq<char>)
    requires
        path.len() > 0,
        path[0] != '~' || (path.len() > 1 && path[1] != '/'),
    ensures
        stripped(path, seq!['~'], true) is None,
{
    let base = seq!['~'];
    slash_found(base, 1);
    assert(base.take(1) =~= base);
    assert(next_part(base, true) == Some((Part::Name(base), Seq::<char>::empty())));
    if lead(path) == 0 {
        slash_ends(path);
        assert(first_slash(path) > 0);
        let name = path.take(first_slash(path) as int);
        if name == seq!['.'] {
            assert(name.len() == 1 && name[0] == '.');
            assert(path[0] == name[0]);
        }
        assert(!skipped(name));
        assert(from_first_part(path) == path);
        assert((next_part(path, true)->0).0 == Part::Name(name));
        assert(name[0] == path[0]);
        if name == base {
            assert(first_slash(path) == 1);
        }
    }
}

/// The name of a file is what follows the last slash of its path.
pub proof fn a_file_is_named_by_its_last_component(folder: Seq<char>, name: Seq<char>)
    requires
        name.len() > 0,
        forall|i: int| 0 <= i < name.len() ==> #[trigger] name[i] != '/',
        name != seq!['.'],
        name != seq!['.', '.'],
    ensures
        name_of(folder + seq!['/'] + name) == Some(name),
{
    let path = folder + seq!['/'] + name;
    let skip = lead(path);
    let body = path.skip(skip);
    if skip == 1 {
        assert(folder.len() == 0 || path[0] == folder[0]);
    }
    assert(body.len() >= name.len());
    assert(body.skip(body.len() - name.len()) =~= name);
    if body.len() > name.len() {
        assert(body[body.len() - name.len() - 1] == '/');
    }
    last_name_found(body, name);
    name_bounds(body);
}

proof fn last_name_found(s: Seq<char>, name: Seq<char>)
    requires
        name.len() <= s.len(),
        s.skip(s.len() - name.len()) == name,
        forall|i: int| 0 <= i < name.len() ==> #[trigger] name[i] != '/',
        s.len() > name.len() ==> s[s.len() - name.len() - 1] == '/',
    ensures
        last_name(s) == name,
    decreases name.len(),
{
    if name.len() == 0 {
        assert(last_name(s) =~= name);
    } else {
        let most = s.drop_last();
        let front = name.drop_last();
        assert(s.last() == s.skip(s.len() - name.len()).last());
        assert(s.last() != '/');
        assert(most.skip(most.len() - front.len()) =~= front);
        last_name_found(most, front);
        assert(last_name(s) =~= name);
    }
}

/// A folder comes off the front of a path below it, and what follows stays as it is.
pub proof fn a_folder_comes_off(folder: Seq<char>, rest: Seq<char>)
    requires
        folder.len() > 0,
        folder[0] == '/',
        dark_ends(rest),
    ensures
        stripped(folder + seq!['/'] + rest, folder, true) == Some(rest),
{
    let path = folder + seq!['/'] + rest;
    let below = folder.skip(1);
    assert(path[0] == '/');
    assert(path.skip(1) =~= below + seq!['/'] + rest);
    components_come_off(below, rest);
    assert(next_part(folder, true) == Some((Part::Root, below)));
    assert(next_part(path, true) == Some((Part::Root, path.skip(1))));
}

proof fn components_come_off(base: Seq<char>, rest: Seq<char>)
    requires
        dark_ends(rest),
    ensures
        stripped(base + seq!['/'] + rest, base, false) == Some(rest),
    decreases base.len(),
{
    let path = base + seq!['/'] + rest;
    let first = from_first_part(base);
    dark_ends_stay(rest);
    first_part_of_longer(base, rest);
    if first.len() > 0 {
        let longer = first + seq!['/'] + rest;
        slash_ends(first);
        first_part_is_suffix(base);
        let n = first_slash(first);
        assert forall|i: int| 0 <= i < n implies #[trigger] longer[i] != '/' by {
            assert(longer[i] == first[i]);
        }
        if n < first.len() {
            assert(longer[n as int] == first[n as int]);
        }
        slash_found(longer, n);
        assert(longer.take(n as int) =~= first.take(n as int));
        if n < first.len() {
            let after = first.skip(n as int + 1);
            assert(longer.skip(n as int + 1) =~= after + seq!['/'] + rest);
            components_come_off(after, rest);
            assert(next_part(base, false) == Some((Part::Name(first.take(n as int)), after)));
            assert(next_part(path, false) == Some(
                (Part::Name(first.take(n as int)), after + seq!['/'] + rest),
            ));
        } else {
            assert(longer.skip(n as int + 1) =~= rest);
            assert(next_part(base, false) == Some(
                (Part::Name(first.take(n as int)), Seq::<char>::empty()),
            ));
            assert(next_part(path, false) == Some((Part::Name(first.take(n as int)), rest)));
            assert(next_part(Seq::<char>::empty(), false) is None);
            assert(stripped(rest, Seq::<char>::empty(), false) == Some(rest));
        }
    }
}

proof fn first_part_of_longer(base: Seq<char>, rest: Seq<char>)
    ensures
        from_first_part(base).len() > 0 ==> from_first_part(base + seq!['/'] + rest)
            == from_first_part(base) + seq!['/'] + rest,
        from_first_part(base).len() == 0 ==> from_first_part(base + seq!['/'] + rest)
            == from_first_part(rest),
    decreases base.len(),
{
    let path = base + seq!['/'] + rest;
    slash_ends(base);
    let n = first_slash(base);
    assert forall|i: int| 0 <= i < n implies #[trigger] path[i] != '/' by {
        assert(path[i] == base[i]);
    }
    if n < base.len() {
        assert(path[n as int] == base[n as int]);
    }
    slash_found(path, n);
    assert(path.take(n as int) =~= base.take(n as int));
    if base.len() == 0 {
        assert(path.skip(1) =~= rest);
    } else if skipped(base.take(n as int)) {
        if n < base.len() {
            assert(path.skip(n as int + 1) =~= base.skip(n as int + 1) + seq!['/'] + rest);
            first_part_of_longer(base.skip(n as int + 1), rest);
        } else {
            assert(path.skip(n as int + 1) =~= rest);
        }
    }
}

/// Nothing comes off an empty path.
pub proof fn an_empty_path_stays()
    ensures
        stripped(Seq::empty(), seq!['~'], true) is None,
{
    let base = seq!['~'];
    slash_found(base, 1);
    assert(base.take(1) =~= base);
    assert(next_part(base, true) == Some((Part::Name(base), Seq::<char>::empty())));
    assert(next_part(Seq::<char>::empty(), true) is None);
}

/// A slash or a `.` at the end makes no difference to the name of a file. A path that ends in `..`, or
/// that is empty, names none.
pub proof fn only_the_last_name_counts(path: Seq<char>)
    requires
        path.len() > 0,
    ensures
        name_of(path.push('/')) == name_of(path),
        name_of(path + seq!['/', '.']) == name_of(path),
        name_of(path + seq!['/', '.', '.']) is None,
        name_of(Seq::empty()) is None,
        name_of(seq!['/']) is None,
{
    let skip = lead(path);
    let body = path.skip(skip);
    let slash = path.push('/');
    let dot = path + seq!['/', '.'];
    let up = path + seq!['/', '.', '.'];
    assert(lead(slash) == skip && lead(dot) == skip && lead(up) == skip);
    assert(slash.skip(skip) =~= body.push('/'));
    assert(last_name(body.push('/')) =~= Seq::<char>::empty());
    assert(body.push('/').take(body.len() as int) =~= body);
    assert(to_last_part(body.push('/')) == to_last_part(body));
    let ends = body + seq!['/', '.'];
    assert(dot.skip(skip) =~= ends);
    assert(ends.skip(ends.len() - 1) =~= seq!['.']);
    last_name_found(ends, seq!['.']);
    assert(ends.take(body.len() as int) =~= body);
    assert(to_last_part(ends) == to_last_part(body));
    let high = body + seq!['/', '.', '.'];
    assert(up.skip(skip) =~= high);
    assert(high.skip(high.len() - 2) =~= seq!['.', '.']);
    last_name_found(high, seq!['.', '.']);
    assert(seq!['.', '.'].len() != seq!['.'].len());
    assert(to_last_part(high) == high);
    assert(seq!['/'].skip(1) =~= Seq::<char>::empty());
    assert(Seq::<char>::empty().skip(0) =~= Seq::<char>::empty());
}

/// A base with another first component does not come off.
pub proof fn another_folder_stays(
    first: Seq<char>,
    second: Seq<char>,
    rest: Seq<char>,
    base_rest: Seq<char>,
)
    requires
        first != second,
        first.len() > 0 && first != seq!['.'],
        second.len() > 0 && second != seq!['.'],
        forall|i: int| 0 <= i < first.len() ==> #[trigger] first[i] != '/',
        forall|i: int| 0 <= i < second.len() ==> #[trigger] second[i] != '/',
        rest.len() > 0 ==> rest[0] == '/',
        base_rest.len() > 0 ==> base_rest[0] == '/',
    ensures
        stripped(seq!['/'] + first + rest, seq!['/'] + second + base_rest, true) is None,
{
    let path = seq!['/'] + first + rest;
    let base = seq!['/'] + second + base_rest;
    assert(path.skip(1) =~= first + rest);
    assert(base.skip(1) =~= second + base_rest);
    slash_found(first + rest, first.len());
    slash_found(second + base_rest, second.len());
    assert((first + rest).take(first.len() as int) =~= first);
    assert((second + base_rest).take(second.len() as int) =~= second);
    assert(next_part(path, true) == Some((Part::Root, first + rest)));
    assert(next_part(base, true) == Some((Part::Root, second + base_rest)));
    assert(next_part(first + rest, false) is Some && (next_part(first + rest, false)->0).0
        == Part::Name(first));
    assert(next_part(second + base_rest, false) is Some && (next_part(
        second + base_rest,
        false,
    )->0).0 == Part::Name(second));
    assert(stripped(first + rest, second + base_rest, false) is None);
}

} // verus!
