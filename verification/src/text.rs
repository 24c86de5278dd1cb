//! Text primitives: comparison, search, trimming, decimal numbers, and joining.

use vstd::prelude::*;
use vstd::std_specs::iter::IteratorSpec;
use vstd::string::*;

verus! {

/// `String::push` appends one character to the end of the string.
pub assume_specification[ String::push ](s: &mut String, c: char)
    ensures
        final(s)@ == old(s)@.push(c),
;

/// True when both texts hold the same characters. Keeps no copy of either.
pub fn text_eq(a: &str, b: &str) -> (same: bool)
    ensures
        same == (a@ == b@),
{
    let mut left = a.chars();
    let mut right = b.chars();
    let ghost mut n: int = 0;
    assert(a@.skip(0) == a@);
    assert(b@.skip(0) == b@);
    loop
        invariant
            0 <= n <= a@.len(),
            n <= b@.len(),
            left.obeys_prophetic_iter_laws(),
            right.obeys_prophetic_iter_laws(),
            left.remaining() == a@.skip(n),
            right.remaining() == b@.skip(n),
            forall|i: int| 0 <= i < n ==> a@[i] == b@[i],
        decreases a@.len() - n,
    {
        let x = left.next();
        let y = right.next();
        match (x, y) {
            (None, None) => {
                assert(a@ =~= b@);
                return true;
            },
            (Some(c), Some(d)) => {
                if c != d {
                    assert(a@[n] != b@[n]);
                    return false;
                }
                assert(a@.skip(n).drop_first() == a@.skip(n + 1));
                assert(b@.skip(n).drop_first() == b@.skip(n + 1));
                proof {
                    n = n + 1;
                }
            },
            _ => {
                assert(a@.len() != b@.len());
                return false;
            },
        }
    }
}

/// True when both slices hold the same bytes.
pub fn bytes_eq(a: &[u8], b: &[u8]) -> (same: bool)
    ensures
        same == (a@ == b@),
{
    if a.len() != b.len() {
        return false;
    }
    for i in 0..a.len()
        invariant
            a@.len() == b@.len(),
            forall|j: int| 0 <= j < i ==> a@[j] == b@[j],
    {
        if a[i] != b[i] {
            return false;
        }
    }
    assert(a@ =~= b@);
    true
}

/// A copy of the bytes.
pub fn bytes_to_vec(a: &[u8]) -> (v: Vec<u8>)
    ensures
        v@ == a@,
{
    let mut v: Vec<u8> = Vec::new();
    for i in 0..a.len()
        invariant
            v@ == a@.take(i as int),
    {
        v.push(a[i]);
        assert(a@.take(i + 1) =~= a@.take(i as int).push(a@[i as int]));
    }
    assert(a@.take(a@.len() as int) =~= a@);
    v
}

/// The characters of a text.
pub fn chars_of(s: &str) -> (v: Vec<char>)
    ensures
        v@ == s@,
{
    let mut v: Vec<char> = Vec::new();
    for c in it: s.chars()
        invariant
            v@ == it.seq().take(it.index() as int),
            it.seq() == s@,
    {
        v.push(c);
    }
    v
}

/// The text made of the characters from `from` up to `to`.
pub fn text_of(chars: &[char], from: usize, to: usize) -> (s: String)
    requires
        from <= to <= chars@.len(),
    ensures
        s@ == chars@.subrange(from as int, to as int),
{
    let mut s = String::new();
    for i in from..to
        invariant
            from <= to <= chars@.len(),
            s@ == chars@.subrange(from as int, i as int),
    {
        s.push(chars[i]);
        assert(chars@.subrange(from as int, i + 1) =~= chars@.subrange(from as int, i as int).push(
            chars@[i as int],
        ));
    }
    s
}

/// `part` stands in `whole` at position `at`.
pub open spec fn stands_at(whole: Seq<char>, part: Seq<char>, at: int) -> bool {
    0 <= at && at + part.len() <= whole.len() && whole.subrange(at, at + part.len()) == part
}

/// `part` stands somewhere in `whole`.
pub open spec fn has_part(whole: Seq<char>, part: Seq<char>) -> bool {
    exists|at: int| stands_at(whole, part, at)
}

/// True when `part` stands in `whole` at position `at`.
fn part_at(whole: &[char], part: &[char], at: usize) -> (found: bool)
    requires
        at + part@.len() <= whole@.len(),
    ensures
        found == stands_at(whole@, part@, at as int),
{
    let length = whole.len();
    for i in 0..part.len()
        invariant
            length == whole@.len(),
            at + part@.len() <= length,
            forall|j: int| 0 <= j < i ==> whole@[at + j] == part@[j],
    {
        if whole[at + i] != part[i] {
            assert(whole@.subrange(at as int, at + part@.len())[i as int] != part@[i as int]);
            return false;
        }
    }
    assert(whole@.subrange(at as int, at + part@.len()) =~= part@);
    true
}

/// True when `part` stands somewhere in `whole`.
pub fn contains(whole: &str, part: &str) -> (found: bool)
    ensures
        found == has_part(whole@, part@),
{
    let w = chars_of(whole);
    let p = chars_of(part);
    if p.len() > w.len() {
        return false;
    }
    let last: usize = w.len() - p.len();
    let mut at: usize = 0;
    while at <= last
        invariant
            w@ == whole@,
            p@ == part@,
            last == w@.len() - p@.len(),
            at <= last + 1,
            forall|j: int| 0 <= j < at ==> !stands_at(whole@, part@, j),
        decreases last + 1 - at,
    {
        if part_at(&w, &p, at) {
            return true;
        }
        if at == last {
            assert(forall|j: int| stands_at(whole@, part@, j) ==> 0 <= j <= last);
            return false;
        }
        at = at + 1;
    }
    false
}

/// True when `whole` starts with `part`.
pub fn starts_with(whole: &str, part: &str) -> (found: bool)
    ensures
        found == part@.is_prefix_of(whole@),
{
    let w = chars_of(whole);
    let p = chars_of(part);
    if p.len() > w.len() {
        return false;
    }
    part_at(&w, &p, 0)
}

/// True when `whole` ends with `part`.
pub fn ends_with(whole: &str, part: &str) -> (found: bool)
    ensures
        found == part@.is_suffix_of(whole@),
{
    let w = chars_of(whole);
    let p = chars_of(part);
    if p.len() > w.len() {
        return false;
    }
    part_at(&w, &p, w.len() - p.len())
}

/// The characters with Unicode's White_Space property.
pub open spec fn is_space(c: char) -> bool {
    ||| '\u{9}' <= c <= '\u{d}'
    ||| c == ' '
    ||| c == '\u{85}'
    ||| c == '\u{a0}'
    ||| c == '\u{1680}'
    ||| '\u{2000}' <= c <= '\u{200a}'
    ||| c == '\u{2028}'
    ||| c == '\u{2029}'
    ||| c == '\u{202f}'
    ||| c == '\u{205f}'
    ||| c == '\u{3000}'
}

/// True when `c` is white space.
fn space(c: char) -> (yes: bool)
    ensures
        yes == is_space(c),
{
    ('\u{9}' <= c && c <= '\u{d}') || c == ' ' || c == '\u{85}' || c == '\u{a0}' || c == '\u{1680}'
        || ('\u{2000}' <= c && c <= '\u{200a}') || c == '\u{2028}' || c == '\u{2029}' || c
        == '\u{202f}' || c == '\u{205f}' || c == '\u{3000}'
}

/// The text without its leading white space.
pub open spec fn trimmed_front(s: Seq<char>) -> Seq<char>
    decreases s.len(),
{
    if s.len() > 0 && is_space(s[0]) {
        trimmed_front(s.skip(1))
    } else {
        s
    }
}

/// The text without its trailing white space.
pub open spec fn trimmed_back(s: Seq<char>) -> Seq<char>
    decreases s.len(),
{
    if s.len() > 0 && is_space(s.last()) {
        trimmed_back(s.drop_last())
    } else {
        s
    }
}

/// The text without leading and trailing white space.
pub open spec fn trimmed(s: Seq<char>) -> Seq<char> {
    trimmed_back(trimmed_front(s))
}

/// A copy of the text without leading and trailing white space.
pub fn trim(s: &str) -> (t: String)
    ensures
        t@ == trimmed(s@),
{
    let c = chars_of(s);
    let mut from: usize = 0;
    assert(c@.skip(0) =~= c@);
    while from < c.len() && space(c[from])
        invariant
            from <= c@.len(),
            trimmed_front(c@) == trimmed_front(c@.skip(from as int)),
        decreases c@.len() - from,
    {
        assert(c@.skip(from as int).skip(1) =~= c@.skip(from + 1));
        from = from + 1;
    }
    let ghost front = c@.skip(from as int);
    assert(trimmed_front(c@) == front);
    let mut to: usize = c.len();
    assert(c@.subrange(from as int, to as int) =~= front);
    while from < to && space(c[to - 1])
        invariant
            from <= to <= c@.len(),
            trimmed_back(front) == trimmed_back(c@.subrange(from as int, to as int)),
        decreases to,
    {
        assert(c@.subrange(from as int, to as int).drop_last() =~= c@.subrange(
            from as int,
            to - 1,
        ));
        to = to - 1;
    }
    text_of(&c, from, to)
}

/// A trimmed text neither starts nor ends with white space.
pub proof fn trimmed_has_no_outer_space(s: Seq<char>)
    ensures
        trimmed(s).len() > 0 ==> !is_space(trimmed(s)[0]) && !is_space(trimmed(s).last()),
{
    front_starts_dark(s);
    let f = trimmed_front(s);
    back_keeps_front(f);
}

proof fn front_starts_dark(s: Seq<char>)
    ensures
        trimmed_front(s).len() > 0 ==> !is_space(trimmed_front(s)[0]),
    decreases s.len(),
{
    if s.len() > 0 && is_space(s[0]) {
        front_starts_dark(s.skip(1));
    }
}

proof fn back_keeps_front(s: Seq<char>)
    ensures
        trimmed_back(s).len() > 0 ==> trimmed_back(s)[0] == s[0] && !is_space(
            trimmed_back(s).last(),
        ),
    decreases s.len(),
{
    if s.len() > 0 && is_space(s.last()) {
        back_keeps_front(s.drop_last());
    }
}

/// The digit `d` as a character.
pub open spec fn digit_char(d: int) -> char {
    ('0' as int + d) as char
}

/// The number in decimal, without leading zeros.
pub open spec fn decimal_text(n: nat) -> Seq<char>
    decreases n,
{
    if n < 10 {
        seq![digit_char(n as int)]
    } else {
        decimal_text(n / 10).push(digit_char((n % 10) as int))
    }
}

/// A digit below ten as a character.
fn digit(d: u64) -> (c: char)
    requires
        d < 10,
    ensures
        c == digit_char(d as int),
{
    let c: u8 = 48u8 + d as u8;
    c as char
}

/// The number in decimal.
pub fn decimal(n: u64) -> (s: String)
    ensures
        s@ == decimal_text(n as nat),
    decreases n,
{
    if n < 10 {
        let mut s = String::new();
        s.push(digit(n));
        assert(s@ =~= decimal_text(n as nat));
        s
    } else {
        let mut s = decimal(n / 10);
        s.push(digit(n % 10));
        s
    }
}

/// An integer in decimal, with a minus sign when it is negative.
pub open spec fn integer_text(n: int) -> Seq<char> {
    if n < 0 {
        seq!['-'] + decimal_text((-n) as nat)
    } else {
        decimal_text(n as nat)
    }
}

/// The integer in decimal.
pub fn integer(n: i64) -> (s: String)
    ensures
        s@ == integer_text(n as int),
{
    if n >= 0 {
        decimal(n as u64)
    } else {
        let mut s = String::new();
        s.push('-');
        let magnitude: u64 = if n == i64::MIN {
            9223372036854775808u64
        } else {
            (-n) as u64
        };
        s.append(decimal(magnitude).as_str());
        assert(s@ =~= integer_text(n as int));
        s
    }
}

/// `c` is one of the digits 0 to 9.
pub open spec fn is_digit(c: char) -> bool {
    '0' <= c <= '9'
}

/// The number that a run of digits names.
pub open spec fn digits_value(s: Seq<char>) -> nat
    decreases s.len(),
{
    if s.len() == 0 {
        0
    } else {
        digits_value(s.drop_last()) * 10 + (s.last() as nat - '0' as nat) as nat
    }
}

/// `s` is a nonempty run of digits.
pub open spec fn all_digits(s: Seq<char>) -> bool {
    s.len() > 0 && forall|i: int| 0 <= i < s.len() ==> is_digit(#[trigger] s[i])
}

/// The digits of an unsigned number: the text after an optional plus sign.
pub open spec fn unsigned_digits(s: Seq<char>) -> Seq<char> {
    if s.len() > 0 && s[0] == '+' {
        s.skip(1)
    } else {
        s
    }
}

/// The unsigned 64-bit number that a text writes out, if it writes one.
pub open spec fn parsed_u64(s: Seq<char>) -> Option<u64> {
    let d = unsigned_digits(s);
    if all_digits(d) && digits_value(d) <= u64::MAX {
        Some(digits_value(d) as u64)
    } else {
        None
    }
}

/// Reads an unsigned number: digits after an optional plus sign, nothing else.
pub fn parse_u64(s: &str) -> (n: Option<u64>)
    ensures
        n == parsed_u64(s@),
{
    let c = chars_of(s);
    let from: usize = if c.len() > 0 && c[0] == '+' {
        1
    } else {
        0
    };
    let ghost d = unsigned_digits(s@);
    assert(d =~= c@.skip(from as int));
    if c.len() == from {
        return None;
    }
    let mut value: u64 = 0;
    let mut fits: bool = true;
    for i in from..c.len()
        invariant
            c@ == s@,
            d == unsigned_digits(s@),
            d == c@.skip(from as int),
            from <= c@.len(),
            forall|j: int| 0 <= j < i - from ==> is_digit(#[trigger] d[j]),
            fits ==> value == digits_value(d.take(i - from)),
            !fits ==> digits_value(d.take(i - from)) > u64::MAX,
    {
        if c[i] < '0' || c[i] > '9' {
            assert(0 <= i - from < d.len() && !is_digit(d[i - from]));
            assert(!all_digits(d));
            return None;
        }
        assert(is_digit(d[i - from]));
        assert(d.take(i + 1 - from).drop_last() =~= d.take(i - from));
        let add: u64 = c[i] as u64 - '0' as u64;
        if fits {
            if value > (u64::MAX - add) / 10 {
                assert(digits_value(d.take(i + 1 - from)) == value * 10 + add);
                fits = false;
            } else {
                value = value * 10 + add;
            }
        }
    }
    assert(d.take(d.len() as int) =~= d);
    if fits {
        Some(value)
    } else {
        None
    }
}

/// Writing a number and reading it back yields the number.
pub proof fn decimal_reads_back(n: u64)
    ensures
        parsed_u64(decimal_text(n as nat)) == Some(n),
{
    decimal_is_digits(n as nat);
    let t = decimal_text(n as nat);
    assert(is_digit(t[0]));
    assert(unsigned_digits(t) == t);
}

proof fn decimal_is_digits(n: nat)
    ensures
        all_digits(decimal_text(n)),
        digits_value(decimal_text(n)) == n,
    decreases n,
{
    if n < 10 {
        let t = decimal_text(n);
        assert(t.drop_last() =~= Seq::<char>::empty());
        assert(is_digit(t[0]));
        assert(digits_value(t.drop_last()) == 0);
        assert(t.last() as nat - '0' as nat == n);
    } else {
        decimal_is_digits(n / 10);
        let t = decimal_text(n);
        assert(t.drop_last() =~= decimal_text(n / 10));
        assert(t.last() as nat - '0' as nat == n % 10);
        assert forall|i: int| 0 <= i < t.len() implies is_digit(#[trigger] t[i]) by {
            if i < t.len() - 1 {
                assert(t[i] == decimal_text(n / 10)[i]);
            }
        }
    }
}

/// The texts with `separator` between them.
pub open spec fn joined(items: Seq<Seq<char>>, separator: Seq<char>) -> Seq<char>
    decreases items.len(),
{
    if items.len() == 0 {
        Seq::empty()
    } else if items.len() == 1 {
        items[0]
    } else {
        joined(items.drop_last(), separator) + separator + items.last()
    }
}

/// The characters of each text.
pub open spec fn texts(items: Seq<String>) -> Seq<Seq<char>> {
    items.map_values(|s: String| s@)
}

/// Three texts in a row.
pub fn concat(a: &str, b: &str, c: &str) -> (s: String)
    ensures
        s@ == a@ + b@ + c@,
{
    let mut s = a.to_owned();
    s.append(b);
    s.append(c);
    s
}

/// The texts with `separator` between them.
pub fn join(items: &[String], separator: &str) -> (s: String)
    ensures
        s@ == joined(texts(items@), separator@),
{
    let mut s = String::new();
    let ghost all = texts(items@);
    assert(all.take(0) =~= Seq::<Seq<char>>::empty());
    for i in 0..items.len()
        invariant
            all == texts(items@),
            s@ == joined(all.take(i as int), separator@),
    {
        if i > 0 {
            s.append(separator);
        }
        s.append(items[i].as_str());
        assert(all.take(i + 1).drop_last() =~= all.take(i as int));
        assert(all.take(i + 1).last() == items@[i as int]@);
        assert(s@ =~= joined(all.take(i + 1), separator@));
    }
    assert(all.take(all.len() as int) =~= all);
    s
}

/// `a` comes before `b` in the order of their characters, or is equal to it.
pub open spec fn text_le(a: Seq<char>, b: Seq<char>) -> bool
    decreases a.len(),
{
    if a.len() == 0 {
        true
    } else if b.len() == 0 {
        false
    } else if a[0] != b[0] {
        a[0] < b[0]
    } else {
        text_le(a.skip(1), b.skip(1))
    }
}

/// The texts stand in order.
pub open spec fn in_order(items: Seq<Seq<char>>) -> bool {
    forall|i: int, j: int|
        0 <= i <= j < items.len() ==> text_le(#[trigger] items[i], #[trigger] items[j])
}

proof fn text_le_refl(a: Seq<char>)
    ensures
        text_le(a, a),
    decreases a.len(),
{
    if a.len() > 0 {
        text_le_refl(a.skip(1));
    }
}

proof fn text_le_total(a: Seq<char>, b: Seq<char>)
    ensures
        text_le(a, b) || text_le(b, a),
    decreases a.len(),
{
    if a.len() > 0 && b.len() > 0 {
        text_le_total(a.skip(1), b.skip(1));
    }
}

proof fn text_le_chain(a: Seq<char>, b: Seq<char>, c: Seq<char>)
    requires
        text_le(a, b),
        text_le(b, c),
    ensures
        text_le(a, c),
    decreases a.len(),
{
    if a.len() > 0 && b.len() > 0 && c.len() > 0 && a[0] == b[0] && b[0] == c[0] {
        text_le_chain(a.skip(1), b.skip(1), c.skip(1));
    }
}

/// True when `a` comes before `b` in the order of their characters, or is equal to it.
fn comes_first(a: &str, b: &str) -> (yes: bool)
    ensures
        yes == text_le(a@, b@),
{
    let x = chars_of(a);
    let y = chars_of(b);
    let mut i: usize = 0;
    assert(x@.skip(0) =~= x@);
    assert(y@.skip(0) =~= y@);
    while i < x.len()
        invariant
            i <= x@.len(),
            i <= y@.len(),
            x@ == a@,
            y@ == b@,
            text_le(x@, y@) == text_le(x@.skip(i as int), y@.skip(i as int)),
        decreases x@.len() - i,
    {
        if i >= y.len() {
            return false;
        }
        if x[i] != y[i] {
            return x[i] < y[i];
        }
        assert(x@.skip(i as int).skip(1) =~= x@.skip(i + 1));
        assert(y@.skip(i as int).skip(1) =~= y@.skip(i + 1));
        i += 1;
    }
    true
}

/// Inserts a text where it keeps the order.
pub fn insert_in_order(items: &mut Vec<String>, item: String)
    requires
        in_order(texts(old(items)@)),
    ensures
        in_order(texts(final(items)@)),
        texts(final(items)@).to_multiset() == texts(old(items)@).to_multiset().insert(item@),
{
    let ghost before = texts(items@);
    let mut at: usize = items.len();
    while at > 0 && !comes_first(items[at - 1].as_str(), item.as_str())
        invariant
            at <= items@.len(),
            before == texts(items@),
            forall|i: int| at <= i < before.len() ==> text_le(item@, #[trigger] before[i]),
        decreases at,
    {
        assert(items@[at - 1]@ == before[at - 1]);
        proof {
            text_le_total(item@, before[at - 1]);
        }
        at -= 1;
    }
    proof {
        if at > 0 {
            assert(text_le(before[at - 1], item@)) by {
                assert(items@[at - 1]@ == before[at - 1]);
            }
        }
    }
    let ghost word = item@;
    items.insert(at, item);
    proof {
        let after = texts(items@);
        assert(after =~= before.insert(at as int, word));
        assert(after.remove(at as int) =~= before);
        vstd::seq_lib::to_multiset_remove(after, at as int);
        vstd::seq_lib::to_multiset_contains(after, word);
        assert(after.contains(word)) by {
            assert(after[at as int] == word);
        }
        assert(after.to_multiset() =~= before.to_multiset().insert(word));
        assert forall|i: int, j: int| 0 <= i <= j < after.len() implies text_le(
            #[trigger] after[i],
            #[trigger] after[j],
        ) by {
            if i == j {
                text_le_refl(after[i]);
            } else if j == at {
                assert(after[i] == before[i]);
                assert(text_le(before[i], before[at - 1]));
                text_le_chain(before[i], before[at - 1], word);
            } else if i == at {
                assert(after[j] == before[j - 1]);
            } else {
                let a = if i < at {
                    i
                } else {
                    i - 1
                };
                let b = if j < at {
                    j
                } else {
                    j - 1
                };
                assert(after[i] == before[a] && after[j] == before[b]);
            }
        }
    }
}

/// Trimming takes white space off both ends and nothing else: what it takes is all white space, and a
/// text whose ends are dark stays as it is.
pub proof fn only_outer_space_is_trimmed(s: Seq<char>)
    ensures
        exists|from: int, to: int|
            0 <= from <= to <= s.len() && trimmed(s) == s.subrange(from, to) && (forall|i: int|
                0 <= i < from ==> is_space(#[trigger] s[i])) && (forall|i: int|
                to <= i < s.len() ==> is_space(#[trigger] s[i])),
        s.len() > 0 && !is_space(s[0]) && !is_space(s.last()) ==> trimmed(s) == s,
        (forall|i: int| 0 <= i < s.len() ==> is_space(#[trigger] s[i])) <==> trimmed(s).len() == 0,
{
    front_is_a_suffix(s);
    let f = trimmed_front(s);
    back_is_a_prefix(f);
    let t = trimmed(s);
    let from = s.len() - f.len();
    let to = from + t.len();
    assert(s.subrange(from, to) =~= t);
    assert forall|i: int| to <= i < s.len() implies is_space(#[trigger] s[i]) by {
        assert(f[i - from] == s[i]);
    }
    trimmed_has_no_outer_space(s);
    if t.len() > 0 {
        assert(s[from] == t[0]);
    }
}

proof fn front_is_a_suffix(s: Seq<char>)
    ensures
        trimmed_front(s).len() <= s.len(),
        trimmed_front(s) == s.skip(s.len() - trimmed_front(s).len()),
        forall|i: int| 0 <= i < s.len() - trimmed_front(s).len() ==> is_space(#[trigger] s[i]),
    decreases s.len(),
{
    if s.len() > 0 && is_space(s[0]) {
        let rest = s.skip(1);
        front_is_a_suffix(rest);
        let n = trimmed_front(s).len();
        assert(trimmed_front(s) =~= s.skip(s.len() - n));
        assert forall|i: int| 0 <= i < s.len() - n implies is_space(#[trigger] s[i]) by {
            if i > 0 {
                assert(s[i] == rest[i - 1]);
            }
        }
    } else {
        assert(s.skip(0) =~= s);
    }
}

proof fn back_is_a_prefix(s: Seq<char>)
    ensures
        trimmed_back(s).len() <= s.len(),
        trimmed_back(s) == s.take(trimmed_back(s).len() as int),
        forall|i: int| trimmed_back(s).len() <= i < s.len() ==> is_space(#[trigger] s[i]),
    decreases s.len(),
{
    if s.len() > 0 && is_space(s.last()) {
        let most = s.drop_last();
        back_is_a_prefix(most);
        let n = trimmed_back(s).len();
        assert(trimmed_back(s) =~= s.take(n as int));
        assert forall|i: int| n <= i < s.len() implies is_space(#[trigger] s[i]) by {
            if i < most.len() {
                assert(s[i] == most[i]);
            }
        }
    } else {
        assert(s.take(s.len() as int) =~= s);
    }
}

/// Blanks, tabs, line ends, and the wide and narrow blanks of other scripts are white space. Visible
/// characters, and controls that move nothing, are not.
pub proof fn visible_characters_are_no_space(c: char)
    ensures
        c == ' ' || c == '\t' || c == '\n' || c == '\r' ==> is_space(c),
        c == '\u{b}' || c == '\u{c}' || c == '\u{85}' || c == '\u{a0}' ==> is_space(c),
        c == '\u{1680}' || '\u{2000}' <= c <= '\u{200a}' || c == '\u{3000}' ==> is_space(c),
        c == '\u{2028}' || c == '\u{2029}' || c == '\u{202f}' || c == '\u{205f}' ==> is_space(c),
        c <= '\u{8}' || '\u{e}' <= c <= '\u{1f}' ==> !is_space(c),
        '!' <= c <= '\u{84}' || '\u{86}' <= c <= '\u{9f}' ==> !is_space(c),
        '\u{a1}' <= c <= '\u{167f}' || '\u{1681}' <= c <= '\u{1fff}' ==> !is_space(c),
        '\u{200b}' <= c <= '\u{2027}' || '\u{202a}' <= c <= '\u{202e}' ==> !is_space(c),
        '\u{2030}' <= c <= '\u{205e}' || '\u{2060}' <= c <= '\u{2fff}' ==> !is_space(c),
        '\u{3001}' <= c ==> !is_space(c),
{
}

/// A text reads as a number only if it is digits after an optional plus sign, and a plus sign makes no
/// difference.
pub proof fn only_digits_read_as_a_number(s: Seq<char>, n: u64)
    ensures
        parsed_u64(s) is Some ==> s.len() > 0 && (forall|i: int|
            0 < i < s.len() ==> '0' <= #[trigger] s[i] <= '9') && (s[0] == '+' && s.len() > 1 || '0'
            <= s[0] <= '9'),
        parsed_u64(seq!['+'] + decimal_text(n as nat)) == Some(n),
{
    if parsed_u64(s) is Some {
        let d = unsigned_digits(s);
        assert(all_digits(d));
        assert forall|i: int| 0 < i < s.len() implies '0' <= #[trigger] s[i] <= '9' by {
            if s[0] == '+' {
                assert(d[i - 1] == s[i]);
            } else {
                assert(d[i] == s[i]);
            }
        }
        assert(is_digit(d[0]));
    }
    decimal_reads_back(n);
    decimal_is_digits(n as nat);
    let t = seq!['+'] + decimal_text(n as nat);
    assert(t.skip(1) =~= decimal_text(n as nat));
    assert(is_digit(decimal_text(n as nat)[0]));
}

/// Two numbers never read alike.
pub proof fn numbers_read_apart(a: nat, b: nat)
    requires
        decimal_text(a) == decimal_text(b),
    ensures
        a == b,
{
    decimal_is_digits(a);
    decimal_is_digits(b);
}

/// A negative number reads as its magnitude behind a minus sign, and any other as it is.
pub proof fn only_a_negative_number_has_a_sign(n: nat)
    ensures
        integer_text(n as int) == decimal_text(n),
        n > 0 ==> integer_text(-(n as int)) == seq!['-'] + decimal_text(n),
{
}

/// Every text stands in the joined one.
pub proof fn every_text_is_joined(items: Seq<Seq<char>>, separator: Seq<char>, i: int)
    requires
        0 <= i < items.len(),
    ensures
        has_part(joined(items, separator), items[i]),
        i > 0 ==> has_part(joined(items, separator), separator + items[i]),
    decreases items.len(),
{
    let whole = joined(items, separator);
    if items.len() == 1 {
        assert(whole.subrange(0, whole.len() as int) =~= items[0]);
        assert(stands_at(whole, items[0], 0));
    } else {
        let most = items.drop_last();
        let before = joined(most, separator);
        if i == items.len() - 1 {
            let at = before.len() as int;
            assert(whole.subrange(at, at + (separator + items[i]).len()) =~= separator + items[i]);
            assert(stands_at(whole, separator + items[i], at));
            let on = at + separator.len();
            assert(whole.subrange(on, on + items[i].len()) =~= items[i]);
            assert(stands_at(whole, items[i], on));
        } else {
            every_text_is_joined(most, separator, i);
            let at = choose|at: int| stands_at(before, items[i], at);
            assert(whole.subrange(at, at + items[i].len()) =~= items[i]);
            assert(stands_at(whole, items[i], at));
            if i > 0 {
                let part = separator + items[i];
                let on = choose|on: int| stands_at(before, part, on);
                assert(whole.subrange(on, on + part.len()) =~= before.subrange(on, on + part.len()));
                assert(stands_at(whole, part, on));
            }
        }
    }
}

/// A text stands in whatever is put around it.
pub proof fn a_part_stands_between(before: Seq<char>, part: Seq<char>, behind: Seq<char>)
    ensures
        has_part(before + part + behind, part),
{
    let whole = before + part + behind;
    let at = before.len() as int;
    assert(whole.subrange(at, at + part.len()) =~= part);
    assert(stands_at(whole, part, at));
}

/// A text stands in another only where taking the other apart yields it.
pub proof fn a_part_takes_its_text_apart(whole: Seq<char>, part: Seq<char>)
    ensures
        has_part(whole, part) ==> exists|before: Seq<char>, behind: Seq<char>|
            whole == #[trigger] (before + part + behind),
{
    if has_part(whole, part) {
        let at = choose|at: int| stands_at(whole, part, at);
        let before = whole.take(at);
        let behind = whole.skip(at + part.len());
        assert(whole =~= before + part + behind);
    }
}

/// Joining puts the separator between two texts and adds nothing else.
pub proof fn one_more_text_is_joined(items: Seq<Seq<char>>, item: Seq<char>, separator: Seq<char>)
    ensures
        joined(Seq::empty(), separator) == Seq::<char>::empty(),
        joined(seq![item], separator) == item,
        items.len() > 0 ==> joined(items.push(item), separator) == joined(items, separator)
            + separator + item,
{
    assert(items.push(item).drop_last() =~= items);
}

/// Texts stand in the order of their first different characters, and a text stands before every longer
/// one that starts with it.
pub proof fn the_first_difference_orders(
    start: Seq<char>,
    a: char,
    b: char,
    rest_a: Seq<char>,
    rest_b: Seq<char>,
)
    ensures
        text_le(start, start + rest_a),
        a < b ==> text_le(start + seq![a] + rest_a, start + seq![b] + rest_b) && !text_le(
            start + seq![b] + rest_b,
            start + seq![a] + rest_a,
        ),
        !text_le(start + seq![a] + rest_a, start),
    decreases start.len(),
{
    let low = start + seq![a] + rest_a;
    let high = start + seq![b] + rest_b;
    if start.len() > 0 {
        let less = start.skip(1);
        the_first_difference_orders(less, a, b, rest_a, rest_b);
        assert(low.skip(1) =~= less + seq![a] + rest_a);
        assert(high.skip(1) =~= less + seq![b] + rest_b);
        assert((start + rest_a).skip(1) =~= less + rest_a);
    }
}

/// A number is written with its last digit last: one more digit on the right stands for ten times the
/// number and the digit. The digits below ten stand for themselves.
pub proof fn the_last_digit_comes_last(n: nat, d: nat)
    requires
        d < 10,
    ensures
        decimal_text(d) == seq![('0' as int + d) as char],
        n > 0 ==> decimal_text(10 * n + d) == decimal_text(n).push(('0' as int + d) as char),
        decimal_text(0) == seq!['0'] && decimal_text(7) == seq!['7'],
{
    assert((10 * n + d) / 10 == n && (10 * n + d) % 10 == d);
}

/// One more digit on the right of a text makes its number ten times as large, plus the digit, as long as
/// that fits. A sign alone, an empty text, and any other character make no number.
pub proof fn a_further_digit_counts_ten_times(s: Seq<char>, c: char, n: u64)
    ensures
        parsed_u64(seq![c]) == (if '0' <= c <= '9' {
            Some((c as int - '0' as int) as u64)
        } else {
            None
        }),
        parsed_u64(s) == Some(n) && '0' <= c <= '9' && 10 * n + (c as int - '0' as int) <= u64::MAX
            ==> parsed_u64(s.push(c)) == Some((10 * n + (c as int - '0' as int)) as u64),
        parsed_u64(s) == Some(n) && '0' <= c <= '9' && 10 * n + (c as int - '0' as int) > u64::MAX
            ==> parsed_u64(s.push(c)) is None,
        parsed_u64(s) is Some && !('0' <= c <= '9') ==> parsed_u64(s.push(c)) is None,
        parsed_u64(Seq::empty()) is None,
{
    let one = seq![c];
    assert(one.drop_last() =~= Seq::empty());
    assert(digits_value(Seq::empty()) == 0);
    assert(digits_value(one) == digits_value(one.drop_last()) * 10 + (c as nat
        - '0' as nat) as nat);
    assert(one[0] == c);
    if c == '+' {
        assert(one.skip(1) =~= Seq::empty());
    }
    if parsed_u64(s) is Some {
        let d = unsigned_digits(s);
        let more = s.push(c);
        assert(more[0] == s[0]);
        assert(unsigned_digits(more) =~= d.push(c));
        assert(d.push(c).drop_last() =~= d);
        assert(d.push(c).last() == c);
        assert(forall|i: int| 0 <= i < d.len() ==> #[trigger] d.push(c)[i] == d[i]);
        assert(d.push(c)[d.len() as int] == c);
    }
}

} // verus!
