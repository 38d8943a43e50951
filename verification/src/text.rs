//! Text building blocks over character sequences: decimal numbers, prefixes,
//! ASCII case-insensitive comparison, list rendering, and the collapsing of
//! `", "` into `","`.
use vstd::prelude::*;
use vstd::string::StrSliceExecFns;
use vstd::string::StringExecFns;

verus! {

/// `String::push`: appends one character.
#[verifier::external_body]
pub(crate) fn push_char(s: &mut String, c: char)
    ensures
        final(s)@ == old(s)@.push(c),
{
    s.push(c)
}

/// The text that `{:?}` gives for a string: the string between double quotes,
/// with characters escaped as `str`'s `Debug` implementation escapes them.
pub uninterp spec fn debug_escaped(s: Seq<char>) -> Seq<char>;

/// `format!("{:?}", s)` for a string slice.
#[verifier::external_body]
pub(crate) fn debug_str(s: &str) -> (r: String)
    ensures
        r@ == debug_escaped(s@),
{
    format!("{:?}", s)
}

/// The decimal digit character of `d`, for `0 <= d < 10`.
pub open spec fn digit_char(d: int) -> char {
    (d + 48) as char
}

/// The decimal text of a natural number, without sign or leading zeros.
pub open spec fn decimal(n: nat) -> Seq<char>
    decreases n,
{
    if n < 10 {
        seq![digit_char(n as int)]
    } else {
        decimal(n / 10).push(digit_char((n % 10) as int))
    }
}

/// The number that a text of decimal digits stands for.
pub open spec fn decimal_value(s: Seq<char>) -> int
    decreases s.len(),
{
    if s.len() == 0 {
        0
    } else {
        10 * decimal_value(s.drop_last()) + (s.last() as int - 48)
    }
}

/// The decimal text of `n` is made of the digits `0-9`, has no leading zero,
/// and reads back as `n`.
pub proof fn lemma_decimal_reads_back(n: nat)
    ensures
        forall|i: int| 0 <= i < decimal(n).len() ==> '0' <= #[trigger] decimal(n)[i] <= '9',
        decimal(n).len() > 1 ==> decimal(n)[0] != '0',
        decimal(n).len() >= 1,
        decimal(n).len() == 1 <==> n < 10,
        decimal_value(decimal(n)) == n,
    decreases n,
{
    assert(digit_char((n % 10) as int) as int == (n % 10) + 48);
    if n < 10 {
        assert(decimal(n).drop_last() =~= Seq::<char>::empty());
        assert(digit_char(n as int) as int == n + 48);
        assert(decimal(n).last() == digit_char(n as int));
        assert(decimal_value(Seq::<char>::empty()) == 0);
        assert(decimal_value(decimal(n)) == 10 * decimal_value(Seq::<char>::empty()) + n);
    } else {
        lemma_decimal_reads_back(n / 10);
        let t = decimal(n / 10);
        assert(decimal(n) == t.push(digit_char((n % 10) as int)));
        assert(decimal(n).drop_last() =~= t);
        assert forall|i: int| 0 <= i < decimal(n).len() implies '0' <= #[trigger] decimal(n)[i]
            <= '9' by {
            if i < t.len() {
                assert(decimal(n)[i] == t[i]);
            }
        }
        assert(decimal(n)[0] == t[0]);
        if t.len() == 1 {
            assert(n / 10 < 10);
            assert(digit_char((n / 10) as int) as int == (n / 10) + 48);
            assert(n / 10 > 0);
        }
        assert(decimal(n).last() == digit_char((n % 10) as int));
        assert(decimal_value(decimal(n)) == 10 * decimal_value(t) + (n % 10));
        assert(10 * (n / 10) + n % 10 == n);
    }
}

/// Appends the decimal text of `n`.
pub fn push_decimal(out: &mut String, n: u64)
    ensures
        final(out)@ == old(out)@ + decimal(n as nat),
    decreases n,
{
    if n >= 10 {
        push_decimal(out, n / 10);
    }
    let d: u8 = (n % 10) as u8;
    let c = (d + 48u8) as char;
    push_char(out, c);
}

/// Whether `s` begins with `p`.
pub open spec fn has_prefix(s: Seq<char>, p: Seq<char>) -> bool {
    p.len() <= s.len() && s.take(p.len() as int) == p
}

/// `s` with every leading copy of the non-empty `p` removed, as
/// `str::trim_start_matches` does with a string pattern.
pub open spec fn strip_prefixes(s: Seq<char>, p: Seq<char>) -> Seq<char>
    decreases s.len(),
{
    if p.len() > 0 && has_prefix(s, p) {
        strip_prefixes(s.skip(p.len() as int), p)
    } else {
        s
    }
}

/// Once every leading copy of `p` is removed, the text no longer begins
/// with `p`.
pub proof fn lemma_strip_prefixes_leaves_no_prefix(s: Seq<char>, p: Seq<char>)
    requires
        p.len() > 0,
    ensures
        !has_prefix(strip_prefixes(s, p), p),
    decreases s.len(),
{
    if has_prefix(s, p) {
        lemma_strip_prefixes_leaves_no_prefix(s.skip(p.len() as int), p);
    }
}

/// Whether `s` holds `p` at character position `at`.
pub fn matches_at(s: &str, p: &str, at: usize) -> (r: bool)
    requires
        at <= s@.len(),
    ensures
        r == has_prefix(s@.skip(at as int), p@),
{
    let n = s.unicode_len();
    let m = p.unicode_len();
    if m > n - at {
        return false;
    }
    let mut i: usize = 0;
    while i < m
        invariant
            n == s@.len(),
            m == p@.len(),
            at + m <= n,
            i <= m,
            forall|j: int| 0 <= j < i ==> s@[at + j] == p@[j],
        decreases m - i,
    {
        if s.get_char(at + i) != p.get_char(i) {
            assert(s@.skip(at as int).take(m as int)[i as int] != p@[i as int]);
            return false;
        }
        i += 1;
    }
    assert(s@.skip(at as int).take(m as int) =~= p@);
    true
}

/// Whether `s` begins with `p`.
pub fn starts_with(s: &str, p: &str) -> (r: bool)
    ensures
        r == has_prefix(s@, p@),
{
    assert(s@.skip(0) =~= s@);
    matches_at(s, p, 0)
}

/// `s` with every leading copy of the non-empty `p` removed.
pub fn trim_start_matches(s: &str, p: &str) -> (r: String)
    requires
        p@.len() > 0,
    ensures
        r@ == strip_prefixes(s@, p@),
{
    let n = s.unicode_len();
    let m = p.unicode_len();
    let mut at: usize = 0;
    assert(s@.skip(0) =~= s@);
    while m <= n - at && matches_at(s, p, at)
        invariant
            n == s@.len(),
            m == p@.len(),
            m > 0,
            at <= n,
            strip_prefixes(s@, p@) == strip_prefixes(s@.skip(at as int), p@),
        decreases n - at,
    {
        assert(s@.skip(at as int).skip(m as int) =~= s@.skip(at + m));
        at = at + m;
    }
    let rest = s.substring_char(at, n);
    assert(rest@ =~= s@.skip(at as int));
    String::from_str(rest)
}

/// The ASCII upper-case form of a character.
pub open spec fn ascii_upper(c: char) -> char {
    if 'a' <= c <= 'z' {
        ((c as int) - 32) as char
    } else {
        c
    }
}

/// Whether two texts are equal when ASCII letters are compared without case.
pub open spec fn eq_ignore_ascii_case(a: Seq<char>, b: Seq<char>) -> bool {
    a.len() == b.len() && forall|i: int| 0 <= i < a.len() ==> ascii_upper(#[trigger] a[i])
        == ascii_upper(b[i])
}

/// Compares two texts, ASCII letters without case.
pub fn ascii_eq_ignore_case(a: &str, b: &str) -> (r: bool)
    ensures
        r == eq_ignore_ascii_case(a@, b@),
{
    let n = a.unicode_len();
    if n != b.unicode_len() {
        return false;
    }
    let mut i: usize = 0;
    while i < n
        invariant
            n == a@.len(),
            n == b@.len(),
            i <= n,
            forall|j: int| 0 <= j < i ==> ascii_upper(#[trigger] a@[j]) == ascii_upper(b@[j]),
        decreases n - i,
    {
        let x = a.get_char(i);
        let y = b.get_char(i);
        let ux: u32 = if 'a' <= x && x <= 'z' {
            (x as u32) - 32
        } else {
            x as u32
        };
        let uy: u32 = if 'a' <= y && y <= 'z' {
            (y as u32) - 32
        } else {
            y as u32
        };
        assert(ux as int == ascii_upper(x) as int);
        assert(uy as int == ascii_upper(y) as int);
        if ux != uy {
            return false;
        }
        i += 1;
    }
    true
}

/// The items joined with `", "` between neighbours.
pub open spec fn join_comma(items: Seq<Seq<char>>) -> Seq<char>
    decreases items.len(),
{
    if items.len() == 0 {
        Seq::empty()
    } else if items.len() == 1 {
        items[0]
    } else {
        join_comma(items.drop_last()) + ", "@ + items.last()
    }
}

/// The total number of characters of the items.
pub open spec fn total_len(items: Seq<Seq<char>>) -> nat
    decreases items.len(),
{
    if items.len() == 0 {
        0
    } else {
        total_len(items.drop_last()) + items.last().len()
    }
}

/// Appending an item to a non-empty list appends `", "` and the item to the
/// joined text.
pub proof fn lemma_join_comma_push(items: Seq<Seq<char>>, x: Seq<char>)
    requires
        items.len() > 0,
    ensures
        join_comma(items.push(x)) == join_comma(items) + seq![',', ' '] + x,
{
    reveal_strlit(", ");
    assert(items.push(x).drop_last() =~= items);
    assert(", "@ =~= seq![',', ' ']);
}

/// Joining two non-empty lists one after the other is joining each and
/// putting `", "` between them: every pair of neighbours is separated.
pub proof fn lemma_join_comma_concat(a: Seq<Seq<char>>, b: Seq<Seq<char>>)
    requires
        a.len() > 0,
        b.len() > 0,
    ensures
        join_comma(a + b) == join_comma(a) + seq![',', ' '] + join_comma(b),
    decreases b.len(),
{
    if b.len() == 1 {
        assert(a + b =~= a.push(b[0]));
        lemma_join_comma_push(a, b[0]);
    } else {
        let b1 = b.drop_last();
        let x = b.last();
        assert(a + b =~= (a + b1).push(x));
        assert(b =~= b1.push(x));
        lemma_join_comma_push(a + b1, x);
        lemma_join_comma_concat(a, b1);
        lemma_join_comma_push(b1, x);
        assert(join_comma(a + b) =~= join_comma(a) + seq![',', ' '] + join_comma(b));
    }
}

/// A joined list of `n >= 1` items is as long as the items together plus two
/// characters for each of the `n - 1` separators.
pub proof fn lemma_join_comma_len(items: Seq<Seq<char>>)
    requires
        items.len() > 0,
    ensures
        join_comma(items).len() == total_len(items) + 2 * (items.len() - 1),
    decreases items.len(),
{
    reveal_strlit(", ");
    if items.len() == 1 {
        assert(items.drop_last().len() == 0);
    } else {
        lemma_join_comma_len(items.drop_last());
    }
}

/// A list as `{:?}` shows it: the items between square brackets, separated
/// by `", "`.
pub open spec fn debug_list(items: Seq<Seq<char>>) -> Seq<char> {
    "["@ + join_comma(items) + "]"@
}

/// A shown list opens with `[`, closes with `]`, and holds the joined items
/// in between; the empty list is shown as `[]`.
pub proof fn lemma_debug_list_brackets(items: Seq<Seq<char>>)
    ensures
        debug_list(items) == seq!['['] + join_comma(items) + seq![']'],
        items.len() == 0 ==> debug_list(items) == seq!['[', ']'],
{
    reveal_strlit("[");
    reveal_strlit("]");
    assert("["@ =~= seq!['[']);
    assert("]"@ =~= seq![']']);
    if items.len() == 0 {
        assert(seq!['['] + join_comma(items) + seq![']'] =~= seq!['[', ']']);
    }
}

/// The `{:?}` text of each string of a list.
pub open spec fn debug_strings(items: Seq<String>) -> Seq<Seq<char>> {
    items.map_values(|s: String| debug_escaped(s@))
}

/// Appends `{:?}` of a list of strings: `["a", "b"]`.
pub fn push_debug_strings(out: &mut String, items: &Vec<String>)
    ensures
        final(out)@ == old(out)@ + debug_list(debug_strings(items@)),
{
    let ghost start = out@;
    out.append("[");
    let n = items.len();
    let mut i: usize = 0;
    while i < n
        invariant
            n == items@.len(),
            i <= n,
            out@ == start + "["@ + join_comma(debug_strings(items@.take(i as int))),
        decreases n - i,
    {
        let ghost prev = out@;
        if i > 0 {
            out.append(", ");
        }
        let d = debug_str(items[i].as_str());
        out.append(d.as_str());
        proof {
            let t = debug_strings(items@.take(i + 1));
            assert(t.drop_last() =~= debug_strings(items@.take(i as int)));
            assert(t.last() == debug_escaped(items@[i as int]@));
            if i == 0 {
                assert(t.len() == 1);
            }
        }
        i += 1;
    }
    assert(items@.take(n as int) =~= items@);
    out.append("]");
}

/// `s` with each `", "` turned into `","`, matches taken left to right
/// without overlap, as `str::replace(s, ", ", ",")` does.
pub open spec fn collapse_comma_space(s: Seq<char>) -> Seq<char>
    decreases s.len(),
{
    if s.len() == 0 {
        Seq::empty()
    } else if s.len() >= 2 && s[0] == ',' && s[1] == ' ' {
        seq![','] + collapse_comma_space(s.skip(2))
    } else {
        seq![s[0]] + collapse_comma_space(s.skip(1))
    }
}

/// The text with every space left out.
pub open spec fn without_spaces(s: Seq<char>) -> Seq<char>
    decreases s.len(),
{
    if s.len() == 0 {
        Seq::empty()
    } else if s[0] == ' ' {
        without_spaces(s.skip(1))
    } else {
        seq![s[0]] + without_spaces(s.skip(1))
    }
}

/// Collapsing `", "` into `","` removes spaces and nothing else: leaving out
/// the spaces, the text is unchanged, and it never grows. A text without a
/// comma is left as it is.
pub proof fn lemma_collapse_only_drops_spaces(s: Seq<char>)
    ensures
        without_spaces(collapse_comma_space(s)) == without_spaces(s),
        collapse_comma_space(s).len() <= s.len(),
        (forall|i: int| 0 <= i < s.len() ==> s[i] != ',') ==> collapse_comma_space(s) == s,
    decreases s.len(),
{
    if s.len() == 0 {
    } else if s.len() >= 2 && s[0] == ',' && s[1] == ' ' {
        let r = s.skip(2);
        lemma_collapse_only_drops_spaces(r);
        let c = collapse_comma_space(r);
        let out = seq![','] + c;
        assert(out[0] == ',');
        assert(out.skip(1) =~= c);
        assert(s.skip(1)[0] == ' ');
        assert(s.skip(1).skip(1) =~= r);
        assert(without_spaces(s.skip(1)) == without_spaces(r));
        assert(without_spaces(s) == seq![','] + without_spaces(s.skip(1)));
        assert(without_spaces(out) == seq![','] + without_spaces(c));
    } else {
        let r = s.skip(1);
        lemma_collapse_only_drops_spaces(r);
        let c = collapse_comma_space(r);
        let out = seq![s[0]] + c;
        assert(out[0] == s[0]);
        assert(out.skip(1) =~= c);
        if s[0] == ' ' {
            assert(without_spaces(out) == without_spaces(c));
        } else {
            assert(without_spaces(out) == seq![s[0]] + without_spaces(c));
        }
        if forall|i: int| 0 <= i < s.len() ==> s[i] != ',' {
            assert forall|i: int| 0 <= i < r.len() implies r[i] != ',' by {
                assert(r[i] == s[i + 1]);
            }
            assert(out =~= s);
        }
    }
}

/// Turns each `", "` of `s` into `","`.
#[verifier::rlimit(40)]
pub fn replace_comma_space(s: &str) -> (r: String)
    ensures
        r@ == collapse_comma_space(s@),
{
    let n = s.unicode_len();
    let mut out = String::new();
    let mut i: usize = 0;
    assert(s@.skip(0) =~= s@);
    while i < n
        invariant
            n == s@.len(),
            i <= n,
            collapse_comma_space(s@) == out@ + collapse_comma_space(s@.skip(i as int)),
        decreases n - i,
    {
        let c = s.get_char(i);
        let ghost rest = s@.skip(i as int);
        if c == ',' && i + 1 < n && s.get_char(i + 1) == ' ' {
            push_char(&mut out, ',');
            assert(rest.skip(2) =~= s@.skip(i + 2));
            assert(collapse_comma_space(rest) == seq![','] + collapse_comma_space(rest.skip(2)));
            assert(out@ + collapse_comma_space(s@.skip(i + 2)) =~= out@.drop_last() + (seq![',']
                + collapse_comma_space(rest.skip(2))));
            i = i + 2;
        } else {
            push_char(&mut out, c);
            assert(rest.skip(1) =~= s@.skip(i + 1));
            assert(collapse_comma_space(rest) == seq![c] + collapse_comma_space(rest.skip(1)));
            assert(out@ + collapse_comma_space(s@.skip(i + 1)) =~= out@.drop_last() + (seq![c]
                + collapse_comma_space(rest.skip(1))));
            i = i + 1;
        }
    }
    assert(s@.skip(n as int) =~= Seq::<char>::empty());
    assert(out@ + Seq::<char>::empty() =~= out@);
    out
}

} // verus!
