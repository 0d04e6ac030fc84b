//! Character-level helpers: conversions between strings and character buffers, decimal
//! rendering of unsigned integers, substring replacement, and the ordering of names.

use vstd::prelude::*;

verus! {

/// `String::push` of the standard library: appends the character `c` to the end of `s`,
/// leaving what was there before untouched.
pub assume_specification[ String::push ](s: &mut String, c: char)
    ensures
        final(s)@ == old(s)@.push(c),
;

/// The characters of `s`, in order.
pub fn chars_of(s: &str) -> (out: Vec<char>)
    ensures
        out@ == s@,
{
    let mut out: Vec<char> = Vec::new();
    for c in it: s.chars()
        invariant
            out@ == it.seq().take(it.index() as int),
            it.seq() == s@,
    {
        out.push(c);
    }
    out
}

/// A string made of the characters of `chars`, in order.
pub fn string_of(chars: &Vec<char>) -> (s: String)
    ensures
        s@ == chars@,
{
    let mut s = String::new();
    let mut i: usize = 0;
    while i < chars.len()
        invariant
            i <= chars.len(),
            s@ == chars@.take(i as int),
        decreases chars.len() - i,
    {
        s.push(chars[i]);
        i += 1;
    }
    s
}

/// Whether `a` and `b` hold the same characters.
pub fn same_text(a: &str, b: &str) -> (same: bool)
    ensures
        same == (a@ == b@),
{
    a.to_owned() == b.to_owned()
}

/// Appends the characters of `s` to `out`.
pub fn push_str(out: &mut Vec<char>, s: &str)
    ensures
        final(out)@ == old(out)@ + s@,
{
    let ghost before = out@;
    for c in it: s.chars()
        invariant
            out@ == before + it.seq().take(it.index() as int),
            it.seq() == s@,
    {
        out.push(c);
    }
}

/// Appends the elements of `tail` to `out`.
pub fn push_chars(out: &mut Vec<char>, tail: &Vec<char>)
    ensures
        final(out)@ == old(out)@ + tail@,
{
    let ghost before = out@;
    let mut i: usize = 0;
    while i < tail.len()
        invariant
            i <= tail.len(),
            out@ == before + tail@.take(i as int),
        decreases tail.len() - i,
    {
        out.push(tail[i]);
        i += 1;
    }
}

/// The decimal digit for `d`, which is meant to be below ten.
pub open spec fn digit_char(d: nat) -> char {
    (('0' as nat) + d) as char
}

/// The decimal rendering of `n`: no sign, no leading zero, `"0"` for zero.
pub open spec fn decimal(n: nat) -> Seq<char>
    decreases n,
{
    if n < 10 {
        seq![digit_char(n)]
    } else {
        decimal(n / 10).push(digit_char(n % 10))
    }
}

/// Whether `c` is one of the ten decimal digits.
pub open spec fn is_digit(c: char) -> bool {
    '0' <= c && c <= '9'
}

/// A decimal rendering is never empty and holds digits only.
pub proof fn lemma_decimal_digits(n: nat)
    ensures
        decimal(n).len() > 0,
        forall|i: int| 0 <= i < decimal(n).len() ==> is_digit(#[trigger] decimal(n)[i]),
    decreases n,
{
    if n >= 10 {
        lemma_decimal_digits(n / 10);
    }
}

/// Different numbers have different decimal renderings.
pub proof fn lemma_decimal_injective(a: nat, b: nat)
    requires
        decimal(a) == decimal(b),
    ensures
        a == b,
    decreases a,
{
    lemma_decimal_digits(a / 10);
    lemma_decimal_digits(b / 10);
    if a < 10 && b < 10 {
        assert(decimal(a)[0] == digit_char(a));
        assert(decimal(b)[0] == digit_char(b));
    } else if a >= 10 && b >= 10 {
        let x = decimal(a / 10);
        let y = decimal(b / 10);
        assert(x.push(digit_char(a % 10)).drop_last() =~= x);
        assert(y.push(digit_char(b % 10)).drop_last() =~= y);
        assert(x.push(digit_char(a % 10)).last() == digit_char(a % 10));
        assert(y.push(digit_char(b % 10)).last() == digit_char(b % 10));
        lemma_decimal_injective(a / 10, b / 10);
    } else if a < 10 {
        assert(decimal(a).len() == 1);
        assert(decimal(b).len() == decimal(b / 10).len() + 1);
    } else {
        assert(decimal(b).len() == 1);
        assert(decimal(a).len() == decimal(a / 10).len() + 1);
    }
}

/// Where two texts each begin with a run of digits that something other than a digit
/// ends, and the texts are the same, the runs are the same and so is what follows them.
pub proof fn lemma_digits_then_stop(a: Seq<char>, x: Seq<char>, b: Seq<char>, y: Seq<char>)
    requires
        forall|i: int| 0 <= i < a.len() ==> is_digit(#[trigger] a[i]),
        forall|i: int| 0 <= i < b.len() ==> is_digit(#[trigger] b[i]),
        x.len() > 0 && !is_digit(x[0]),
        y.len() > 0 && !is_digit(y[0]),
        a + x == b + y,
    ensures
        a == b,
        x == y,
{
    let whole = a + x;
    if a.len() < b.len() {
        assert(whole[a.len() as int] == x[0]);
        assert((b + y)[a.len() as int] == b[a.len() as int]);
    } else if b.len() < a.len() {
        assert((b + y)[b.len() as int] == y[0]);
        assert(whole[b.len() as int] == a[b.len() as int]);
    }
    assert(a =~= whole.take(a.len() as int));
    assert(b =~= (b + y).take(b.len() as int));
    assert(x =~= whole.skip(a.len() as int));
    assert(y =~= (b + y).skip(b.len() as int));
}

/// Where two texts each begin with the decimal rendering of a number, followed by
/// something that does not begin with a digit, and the texts are the same, the numbers
/// are the same and so is what follows them.
pub proof fn lemma_number_then_stop(n: nat, x: Seq<char>, m: nat, y: Seq<char>)
    requires
        x.len() > 0 && !is_digit(x[0]),
        y.len() > 0 && !is_digit(y[0]),
        decimal(n) + x == decimal(m) + y,
    ensures
        n == m,
        x == y,
{
    lemma_decimal_digits(n);
    lemma_decimal_digits(m);
    lemma_digits_then_stop(decimal(n), x, decimal(m), y);
    lemma_decimal_injective(n, m);
}

/// Appends the decimal rendering of `n` to `out`.
pub fn push_decimal(out: &mut Vec<char>, n: u64)
    ensures
        final(out)@ == old(out)@ + decimal(n as nat),
    decreases n,
{
    if n >= 10 {
        push_decimal(out, n / 10);
    }
    let d: u8 = (n % 10) as u8;
    out.push((48u8 + d) as char);
}

/// Strict lexicographic order on character sequences: the first position at which two
/// sequences differ decides, by code point, and a proper prefix comes before what extends it.
pub open spec fn precedes(a: Seq<char>, b: Seq<char>) -> bool
    decreases a.len(),
{
    if b.len() == 0 {
        false
    } else if a.len() == 0 {
        true
    } else if a[0] != b[0] {
        a[0] < b[0]
    } else {
        precedes(a.drop_first(), b.drop_first())
    }
}

/// No sequence comes before itself.
pub proof fn lemma_precedes_irreflexive(a: Seq<char>)
    ensures
        !precedes(a, a),
    decreases a.len(),
{
    if a.len() > 0 {
        lemma_precedes_irreflexive(a.drop_first());
    }
}

/// The order is transitive.
pub proof fn lemma_precedes_transitive(a: Seq<char>, b: Seq<char>, c: Seq<char>)
    requires
        precedes(a, b),
        precedes(b, c),
    ensures
        precedes(a, c),
    decreases a.len(),
{
    if a.len() > 0 && a[0] == b[0] && b[0] == c[0] {
        lemma_precedes_transitive(a.drop_first(), b.drop_first(), c.drop_first());
    }
}

/// Of two different sequences one comes before the other.
pub proof fn lemma_precedes_connected(a: Seq<char>, b: Seq<char>)
    ensures
        a == b || precedes(a, b) || precedes(b, a),
    decreases a.len(),
{
    if a.len() > 0 && b.len() > 0 && a[0] == b[0] {
        lemma_precedes_connected(a.drop_first(), b.drop_first());
        if a.drop_first() == b.drop_first() {
            assert(a =~= seq![a[0]] + a.drop_first());
            assert(b =~= seq![b[0]] + b.drop_first());
        }
    } else if a.len() == 0 && b.len() == 0 {
        assert(a =~= b);
    }
}

/// Whether the characters of `a` come strictly before those of `b`.
pub fn chars_precede(a: &Vec<char>, b: &Vec<char>) -> (r: bool)
    ensures
        r == precedes(a@, b@),
{
    let mut i: usize = 0;
    proof {
        assert(a@.skip(0) =~= a@);
        assert(b@.skip(0) =~= b@);
    }
    while i < a.len() && i < b.len()
        invariant
            i <= a.len(),
            i <= b.len(),
            precedes(a@, b@) == precedes(a@.skip(i as int), b@.skip(i as int)),
        decreases a.len() - i,
    {
        proof {
            assert(a@.skip(i as int).drop_first() =~= a@.skip(i + 1));
            assert(b@.skip(i as int).drop_first() =~= b@.skip(i + 1));
        }
        if a[i] != b[i] {
            return a[i] < b[i];
        }
        i += 1;
    }
    i < b.len()
}

/// Whether the name `a` comes strictly before the name `b`.
pub fn name_precedes(a: &str, b: &str) -> (r: bool)
    ensures
        r == precedes(a@, b@),
{
    let x = chars_of(a);
    let y = chars_of(b);
    chars_precede(&x, &y)
}

/// `s` with every occurrence of `pattern` replaced by `with`, scanning from the left and
/// resuming after each occurrence, so that occurrences never overlap. An empty pattern
/// occurs nowhere.
pub open spec fn replace_all(s: Seq<char>, pattern: Seq<char>, with: Seq<char>) -> Seq<char>
    decreases s.len(),
{
    if pattern.len() == 0 || s.len() < pattern.len() {
        s
    } else if s.take(pattern.len() as int) == pattern {
        with + replace_all(s.skip(pattern.len() as int), pattern, with)
    } else {
        seq![s[0]] + replace_all(s.drop_first(), pattern, with)
    }
}

/// Whether `pattern` stands in `s` at index `at`.
pub fn occurs_at(s: &Vec<char>, at: usize, pattern: &Vec<char>) -> (r: bool)
    ensures
        r == (at + pattern@.len() <= s@.len() && s@.skip(at as int).take(pattern@.len() as int)
            == pattern@),
{
    if at > s.len() || pattern.len() > s.len() - at {
        return false;
    }
    let mut k: usize = 0;
    while k < pattern.len()
        invariant
            at + pattern.len() <= s.len(),
            k <= pattern.len(),
            forall|j: int| 0 <= j < k ==> s@[at + j] == pattern@[j],
        decreases pattern.len() - k,
    {
        if s[at + k] != pattern[k] {
            proof {
                let w = s@.skip(at as int).take(pattern@.len() as int);
                assert(w[k as int] == s@[at + k]);
            }
            return false;
        }
        k += 1;
    }
    proof {
        assert(s@.skip(at as int).take(pattern@.len() as int) =~= pattern@);
    }
    true
}

/// Replaces every occurrence of `pattern` in `s` by `with`.
pub fn replace_chars(s: &Vec<char>, pattern: &Vec<char>, with: &Vec<char>) -> (out: Vec<char>)
    ensures
        out@ == replace_all(s@, pattern@, with@),
{
    let mut out: Vec<char> = Vec::new();
    if pattern.len() == 0 {
        push_chars(&mut out, s);
        return out;
    }
    let mut i: usize = 0;
    proof {
        assert(s@.skip(0) =~= s@);
        assert(out@ + replace_all(s@, pattern@, with@) =~= replace_all(s@, pattern@, with@));
    }
    while i < s.len()
        invariant
            i <= s.len(),
            pattern@.len() > 0,
            replace_all(s@, pattern@, with@) == out@ + replace_all(
                s@.skip(i as int),
                pattern@,
                with@,
            ),
        decreases s.len() - i,
    {
        let ghost rest = s@.skip(i as int);
        if occurs_at(s, i, pattern) {
            proof {
                assert(rest.skip(pattern@.len() as int) =~= s@.skip(i + pattern@.len()));
                assert(out@ + (with@ + replace_all(rest.skip(pattern@.len() as int), pattern@, with@))
                    =~= (out@ + with@) + replace_all(rest.skip(pattern@.len() as int), pattern@, with@));
            }
            push_chars(&mut out, with);
            i += pattern.len();
        } else {
            proof {
                assert(rest.drop_first() =~= s@.skip(i + 1));
                assert(rest[0] == s@[i as int]);
                if rest.len() < pattern@.len() {
                    lemma_replace_all_short(rest, pattern@, with@);
                    lemma_replace_all_short(rest.drop_first(), pattern@, with@);
                    assert(rest =~= seq![rest[0]] + rest.drop_first());
                }
                assert(out@ + (seq![rest[0]] + replace_all(rest.drop_first(), pattern@, with@))
                    =~= out@.push(s@[i as int]) + replace_all(rest.drop_first(), pattern@, with@));
            }
            out.push(s[i]);
            i += 1;
        }
    }
    proof {
        assert(s@.skip(i as int) =~= Seq::<char>::empty());
    }
    out
}

/// A sequence shorter than the pattern holds no occurrence of it.
pub proof fn lemma_replace_all_short(s: Seq<char>, pattern: Seq<char>, with: Seq<char>)
    requires
        s.len() < pattern.len(),
    ensures
        replace_all(s, pattern, with) == s,
{
}

/// Whether `c` is white space: one of the characters with the Unicode property
/// `White_Space`.
pub open spec fn is_blank(c: char) -> bool {
    ||| ('\u{9}' <= c && c <= '\u{d}')
    ||| c == ' '
    ||| c == '\u{85}'
    ||| c == '\u{a0}'
    ||| c == '\u{1680}'
    ||| ('\u{2000}' <= c && c <= '\u{200a}')
    ||| c == '\u{2028}'
    ||| c == '\u{2029}'
    ||| c == '\u{202f}'
    ||| c == '\u{205f}'
    ||| c == '\u{3000}'
}

/// Whether `c` is white space.
pub fn char_is_blank(c: char) -> (blank: bool)
    ensures
        blank == is_blank(c),
{
    ('\u{9}' <= c && c <= '\u{d}') || c == ' ' || c == '\u{85}' || c == '\u{a0}' || c == '\u{1680}'
        || ('\u{2000}' <= c && c <= '\u{200a}') || c == '\u{2028}' || c == '\u{2029}' || c
        == '\u{202f}' || c == '\u{205f}' || c == '\u{3000}'
}

/// `s` without the white space it begins with.
pub open spec fn trimmed_start(s: Seq<char>) -> Seq<char>
    decreases s.len(),
{
    if s.len() > 0 && is_blank(s[0]) {
        trimmed_start(s.drop_first())
    } else {
        s
    }
}

/// `s` without the white space it ends with.
pub open spec fn trimmed_end(s: Seq<char>) -> Seq<char>
    decreases s.len(),
{
    if s.len() > 0 && is_blank(s.last()) {
        trimmed_end(s.drop_last())
    } else {
        s
    }
}

/// `s` without the white space at either end.
pub open spec fn trimmed(s: Seq<char>) -> Seq<char> {
    trimmed_end(trimmed_start(s))
}

/// Takes the white space off both ends of `s`.
pub fn trim_chars(s: &Vec<char>) -> (out: Vec<char>)
    ensures
        out@ == trimmed(s@),
{
    let mut from: usize = 0;
    proof {
        assert(s@.skip(0) =~= s@);
    }
    while from < s.len() && char_is_blank(s[from])
        invariant
            from <= s.len(),
            trimmed_start(s@) == trimmed_start(s@.skip(from as int)),
        decreases s.len() - from,
    {
        proof {
            assert(s@.skip(from as int).drop_first() =~= s@.skip(from + 1));
        }
        from += 1;
    }
    let ghost rest = s@.skip(from as int);
    proof {
        assert(rest.len() > 0 ==> rest[0] == s@[from as int]);
        assert(trimmed_start(s@) == rest);
        assert(rest.take(rest.len() as int) =~= rest);
    }
    let mut to: usize = s.len();
    while to > from && char_is_blank(s[to - 1])
        invariant
            from <= to <= s.len(),
            rest == s@.skip(from as int),
            trimmed_end(rest) == trimmed_end(rest.take(to - from)),
        decreases to,
    {
        proof {
            let kept = rest.take(to - from);
            assert(kept.last() == s@[to - 1]);
            assert(kept.drop_last() =~= rest.take(to - from - 1));
        }
        to -= 1;
    }
    proof {
        let kept = rest.take(to - from);
        if kept.len() > 0 {
            assert(kept.last() == s@[to - 1]);
        }
        assert(trimmed_end(rest) == kept);
    }
    let mut out: Vec<char> = Vec::new();
    let mut i: usize = from;
    while i < to
        invariant
            from <= i <= to <= s.len(),
            out@ == s@.subrange(from as int, i as int),
        decreases to - i,
    {
        out.push(s[i]);
        proof {
            assert(out@ =~= s@.subrange(from as int, i + 1));
        }
        i += 1;
    }
    proof {
        assert(s@.subrange(from as int, to as int) =~= rest.take(to - from));
    }
    out
}

/// The members of `parts` in a row, with `separator` between each two of them.
pub open spec fn joined(parts: Seq<Seq<char>>, separator: Seq<char>) -> Seq<char>
    decreases parts.len(),
{
    if parts.len() == 0 {
        Seq::empty()
    } else if parts.len() == 1 {
        parts[0]
    } else {
        joined(parts.drop_last(), separator) + separator + parts.last()
    }
}

/// Puts the members of `parts` in a row, with `separator` between each two of them.
pub fn join_strings(parts: &Vec<String>, separator: &str) -> (out: Vec<char>)
    ensures
        out@ == joined(parts.deep_view(), separator@),
{
    let ghost all = parts.deep_view();
    let mut out: Vec<char> = Vec::new();
    let mut i: usize = 0;
    proof {
        assert(all.take(0) =~= Seq::<Seq<char>>::empty());
    }
    while i < parts.len()
        invariant
            i <= parts.len(),
            all == parts.deep_view(),
            out@ == joined(all.take(i as int), separator@),
        decreases parts.len() - i,
    {
        proof {
            let prefix = all.take(i + 1);
            assert(prefix.drop_last() =~= all.take(i as int));
            assert(prefix.last() == all[i as int]);
            assert(all[i as int] == parts@[i as int]@);
            if i == 0 {
                assert(prefix[0] == all[0]);
                assert(Seq::<char>::empty() + all[0] =~= all[0]);
            }
        }
        if i > 0 {
            push_str(&mut out, separator);
        }
        push_str(&mut out, parts[i].as_str());
        i += 1;
    }
    proof {
        assert(all.take(i as int) =~= all);
    }
    out
}

} // verus!
