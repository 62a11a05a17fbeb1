//! Character-level string building blocks, each proved against a short
//! specification over `Seq<char>`.

use vstd::prelude::*;

verus! {

/// `s` begins with `prefix`.
pub open spec fn spec_starts_with(s: Seq<char>, prefix: Seq<char>) -> bool {
    prefix.len() <= s.len() && s.subrange(0, prefix.len() as int) == prefix
}

/// `needle` occurs somewhere in `s` as a contiguous block.
pub open spec fn spec_contains(s: Seq<char>, needle: Seq<char>) -> bool {
    exists|i: int|
        0 <= i && i + needle.len() <= s.len() && #[trigger] s.subrange(i, i + needle.len())
            == needle
}

/// Appends one character to a string (std's `String::push`).
#[verifier::external_body]
pub(crate) fn push_char(s: &mut String, c: char)
    ensures
        final(s)@ == old(s)@.push(c),
{
    s.push(c);
}

/// The characters of `s`, in order.
pub fn chars_of(s: &str) -> (v: Vec<char>)
    ensures
        v@ == s@,
{
    broadcast use vstd::string::group_string_axioms;
    let mut v: Vec<char> = Vec::new();
    for c in it: s.chars()
        invariant
            v@ == it.seq().take(it.index() as int),
            it.seq() == s@,
    {
        v.push(c);
    }
    v
}


/// `a` and `b` hold the same characters.
pub fn str_eq(a: &str, b: &str) -> (r: bool)
    ensures
        r == (a@ == b@),
{
    let x = String::from_str(a);
    let y = String::from_str(b);
    x == y
}

/// `s` begins with `prefix` (std's `str::starts_with` for a `&str` pattern).
pub fn starts_with(s: &str, prefix: &str) -> (r: bool)
    ensures
        r == spec_starts_with(s@, prefix@),
{
    let sv = chars_of(s);
    let pv = chars_of(prefix);
    if pv.len() > sv.len() {
        return false;
    }
    let mut i: usize = 0;
    while i < pv.len()
        invariant
            sv@ == s@,
            pv@ == prefix@,
            pv.len() <= sv.len(),
            i <= pv.len(),
            forall|j: int| 0 <= j < i ==> sv@[j] == pv@[j],
        decreases pv.len() - i,
    {
        if sv[i] != pv[i] {
            assert(s@.subrange(0, prefix@.len() as int)[i as int] != prefix@[i as int]);
            return false;
        }
        i = i + 1;
    }
    assert(s@.subrange(0, prefix@.len() as int) =~= prefix@);
    true
}

/// The block of `sv` of the length of `nv` that starts at `at` equals `nv`.
fn matches_at(sv: &Vec<char>, nv: &Vec<char>, at: usize) -> (r: bool)
    requires
        at + nv@.len() <= sv@.len(),
        sv@.len() <= usize::MAX,
    ensures
        r == (sv@.subrange(at as int, at + nv@.len()) == nv@),
{
    let mut j: usize = 0;
    while j < nv.len()
        invariant
            at + nv@.len() <= sv@.len(),
            sv@.len() <= usize::MAX,
            j <= nv.len(),
            forall|k: int| 0 <= k < j ==> sv@[at + k] == nv@[k],
        decreases nv.len() - j,
    {
        if sv[at + j] != nv[j] {
            assert(sv@.subrange(at as int, at + nv@.len())[j as int] != nv@[j as int]);
            return false;
        }
        j = j + 1;
    }
    assert(sv@.subrange(at as int, at + nv@.len()) =~= nv@);
    true
}

/// `needle` occurs in `s` (std's `str::contains` for a `&str` pattern).
pub fn contains(s: &str, needle: &str) -> (r: bool)
    ensures
        r == spec_contains(s@, needle@),
{
    let sv = chars_of(s);
    let nv = chars_of(needle);
    if nv.len() > sv.len() {
        return false;
    }
    let last = sv.len() - nv.len();
    let mut i: usize = 0;
    loop
        invariant
            sv@ == s@,
            nv@ == needle@,
            last + nv@.len() == sv@.len(),
            sv@.len() <= usize::MAX,
            i <= last,
            forall|j: int| 0 <= j < i ==> #[trigger] s@.subrange(j, j + needle@.len()) != needle@,
        decreases last - i,
    {
        if matches_at(&sv, &nv, i) {
            return true;
        }
        if i == last {
            return false;
        }
        i = i + 1;
    }
}

/// The ASCII digit for `d` (0 to 9).
pub open spec fn digit_char(d: int) -> char {
    (d + 48) as char
}

/// Decimal notation of a natural number, most significant digit first,
/// without leading zeros.
pub open spec fn nat_decimal(n: nat) -> Seq<char>
    decreases n,
{
    if n < 10 {
        seq![digit_char(n as int)]
    } else {
        nat_decimal(n / 10).push(digit_char((n % 10) as int))
    }
}

/// Decimal notation of an integer, as Rust's `Display` writes it: a `-`
/// before the digits of a negative number.
pub open spec fn int_decimal(i: int) -> Seq<char> {
    if i < 0 {
        seq!['-'] + nat_decimal((-i) as nat)
    } else {
        nat_decimal(i as nat)
    }
}

fn push_decimal(s: &mut String, n: u64)
    ensures
        final(s)@ == old(s)@ + nat_decimal(n as nat),
    decreases n,
{
    if n >= 10 {
        push_decimal(s, n / 10);
    }
    let d: u8 = (n % 10) as u8;
    let c: char = (48u8 + d) as char;
    assert(c == digit_char((n % 10) as int));
    push_char(s, c);
    assert(final(s)@ =~= old(s)@ + nat_decimal(n as nat));
}

/// Appends the decimal notation of `v` to `s`.
pub fn push_i64_decimal(s: &mut String, v: i64)
    ensures
        final(s)@ == old(s)@ + int_decimal(v as int),
{
    if v < 0 {
        push_char(s, '-');
        let m: u64 = (-(v as i128)) as u64;
        push_decimal(s, m);
        assert(final(s)@ =~= old(s)@ + int_decimal(v as int));
    } else {
        push_decimal(s, v as u64);
    }
}

/// Elements of `parts` with `sep` between neighbours.
pub open spec fn spec_join(parts: Seq<Seq<char>>, sep: Seq<char>) -> Seq<char>
    decreases parts.len(),
{
    if parts.len() == 0 {
        Seq::empty()
    } else if parts.len() == 1 {
        parts[0]
    } else {
        spec_join(parts.drop_last(), sep) + sep + parts.last()
    }
}

/// The views of a list of strings.
pub open spec fn string_views(v: Seq<String>) -> Seq<Seq<char>> {
    v.map_values(|s: String| s@)
}

/// Joins `parts` with `sep` (std's `[String]::join`).
pub fn join_strings(parts: &Vec<String>, sep: &str) -> (r: String)
    ensures
        r@ == spec_join(string_views(parts@), sep@),
{
    let mut r = String::new();
    let ghost views = string_views(parts@);
    let mut i: usize = 0;
    while i < parts.len()
        invariant
            i <= parts.len(),
            views == string_views(parts@),
            r@ == spec_join(views.take(i as int), sep@),
        decreases parts.len() - i,
    {
        if i != 0 {
            r.append(sep);
        }
        r.append(parts[i].as_str());
        assert(views.take(i + 1).drop_last() =~= views.take(i as int));
        i = i + 1;
    }
    assert(views.take(parts.len() as int) =~= views);
    r
}


/// Index of the first `'\n'` in `s` at or after `i`, or `s.len()` if none.
pub open spec fn first_newline_from(s: Seq<char>, i: int) -> int
    decreases s.len() - i,
{
    if i >= s.len() {
        s.len() as int
    } else if s[i] == '\n' {
        i
    } else {
        first_newline_from(s, i + 1)
    }
}

/// `first_newline_from` stays in range and skips only non-newlines.
pub proof fn lemma_first_newline_bounds(s: Seq<char>, i: int)
    requires
        0 <= i,
    ensures
        i <= first_newline_from(s, i) || (i > s.len() && first_newline_from(s, i) == s.len()),
        first_newline_from(s, i) <= s.len(),
        first_newline_from(s, i) < s.len() ==> s[first_newline_from(s, i)] == '\n',
        forall|j: int| i <= j < first_newline_from(s, i) ==> s[j] != '\n',
    decreases s.len() - i,
{
    if i < s.len() && s[i] != '\n' {
        lemma_first_newline_bounds(s, i + 1);
    }
}

/// A line without the `'\r'` that ended it, if any.
pub open spec fn strip_cr(l: Seq<char>) -> Seq<char> {
    if l.len() > 0 && l.last() == '\r' {
        l.drop_last()
    } else {
        l
    }
}

/// The lines of `s` as std's `str::lines` yields them: split at each
/// `'\n'`; a line that ended in `"\r\n"` loses its `'\r'`; the final line
/// ending is optional, and an empty string has no lines.
pub open spec fn spec_lines(s: Seq<char>) -> Seq<Seq<char>>
    decreases s.len(),
{
    if s.len() == 0 {
        Seq::empty()
    } else {
        let k = first_newline_from(s, 0);
        if k >= s.len() {
            seq![s]
        } else {
            proof {
                lemma_first_newline_bounds(s, 0);
            }
            seq![strip_cr(s.subrange(0, k))] + spec_lines(s.subrange(k + 1, s.len() as int))
        }
    }
}

/// `s` holds no `'\n'`.
pub open spec fn no_newline(s: Seq<char>) -> bool {
    forall|j: int| 0 <= j < s.len() ==> s[j] != '\n'
}

proof fn lemma_first_newline_after_block(x: Seq<char>, n: int, i: int)
    requires
        0 <= i <= n <= x.len(),
        forall|j: int| 0 <= j < n ==> x[j] != '\n',
        n < x.len() ==> x[n] == '\n',
    ensures
        first_newline_from(x, i) == n,
    decreases n - i,
{
    if i < n {
        lemma_first_newline_after_block(x, n, i + 1);
    }
}

/// A newline after a block without newlines ends exactly one line.
pub proof fn lemma_lines_newline(c: Seq<char>, t: Seq<char>)
    requires
        no_newline(c),
    ensures
        spec_lines(c + seq!['\n'] + t) == seq![strip_cr(c)] + spec_lines(t),
{
    let x = c + seq!['\n'] + t;
    lemma_first_newline_after_block(x, c.len() as int, 0);
    assert(x.subrange(0, c.len() as int) =~= c);
    assert(x.subrange(c.len() as int + 1, x.len() as int) =~= t);
}

/// A block without newlines is one line, or none when empty.
pub proof fn lemma_lines_last(c: Seq<char>)
    requires
        no_newline(c),
    ensures
        spec_lines(c) == (if c.len() == 0 { Seq::<Seq<char>>::empty() } else { seq![c] }),
{
    if c.len() > 0 {
        lemma_first_newline_after_block(c, c.len() as int, 0);
    }
}

fn string_of_chars(v: &Vec<char>) -> (r: String)
    ensures
        r@ == v@,
{
    let mut r = String::new();
    let mut i: usize = 0;
    while i < v.len()
        invariant
            i <= v.len(),
            r@ == v@.take(i as int),
        decreases v.len() - i,
    {
        push_char(&mut r, v[i]);
        assert(v@.take(i + 1) =~= v@.take(i as int).push(v@[i as int]));
        i = i + 1;
    }
    assert(v@.take(v.len() as int) =~= v@);
    r
}

fn chars_without_cr(v: &Vec<char>) -> (r: Vec<char>)
    ensures
        r@ == strip_cr(v@),
{
    let mut r: Vec<char> = Vec::new();
    let n: usize = if v.len() > 0 && v[v.len() - 1] == '\r' {
        v.len() - 1
    } else {
        v.len()
    };
    let mut i: usize = 0;
    while i < n
        invariant
            n <= v.len(),
            i <= n,
            r@ == v@.take(i as int),
        decreases n - i,
    {
        r.push(v[i]);
        assert(v@.take(i + 1) =~= v@.take(i as int).push(v@[i as int]));
        i = i + 1;
    }
    assert(r@ =~= strip_cr(v@));
    r
}

/// The lines of `s` (std's `str::lines`).
pub fn split_lines(s: &str) -> (r: Vec<String>)
    ensures
        string_views(r@) == spec_lines(s@),
{
    let v = chars_of(s);
    let mut out: Vec<String> = Vec::new();
    let mut cur: Vec<char> = Vec::new();
    let mut i: usize = 0;
    proof {
        assert(cur@ + v@.subrange(0, v@.len() as int) =~= s@);
        assert(string_views(out@) =~= Seq::<Seq<char>>::empty());
        assert(Seq::<Seq<char>>::empty() + spec_lines(s@) =~= spec_lines(s@));
    }
    while i < v.len()
        invariant
            v@ == s@,
            i <= v.len(),
            no_newline(cur@),
            string_views(out@) + spec_lines(cur@ + v@.subrange(i as int, v@.len() as int))
                == spec_lines(s@),
        decreases v.len() - i,
    {
        let c = v[i];
        let ghost rest = v@.subrange(i + 1, v@.len() as int);
        assert(v@.subrange(i as int, v@.len() as int) =~= seq![c] + rest);
        if c == '\n' {
            proof {
                lemma_lines_newline(cur@, rest);
                assert(cur@ + v@.subrange(i as int, v@.len() as int) =~= cur@ + seq!['\n'] + rest);
            }
            let line = chars_without_cr(&cur);
            let ls = string_of_chars(&line);
            let ghost before = out@;
            out.push(ls);
            proof {
                assert(string_views(out@) =~= string_views(before).push(strip_cr(cur@)));
                assert(cur@ + v@.subrange(i as int, v@.len() as int) =~= cur@ + seq!['\n'] + rest);
                assert(seq![strip_cr(cur@)] + spec_lines(rest) == spec_lines(cur@ + seq!['\n'] + rest));
                assert(string_views(out@) + spec_lines(Seq::<char>::empty() + rest)
                    =~= string_views(before) + (seq![strip_cr(cur@)] + spec_lines(rest))) by {
                    assert(Seq::<char>::empty() + rest =~= rest);
                }
            }
            cur = Vec::new();
            proof {
                assert(cur@ + v@.subrange(i + 1, v@.len() as int) =~= Seq::<char>::empty() + rest);
            }
        } else {
            let ghost old_cur = cur@;
            cur.push(c);
            assert(cur@ + rest =~= old_cur + v@.subrange(i as int, v@.len() as int));
        }
        i = i + 1;
    }
    proof {
        lemma_lines_last(cur@);
        assert(cur@ + v@.subrange(i as int, v@.len() as int) =~= cur@);
    }
    if cur.len() > 0 {
        let ls = string_of_chars(&cur);
        let ghost before = out@;
        out.push(ls);
        assert(string_views(out@) =~= string_views(before) + seq![cur@]);
    } else {
        assert(string_views(out@) =~= string_views(out@) + Seq::<Seq<char>>::empty());
    }
    out
}


/// `l` ends in a carriage return.
pub open spec fn ends_with_cr(l: Seq<char>) -> bool {
    l.len() > 0 && l.last() == '\r'
}

/// No line that `spec_lines` yields holds a `'\n'`.
pub proof fn lemma_lines_have_no_newline(s: Seq<char>)
    ensures
        forall|k: int| 0 <= k < spec_lines(s).len() ==> no_newline(#[trigger] spec_lines(s)[k]),
    decreases s.len(),
{
    if s.len() > 0 {
        lemma_first_newline_bounds(s, 0);
        let k = first_newline_from(s, 0);
        if k < s.len() {
            let rest = s.subrange(k + 1, s.len() as int);
            lemma_lines_have_no_newline(rest);
            let first = strip_cr(s.subrange(0, k));
            assert(no_newline(first)) by {
                assert forall|j: int| 0 <= j < first.len() implies first[j] != '\n' by {
                    assert(first[j] == s[j]);
                }
            }
            assert forall|m: int| 0 <= m < spec_lines(s).len() implies no_newline(
                #[trigger] spec_lines(s)[m],
            ) by {
                if m > 0 {
                    assert(spec_lines(s)[m] == spec_lines(rest)[m - 1]);
                }
            }
        }
    }
}

/// Joining puts the first part, the separator, then the join of the rest.
pub proof fn lemma_join_front(parts: Seq<Seq<char>>, sep: Seq<char>)
    requires
        parts.len() >= 2,
    ensures
        spec_join(parts, sep) == parts[0] + sep + spec_join(parts.drop_first(), sep),
    decreases parts.len(),
{
    let a = parts.drop_last();
    let b = parts.drop_first();
    if parts.len() > 2 {
        lemma_join_front(a, sep);
        assert(a.drop_first() =~= b.drop_last());
        assert(b.last() == parts.last());
        assert(a[0] == parts[0]);
        assert(spec_join(b, sep) == spec_join(b.drop_last(), sep) + sep + b.last());
        assert(spec_join(parts, sep) == spec_join(a, sep) + sep + parts.last());
        assert(spec_join(parts, sep) =~= parts[0] + sep + spec_join(b, sep));
    } else {
        assert(b =~= seq![parts[1]]);
        assert(a =~= seq![parts[0]]);
        assert(spec_join(a, sep) == parts[0]);
        assert(spec_join(b, sep) == parts[1]);
    }
}

/// Lines without newlines or trailing carriage returns, each ended by a
/// `'\n'`, are read back as the same lines.
pub proof fn lemma_lines_of_terminated_join(parts: Seq<Seq<char>>)
    requires
        parts.len() > 0,
        forall|k: int| 0 <= k < parts.len() ==> no_newline(#[trigger] parts[k]),
        forall|k: int| 0 <= k < parts.len() ==> !ends_with_cr(#[trigger] parts[k]),
    ensures
        spec_lines(spec_join(parts, "\n"@) + "\n"@) == parts,
    decreases parts.len(),
{
    reveal_strlit("\n");
    assert("\n"@ =~= seq!['\n']);
    let first = parts[0];
    assert(no_newline(first) && !ends_with_cr(first));
    if parts.len() == 1 {
        lemma_lines_newline(first, Seq::empty());
        assert(spec_join(parts, "\n"@) + "\n"@ =~= first + seq!['\n'] + Seq::<char>::empty());
        assert(spec_lines(Seq::<char>::empty()) =~= Seq::<Seq<char>>::empty());
        assert(seq![strip_cr(first)] + Seq::<Seq<char>>::empty() =~= parts);
    } else {
        let rest = parts.drop_first();
        assert forall|k: int| 0 <= k < rest.len() implies no_newline(#[trigger] rest[k])
            && !ends_with_cr(rest[k]) by {
            assert(rest[k] == parts[k + 1]);
        }
        lemma_lines_of_terminated_join(rest);
        lemma_join_front(parts, "\n"@);
        let tail = spec_join(rest, "\n"@) + "\n"@;
        lemma_lines_newline(first, tail);
        assert(spec_join(parts, "\n"@) + "\n"@ =~= first + seq!['\n'] + tail);
        assert(seq![strip_cr(first)] + rest =~= parts);
    }
}

} // verus!
