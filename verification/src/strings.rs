//! Character-level text model: the specification of substring search,
//! replacement and prefixes over `Seq<char>`, and their verified executable
//! counterparts on `str` and `String`.
use vstd::prelude::*;

verus! {

/// `p` occurs in `s` starting at index `i`.
pub open spec fn occurs_at(s: Seq<char>, p: Seq<char>, i: int) -> bool {
    0 <= i && i + p.len() <= s.len() && s.subrange(i, i + p.len()) == p
}

/// `p` occurs somewhere in `s` (the empty pattern occurs everywhere).
pub open spec fn contains(s: Seq<char>, p: Seq<char>) -> bool {
    exists|i: int| occurs_at(s, p, i)
}

/// `c` is one of the characters of `s`.
pub open spec fn has_char(s: Seq<char>, c: char) -> bool {
    exists|i: int| 0 <= i < s.len() && s[i] == c
}

/// Every non-overlapping occurrence of the non-empty pattern `from`,
/// found from left to right, replaced by `to`.
pub open spec fn replace_all(s: Seq<char>, from: Seq<char>, to: Seq<char>) -> Seq<char>
    decreases s.len(),
{
    if s.len() == 0 || from.len() == 0 {
        s
    } else if from.len() <= s.len() && s.subrange(0, from.len() as int) == from {
        to + replace_all(s.subrange(from.len() as int, s.len() as int), from, to)
    } else {
        seq![s[0]] + replace_all(s.subrange(1, s.len() as int), from, to)
    }
}

/// The first `n` characters of `s`, or all of `s` when it is shorter.
pub open spec fn first_chars(s: Seq<char>, n: nat) -> Seq<char> {
    if n <= s.len() {
        s.subrange(0, n as int)
    } else {
        s
    }
}

/// `s` holds none of the characters listed in `cs`.
pub open spec fn lacks_all(s: Seq<char>, cs: Seq<char>) -> bool {
    forall|i: int| 0 <= i < cs.len() ==> !has_char(s, #[trigger] cs[i])
}

/// Replacement only brings in characters of `s` and of `to`: a character
/// that neither holds is not in the result.
pub proof fn lemma_replace_keeps_absent(s: Seq<char>, from: Seq<char>, to: Seq<char>, d: char)
    requires
        from.len() > 0,
        !has_char(to, d),
        !has_char(s, d),
    ensures
        !has_char(replace_all(s, from, to), d),
    decreases s.len(),
{
    let r = replace_all(s, from, to);
    if s.len() > 0 {
        if from.len() <= s.len() && s.subrange(0, from.len() as int) == from {
            let rest = s.subrange(from.len() as int, s.len() as int);
            assert forall|k: int| 0 <= k < rest.len() implies rest[k] != d by {
                assert(rest[k] == s[k + from.len()]);
            }
            lemma_replace_keeps_absent(rest, from, to, d);
            let tail = replace_all(rest, from, to);
            assert(r == to + tail);
            assert forall|k: int| 0 <= k < r.len() implies r[k] != d by {
                if k < to.len() {
                    assert(to[k] == r[k]);
                } else {
                    assert(r[k] == tail[k - to.len()]);
                }
            }
        } else {
            let rest = s.subrange(1, s.len() as int);
            assert forall|k: int| 0 <= k < rest.len() implies rest[k] != d by {
                assert(rest[k] == s[k + 1]);
            }
            lemma_replace_keeps_absent(rest, from, to, d);
            let tail = replace_all(rest, from, to);
            assert(r == seq![s[0]] + tail);
            assert forall|k: int| 0 <= k < r.len() implies r[k] != d by {
                if k == 0 {
                    assert(s[0] != d);
                } else {
                    assert(r[k] == tail[k - 1]);
                }
            }
        }
    }
}

/// Replacing a pattern whose first character is not in `s` changes nothing.
pub proof fn lemma_replace_absent(s: Seq<char>, from: Seq<char>, to: Seq<char>)
    requires
        from.len() > 0,
        !has_char(s, from[0]),
    ensures
        replace_all(s, from, to) == s,
    decreases s.len(),
{
    if s.len() > 0 {
        let rest = s.subrange(1, s.len() as int);
        assert forall|k: int| 0 <= k < rest.len() implies rest[k] != from[0] by {
            assert(rest[k] == s[k + 1]);
        }
        lemma_replace_absent(rest, from, to);
        if from.len() <= s.len() && s.subrange(0, from.len() as int) == from {
            assert(s.subrange(0, from.len() as int)[0] == s[0]);
        }
        assert(seq![s[0]] + rest =~= s);
    }
}

/// Replacing a single character works on each part of a concatenation.
pub proof fn lemma_replace_char_concat(a: Seq<char>, b: Seq<char>, c: char, to: Seq<char>)
    ensures
        replace_all(a + b, seq![c], to) == replace_all(a, seq![c], to) + replace_all(b, seq![c], to),
    decreases a.len(),
{
    if a.len() == 0 {
        assert(a + b =~= b);
    } else {
        let ab = a + b;
        let ra = a.subrange(1, a.len() as int);
        assert(ab.subrange(1, ab.len() as int) =~= ra + b);
        assert(ab.subrange(0, 1) =~= a.subrange(0, 1));
        assert(ab[0] == a[0]);
        lemma_replace_char_concat(ra, b, c, to);
        if a.subrange(0, 1) == seq![c] {
            assert(replace_all(ab, seq![c], to) == to + replace_all(ra + b, seq![c], to));
            assert(replace_all(a, seq![c], to) == to + replace_all(ra, seq![c], to));
        } else {
            assert(replace_all(ab, seq![c], to) == seq![a[0]] + replace_all(ra + b, seq![c], to));
            assert(replace_all(a, seq![c], to) == seq![a[0]] + replace_all(ra, seq![c], to));
        }
    }
}

/// Replacing a single character in a text of at most one character.
pub proof fn lemma_replace_char_short(u: Seq<char>, c: char, to: Seq<char>)
    requires
        u.len() <= 1,
    ensures
        replace_all(u, seq![c], to) == (if u.len() == 0 {
            u
        } else if u[0] == c {
            to
        } else {
            u
        }),
{
    if u.len() == 1 {
        let e = Seq::<char>::empty();
        assert(u.subrange(1, 1) =~= e);
        assert(replace_all(e, seq![c], to) == e);
        if u[0] == c {
            assert(u.subrange(0, 1) =~= seq![c]);
            assert(to + e =~= to);
        } else {
            assert(u.subrange(0, 1) != seq![c]) by {
                assert(u.subrange(0, 1)[0] == u[0]);
            }
            assert(seq![u[0]] + e =~= u);
        }
    }
}

/// Replacing a pattern that does not occur in `s` changes nothing.
pub proof fn lemma_replace_not_contained(s: Seq<char>, from: Seq<char>, to: Seq<char>)
    requires
        from.len() > 0,
        !contains(s, from),
    ensures
        replace_all(s, from, to) == s,
    decreases s.len(),
{
    if s.len() > 0 {
        if from.len() <= s.len() && s.subrange(0, from.len() as int) == from {
            assert(occurs_at(s, from, 0));
        }
        let rest = s.subrange(1, s.len() as int);
        assert forall|i: int| !occurs_at(rest, from, i) by {
            if occurs_at(rest, from, i) {
                assert(s.subrange(i + 1, i + 1 + from.len()) =~= rest.subrange(i, i + from.len()));
                assert(occurs_at(s, from, i + 1));
            }
        }
        lemma_replace_not_contained(rest, from, to);
        assert(seq![s[0]] + rest =~= s);
    }
}

/// One step of a character clean-up: replacing `c` by a text that holds
/// neither `c` nor any of `cs` keeps `cs` out and takes `c` out as well.
pub proof fn lemma_replace_char_step(s: Seq<char>, c: char, to: Seq<char>, cs: Seq<char>)
    requires
        lacks_all(s, cs),
        lacks_all(to, cs),
        !has_char(to, c),
    ensures
        lacks_all(replace_all(s, seq![c], to), cs.push(c)),
{
    let r = replace_all(s, seq![c], to);
    lemma_replace_char_removes(s, c, to);
    assert forall|i: int| 0 <= i < cs.push(c).len() implies !has_char(r, #[trigger] cs.push(c)[i]) by {
        if i < cs.len() {
            assert(cs.push(c)[i] == cs[i]);
            assert(!has_char(to, cs[i]));
            lemma_replace_keeps_absent(s, seq![c], to, cs[i]);
        }
    }
}

/// A replacement whose text holds none of `cs` keeps `cs` out.
pub proof fn lemma_replace_keeps_all_absent(s: Seq<char>, from: Seq<char>, to: Seq<char>, cs: Seq<char>)
    requires
        from.len() > 0,
        lacks_all(s, cs),
        lacks_all(to, cs),
    ensures
        lacks_all(replace_all(s, from, to), cs),
{
    assert forall|i: int| 0 <= i < cs.len() implies !has_char(replace_all(s, from, to), #[trigger] cs[i]) by {
        assert(!has_char(to, cs[i]));
        lemma_replace_keeps_absent(s, from, to, cs[i]);
    }
}

/// Replacing a single character `c` by a text without `c` removes every `c`.
pub proof fn lemma_replace_char_removes(s: Seq<char>, c: char, to: Seq<char>)
    requires
        !has_char(to, c),
    ensures
        !has_char(replace_all(s, seq![c], to), c),
    decreases s.len(),
{
    let r = replace_all(s, seq![c], to);
    if s.len() == 0 {
    } else {
        let rest = s.subrange(1, s.len() as int);
        lemma_replace_char_removes(rest, c, to);
        let tail = replace_all(rest, seq![c], to);
        assert forall|k: int| 0 <= k < r.len() implies r[k] != c by {
            if s.subrange(0, 1) == seq![c] {
                assert(r == to + tail);
                if k < to.len() {
                    assert(to[k] == r[k]);
                } else {
                    assert(r[k] == tail[k - to.len()]);
                }
            } else {
                assert(r == seq![s[0]] + tail);
                if k == 0 {
                    assert(s.subrange(0, 1) =~= seq![s[0]]);
                } else {
                    assert(r[k] == tail[k - 1]);
                }
            }
        }
    }
}

/// What `str::to_lowercase` returns for a string with the given characters:
/// its lowercase equivalent under the Unicode tables of the standard library.
pub uninterp spec fn lowercase(s: Seq<char>) -> Seq<char>;

/// `str::to_lowercase`. The contract only names the result: it is
/// `lowercase` of the argument's characters, a function of them alone; the
/// Unicode case mapping itself is left unstated.
#[verifier::external_body]
pub(crate) fn to_lowercase(s: &str) -> (r: String)
    ensures
        r@ == lowercase(s@),
{
    s.to_lowercase()
}

/// The characters of a string slice, in order.
pub fn chars_of(s: &str) -> (v: Vec<char>)
    ensures
        v@ == s@,
{
    let n = s.unicode_len();
    let mut v: Vec<char> = Vec::new();
    let mut i: usize = 0;
    while i < n
        invariant
            n == s@.len(),
            i <= n,
            v@ == s@.subrange(0, i as int),
        decreases n - i,
    {
        v.push(s.get_char(i));
        i = i + 1;
    }
    v
}

/// `String::push`: appends one character to the end of the string.
#[verifier::external_body]
fn push_char(s: &mut String, c: char)
    ensures
        final(s)@ == old(s)@.push(c),
{
    s.push(c);
}

/// The string made of the given characters.
pub fn string_of(v: &Vec<char>) -> (s: String)
    ensures
        s@ == v@,
{
    let mut s = String::new();
    let mut i: usize = 0;
    while i < v.len()
        invariant
            i <= v.len(),
            s@ == v@.subrange(0, i as int),
        decreases v.len() - i,
    {
        push_char(&mut s, v[i]);
        i = i + 1;
    }
    s
}

/// Whether `p` occurs in `s` at index `i`, for characters held in vectors.
fn occurs_at_exec(s: &Vec<char>, p: &Vec<char>, i: usize) -> (r: bool)
    ensures
        r == occurs_at(s@, p@, i as int),
{
    if i > s.len() || p.len() > s.len() - i {
        return false;
    }
    let mut k: usize = 0;
    while k < p.len()
        invariant
            i + p.len() <= s.len(),
            k <= p.len(),
            forall|j: int| 0 <= j < k ==> s@[i + j] == p@[j],
        decreases p.len() - k,
    {
        if s[i + k] != p[k] {
            assert(s@.subrange(i as int, i + p.len())[k as int] != p@[k as int]);
            return false;
        }
        k = k + 1;
    }
    assert(s@.subrange(i as int, i + p.len()) =~= p@);
    true
}

/// Whether `p` occurs in `s`, for characters held in vectors.
pub fn contains_chars(s: &Vec<char>, p: &Vec<char>) -> (r: bool)
    ensures
        r == contains(s@, p@),
{
    if p.len() == 0 {
        assert(s@.subrange(0, 0) =~= p@);
        assert(occurs_at(s@, p@, 0));
        return true;
    }
    if p.len() > s.len() {
        assert forall|i: int| !occurs_at(s@, p@, i) by {}
        return false;
    }
    let last = s.len() - p.len();
    let mut i: usize = 0;
    while i <= last
        invariant
            p@.len() > 0,
            last == s.len() - p.len(),
            i <= last + 1,
            forall|j: int| 0 <= j < i ==> !occurs_at(s@, p@, j),
        decreases last + 1 - i,
    {
        if occurs_at_exec(s, p, i) {
            return true;
        }
        i = i + 1;
    }
    false
}

/// Whether two string slices hold the same characters.
pub fn str_eq(a: &str, b: &str) -> (r: bool)
    ensures
        r == (a@ == b@),
{
    let av = chars_of(a);
    let bv = chars_of(b);
    if av.len() != bv.len() {
        return false;
    }
    let mut i: usize = 0;
    while i < av.len()
        invariant
            av@ == a@,
            bv@ == b@,
            av@.len() == bv@.len(),
            i <= av@.len(),
            forall|k: int| 0 <= k < i ==> av@[k] == bv@[k],
        decreases av.len() - i,
    {
        if av[i] != bv[i] {
            assert(a@[i as int] != b@[i as int]);
            return false;
        }
        i = i + 1;
    }
    assert(av@ =~= bv@);
    true
}

/// Whether `p` occurs in `s` (`str::contains` with a string pattern).
pub fn str_contains(s: &str, p: &str) -> (r: bool)
    ensures
        r == contains(s@, p@),
{
    let sv = chars_of(s);
    let pv = chars_of(p);
    contains_chars(&sv, &pv)
}

/// Replaces every occurrence of the non-empty `from`, scanning left to
/// right, by `to`, for characters held in vectors.
pub fn replace_chars(s: &Vec<char>, from: &Vec<char>, to: &Vec<char>) -> (r: Vec<char>)
    requires
        from@.len() > 0,
    ensures
        r@ == replace_all(s@, from@, to@),
{
    let mut out: Vec<char> = Vec::new();
    let mut i: usize = 0;
    assert(s@.subrange(0, s@.len() as int) =~= s@);
    while i < s.len()
        invariant
            from@.len() > 0,
            i <= s.len(),
            out@ + replace_all(s@.subrange(i as int, s@.len() as int), from@, to@) == replace_all(
                s@,
                from@,
                to@,
            ),
        decreases s.len() - i,
    {
        let ghost rest = s@.subrange(i as int, s@.len() as int);
        if occurs_at_exec(s, from, i) {
            assert(rest.subrange(0, from@.len() as int) =~= s@.subrange(i as int, i + from@.len()));
            assert(rest.subrange(from@.len() as int, rest.len() as int) =~= s@.subrange(
                i + from@.len(),
                s@.len() as int,
            ));
            let mut k: usize = 0;
            let ghost before = out@;
            while k < to.len()
                invariant
                    k <= to.len(),
                    out@ == before + to@.subrange(0, k as int),
                decreases to.len() - k,
            {
                out.push(to[k]);
                k = k + 1;
            }
            assert(to@.subrange(0, to@.len() as int) =~= to@);
            assert(out@ + replace_all(s@.subrange(i + from@.len(), s@.len() as int), from@, to@)
                =~= before + replace_all(rest, from@, to@));
            i = i + from.len();
        } else {
            assert(from@.len() <= rest.len() ==> rest.subrange(0, from@.len() as int)
                =~= s@.subrange(i as int, i + from@.len()));
            assert(rest.subrange(1, rest.len() as int) =~= s@.subrange(i + 1, s@.len() as int));
            let ghost before = out@;
            out.push(s[i]);
            assert(out@ + replace_all(s@.subrange(i + 1, s@.len() as int), from@, to@)
                =~= before + replace_all(rest, from@, to@));
            i = i + 1;
        }
    }
    assert(out@ + replace_all(s@.subrange(i as int, s@.len() as int), from@, to@) =~= out@);
    out
}

/// `str::replace` with a non-empty string pattern: every occurrence of
/// `from`, scanning left to right, replaced by `to`.
pub fn str_replace(s: &str, from: &str, to: &str) -> (r: String)
    requires
        from@.len() > 0,
    ensures
        r@ == replace_all(s@, from@, to@),
{
    let sv = chars_of(s);
    let fv = chars_of(from);
    let tv = chars_of(to);
    let rv = replace_chars(&sv, &fv, &tv);
    string_of(&rv)
}

/// The first `n` characters of `s`, or all of `s` when it is shorter.
pub fn first_n_chars(s: &str, n: usize) -> (r: String)
    ensures
        r@ == first_chars(s@, n as nat),
{
    let v = chars_of(s);
    let mut out: Vec<char> = Vec::new();
    let mut i: usize = 0;
    while i < n && i < v.len()
        invariant
            i <= v.len(),
            i <= n,
            out@ == v@.subrange(0, i as int),
        decreases v.len() - i,
    {
        out.push(v[i]);
        i = i + 1;
    }
    if n <= v.len() {
        assert(i == n);
    } else {
        assert(out@ =~= v@);
    }
    string_of(&out)
}

/// The decimal digit character for `d < 10`.
pub open spec fn digit_char(d: nat) -> char {
    (48 + d) as char
}

/// The decimal notation of `n`: its digits, most significant first, with no
/// leading zero (`0` is written "0").
pub open spec fn decimal(n: nat) -> Seq<char>
    decreases n,
{
    if n < 10 {
        seq![digit_char(n)]
    } else {
        decimal(n / 10).push(digit_char(n % 10))
    }
}

/// The digit character of `d < 10`.
fn digit(d: u64) -> (c: char)
    requires
        d < 10,
    ensures
        c == digit_char(d as nat),
{
    let b: u8 = 48u8 + (d as u8);
    b as char
}

/// The decimal notation of `n`, as `{}` formats an unsigned integer.
pub fn u64_decimal(n: u64) -> (r: String)
    ensures
        r@ == decimal(n as nat),
{
    let mut m: u64 = n;
    let mut v: Vec<char> = Vec::new();
    while m >= 10
        invariant
            decimal(n as nat) == decimal(m as nat) + v@,
        decreases m,
    {
        let ghost before = v@;
        v.insert(0, digit(m % 10));
        assert(decimal(m as nat) == decimal((m / 10) as nat).push(digit_char((m % 10) as nat)));
        assert(decimal((m / 10) as nat) + v@ =~= decimal(m as nat) + before);
        m = m / 10;
    }
    let ghost before = v@;
    v.insert(0, digit(m));
    assert(v@ =~= decimal(m as nat) + before);
    string_of(&v)
}

/// The decimal notation of `n`, as `{}` formats a `usize`.
pub fn usize_decimal(n: usize) -> (r: String)
    ensures
        r@ == decimal(n as nat),
{
    u64_decimal(n as u64)
}

/// The notation of a signed integer as `{}` formats it: a minus sign before
/// the decimal notation of its magnitude when it is negative.
pub open spec fn signed_decimal(n: int) -> Seq<char> {
    if n < 0 {
        seq!['-'] + decimal((-n) as nat)
    } else {
        decimal(n as nat)
    }
}

/// The notation of `n` as `{}` formats an `i32`.
pub fn i32_decimal(n: i32) -> (r: String)
    ensures
        r@ == signed_decimal(n as int),
{
    if n < 0 {
        let magnitude: u64 = (0i64 - (n as i64)) as u64;
        let digits = u64_decimal(magnitude);
        let mut r = String::new();
        push_char(&mut r, '-');
        r.append(digits.as_str());
        r
    } else {
        u64_decimal(n as u64)
    }
}

/// Lexicographic order of character sequences by code point, the order in
/// which `String`s compare: `a` comes no later than `b`.
pub open spec fn lex_le(a: Seq<char>, b: Seq<char>) -> bool
    decreases a.len(),
{
    if a.len() == 0 {
        true
    } else if b.len() == 0 {
        false
    } else if a[0] != b[0] {
        (a[0] as u32) < (b[0] as u32)
    } else {
        lex_le(a.subrange(1, a.len() as int), b.subrange(1, b.len() as int))
    }
}

/// Any two sequences are ordered one way or the other.
pub proof fn lemma_lex_total(a: Seq<char>, b: Seq<char>)
    ensures
        lex_le(a, b) || lex_le(b, a),
    decreases a.len(),
{
    if a.len() > 0 && b.len() > 0 && a[0] != b[0] {
        vstd::utf8::char_u32_cast(a[0], a[0] as u32);
        vstd::utf8::char_u32_cast(b[0], b[0] as u32);
    }
    if a.len() > 0 && b.len() > 0 && a[0] == b[0] {
        lemma_lex_total(a.subrange(1, a.len() as int), b.subrange(1, b.len() as int));
    }
}

/// The order is transitive.
pub proof fn lemma_lex_trans(a: Seq<char>, b: Seq<char>, c: Seq<char>)
    requires
        lex_le(a, b),
        lex_le(b, c),
    ensures
        lex_le(a, c),
    decreases a.len(),
{
    if a.len() > 0 && b.len() > 0 && c.len() > 0 && a[0] == b[0] && b[0] == c[0] {
        lemma_lex_trans(
            a.subrange(1, a.len() as int),
            b.subrange(1, b.len() as int),
            c.subrange(1, c.len() as int),
        );
    }
}

/// Whether `a` comes no later than `b` in lexicographic order.
pub fn lex_le_chars(a: &Vec<char>, b: &Vec<char>) -> (r: bool)
    ensures
        r == lex_le(a@, b@),
{
    let mut i: usize = 0;
    assert(a@.subrange(0, a@.len() as int) =~= a@);
    assert(b@.subrange(0, b@.len() as int) =~= b@);
    while i < a.len() && i < b.len() && a[i] == b[i]
        invariant
            i <= a.len(),
            i <= b.len(),
            a@.subrange(0, i as int) == b@.subrange(0, i as int),
            lex_le(a@, b@) == lex_le(
                a@.subrange(i as int, a@.len() as int),
                b@.subrange(i as int, b@.len() as int),
            ),
        decreases a.len() - i,
    {
        let ghost ra = a@.subrange(i as int, a@.len() as int);
        let ghost rb = b@.subrange(i as int, b@.len() as int);
        assert(ra.subrange(1, ra.len() as int) =~= a@.subrange(i + 1, a@.len() as int));
        assert(rb.subrange(1, rb.len() as int) =~= b@.subrange(i + 1, b@.len() as int));
        assert(a@.subrange(0, i + 1) =~= a@.subrange(0, i as int).push(a@[i as int]));
        assert(b@.subrange(0, i + 1) =~= b@.subrange(0, i as int).push(b@[i as int]));
        i = i + 1;
    }
    let ghost ra = a@.subrange(i as int, a@.len() as int);
    let ghost rb = b@.subrange(i as int, b@.len() as int);
    if i == a.len() {
        true
    } else if i == b.len() {
        false
    } else {
        assert(ra[0] == a@[i as int] && rb[0] == b@[i as int]);
        (a[i] as u32) < (b[i] as u32)
    }
}

} // verus!
