//! Character-level text handling: the splitting, trimming and number
//! rendering that the module applies to command output and file metadata.
//!
//! Text is modelled as `Seq<char>`; executable code works on `Vec<char>`
//! and turns the result into a `String` at the end.
use vstd::prelude::*;

verus! {

/// A class of characters that splitting and trimming act on.
#[derive(Clone, Copy)]
pub enum CharClass {
    /// Unicode `White_Space`, as `char::is_whitespace` decides it.
    Whitespace,
    /// Exactly the given character.
    Exactly(char),
}

/// Unicode `White_Space`: the code points that `char::is_whitespace` accepts.
pub open spec fn is_unicode_whitespace(c: char) -> bool {
    let u = c as u32;
    ||| 0x09 <= u <= 0x0D
    ||| u == 0x20
    ||| u == 0x85
    ||| u == 0xA0
    ||| u == 0x1680
    ||| 0x2000 <= u <= 0x200A
    ||| u == 0x2028
    ||| u == 0x2029
    ||| u == 0x202F
    ||| u == 0x205F
    ||| u == 0x3000
}

pub open spec fn in_class(c: char, cls: CharClass) -> bool {
    match cls {
        CharClass::Whitespace => is_unicode_whitespace(c),
        CharClass::Exactly(d) => c == d,
    }
}

pub fn is_in_class(c: char, cls: CharClass) -> (b: bool)
    ensures
        b == in_class(c, cls),
{
    match cls {
        CharClass::Whitespace => {
            let u = c as u32;
            (0x09 <= u && u <= 0x0D) || u == 0x20 || u == 0x85 || u == 0xA0 || u == 0x1680 || (
            0x2000 <= u && u <= 0x200A) || u == 0x2028 || u == 0x2029 || u == 0x202F || u == 0x205F
                || u == 0x3000
        },
        CharClass::Exactly(d) => c == d,
    }
}

/// The pieces of `s` between separators of class `cls`, empty pieces
/// included (as `str::split` with a char or a char predicate yields them).
pub open spec fn split_by(s: Seq<char>, cls: CharClass) -> Seq<Seq<char>>
    decreases s.len(),
{
    if s.len() == 0 {
        seq![Seq::<char>::empty()]
    } else {
        let rest = split_by(s.drop_last(), cls);
        if in_class(s.last(), cls) {
            rest.push(Seq::<char>::empty())
        } else {
            rest.update(rest.len() - 1, rest.last().push(s.last()))
        }
    }
}

/// The non-empty members of `ps`, in order.
pub open spec fn nonempty_only(ps: Seq<Seq<char>>) -> Seq<Seq<char>>
    decreases ps.len(),
{
    if ps.len() == 0 {
        Seq::empty()
    } else if ps.last().len() == 0 {
        nonempty_only(ps.drop_last())
    } else {
        nonempty_only(ps.drop_last()).push(ps.last())
    }
}

/// `str::split_whitespace`: the pieces between whitespace that are not empty.
pub open spec fn words(s: Seq<char>) -> Seq<Seq<char>> {
    nonempty_only(split_by(s, CharClass::Whitespace))
}

/// `s` without its leading characters of class `cls`.
pub open spec fn trim_start(s: Seq<char>, cls: CharClass) -> Seq<char>
    decreases s.len(),
{
    if s.len() > 0 && in_class(s[0], cls) {
        trim_start(s.drop_first(), cls)
    } else {
        s
    }
}

/// `s` without its trailing characters of class `cls`.
pub open spec fn trim_end(s: Seq<char>, cls: CharClass) -> Seq<char>
    decreases s.len(),
{
    if s.len() > 0 && in_class(s.last(), cls) {
        trim_end(s.drop_last(), cls)
    } else {
        s
    }
}

/// `s` without leading and trailing characters of class `cls`
/// (`str::trim` for whitespace, `str::trim_matches` for one character).
pub open spec fn trim(s: Seq<char>, cls: CharClass) -> Seq<char> {
    trim_end(trim_start(s, cls), cls)
}

/// `str::strip_prefix`: the rest of `s` after `prefix`, if `s` starts with it.
pub open spec fn strip_prefix(s: Seq<char>, prefix: Seq<char>) -> Option<Seq<char>> {
    if prefix.len() <= s.len() && s.take(prefix.len() as int) == prefix {
        Some(s.skip(prefix.len() as int))
    } else {
        None
    }
}

/// `s` with every occurrence of `c` removed.
pub open spec fn without_char(s: Seq<char>, c: char) -> Seq<char>
    decreases s.len(),
{
    if s.len() == 0 {
        s
    } else if s.last() == c {
        without_char(s.drop_last(), c)
    } else {
        without_char(s.drop_last(), c).push(s.last())
    }
}

/// The views of a sequence of character vectors.
pub open spec fn views(vs: Seq<Vec<char>>) -> Seq<Seq<char>> {
    vs.map_values(|v: Vec<char>| v@)
}

/// The views of a sequence of strings.
pub open spec fn string_views(vs: Seq<String>) -> Seq<Seq<char>> {
    vs.map_values(|v: String| v@)
}

/// The character of a decimal (or octal) digit.
pub open spec fn digit_char(d: nat) -> char {
    if d == 0 {
        '0'
    } else if d == 1 {
        '1'
    } else if d == 2 {
        '2'
    } else if d == 3 {
        '3'
    } else if d == 4 {
        '4'
    } else if d == 5 {
        '5'
    } else if d == 6 {
        '6'
    } else if d == 7 {
        '7'
    } else if d == 8 {
        '8'
    } else {
        '9'
    }
}

pub fn make_digit(d: u64) -> (c: char)
    requires
        d < 10,
    ensures
        c == digit_char(d as nat),
{
    if d == 0 {
        '0'
    } else if d == 1 {
        '1'
    } else if d == 2 {
        '2'
    } else if d == 3 {
        '3'
    } else if d == 4 {
        '4'
    } else if d == 5 {
        '5'
    } else if d == 6 {
        '6'
    } else if d == 7 {
        '7'
    } else if d == 8 {
        '8'
    } else {
        '9'
    }
}

/// The digits of `n` in base `base`, most significant first, without
/// leading zeros (`0` is the single digit `0`).
pub open spec fn digits(n: nat, base: nat) -> Seq<char>
    recommends
        2 <= base <= 10,
    decreases n,
{
    if n < base || base < 2 {
        seq![digit_char(n % base)]
    } else {
        proof {
            assert(n / base < n) by (nonlinear_arith)
                requires
                    n >= base,
                    base >= 2,
            ;
        }
        digits(n / base, base).push(digit_char(n % base))
    }
}

/// How an integer prints with `{}` or `{:?}`: a minus sign for negative
/// values, then the decimal digits of the magnitude.
pub open spec fn decimal(n: int) -> Seq<char> {
    if n < 0 {
        seq!['-'] + digits((-n) as nat, 10)
    } else {
        digits(n as nat, 10)
    }
}

/// The digits of `n` in base `base` (2 to 10).
pub fn digits_of(n: u64, base: u64) -> (v: Vec<char>)
    requires
        2 <= base <= 10,
    ensures
        v@ == digits(n as nat, base as nat),
    decreases n,
{
    if n < base {
        let mut v: Vec<char> = Vec::new();
        v.push(make_digit(n % base));
        v
    } else {
        assert(n / base < n) by (nonlinear_arith)
            requires
                n >= base,
                base >= 2,
        ;
        let mut v = digits_of(n / base, base);
        v.push(make_digit(n % base));
        v
    }
}

/// The decimal text of a signed 64-bit integer, as `{:?}` prints it.
pub fn decimal_of_i64(n: i64) -> (v: Vec<char>)
    ensures
        v@ == decimal(n as int),
{
    if n < 0 {
        let magnitude: u64 = if n == i64::MIN {
            9223372036854775808u64
        } else {
            (-n) as u64
        };
        let mut v: Vec<char> = Vec::new();
        v.push('-');
        let d = digits_of(magnitude, 10);
        let mut i: usize = 0;
        while i < d.len()
            invariant
                0 <= i <= d.len(),
                v@ == seq!['-'] + d@.take(i as int),
            decreases d.len() - i,
        {
            v.push(d[i]);
            i = i + 1;
            assert(d@.take(i as int) == d@.take(i - 1).push(d@[i - 1]));
        }
        assert(d@.take(d.len() as int) == d@);
        v
    } else {
        digits_of(n as u64, 10)
    }
}

/// The characters of `s`, in order.
pub fn chars_of(s: &str) -> (v: Vec<char>)
    ensures
        v@ == s@,
{
    let n = s.unicode_len();
    let mut v: Vec<char> = Vec::new();
    let mut i: usize = 0;
    while i < n
        invariant
            n == s@.len(),
            0 <= i <= n,
            v@ == s@.take(i as int),
        decreases n - i,
    {
        v.push(s.get_char(i));
        i = i + 1;
        assert(s@.take(i as int) == s@.take(i - 1).push(s@[i - 1]));
    }
    assert(s@.take(n as int) == s@);
    v
}

/// Appends all of `b` to `a`.
pub fn append_chars(a: &mut Vec<char>, b: &Vec<char>)
    ensures
        final(a)@ == old(a)@ + b@,
{
    let mut i: usize = 0;
    while i < b.len()
        invariant
            0 <= i <= b.len(),
            a@ == old(a)@ + b@.take(i as int),
        decreases b.len() - i,
    {
        a.push(b[i]);
        i = i + 1;
        assert(b@.take(i as int) == b@.take(i - 1).push(b@[i - 1]));
    }
    assert(b@.take(b.len() as int) == b@);
}

/// The characters `s[from..to]` as a new vector.
pub fn copy_range(s: &Vec<char>, from: usize, to: usize) -> (v: Vec<char>)
    requires
        from <= to <= s.len(),
    ensures
        v@ == s@.subrange(from as int, to as int),
{
    let mut v: Vec<char> = Vec::new();
    let mut i: usize = from;
    while i < to
        invariant
            from <= i <= to <= s.len(),
            v@ == s@.subrange(from as int, i as int),
        decreases to - i,
    {
        v.push(s[i]);
        i = i + 1;
        assert(s@.subrange(from as int, i as int) == s@.subrange(from as int, i - 1).push(
            s@[i - 1],
        ));
    }
    v
}

/// Builds a `String` from characters: `String`'s `FromIterator<char>`, which
/// collects the characters in order.
#[verifier::external_body]
pub(crate) fn string_from_chars(v: &Vec<char>) -> (s: String)
    ensures
        s@ == v@,
{
    v.iter().collect::<String>()
}

/// Builds a vector of strings from vectors of characters.
pub fn strings_from(vs: &Vec<Vec<char>>) -> (out: Vec<String>)
    ensures
        string_views(out@) == views(vs@),
{
    let mut out: Vec<String> = Vec::new();
    let mut i: usize = 0;
    while i < vs.len()
        invariant
            0 <= i <= vs.len(),
            string_views(out@) == views(vs@).take(i as int),
        decreases vs.len() - i,
    {
        let s = string_from_chars(&vs[i]);
        let ghost prev = out@;
        out.push(s);
        assert(string_views(out@) =~= string_views(prev).push(vs@[i as int]@));
        assert(views(vs@).take(i + 1) =~= views(vs@).take(i as int).push(vs@[i as int]@));
        i = i + 1;
    }
    assert(views(vs@).take(vs.len() as int) == views(vs@));
    out
}

/// `split_by` always yields at least one piece.
pub proof fn lemma_split_by_nonempty(s: Seq<char>, cls: CharClass)
    ensures
        split_by(s, cls).len() >= 1,
    decreases s.len(),
{
    if s.len() > 0 {
        lemma_split_by_nonempty(s.drop_last(), cls);
    }
}

/// `str::split` on a character class: the pieces between separators.
pub fn split_chars(s: &Vec<char>, cls: CharClass) -> (pieces: Vec<Vec<char>>)
    ensures
        views(pieces@) == split_by(s@, cls),
{
    let mut pieces: Vec<Vec<char>> = Vec::new();
    let mut cur: Vec<char> = Vec::new();
    let mut i: usize = 0;
    while i < s.len()
        invariant
            0 <= i <= s.len(),
            views(pieces@).push(cur@) == split_by(s@.take(i as int), cls),
        decreases s.len() - i,
    {
        let c = s[i];
        let ghost before = views(pieces@).push(cur@);
        proof {
            assert(s@.take(i + 1).drop_last() == s@.take(i as int));
            assert(s@.take(i + 1).last() == c);
            lemma_split_by_nonempty(s@.take(i as int), cls);
        }
        if is_in_class(c, cls) {
            pieces.push(cur);
            cur = Vec::new();
            assert(views(pieces@).push(cur@) == before.push(Seq::<char>::empty()));
        } else {
            cur.push(c);
            assert(views(pieces@).push(cur@) == before.update(
                before.len() - 1,
                before.last().push(c),
            ));
        }
        i = i + 1;
    }
    assert(s@.take(s.len() as int) == s@);
    pieces.push(cur);
    pieces
}

/// The non-empty pieces of `pieces`, in order.
pub fn keep_nonempty(pieces: Vec<Vec<char>>) -> (out: Vec<Vec<char>>)
    ensures
        views(out@) == nonempty_only(views(pieces@)),
{
    let mut out: Vec<Vec<char>> = Vec::new();
    let mut i: usize = 0;
    let n = pieces.len();
    while i < n
        invariant
            n == pieces.len(),
            0 <= i <= n,
            views(out@) == nonempty_only(views(pieces@).take(i as int)),
        decreases n - i,
    {
        let p = &pieces[i];
        proof {
            assert(views(pieces@).take(i + 1).drop_last() == views(pieces@).take(i as int));
            assert(views(pieces@).take(i + 1).last() == p@);
        }
        if p.len() > 0 {
            out.push(p.clone());
            assert(views(out@) == nonempty_only(views(pieces@).take(i as int)).push(p@));
        }
        i = i + 1;
    }
    assert(views(pieces@).take(n as int) == views(pieces@));
    out
}

/// `str::split_whitespace`.
pub fn split_words(s: &Vec<char>) -> (out: Vec<Vec<char>>)
    ensures
        views(out@) == words(s@),
{
    keep_nonempty(split_chars(s, CharClass::Whitespace))
}

/// `s` without leading and trailing characters of class `cls`.
pub fn trim_chars(s: &Vec<char>, cls: CharClass) -> (t: Vec<char>)
    ensures
        t@ == trim(s@, cls),
{
    let n = s.len();
    let mut i: usize = 0;
    assert(s@.subrange(0, n as int) == s@);
    while i < n && is_in_class(s[i], cls)
        invariant
            n == s.len(),
            0 <= i <= n,
            trim_start(s@, cls) == trim_start(s@.subrange(i as int, n as int), cls),
        decreases n - i,
    {
        assert(s@.subrange(i as int, n as int).drop_first() == s@.subrange(i + 1, n as int));
        i = i + 1;
    }
    let mut j: usize = n;
    while j > i && is_in_class(s[j - 1], cls)
        invariant
            n == s.len(),
            0 <= i <= j <= n,
            trim_start(s@, cls) == s@.subrange(i as int, n as int),
            trim(s@, cls) == trim_end(s@.subrange(i as int, j as int), cls),
        decreases j - i,
    {
        assert(s@.subrange(i as int, j as int).drop_last() == s@.subrange(i as int, j - 1));
        j = j - 1;
    }
    copy_range(s, i, j)
}

/// `s` with every occurrence of `c` removed.
pub fn remove_char(s: &Vec<char>, c: char) -> (t: Vec<char>)
    ensures
        t@ == without_char(s@, c),
{
    let mut t: Vec<char> = Vec::new();
    let mut i: usize = 0;
    while i < s.len()
        invariant
            0 <= i <= s.len(),
            t@ == without_char(s@.take(i as int), c),
        decreases s.len() - i,
    {
        assert(s@.take(i + 1).drop_last() == s@.take(i as int));
        assert(s@.take(i + 1).last() == s@[i as int]);
        if s[i] != c {
            t.push(s[i]);
        }
        i = i + 1;
    }
    assert(s@.take(s.len() as int) == s@);
    t
}

/// `str::strip_prefix`.
pub fn strip_prefix_chars(s: &Vec<char>, prefix: &Vec<char>) -> (r: Option<Vec<char>>)
    ensures
        match r {
            Some(rest) => strip_prefix(s@, prefix@) == Some(rest@),
            None => strip_prefix(s@, prefix@) is None,
        },
{
    if prefix.len() > s.len() {
        return None;
    }
    let mut i: usize = 0;
    while i < prefix.len()
        invariant
            prefix.len() <= s.len(),
            0 <= i <= prefix.len(),
            s@.take(i as int) == prefix@.take(i as int),
        decreases prefix.len() - i,
    {
        if s[i] != prefix[i] {
            assert(s@.take(prefix.len() as int)[i as int] != prefix@[i as int]);
            return None;
        }
        i = i + 1;
        assert(s@.take(i as int) == s@.take(i - 1).push(s@[i - 1]));
        assert(prefix@.take(i as int) == prefix@.take(i - 1).push(prefix@[i - 1]));
    }
    assert(prefix@.take(prefix.len() as int) == prefix@);
    Some(copy_range(s, prefix.len(), s.len()))
}

proof fn lemma_trim_start_first(s: Seq<char>, cls: CharClass)
    ensures
        trim_start(s, cls).len() > 0 ==> !in_class(trim_start(s, cls)[0], cls),
    decreases s.len(),
{
    if s.len() > 0 && in_class(s[0], cls) {
        lemma_trim_start_first(s.drop_first(), cls);
    }
}

proof fn lemma_trim_end_prefix(u: Seq<char>, cls: CharClass)
    ensures
        trim_end(u, cls).len() <= u.len(),
        trim_end(u, cls) == u.take(trim_end(u, cls).len() as int),
        trim_end(u, cls).len() > 0 ==> !in_class(trim_end(u, cls).last(), cls),
    decreases u.len(),
{
    if u.len() > 0 && in_class(u.last(), cls) {
        lemma_trim_end_prefix(u.drop_last(), cls);
        let t = trim_end(u.drop_last(), cls);
        assert(u.drop_last().take(t.len() as int) == u.take(t.len() as int));
    } else {
        assert(u.take(u.len() as int) == u);
    }
}

/// Trimming leaves no character of the trimmed class at either end.
pub proof fn lemma_trim_ends(s: Seq<char>, cls: CharClass)
    ensures
        trim(s, cls).len() > 0 ==> !in_class(trim(s, cls)[0], cls),
        trim(s, cls).len() > 0 ==> !in_class(trim(s, cls).last(), cls),
{
    lemma_trim_start_first(s, cls);
    lemma_trim_end_prefix(trim_start(s, cls), cls);
}

/// Removing a character leaves none of it.
pub proof fn lemma_without_char(s: Seq<char>, c: char)
    ensures
        !without_char(s, c).contains(c),
    decreases s.len(),
{
    if s.len() > 0 {
        let p = s.drop_last();
        lemma_without_char(p, c);
        let w = without_char(s, c);
        assert forall|k: int| 0 <= k < w.len() implies w[k] != c by {
            if k < without_char(p, c).len() {
                assert(w[k] == without_char(p, c)[k]);
            }
        }
    }
}

/// Removing `c` keeps exactly the other characters, in order: it is the
/// filter of `s` by "is not `c`".
pub proof fn lemma_without_char_is_filter(s: Seq<char>, c: char)
    ensures
        without_char(s, c) == s.filter(|x: char| x != c),
    decreases s.len(),
{
    reveal_with_fuel(Seq::<_>::filter, 1);
    if s.len() > 0 {
        lemma_without_char_is_filter(s.drop_last(), c);
    }
}

proof fn lemma_trim_start_range(s: Seq<char>, cls: CharClass) -> (a: int)
    ensures
        0 <= a <= s.len(),
        trim_start(s, cls) == s.subrange(a, s.len() as int),
        forall|k: int| 0 <= k < a ==> in_class(#[trigger] s[k], cls),
    decreases s.len(),
{
    if s.len() > 0 && in_class(s[0], cls) {
        let t = s.drop_first();
        let a1 = lemma_trim_start_range(t, cls);
        assert(t.subrange(a1, t.len() as int) =~= s.subrange(a1 + 1, s.len() as int));
        assert forall|k: int| 0 <= k < a1 + 1 implies in_class(#[trigger] s[k], cls) by {
            if k > 0 {
                assert(s[k] == t[k - 1]);
            }
        }
        a1 + 1
    } else {
        assert(s.subrange(0, s.len() as int) =~= s);
        0
    }
}

proof fn lemma_trim_end_range(u: Seq<char>, cls: CharClass) -> (b: int)
    ensures
        0 <= b <= u.len(),
        trim_end(u, cls) == u.subrange(0, b),
        forall|k: int| b <= k < u.len() ==> in_class(#[trigger] u[k], cls),
    decreases u.len(),
{
    if u.len() > 0 && in_class(u.last(), cls) {
        let t = u.drop_last();
        let b1 = lemma_trim_end_range(t, cls);
        assert(t.subrange(0, b1) =~= u.subrange(0, b1));
        assert forall|k: int| b1 <= k < u.len() implies in_class(#[trigger] u[k], cls) by {
            if k < t.len() {
                assert(u[k] == t[k]);
            }
        }
        b1
    } else {
        assert(u.subrange(0, u.len() as int) =~= u);
        u.len() as int
    }
}

/// Trimming removes exactly a run of class characters at the start and one
/// at the end: the result is a contiguous piece `s[a..b]` of `s`, everything
/// before `a` and from `b` on is of the class, and the piece neither starts
/// nor ends with a class character.
pub proof fn lemma_trim_range(s: Seq<char>, cls: CharClass) -> (r: (int, int))
    ensures
        0 <= r.0 <= r.1 <= s.len(),
        trim(s, cls) == s.subrange(r.0, r.1),
        forall|k: int| 0 <= k < r.0 ==> in_class(#[trigger] s[k], cls),
        forall|k: int| r.1 <= k < s.len() ==> in_class(#[trigger] s[k], cls),
        trim(s, cls).len() > 0 ==> !in_class(trim(s, cls)[0], cls),
        trim(s, cls).len() > 0 ==> !in_class(trim(s, cls).last(), cls),
{
    let a = lemma_trim_start_range(s, cls);
    let u = trim_start(s, cls);
    let b = lemma_trim_end_range(u, cls);
    lemma_trim_ends(s, cls);
    assert(u.subrange(0, b) =~= s.subrange(a, a + b));
    assert forall|k: int| a + b <= k < s.len() implies in_class(#[trigger] s[k], cls) by {
        assert(s[k] == u[k - a]);
    }
    (a, a + b)
}

/// `strip_prefix` gives `r` exactly when `s` is `prefix` followed by `r`.
pub proof fn lemma_strip_prefix(s: Seq<char>, prefix: Seq<char>, r: Seq<char>)
    ensures
        strip_prefix(s, prefix) == Some(r) <==> s == prefix + r,
{
    if s == prefix + r {
        assert(s.take(prefix.len() as int) =~= prefix);
        assert(s.skip(prefix.len() as int) =~= r);
    }
    if strip_prefix(s, prefix) == Some(r) {
        assert(s =~= prefix + r);
    }
}

/// The pieces joined back together, with `sep` between neighbours.
pub open spec fn joined_with(ps: Seq<Seq<char>>, sep: char) -> Seq<char>
    decreases ps.len(),
{
    if ps.len() == 0 {
        Seq::empty()
    } else if ps.len() == 1 {
        ps[0]
    } else {
        joined_with(ps.drop_last(), sep) + seq![sep] + ps.last()
    }
}

/// Splitting at a character gives pieces which, joined back with that
/// character, give the text again.
pub proof fn lemma_split_by_char_joins(s: Seq<char>, sep: char)
    ensures
        joined_with(split_by(s, CharClass::Exactly(sep)), sep) == s,
    decreases s.len(),
{
    let cls = CharClass::Exactly(sep);
    if s.len() > 0 {
        let p = s.drop_last();
        let rest = split_by(p, cls);
        lemma_split_by_char_joins(p, sep);
        lemma_split_by_nonempty(p, cls);
        let ps = split_by(s, cls);
        let n = rest.len();
        assert(s =~= p.push(s.last()));
        if s.last() == sep {
            assert(ps == rest.push(Seq::<char>::empty()));
            assert(ps.drop_last() =~= rest);
            assert(joined_with(ps, sep) =~= p + seq![sep] + Seq::<char>::empty());
        } else {
            let lastp = rest.last().push(s.last());
            assert(ps == rest.update(n - 1, lastp));
            if n == 1 {
                assert(joined_with(rest, sep) == rest[0]);
                assert(joined_with(ps, sep) == ps[0]);
            } else {
                assert(ps.drop_last() =~= rest.drop_last());
                assert(joined_with(rest, sep) == joined_with(rest.drop_last(), sep) + seq![sep]
                    + rest.last());
                assert(joined_with(ps, sep) =~= joined_with(rest, sep).push(s.last()));
            }
        }
    } else {
        assert(split_by(s, cls) == seq![Seq::<char>::empty()]);
    }
}

/// No piece of a split contains a separator.
pub proof fn lemma_split_by_pieces_clean(s: Seq<char>, cls: CharClass)
    ensures
        forall|i: int, k: int|
            0 <= i < split_by(s, cls).len() && 0 <= k < split_by(s, cls)[i].len() ==> !in_class(
                #[trigger] split_by(s, cls)[i][k],
                cls,
            ),
    decreases s.len(),
{
    if s.len() > 0 {
        let p = s.drop_last();
        let rest = split_by(p, cls);
        lemma_split_by_pieces_clean(p, cls);
        lemma_split_by_nonempty(p, cls);
        let ps = split_by(s, cls);
        let n = rest.len();
        if in_class(s.last(), cls) {
            assert(ps == rest.push(Seq::<char>::empty()));
            assert forall|i: int, k: int| 0 <= i < ps.len() && 0 <= k < ps[i].len() implies !in_class(
                #[trigger] ps[i][k],
                cls,
            ) by {
                assert(ps[i] == rest[i]);
            }
        } else {
            let lastp = rest.last().push(s.last());
            assert(ps == rest.update(n - 1, lastp));
            assert forall|i: int, k: int| 0 <= i < ps.len() && 0 <= k < ps[i].len() implies !in_class(
                #[trigger] ps[i][k],
                cls,
            ) by {
                if i < n - 1 {
                    assert(ps[i] == rest[i]);
                } else if k < rest.last().len() {
                    assert(ps[i][k] == rest[n - 1][k]);
                }
            }
        }
    } else {
        assert(split_by(s, cls) == seq![Seq::<char>::empty()]);
    }
}

/// The pieces joined back together, the `k`-th separator between piece `k`
/// and piece `k + 1`.
pub open spec fn joined_by(ps: Seq<Seq<char>>, seps: Seq<char>) -> Seq<char>
    decreases ps.len(),
{
    if ps.len() == 0 {
        Seq::empty()
    } else if ps.len() == 1 {
        ps[0]
    } else {
        joined_by(ps.drop_last(), seps.drop_last()) + seq![seps.last()] + ps.last()
    }
}

/// Splitting at a class yields one piece more than there are class
/// characters in the text, and the pieces joined back with those
/// characters, in order, give the text again.
pub proof fn lemma_split_by_rebuilds(s: Seq<char>, cls: CharClass)
    ensures
        split_by(s, cls).len() == s.filter(|c: char| in_class(c, cls)).len() + 1,
        joined_by(split_by(s, cls), s.filter(|c: char| in_class(c, cls))) == s,
    decreases s.len(),
{
    reveal_with_fuel(Seq::<_>::filter, 1);
    let f = |c: char| in_class(c, cls);
    if s.len() > 0 {
        let p = s.drop_last();
        lemma_split_by_rebuilds(p, cls);
        lemma_split_by_nonempty(p, cls);
        let rest = split_by(p, cls);
        let seps_p = p.filter(f);
        let ps = split_by(s, cls);
        let seps = s.filter(f);
        let n = rest.len();
        assert(s =~= p.push(s.last()));
        if in_class(s.last(), cls) {
            assert(seps == seps_p.push(s.last()));
            assert(ps == rest.push(Seq::<char>::empty()));
            assert(ps.drop_last() =~= rest);
            assert(seps.drop_last() =~= seps_p);
            assert(joined_by(ps, seps) =~= p + seq![s.last()] + Seq::<char>::empty());
        } else {
            assert(seps == seps_p);
            let lastp = rest.last().push(s.last());
            assert(ps == rest.update(n - 1, lastp));
            if n == 1 {
                assert(joined_by(rest, seps_p) == rest[0]);
                assert(joined_by(ps, seps) == ps[0]);
            } else {
                assert(ps.drop_last() =~= rest.drop_last());
                assert(joined_by(rest, seps_p) == joined_by(rest.drop_last(), seps_p.drop_last())
                    + seq![seps_p.last()] + rest.last());
                assert(joined_by(ps, seps) =~= joined_by(rest, seps_p).push(s.last()));
            }
        }
    } else {
        assert(split_by(s, cls) == seq![Seq::<char>::empty()]);
    }
}

/// `nonempty_only` keeps exactly the non-empty pieces, in order.
pub proof fn lemma_nonempty_only_is_filter(ps: Seq<Seq<char>>)
    ensures
        nonempty_only(ps) == ps.filter(|p: Seq<char>| p.len() > 0),
    decreases ps.len(),
{
    reveal_with_fuel(Seq::<_>::filter, 1);
    if ps.len() > 0 {
        lemma_nonempty_only_is_filter(ps.drop_last());
    }
}

proof fn lemma_nonempty_only_members(ps: Seq<Seq<char>>, cls: CharClass)
    requires
        forall|i: int, k: int|
            0 <= i < ps.len() && 0 <= k < ps[i].len() ==> !in_class(#[trigger] ps[i][k], cls),
    ensures
        forall|i: int| 0 <= i < nonempty_only(ps).len() ==> (#[trigger] nonempty_only(ps)[i]).len() > 0,
        forall|i: int, k: int|
            0 <= i < nonempty_only(ps).len() && 0 <= k < nonempty_only(ps)[i].len() ==> !in_class(
                #[trigger] nonempty_only(ps)[i][k],
                cls,
            ),
    decreases ps.len(),
{
    if ps.len() > 0 {
        let q = ps.drop_last();
        assert forall|i: int, k: int| 0 <= i < q.len() && 0 <= k < q[i].len() implies !in_class(
            #[trigger] q[i][k],
            cls,
        ) by {
            assert(q[i] == ps[i]);
        }
        lemma_nonempty_only_members(q, cls);
        if ps.last().len() > 0 {
            let r = nonempty_only(ps);
            assert(r == nonempty_only(q).push(ps.last()));
            assert forall|i: int, k: int| 0 <= i < r.len() && 0 <= k < r[i].len() implies !in_class(
                #[trigger] r[i][k],
                cls,
            ) by {
                if i < r.len() - 1 {
                    assert(r[i] == nonempty_only(q)[i]);
                } else {
                    assert(r[i] == ps[ps.len() - 1]);
                }
            }
            assert forall|i: int| 0 <= i < r.len() implies (#[trigger] r[i]).len() > 0 by {
                if i < r.len() - 1 {
                    assert(r[i] == nonempty_only(q)[i]);
                }
            }
        }
    }
}

/// The words of a text are its non-empty pieces between whitespace: no
/// word is empty or holds whitespace.
pub proof fn lemma_words(s: Seq<char>)
    ensures
        words(s) == split_by(s, CharClass::Whitespace).filter(|p: Seq<char>| p.len() > 0),
        forall|i: int| 0 <= i < words(s).len() ==> (#[trigger] words(s)[i]).len() > 0,
        forall|i: int, k: int|
            0 <= i < words(s).len() && 0 <= k < words(s)[i].len() ==> !is_unicode_whitespace(
                #[trigger] words(s)[i][k],
            ),
{
    let ps = split_by(s, CharClass::Whitespace);
    lemma_nonempty_only_is_filter(ps);
    lemma_split_by_pieces_clean(s, CharClass::Whitespace);
    lemma_nonempty_only_members(ps, CharClass::Whitespace);
}

/// The number that decimal or octal digits stand for.
pub open spec fn digits_value(ds: Seq<char>, base: nat) -> int
    decreases ds.len(),
{
    if ds.len() == 0 {
        0
    } else {
        digits_value(ds.drop_last(), base) * base + (ds.last() as int - '0' as int)
    }
}

proof fn lemma_digit_char(d: nat)
    requires
        d < 10,
    ensures
        digit_char(d) as int == '0' as int + d,
{
    assert('0' as int == 48 && '1' as int == 49 && '2' as int == 50 && '3' as int == 51 && '4' as int
        == 52 && '5' as int == 53 && '6' as int == 54 && '7' as int == 55 && '8' as int == 56 && '9' as int
        == 57);
}

/// Rendering a number: the digits stand for the number, every character is
/// a digit below the base, and there is no leading zero unless the number
/// is zero.
pub proof fn lemma_digits_value(n: nat, base: nat)
    requires
        2 <= base <= 10,
    ensures
        digits_value(digits(n, base), base) == n,
        forall|k: int|
            0 <= k < digits(n, base).len() ==> '0' <= #[trigger] digits(n, base)[k] && (
            digits(n, base)[k] as int) < '0' as int + base,
        digits(n, base)[0] == '0' ==> n == 0,
        digits(n, base).len() >= 1,
    decreases n,
{
    lemma_digit_char(n % base);
    if n < base {
        assert(digits(n, base) == seq![digit_char(n % base)]);
        assert(digits(n, base).drop_last() =~= Seq::<char>::empty());
        vstd::arithmetic::div_mod::lemma_small_mod(n, base);
        let x = digits(n, base);
        assert(digits_value(x.drop_last(), base) == 0);
        assert(0 * base == 0) by (nonlinear_arith);
        assert(x.last() == digit_char(n % base));
    } else {
        let m = n / base;
        assert(m < n) by (nonlinear_arith)
            requires
                n >= base,
                base >= 2,
                m == n / base,
        ;
        assert(m >= 1) by (nonlinear_arith)
            requires
                n >= base,
                base >= 2,
                m == n / base,
        ;
        lemma_digits_value(m, base);
        let d = digits(n, base);
        assert(d == digits(m, base).push(digit_char(n % base)));
        assert(d.drop_last() =~= digits(m, base));
        vstd::arithmetic::div_mod::lemma_fundamental_div_mod(n as int, base as int);
        assert(digits_value(d, base) == digits_value(digits(m, base), base) * base + (digit_char(
            n % base,
        ) as int - '0' as int));
        assert(m * base + n % base == n) by (nonlinear_arith)
            requires
                n == base * (n / base) + n % base,
                m == n / base,
        ;
        assert forall|k: int| 0 <= k < d.len() implies '0' <= #[trigger] d[k] && (d[k] as int)
            < '0' as int + base by {
            if k < d.len() - 1 {
                assert(d[k] == digits(m, base)[k]);
            }
        }
        assert(d[0] == digits(m, base)[0]);
    }
}

/// A rendered integer starts with `-` exactly when it is negative, and the
/// digits after the sign stand for its magnitude.
pub proof fn lemma_decimal(n: int)
    ensures
        decimal(n).len() >= 1,
        (decimal(n)[0] == '-') <==> n < 0,
        n < 0 ==> digits_value(decimal(n).skip(1), 10) == -n,
        n >= 0 ==> digits_value(decimal(n), 10) == n,
{
    if n < 0 {
        lemma_digits_value((-n) as nat, 10);
        assert(decimal(n).skip(1) =~= digits((-n) as nat, 10));
    } else {
        lemma_digits_value(n as nat, 10);
        let d = digits(n as nat, 10);
        assert('0' <= d[0]);
    }
}

} // verus!
