//! Verified string utilities: equality, prefix tests, trimming, joining
//! and decimal rendering, used throughout the library for paths, shell
//! commands and record keys.

use vstd::prelude::*;

verus! {

/// Exact equality of two string slices, decided through `String` equality.
pub fn str_eq(a: &str, b: &str) -> (r: bool)
    ensures
        r == (a@ == b@),
{
    let sa: String = a.to_owned();
    let sb: String = b.to_owned();
    sa == sb
}

/// Whether `s` starts with `prefix`, over character sequences.
pub open spec fn spec_starts_with(s: Seq<char>, prefix: Seq<char>) -> bool {
    prefix.len() <= s.len() && s.subrange(0, prefix.len() as int) == prefix
}

pub fn starts_with(s: &str, prefix: &str) -> (r: bool)
    ensures
        r == spec_starts_with(s@, prefix@),
{
    let n = prefix.unicode_len();
    if n > s.unicode_len() {
        return false;
    }
    let head = s.substring_char(0, n);
    str_eq(head, prefix)
}

/// The remainder of `s` after `prefix`, when `s` starts with it.
pub fn strip_prefix(s: &str, prefix: &str) -> (r: Option<String>)
    ensures
        match r {
            Some(rest) => spec_starts_with(s@, prefix@) && s@ == prefix@ + rest@,
            None => !spec_starts_with(s@, prefix@),
        },
{
    if starts_with(s, prefix) {
        let rest = s.substring_char(prefix.unicode_len(), s.unicode_len());
        proof {
            assert(s@ == prefix@ + rest@) by {
                assert(s@ =~= s@.subrange(0, prefix@.len() as int) + s@.subrange(
                    prefix@.len() as int,
                    s@.len() as int,
                ));
            }
        }
        Some(rest.to_owned())
    } else {
        None
    }
}

/// Concatenation of two strings.
pub fn concat2(a: &str, b: &str) -> (r: String)
    ensures
        r@ == a@ + b@,
{
    let mut s: String = a.to_owned();
    s.append(b);
    s
}

/// Concatenation of three strings.
pub fn concat3(a: &str, b: &str, c: &str) -> (r: String)
    ensures
        r@ == a@ + b@ + c@,
{
    let mut s: String = a.to_owned();
    s.append(b);
    s.append(c);
    s
}

/// Concatenation of five strings.
pub fn concat5(a: &str, b: &str, c: &str, d: &str, e: &str) -> (r: String)
    ensures
        r@ == a@ + b@ + c@ + d@ + e@,
{
    let mut s: String = a.to_owned();
    s.append(b);
    s.append(c);
    s.append(d);
    s.append(e);
    s
}

/// `s` without its trailing `'/'` characters.
pub open spec fn spec_trim_end_slashes(s: Seq<char>) -> Seq<char>
    decreases s.len(),
{
    if s.len() > 0 && s[s.len() - 1] == '/' {
        spec_trim_end_slashes(s.drop_last())
    } else {
        s
    }
}

pub fn trim_end_slashes(s: &str) -> (r: String)
    ensures
        r@ == spec_trim_end_slashes(s@),
    decreases s@.len(),
{
    let n = s.unicode_len();
    if n > 0 && s.get_char(n - 1) == '/' {
        let head = s.substring_char(0, n - 1);
        proof {
            assert(s@.subrange(0, n - 1) =~= s@.drop_last());
        }
        trim_end_slashes(head)
    } else {
        s.to_owned()
    }
}

/// Whether `c` counts as trimmable whitespace.
pub open spec fn spec_is_space(c: char) -> bool {
    c == ' ' || c == '\t' || c == '\n' || c == '\r'
}

pub fn is_space(c: char) -> (r: bool)
    ensures
        r == spec_is_space(c),
{
    c == ' ' || c == '\t' || c == '\n' || c == '\r'
}

/// `s` without trailing whitespace.
pub open spec fn spec_trim_end(s: Seq<char>) -> Seq<char>
    decreases s.len(),
{
    if s.len() > 0 && spec_is_space(s[s.len() - 1]) {
        spec_trim_end(s.drop_last())
    } else {
        s
    }
}

pub fn trim_end(s: &str) -> (r: String)
    ensures
        r@ == spec_trim_end(s@),
    decreases s@.len(),
{
    let n = s.unicode_len();
    if n > 0 && is_space(s.get_char(n - 1)) {
        let head = s.substring_char(0, n - 1);
        proof {
            assert(s@.subrange(0, n - 1) =~= s@.drop_last());
        }
        trim_end(head)
    } else {
        s.to_owned()
    }
}

/// `s` without leading whitespace.
pub open spec fn spec_trim_start(s: Seq<char>) -> Seq<char>
    decreases s.len(),
{
    if s.len() > 0 && spec_is_space(s[0]) {
        spec_trim_start(s.subrange(1, s.len() as int))
    } else {
        s
    }
}

pub fn trim_start(s: &str) -> (r: String)
    ensures
        r@ == spec_trim_start(s@),
    decreases s@.len(),
{
    let n = s.unicode_len();
    if n > 0 && is_space(s.get_char(0)) {
        let tail = s.substring_char(1, n);
        trim_start(tail)
    } else {
        s.to_owned()
    }
}

/// `s` with whitespace trimmed from both ends.
pub open spec fn spec_trim(s: Seq<char>) -> Seq<char> {
    spec_trim_end(spec_trim_start(s))
}

pub fn trim(s: &str) -> (r: String)
    ensures
        r@ == spec_trim(s@),
{
    let t = trim_start(s);
    trim_end(t.as_str())
}

/// The index of the first `'\n'` in `s`, or `s.len()` when there is none.
pub open spec fn spec_first_newline(s: Seq<char>) -> int
    decreases s.len(),
{
    if s.len() == 0 {
        0
    } else if s[0] == '\n' {
        0
    } else {
        1 + spec_first_newline(s.subrange(1, s.len() as int))
    }
}

pub proof fn lemma_first_newline(s: Seq<char>)
    ensures
        0 <= spec_first_newline(s) <= s.len(),
        spec_first_newline(s) < s.len() ==> s[spec_first_newline(s)] == '\n',
        forall|j: int| 0 <= j < spec_first_newline(s) ==> s[j] != '\n',
    decreases s.len(),
{
    if s.len() == 0 || s[0] == '\n' {
    } else {
        let t = s.subrange(1, s.len() as int);
        lemma_first_newline(t);
        assert forall|j: int| 0 <= j < spec_first_newline(s) implies s[j] != '\n' by {
            if j > 0 {
                assert(s[j] == t[j - 1]);
            }
        }
    }
}

/// The lines of `s`, split at `'\n'`; the separators are not kept.
pub open spec fn spec_split_lines(s: Seq<char>) -> Seq<Seq<char>>
    decreases s.len(),
    via spec_split_lines_decreases
{
    let i = spec_first_newline(s);
    if i == s.len() {
        seq![s]
    } else {
        seq![s.subrange(0, i)] + spec_split_lines(s.subrange(i + 1, s.len() as int))
    }
}

#[via_fn]
proof fn spec_split_lines_decreases(s: Seq<char>) {
    lemma_first_newline(s);
}

/// The index of the first `'\n'` in `s`, or the length of `s`.
fn find_newline(s: &str) -> (r: usize)
    ensures
        r == spec_first_newline(s@),
{
    proof {
        lemma_first_newline(s@);
    }
    let n = s.unicode_len();
    let mut i: usize = 0;
    while i < n
        invariant
            0 <= i <= n,
            n == s@.len(),
            forall|j: int| 0 <= j < i ==> s@[j] != '\n',
        decreases n - i,
    {
        if s.get_char(i) == '\n' {
            proof {
                lemma_first_newline(s@);
                if spec_first_newline(s@) < i {
                    assert(s@[spec_first_newline(s@)] == '\n');
                }
                if spec_first_newline(s@) > i {
                    assert(s@[i as int] != '\n');
                }
            }
            return i;
        }
        i += 1;
    }
    proof {
        lemma_first_newline(s@);
        if spec_first_newline(s@) < s@.len() {
            assert(s@[spec_first_newline(s@)] == '\n');
        }
    }
    n
}

pub fn split_lines(s: &str) -> (r: Vec<String>)
    ensures
        r@.map_values(|t: String| t@) == spec_split_lines(s@),
    decreases s@.len(),
{
    proof {
        lemma_first_newline(s@);
    }
    let n = s.unicode_len();
    let i = find_newline(s);
    if i == n {
        let mut out: Vec<String> = Vec::new();
        out.push(s.to_owned());
        proof {
            assert(out@.map_values(|t: String| t@) =~= spec_split_lines(s@));
        }
        out
    } else {
        let head = s.substring_char(0, i);
        let tail = s.substring_char(i + 1, n);
        let mut rest = split_lines(tail);
        let mut out: Vec<String> = Vec::new();
        out.push(head.to_owned());
        let ghost head_view = out@.map_values(|t: String| t@);
        let ghost rest_view = rest@.map_values(|t: String| t@);
        out.append(&mut rest);
        proof {
            assert(out@.map_values(|t: String| t@) =~= head_view + rest_view);
            assert(out@.map_values(|t: String| t@) =~= spec_split_lines(s@));
        }
        out
    }
}

/// The decimal digits of `n`, most significant first.
pub open spec fn spec_decimal(n: nat) -> Seq<char>
    decreases n,
{
    let digit = seq![digit_char((n % 10) as u64)];
    if n < 10 {
        digit
    } else {
        spec_decimal(n / 10) + digit
    }
}

/// The character for a single decimal digit.
pub open spec fn digit_char(d: u64) -> char {
    if d == 0 {
        '0'
    } else if d == 1 {
        '1'
    } else if d == 2 {
        '2'
    } else if d == 3 {
        '3'
    } else if d == 4 {
        '4'
    } else if d == 5 {
        '5'
    } else if d == 6 {
        '6'
    } else if d == 7 {
        '7'
    } else if d == 8 {
        '8'
    } else {
        '9'
    }
}

fn digit_to_str(d: u64) -> (r: &'static str)
    requires
        d < 10,
    ensures
        r@ == seq![digit_char(d)],
{
    proof {
        reveal_strlit("0");
        reveal_strlit("1");
        reveal_strlit("2");
        reveal_strlit("3");
        reveal_strlit("4");
        reveal_strlit("5");
        reveal_strlit("6");
        reveal_strlit("7");
        reveal_strlit("8");
        reveal_strlit("9");
    }
    if d == 0 {
        "0"
    } else if d == 1 {
        "1"
    } else if d == 2 {
        "2"
    } else if d == 3 {
        "3"
    } else if d == 4 {
        "4"
    } else if d == 5 {
        "5"
    } else if d == 6 {
        "6"
    } else if d == 7 {
        "7"
    } else if d == 8 {
        "8"
    } else {
        "9"
    }
}

/// Renders `n` in decimal.
pub fn u64_to_string(n: u64) -> (r: String)
    ensures
        r@ == spec_decimal(n as nat),
    decreases n,
{
    let d = n % 10;
    let digit = digit_to_str(d);
    if n < 10 {
        digit.to_owned()
    } else {
        let head = u64_to_string(n / 10);
        concat2(head.as_str(), digit)
    }
}

/// Renders a non-negative `i64` in decimal.
pub fn i64_to_string(n: i64) -> (r: String)
    requires
        n >= 0,
    ensures
        r@ == spec_decimal(n as nat),
{
    u64_to_string(n as u64)
}

/// Whether some string in `v` equals `x`.
pub open spec fn spec_contains_string(v: Seq<String>, x: Seq<char>) -> bool {
    exists|i: int| 0 <= i < v.len() && v[i]@ == x
}

pub fn contains_string(v: &Vec<String>, x: &str) -> (r: bool)
    ensures
        r == spec_contains_string(v@, x@),
{
    let mut i: usize = 0;
    while i < v.len()
        invariant
            0 <= i <= v@.len(),
            forall|j: int| 0 <= j < i ==> v@[j]@ != x@,
        decreases v@.len() - i,
    {
        if str_eq(v[i].as_str(), x) {
            return true;
        }
        i += 1;
    }
    false
}


/// The index of the first `sep` in `s`, or `s.len()` when there is none.
pub open spec fn spec_first_sep(s: Seq<char>, sep: char) -> int
    decreases s.len(),
{
    if s.len() == 0 {
        0
    } else if s[0] == sep {
        0
    } else {
        1 + spec_first_sep(s.subrange(1, s.len() as int), sep)
    }
}

pub proof fn lemma_first_sep(s: Seq<char>, sep: char)
    ensures
        0 <= spec_first_sep(s, sep) <= s.len(),
        spec_first_sep(s, sep) < s.len() ==> s[spec_first_sep(s, sep)] == sep,
        forall|j: int| 0 <= j < spec_first_sep(s, sep) ==> s[j] != sep,
    decreases s.len(),
{
    if s.len() == 0 || s[0] == sep {
    } else {
        let t = s.subrange(1, s.len() as int);
        lemma_first_sep(t, sep);
        assert forall|j: int| 0 <= j < spec_first_sep(s, sep) implies s[j] != sep by {
            if j > 0 {
                assert(s[j] == t[j - 1]);
            }
        }
    }
}

/// The pieces of `s` split at `sep`; the separators are not kept.
pub open spec fn spec_split(s: Seq<char>, sep: char) -> Seq<Seq<char>>
    decreases s.len(),
    via spec_split_decreases
{
    let i = spec_first_sep(s, sep);
    if i == s.len() {
        seq![s]
    } else {
        seq![s.subrange(0, i)] + spec_split(s.subrange(i + 1, s.len() as int), sep)
    }
}

#[via_fn]
proof fn spec_split_decreases(s: Seq<char>, sep: char) {
    lemma_first_sep(s, sep);
}

/// The index of the first `sep` in `s`, or the length of `s`.
fn find_sep(s: &str, sep: char) -> (r: usize)
    ensures
        r == spec_first_sep(s@, sep),
{
    let n = s.unicode_len();
    let mut i: usize = 0;
    while i < n
        invariant
            0 <= i <= n,
            n == s@.len(),
            forall|j: int| 0 <= j < i ==> s@[j] != sep,
        decreases n - i,
    {
        if s.get_char(i) == sep {
            proof {
                lemma_first_sep(s@, sep);
                if spec_first_sep(s@, sep) < i {
                    assert(s@[spec_first_sep(s@, sep)] == sep);
                }
                if spec_first_sep(s@, sep) > i {
                    assert(s@[i as int] != sep);
                }
            }
            return i;
        }
        i += 1;
    }
    proof {
        lemma_first_sep(s@, sep);
        if spec_first_sep(s@, sep) < s@.len() {
            assert(s@[spec_first_sep(s@, sep)] == sep);
        }
    }
    n
}

/// Splits `s` at every `sep`.
pub fn split_on(s: &str, sep: char) -> (r: Vec<String>)
    ensures
        r@.map_values(|t: String| t@) == spec_split(s@, sep),
    decreases s@.len(),
{
    proof {
        lemma_first_sep(s@, sep);
    }
    let n = s.unicode_len();
    let i = find_sep(s, sep);
    if i == n {
        let mut out: Vec<String> = Vec::new();
        out.push(s.to_owned());
        proof {
            assert(out@.map_values(|t: String| t@) =~= spec_split(s@, sep));
        }
        out
    } else {
        let head = s.substring_char(0, i);
        let tail = s.substring_char(i + 1, n);
        let mut rest = split_on(tail, sep);
        let mut out: Vec<String> = Vec::new();
        out.push(head.to_owned());
        let ghost head_view = out@.map_values(|t: String| t@);
        let ghost rest_view = rest@.map_values(|t: String| t@);
        out.append(&mut rest);
        proof {
            assert(out@.map_values(|t: String| t@) =~= head_view + rest_view);
            assert(out@.map_values(|t: String| t@) =~= spec_split(s@, sep));
        }
        out
    }
}

/// The pieces joined with `sep` between them; empty for no pieces.
pub open spec fn spec_join(v: Seq<Seq<char>>, sep: Seq<char>) -> Seq<char>
    decreases v.len(),
{
    if v.len() == 0 {
        Seq::empty()
    } else if v.len() == 1 {
        v[0]
    } else {
        v[0] + sep + spec_join(v.drop_first(), sep)
    }
}

/// Joins the strings of `v` with `sep` between them.
pub fn join_with(v: &Vec<String>, sep: &str) -> (r: String)
    ensures
        r@ == spec_join(v@.map_values(|t: String| t@), sep@),
{
    let mut out = String::new();
    let mut i: usize = 0;
    while i < v.len()
        invariant
            0 <= i <= v@.len(),
            i == 0 ==> out@ == Seq::<char>::empty(),
            0 < i < v@.len() ==> out@ + sep@ + spec_join(
                v@.map_values(|t: String| t@).skip(i as int),
                sep@,
            ) == spec_join(v@.map_values(|t: String| t@), sep@),
            i > 0 && i == v@.len() ==> out@ == spec_join(v@.map_values(|t: String| t@), sep@),
        decreases v@.len() - i,
    {
        if i > 0 {
            out.append(sep);
        }
        out.append(v[i].as_str());
        proof {
            let m = v@.map_values(|t: String| t@);
            assert(m.skip(i as int).drop_first() =~= m.skip(i + 1));
            assert(m.skip(i as int)[0] == m[i as int]);
            if i == 0 && v@.len() > 1 {
                assert(m.skip(0) =~= m);
            }
            if i == 0 && v@.len() == 1 {
                assert(out@ == m[0]);
            }
        }
        i += 1;
    }
    out
}


/// With no separator anywhere, the first separator sits at the end.
pub proof fn lemma_first_sep_absent(s: Seq<char>, sep: char)
    requires
        !s.contains(sep),
    ensures
        spec_first_sep(s, sep) == s.len(),
    decreases s.len(),
{
    if s.len() > 0 {
        assert(s[0] != sep);
        let t = s.subrange(1, s.len() as int);
        assert forall|j: int| 0 <= j < t.len() implies t[j] != sep by {
            assert(t[j] == s[j + 1]);
        }
        lemma_first_sep_absent(t, sep);
    }
}

/// The first separator of a separator-free piece followed by a separator
/// sits exactly at the piece's end.
pub proof fn lemma_first_sep_concat(a: Seq<char>, b: Seq<char>, sep: char)
    requires
        !a.contains(sep),
        b.len() > 0,
        b[0] == sep,
    ensures
        spec_first_sep(a + b, sep) == a.len(),
    decreases a.len(),
{
    if a.len() == 0 {
        assert(a + b =~= b);
    } else {
        assert((a + b)[0] == a[0]);
        assert(a[0] != sep);
        let a2 = a.subrange(1, a.len() as int);
        assert forall|j: int| 0 <= j < a2.len() implies a2[j] != sep by {
            assert(a2[j] == a[j + 1]);
        }
        lemma_first_sep_concat(a2, b, sep);
        assert((a + b).subrange(1, (a + b).len() as int) =~= a2 + b);
    }
}

/// Joining separator-free, non-empty pieces and splitting at the
/// separator again gives the pieces back (empty fragments dropped).
pub proof fn lemma_join_split_round_trip(keys: Seq<Seq<char>>, sep: char)
    requires
        forall|i: int|
            0 <= i < keys.len() ==> (#[trigger] keys[i]).len() > 0 && !keys[i].contains(sep),
    ensures
        spec_split(spec_join(keys, seq![sep]), sep).filter(|l: Seq<char>| l.len() > 0) == keys,
    decreases keys.len(),
{
    reveal(Seq::filter);
    if keys.len() == 0 {
        let joined = spec_join(keys, seq![sep]);
        assert(joined =~= Seq::<char>::empty());
        assert(spec_first_sep(joined, sep) == 0);
        assert(spec_split(joined, sep) =~= seq![Seq::<char>::empty()]);
        assert(seq![Seq::<char>::empty()].drop_last() =~= Seq::<Seq<char>>::empty());
        assert(Seq::<Seq<char>>::empty().filter(|l: Seq<char>| l.len() > 0)
            =~= Seq::<Seq<char>>::empty());
        assert(seq![Seq::<char>::empty()].filter(|l: Seq<char>| l.len() > 0)
            =~= Seq::<Seq<char>>::empty());
        assert(spec_split(joined, sep).filter(|l: Seq<char>| l.len() > 0) =~= keys);
    } else if keys.len() == 1 {
        let joined = spec_join(keys, seq![sep]);
        assert(joined == keys[0]);
        lemma_first_sep_absent(joined, sep);
        assert(spec_split(joined, sep) =~= seq![keys[0]]);
        assert(seq![keys[0]].drop_last() =~= Seq::<Seq<char>>::empty());
        assert(Seq::<Seq<char>>::empty().filter(|l: Seq<char>| l.len() > 0)
            =~= Seq::<Seq<char>>::empty());
        assert(seq![keys[0]].filter(|l: Seq<char>| l.len() > 0) =~= seq![keys[0]]);
        assert(spec_split(joined, sep).filter(|l: Seq<char>| l.len() > 0) =~= keys);
    } else {
        let rest = keys.drop_first();
        let joined = spec_join(keys, seq![sep]);
        let tail = spec_join(rest, seq![sep]);
        assert(joined == keys[0] + seq![sep] + tail);
        assert(joined =~= keys[0] + (seq![sep] + tail));
        lemma_first_sep_concat(keys[0], seq![sep] + tail, sep);
        let i = spec_first_sep(joined, sep);
        assert(i == keys[0].len());
        assert(i < joined.len());
        assert(joined.subrange(0, i) =~= keys[0]);
        assert(joined.subrange(i + 1, joined.len() as int) =~= tail);
        assert(spec_split(joined, sep) == seq![keys[0]] + spec_split(tail, sep));
        assert forall|j: int| 0 <= j < rest.len() implies (#[trigger] rest[j]).len() > 0
            && !rest[j].contains(sep) by {
            assert(rest[j] == keys[j + 1]);
        }
        lemma_join_split_round_trip(rest, sep);
        assert((seq![keys[0]] + spec_split(tail, sep)).filter(|l: Seq<char>| l.len() > 0)
            =~= seq![keys[0]].filter(|l: Seq<char>| l.len() > 0) + spec_split(tail, sep).filter(
            |l: Seq<char>| l.len() > 0,
        )) by {
            Seq::<Seq<char>>::filter_distributes_over_add(
                seq![keys[0]],
                spec_split(tail, sep),
                |l: Seq<char>| l.len() > 0,
            );
        }
        assert(seq![keys[0]].drop_last() =~= Seq::<Seq<char>>::empty());
        assert(Seq::<Seq<char>>::empty().filter(|l: Seq<char>| l.len() > 0)
            =~= Seq::<Seq<char>>::empty());
        assert(seq![keys[0]].filter(|l: Seq<char>| l.len() > 0) =~= seq![keys[0]]);
        assert(spec_split(joined, sep).filter(|l: Seq<char>| l.len() > 0) =~= keys);
    }
}

} // verus!
