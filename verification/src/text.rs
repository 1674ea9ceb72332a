//! Small text helpers shared by the benchmark and repository modules:
//! character-wise string equality, path-component extraction, command-line
//! splitting and plot label construction.

use vstd::prelude::*;
use vstd::string::*;

verus! {

/// Character-wise equality of two string slices.
pub fn str_eq(a: &str, b: &str) -> (r: bool)
    ensures
        r == (a@ == b@),
{
    let a_len = a.unicode_len();
    let b_len = b.unicode_len();
    if a_len != b_len {
        proof {
            assert(a@ != b@) by {
                if a@ == b@ {
                    assert(a@.len() == b@.len());
                }
            }
        }
        return false;
    }
    let mut i: usize = 0;
    while i < a_len
        invariant
            0 <= i <= a_len,
            a_len == a@.len(),
            b_len == b@.len(),
            a_len == b_len,
            forall|j: int| 0 <= j < i ==> a@[j] == b@[j],
        decreases a_len - i,
    {
        if a.get_char(i) != b.get_char(i) {
            return false;
        }
        i += 1;
    }
    proof {
        assert(a@ =~= b@);
    }
    true
}

/// The suffix of `s` after its last `'/'`; all of `s` when it holds none.
pub open spec fn after_last_slash(s: Seq<char>) -> Seq<char>
    decreases s.len(),
{
    if s.len() == 0 {
        s
    } else if s.last() == '/' {
        Seq::empty()
    } else {
        after_last_slash(s.drop_last()).push(s.last())
    }
}

proof fn lemma_after_last_slash(s: Seq<char>, k: int)
    requires
        0 <= k <= s.len(),
        forall|j: int| k <= j < s.len() ==> s[j] != '/',
        k == 0 || s[k - 1] == '/',
    ensures
        after_last_slash(s) =~= s.subrange(k, s.len() as int),
    decreases s.len(),
{
    if s.len() == 0 {
    } else if k == s.len() {
        assert(s.last() == '/');
    } else {
        assert(s.last() != '/');
        lemma_after_last_slash(s.drop_last(), k);
        assert(s.subrange(k, s.len() as int) =~= s.drop_last().subrange(
            k,
            s.len() - 1,
        ).push(s.last()));
    }
}

/// The file name of a path: the part after the last path separator.
pub fn exe_name(path: &str) -> (r: String)
    ensures
        r@ == after_last_slash(path@),
{
    let len = path.unicode_len();
    let mut k: usize = len;
    while k > 0 && path.get_char(k - 1) != '/'
        invariant
            0 <= k <= len,
            len == path@.len(),
            forall|j: int| k <= j < len ==> path@[j] != '/',
        decreases k,
    {
        k -= 1;
    }
    let tail = path.substring_char(k, len);
    proof {
        lemma_after_last_slash(path@, k as int);
    }
    tail.to_owned()
}

/// A plot label: the date/time alone, or `date_time (tag)` when a tag is
/// given.
pub fn build_label(date_time: &str, tag: &str) -> (r: String)
    ensures
        tag@.len() == 0 ==> r@ == date_time@,
        tag@.len() > 0 ==> r@ == date_time@ + " ("@ + tag@ + ")"@,
{
    if tag.unicode_len() == 0 {
        date_time.to_owned()
    } else {
        let mut r = date_time.to_owned();
        r.append(" (");
        r.append(tag);
        r.append(")");
        r
    }
}

/// The value of a decimal digit character.
pub open spec fn digit_val(c: char) -> Option<int> {
    if '0' <= c <= '9' {
        Some(c as int - '0' as int)
    } else {
        None
    }
}

/// The number a string of decimal digits denotes; `None` as soon as a
/// character is no digit. The empty string denotes zero here, which
/// [`parse_u64_spec`] rules out.
pub open spec fn dec_value(s: Seq<char>) -> Option<int>
    decreases s.len(),
{
    if s.len() == 0 {
        Some(0)
    } else {
        match (dec_value(s.drop_last()), digit_val(s.last())) {
            (Some(v), Some(d)) => Some(10 * v + d),
            _ => None,
        }
    }
}

/// The `u64` a decimal string denotes: at least one digit, digits only,
/// and a value that fits.
pub open spec fn parse_u64_spec(s: Seq<char>) -> Option<int> {
    if s.len() == 0 {
        None
    } else {
        match dec_value(s) {
            Some(v) => if v <= u64::MAX {
                Some(v)
            } else {
                None
            },
            None => None,
        }
    }
}

proof fn lemma_dec_value_grows(s: Seq<char>, k: int)
    requires
        0 <= k <= s.len(),
        dec_value(s) is Some,
    ensures
        dec_value(s.take(k)) is Some,
        0 <= dec_value(s.take(k)).unwrap() <= dec_value(s).unwrap(),
    decreases s.len() - k,
{
    if k == s.len() {
        assert(s.take(k) =~= s);
        lemma_dec_value_nonneg(s);
    } else {
        assert(s.drop_last().take(k) =~= s.take(k));
        lemma_dec_value_grows(s.drop_last(), k);
        lemma_dec_value_nonneg(s.drop_last());
    }
}

proof fn lemma_dec_value_nonneg(s: Seq<char>)
    requires
        dec_value(s) is Some,
    ensures
        dec_value(s).unwrap() >= 0,
    decreases s.len(),
{
    if s.len() > 0 {
        lemma_dec_value_nonneg(s.drop_last());
    }
}

proof fn lemma_dec_value_bad_digit(s: Seq<char>, i: int)
    requires
        0 <= i < s.len(),
        digit_val(s[i]) is None,
    ensures
        dec_value(s) is None,
    decreases s.len(),
{
    if i < s.len() - 1 {
        lemma_dec_value_bad_digit(s.drop_last(), i);
    }
}

/// Reads a decimal number: `None` for an empty string, a non-digit, or a
/// value that does not fit.
pub fn parse_u64(s: &str) -> (r: Option<u64>)
    ensures
        match r {
            Some(v) => parse_u64_spec(s@) == Some(v as int),
            None => parse_u64_spec(s@) is None,
        },
{
    let n = s.unicode_len();
    if n == 0 {
        return None;
    }
    let mut acc: u64 = 0;
    proof {
        assert(s@.take(0) =~= Seq::<char>::empty());
    }
    let mut i: usize = 0;
    while i < n
        invariant
            0 <= i <= n,
            n == s@.len(),
            n > 0,
            dec_value(s@.take(i as int)) == Some(acc as int),
        decreases n - i,
    {
        let c = s.get_char(i);
        proof {
            assert(s@.take(i + 1).drop_last() =~= s@.take(i as int));
            assert(s@.take(i + 1).last() == s@[i as int]);
        }
        if c < '0' || c > '9' {
            proof {
                lemma_dec_value_bad_digit(s@, i as int);
            }
            return None;
        }
        let d = (c as u8) - ('0' as u8);
        let wide = (acc as u128) * 10 + (d as u128);
        if wide > u64::MAX as u128 {
            proof {
                if dec_value(s@) is Some {
                    lemma_dec_value_grows(s@, i + 1);
                }
            }
            return None;
        }
        acc = wide as u64;
        i += 1;
    }
    proof {
        assert(s@.take(n as int) =~= s@);
    }
    Some(acc)
}

/// The two halves of a parameterized benchmark name `name/argument`: the
/// name before the first separator and the decimal argument after it, up
/// to a second separator if one follows. `None` when there is no separator
/// or the argument is no decimal number.
pub open spec fn split_name_spec(s: Seq<char>) -> Option<(Seq<char>, int)> {
    let p = first_index_of(s, '/');
    if p == s.len() {
        None
    } else {
        let rest = s.subrange(p + 1, s.len() as int);
        let q = first_index_of(rest, '/');
        match parse_u64_spec(rest.subrange(0, q)) {
            Some(v) => Some((s.subrange(0, p), v)),
            None => None,
        }
    }
}

/// Splits a parameterized benchmark name into its name and its numeric
/// argument.
pub fn split_benchmark_name(name: &str) -> (r: Option<(String, u64)>)
    ensures
        match r {
            Some(v) => split_name_spec(name@) == Some((v.0@, v.1 as int)),
            None => split_name_spec(name@) is None,
        },
{
    let n = name.unicode_len();
    let mut p: usize = 0;
    while p < n && name.get_char(p) != '/'
        invariant
            0 <= p <= n,
            n == name@.len(),
            forall|j: int| 0 <= j < p ==> name@[j] != '/',
        decreases n - p,
    {
        p += 1;
    }
    proof {
        lemma_first_index_of(name@, '/', p as int);
    }
    if p == n {
        return None;
    }
    let mut q: usize = p + 1;
    while q < n && name.get_char(q) != '/'
        invariant
            p + 1 <= q <= n,
            n == name@.len(),
            forall|j: int| p + 1 <= j < q ==> name@[j] != '/',
        decreases n - q,
    {
        q += 1;
    }
    let ghost rest = name@.subrange(p + 1, n as int);
    proof {
        assert forall|j: int| 0 <= j < q - (p + 1) implies rest[j] != '/' by {
            assert(rest[j] == name@[j + p + 1]);
        }
        if (q as int) < n {
            assert(rest[q - (p + 1)] == name@[q as int]);
        }
        lemma_first_index_of(rest, '/', q - (p + 1));
        assert(rest.subrange(0, q - (p + 1)) =~= name@.subrange(p + 1, q as int));
    }
    let arg = name.substring_char(p + 1, q);
    let value = match parse_u64(arg) {
        Some(v) => v,
        None => {
            return None;
        },
    };
    let prefix = name.substring_char(0, p);
    Some((prefix.to_owned(), value))
}

/// Index of the first occurrence of `c` in `s`, or `s.len()` when there is
/// none.
pub open spec fn first_index_of(s: Seq<char>, c: char) -> int
    decreases s.len(),
{
    if s.len() == 0 {
        0
    } else if s[0] == c {
        0
    } else {
        1 + first_index_of(s.drop_first(), c)
    }
}

proof fn lemma_first_index_of(s: Seq<char>, c: char, k: int)
    requires
        0 <= k <= s.len(),
        forall|j: int| 0 <= j < k ==> s[j] != c,
        k == s.len() || s[k] == c,
    ensures
        first_index_of(s, c) == k,
    decreases s.len(),
{
    if s.len() == 0 {
    } else if s[0] == c {
    } else {
        lemma_first_index_of(s.drop_first(), c, k - 1);
    }
}

/// Index of the first `'\n'` in `s`, or `s.len()` when there is none.
pub open spec fn first_newline(s: Seq<char>) -> int
    decreases s.len(),
{
    if s.len() == 0 {
        0
    } else if s[0] == '\n' {
        0
    } else {
        1 + first_newline(s.drop_first())
    }
}

proof fn lemma_first_newline(s: Seq<char>, k: int)
    requires
        0 <= k <= s.len(),
        forall|j: int| 0 <= j < k ==> s[j] != '\n',
        k == s.len() || s[k] == '\n',
    ensures
        first_newline(s) == k,
    decreases s.len(),
{
    if s.len() == 0 {
    } else if s[0] == '\n' {
    } else {
        lemma_first_newline(s.drop_first(), k - 1);
    }
}

/// A line with a trailing carriage return removed.
pub open spec fn strip_cr(l: Seq<char>) -> Seq<char> {
    if l.len() > 0 && l.last() == '\r' {
        l.drop_last()
    } else {
        l
    }
}

/// The lines of `s`, split at `'\n'`, each stripped of a trailing `'\r'`;
/// a final fragment without a newline forms a last line, and an empty
/// final fragment does not.
pub open spec fn split_lines_spec(s: Seq<char>) -> Seq<Seq<char>>
    decreases s.len(),
{
    if s.len() == 0 {
        Seq::empty()
    } else {
        let i = first_newline(s);
        if 0 <= i && i < s.len() {
            seq![strip_cr(s.subrange(0, i))] + split_lines_spec(
                s.subrange(i + 1, s.len() as int),
            )
        } else {
            seq![s]
        }
    }
}

/// Splits a newline-separated block into its lines, as the build-command
/// list of the repocheck settings is written.
pub fn split_lines(s: &str) -> (r: Vec<String>)
    ensures
        r.deep_view() == split_lines_spec(s@),
{
    let len = s.unicode_len();
    let mut r: Vec<String> = Vec::new();
    proof {
        assert(s@.subrange(0, len as int) =~= s@);
        assert(r.deep_view() =~= Seq::<Seq<char>>::empty());
        assert(Seq::<Seq<char>>::empty() + split_lines_spec(s@) =~= split_lines_spec(s@));
    }
    let mut line_start: usize = 0;
    let mut i: usize = 0;
    while i < len
        invariant
            0 <= line_start <= i <= len,
            len == s@.len(),
            forall|j: int| line_start <= j < i ==> s@[j] != '\n',
            split_lines_spec(s@) == r.deep_view() + split_lines_spec(
                s@.subrange(line_start as int, len as int),
            ),
        decreases len - i,
    {
        let c = s.get_char(i);
        if c == '\n' {
            let ghost rest = s@.subrange(line_start as int, len as int);
            let ghost line = s@.subrange(line_start as int, i as int);
            proof {
                lemma_first_newline(rest, i - line_start);
                assert(rest.subrange(0, i - line_start) =~= line);
                assert(rest.subrange(i - line_start + 1, rest.len() as int) =~= s@.subrange(
                    i + 1,
                    len as int,
                ));
            }
            let mut line_str = s.substring_char(line_start, i);
            if i > line_start && s.get_char(i - 1) == '\r' {
                line_str = s.substring_char(line_start, i - 1);
                proof {
                    assert(strip_cr(line) =~= s@.subrange(line_start as int, i - 1));
                }
            } else {
                proof {
                    assert(strip_cr(line) =~= line);
                }
            }
            let ghost old_r = r.deep_view();
            r.push(line_str.to_owned());
            proof {
                assert(r.deep_view() =~= old_r.push(strip_cr(line)));
                assert(r.deep_view() + split_lines_spec(s@.subrange(i + 1, len as int)) =~= old_r
                    + (seq![strip_cr(line)] + split_lines_spec(s@.subrange(i + 1, len as int))));
            }
            line_start = i + 1;
        }
        i += 1;
    }
    let ghost rest = s@.subrange(line_start as int, len as int);
    if line_start < len {
        proof {
            lemma_first_newline(rest, rest.len() as int);
            assert(rest.subrange(0, rest.len() as int) =~= rest);
        }
        let last = s.substring_char(line_start, len);
        let ghost old_r = r.deep_view();
        r.push(last.to_owned());
        proof {
            assert(r.deep_view() =~= old_r.push(rest));
            assert(old_r + seq![rest] =~= old_r.push(rest));
        }
    } else {
        proof {
            assert(rest =~= Seq::<char>::empty());
            assert(r.deep_view() + Seq::<Seq<char>>::empty() =~= r.deep_view());
        }
    }
    r
}

} // verus!
