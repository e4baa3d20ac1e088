//! Small verified string utilities shared across the crate: equality,
//! searching, splitting, trimming and decimal parsing.

use vstd::prelude::*;

verus! {

/// Equality of two string slices by their character sequences.
pub fn str_eq(a: &str, b: &str) -> (r: bool)
    ensures
        r == (a@ == b@),
{
    let sa: String = a.to_owned();
    let sb: String = b.to_owned();
    sa == sb
}

/// Index of the first occurrence of `sep` in `s`, if any.
pub open spec fn spec_find(s: Seq<char>, sep: char) -> Option<int>
    decreases s.len(),
{
    if s.len() == 0 {
        None
    } else if s[0] == sep {
        Some(0int)
    } else {
        match spec_find(s.drop_first(), sep) {
            Some(i) => Some(i + 1),
            None => None,
        }
    }
}

/// `spec_find` returns the first index holding `sep`, or `None` when `sep`
/// does not occur.
pub proof fn lemma_find_first(s: Seq<char>, sep: char)
    ensures
        match spec_find(s, sep) {
            Some(i) => 0 <= i < s.len() && s[i] == sep && (forall|j: int|
                0 <= j < i ==> s[j] != sep),
            None => forall|j: int| 0 <= j < s.len() ==> s[j] != sep,
        },
    decreases s.len(),
{
    if s.len() > 0 && s[0] != sep {
        let t = s.drop_first();
        lemma_find_first(t, sep);
        assert(forall|j: int| 0 <= j < t.len() ==> t[j] == s[j + 1]);
        match spec_find(t, sep) {
            Some(i) => {
                assert(spec_find(s, sep) == Some(i + 1));
                assert(s[i + 1] == t[i]);
                assert forall|j: int| 0 <= j < i + 1 implies s[j] != sep by {
                    if j > 0 {
                        assert(t[j - 1] == s[j]);
                    }
                }
            },
            None => {
                assert forall|j: int| 0 <= j < s.len() implies s[j] != sep by {
                    if j > 0 {
                        assert(t[j - 1] == s[j]);
                    }
                }
            },
        }
    }
}

/// First index of `sep` in `s`.
pub fn find_char(s: &str, sep: char) -> (r: Option<usize>)
    ensures
        match r {
            Some(i) => spec_find(s@, sep) == Some(i as int),
            None => spec_find(s@, sep) is None,
        },
{
    let n = s.unicode_len();
    for i in 0..n
        invariant
            n == s@.len(),
            forall|j: int| 0 <= j < i ==> s@[j] != sep,
    {
        if s.get_char(i) == sep {
            proof {
                lemma_find_first(s@, sep);
                match spec_find(s@, sep) {
                    Some(k) => {
                        if k < i as int {
                            assert(s@[k] != sep);
                        } else if k > i as int {
                            assert(s@[i as int] != sep);
                        }
                    },
                    None => {
                        assert(s@[i as int] != sep);
                    },
                }
            }
            return Some(i);
        }
    }
    proof {
        lemma_find_first(s@, sep);
    }
    None
}

/// The segments of `s` between occurrences of `sep`.  Splitting the empty
/// string gives one empty segment; a separator at either end gives an empty
/// segment on that side.
pub open spec fn spec_split(s: Seq<char>, sep: char) -> Seq<Seq<char>>
    decreases s.len(),
{
    if s.len() == 0 {
        seq![Seq::<char>::empty()]
    } else if s[0] == sep {
        seq![Seq::<char>::empty()] + spec_split(s.drop_first(), sep)
    } else {
        let rest = spec_split(s.drop_first(), sep);
        seq![seq![s[0]] + rest[0]] + rest.drop_first()
    }
}

pub proof fn lemma_split_len(s: Seq<char>, sep: char)
    ensures
        spec_split(s, sep).len() >= 1,
    decreases s.len(),
{
    if s.len() > 0 {
        lemma_split_len(s.drop_first(), sep);
    }
}

/// Unfolds `spec_split` at the first separator: with no separator the whole
/// string is the one segment, else the head segment runs up to the first
/// separator and the rest is split on its own.
pub proof fn lemma_split_at_first(s: Seq<char>, sep: char)
    ensures
        match spec_find(s, sep) {
            None => spec_split(s, sep) =~~= seq![s],
            Some(i) => spec_split(s, sep) =~~= seq![s.subrange(0, i)] + spec_split(
                s.subrange(i + 1, s.len() as int),
                sep,
            ),
        },
    decreases s.len(),
{
    lemma_find_first(s, sep);
    if s.len() == 0 {
        assert(spec_split(s, sep) =~~= seq![s]);
    } else if s[0] == sep {
        assert(spec_find(s, sep) == Some(0int));
        assert(s.drop_first() =~= s.subrange(1, s.len() as int));
        assert(s.subrange(0, 0) =~= Seq::<char>::empty());
        assert(spec_split(s, sep) =~~= seq![s.subrange(0, 0)] + spec_split(
            s.subrange(1, s.len() as int),
            sep,
        ));
    } else {
        let t = s.drop_first();
        lemma_split_at_first(t, sep);
        lemma_split_len(t, sep);
        let rest = spec_split(t, sep);
        match spec_find(s, sep) {
            None => {
                assert(spec_find(t, sep) is None);
                assert(rest =~~= seq![t]);
                assert(rest[0] == t);
                assert(seq![s[0]] + t =~= s);
                assert(spec_split(s, sep) =~~= seq![s]);
            },
            Some(i) => {
                assert(spec_find(t, sep) == Some(i - 1));
                let t_tail = spec_split(t.subrange(i, t.len() as int), sep);
                assert(rest =~~= seq![t.subrange(0, i - 1)] + t_tail);
                lemma_split_len(t.subrange(i, t.len() as int), sep);
                assert(rest[0] =~= t.subrange(0, i - 1));
                assert(rest.drop_first() =~~= t_tail);
                assert forall|j: int| 0 <= j < i implies (seq![s[0]] + t.subrange(0, i - 1))[j]
                    == s.subrange(0, i)[j] by {
                    if j > 0 {
                        assert(t.subrange(0, i - 1)[j - 1] == t[j - 1]);
                        assert(t[j - 1] == s[j]);
                    }
                }
                assert(seq![s[0]] + t.subrange(0, i - 1) =~= s.subrange(0, i));
                assert(t.subrange(i, t.len() as int) =~= s.subrange(i + 1, s.len() as int));
                assert(spec_split(s, sep) =~~= seq![s.subrange(0, i)] + spec_split(
                    s.subrange(i + 1, s.len() as int),
                    sep,
                ));
            },
        }
    }
}

/// Split `s` into its segments between occurrences of `sep`.
pub fn split_str(s: &str, sep: char) -> (r: Vec<String>)
    ensures
        r.deep_view() =~~= spec_split(s@, sep),
    decreases s@.len(),
{
    proof {
        lemma_find_first(s@, sep);
        lemma_split_at_first(s@, sep);
    }
    match find_char(s, sep) {
        None => {
            let mut r: Vec<String> = Vec::new();
            r.push(s.to_owned());
            proof {
                assert(r.deep_view() =~~= seq![s@]);
            }
            r
        },
        Some(i) => {
            let n = s.unicode_len();
            let head: String = s.substring_char(0, i).to_owned();
            let rest: &str = s.substring_char(i + 1, n);
            let mut tail = split_str(rest, sep);
            let ghost tail_before = tail.deep_view();
            tail.insert(0, head);
            proof {
                assert forall|j: int| 0 <= j < tail.deep_view().len() implies tail.deep_view()[j]
                    == (seq![s@.subrange(0, i as int)] + tail_before)[j] by {
                    assert(tail@[j] == if j == 0 {
                        head
                    } else {
                        tail@[j]
                    });
                }
                assert(tail.deep_view() =~~= seq![s@.subrange(0, i as int)] + spec_split(
                    s@.subrange(i as int + 1, s@.len() as int),
                    sep,
                ));
            }
            tail
        },
    }
}

/// `s` without leading spaces.
pub open spec fn spec_trim_left(s: Seq<char>) -> Seq<char>
    decreases s.len(),
{
    if s.len() > 0 && s[0] == ' ' {
        spec_trim_left(s.drop_first())
    } else {
        s
    }
}

/// `s` without trailing spaces.
pub open spec fn spec_trim_right(s: Seq<char>) -> Seq<char>
    decreases s.len(),
{
    if s.len() > 0 && s.last() == ' ' {
        spec_trim_right(s.drop_last())
    } else {
        s
    }
}

/// `s` without leading or trailing spaces.
pub open spec fn spec_trim(s: Seq<char>) -> Seq<char> {
    spec_trim_right(spec_trim_left(s))
}

proof fn lemma_trim_left_skip(s: Seq<char>, i: int)
    requires
        0 <= i <= s.len(),
        forall|j: int| 0 <= j < i ==> s[j] == ' ',
    ensures
        spec_trim_left(s) == spec_trim_left(s.skip(i)),
    decreases i,
{
    if i > 0 {
        assert(s.len() > 0 && s[0] == ' ');
        assert(s.drop_first() =~= s.skip(1));
        assert forall|j: int| 0 <= j < i - 1 implies s.skip(1)[j] == ' ' by {
            assert(s.skip(1)[j] == s[j + 1]);
        }
        lemma_trim_left_skip(s.skip(1), i - 1);
        assert(s.skip(1).skip(i - 1) =~= s.skip(i));
    } else {
        assert(s.skip(0) =~= s);
    }
}

proof fn lemma_trim_right_take(s: Seq<char>, i: int)
    requires
        0 <= i <= s.len(),
        forall|j: int| i <= j < s.len() ==> s[j] == ' ',
    ensures
        spec_trim_right(s) == spec_trim_right(s.take(i)),
    decreases s.len() - i,
{
    if i < s.len() {
        assert(s[s.len() - 1] == ' ');
        assert(s.drop_last() =~= s.take(s.len() - 1));
        assert forall|j: int| i <= j < s.len() - 1 implies #[trigger] s.take(s.len() - 1)[j]
            == ' ' by {
            assert(s.take(s.len() - 1)[j] == s[j]);
        }
        lemma_trim_right_take(s.take(s.len() - 1), i);
        assert(s.take(s.len() - 1).take(i) =~= s.take(i));
    } else {
        assert(s.take(i) =~= s);
    }
}

/// Remove leading and trailing spaces.
pub fn trim_spaces(s: &str) -> (r: String)
    ensures
        r@ =~= spec_trim(s@),
{
    let n = s.unicode_len();
    let mut start: usize = 0;
    while start < n && s.get_char(start) == ' '
        invariant
            n == s@.len(),
            0 <= start <= n,
            forall|j: int| 0 <= j < start ==> s@[j] == ' ',
        decreases n - start,
    {
        start = start + 1;
    }
    proof {
        lemma_trim_left_skip(s@, start as int);
        assert(spec_trim_left(s@.skip(start as int)) == s@.skip(start as int));
    }
    let mut end: usize = n;
    while end > start && s.get_char(end - 1) == ' '
        invariant
            n == s@.len(),
            start <= end <= n,
            forall|j: int| end <= j < n ==> s@[j] == ' ',
        decreases end,
    {
        end = end - 1;
    }
    let ghost mid = s@.skip(start as int);
    proof {
        assert(forall|j: int|
            end - start <= j < mid.len() ==> mid[j] == s@[j + start as int] && mid[j] == ' ');
        lemma_trim_right_take(mid, end - start);
        assert(spec_trim_right(mid.take(end - start)) == mid.take(end - start));
        assert(mid.take(end - start) =~= s@.subrange(start as int, end as int));
    }
    s.substring_char(start, end).to_owned()
}

/// The code of `c` with an upper-case ASCII letter mapped to lower case.
pub open spec fn spec_lower_code(c: char) -> u32 {
    if 65 <= c as u32 <= 90 {
        (c as u32 + 32) as u32
    } else {
        c as u32
    }
}

/// Case-insensitive (ASCII) equality of two character sequences.
pub open spec fn spec_eq_nocase(a: Seq<char>, b: Seq<char>) -> bool {
    a.len() == b.len() && forall|i: int|
        0 <= i < a.len() ==> spec_lower_code(a[i]) == spec_lower_code(b[i])
}

/// Case-insensitive (ASCII) equality of two string slices.
pub fn str_eq_nocase(a: &str, b: &str) -> (r: bool)
    ensures
        r == spec_eq_nocase(a@, b@),
{
    let n = a.unicode_len();
    if n != b.unicode_len() {
        return false;
    }
    for i in 0..n
        invariant
            n == a@.len(),
            n == b@.len(),
            forall|j: int| 0 <= j < i ==> spec_lower_code(a@[j]) == spec_lower_code(b@[j]),
    {
        let ca = a.get_char(i) as u32;
        let cb = b.get_char(i) as u32;
        let la = if 65 <= ca && ca <= 90 {
            ca + 32
        } else {
            ca
        };
        let lb = if 65 <= cb && cb <= 90 {
            cb + 32
        } else {
            cb
        };
        if la != lb {
            return false;
        }
    }
    true
}

/// Whether `s` begins with `prefix`, comparing ASCII case-insensitively.
pub open spec fn spec_starts_with_nocase(s: Seq<char>, prefix: Seq<char>) -> bool {
    s.len() >= prefix.len() && spec_eq_nocase(s.subrange(0, prefix.len() as int), prefix)
}

pub fn starts_with_nocase(s: &str, prefix: &str) -> (r: bool)
    ensures
        r == spec_starts_with_nocase(s@, prefix@),
{
    let n = s.unicode_len();
    let p = prefix.unicode_len();
    if n < p {
        return false;
    }
    str_eq_nocase(s.substring_char(0, p), prefix)
}

/// Whether `s` ends with `suffix`, comparing ASCII case-insensitively.
pub open spec fn spec_ends_with_nocase(s: Seq<char>, suffix: Seq<char>) -> bool {
    s.len() >= suffix.len() && spec_eq_nocase(
        s.subrange(s.len() - suffix.len(), s.len() as int),
        suffix,
    )
}

pub fn ends_with_nocase(s: &str, suffix: &str) -> (r: bool)
    ensures
        r == spec_ends_with_nocase(s@, suffix@),
{
    let n = s.unicode_len();
    let p = suffix.unicode_len();
    if n < p {
        return false;
    }
    str_eq_nocase(s.substring_char(n - p, n), suffix)
}

/// Whether `c` is a decimal digit.
pub open spec fn spec_is_digit(c: char) -> bool {
    48 <= c as u32 <= 57
}

/// Whether every character of `s` is a decimal digit.
pub open spec fn spec_all_digits(s: Seq<char>) -> bool {
    forall|i: int| 0 <= i < s.len() ==> spec_is_digit(s[i])
}

/// The value of `s` read as a decimal numeral.
pub open spec fn spec_dec_val(s: Seq<char>) -> int
    decreases s.len(),
{
    if s.len() == 0 {
        0
    } else {
        spec_dec_val(s.drop_last()) * 10 + (s.last() as u32 - 48)
    }
}

proof fn lemma_dec_val_bounds(s: Seq<char>)
    requires
        spec_all_digits(s),
    ensures
        spec_dec_val(s) >= 0,
        s.len() > 0 ==> spec_dec_val(s) >= spec_dec_val(s.drop_last()),
    decreases s.len(),
{
    if s.len() > 0 {
        lemma_dec_val_bounds(s.drop_last());
    }
}

proof fn lemma_dec_val_prefix_grows(s: Seq<char>, i: int)
    requires
        spec_all_digits(s),
        0 <= i <= s.len(),
    ensures
        spec_dec_val(s.take(i)) <= spec_dec_val(s),
    decreases s.len() - i,
{
    if i < s.len() {
        lemma_dec_val_prefix_grows(s, i + 1);
        assert(s.take(i + 1).drop_last() =~= s.take(i));
        assert(spec_all_digits(s.take(i + 1)));
        lemma_dec_val_bounds(s.take(i + 1));
    } else {
        assert(s.take(i) =~= s);
    }
}

/// Read `s` as a decimal `u32`.  Succeeds exactly on non-empty all-digit
/// strings whose value fits; the result is then that value.
pub fn parse_u32(s: &str) -> (r: Option<u32>)
    ensures
        match r {
            Some(v) => s@.len() > 0 && spec_all_digits(s@) && v == spec_dec_val(s@),
            None => s@.len() == 0 || !spec_all_digits(s@) || spec_dec_val(s@) > u32::MAX,
        },
{
    let n = s.unicode_len();
    if n == 0 {
        return None;
    }
    let mut acc: u32 = 0;
    for i in 0..n
        invariant
            n == s@.len(),
            spec_all_digits(s@.take(i as int)),
            acc == spec_dec_val(s@.take(i as int)),
    {
        let c = s.get_char(i) as u32;
        if c < 48 || c > 57 {
            proof {
                assert(!spec_is_digit(s@[i as int]));
            }
            return None;
        }
        let d = c - 48;
        if acc > (u32::MAX - d) / 10 {
            proof {
                assert(s@.take(i as int + 1).drop_last() =~= s@.take(i as int));
                assert(spec_all_digits(s@.take(i as int + 1)));
                assert(spec_dec_val(s@.take(i as int + 1)) > u32::MAX);
                if spec_all_digits(s@) {
                    lemma_dec_val_prefix_grows(s@, i as int + 1);
                    assert(spec_dec_val(s@) > u32::MAX);
                }
            }
            return None;
        }
        proof {
            assert(s@.take(i as int + 1).drop_last() =~= s@.take(i as int));
        }
        acc = acc * 10 + d;
    }
    proof {
        assert(s@.take(n as int) =~= s@);
    }
    Some(acc)
}

} // verus!
