//! Verified text utilities: separator search, splitting, decimal parsing,
//! whitespace trimming and joining, each stated over `Seq<char>`.

use vstd::prelude::*;

verus! {

/// Index of the first occurrence of `sep` in `s`, or `s.len()` if none.
pub open spec fn first_sep(s: Seq<char>, sep: char) -> int
    decreases s.len(),
{
    if s.len() == 0 {
        0
    } else if s[0] == sep {
        0
    } else {
        1 + first_sep(s.drop_first(), sep)
    }
}

pub proof fn lemma_first_sep_bounds(s: Seq<char>, sep: char)
    ensures
        0 <= first_sep(s, sep) <= s.len(),
        first_sep(s, sep) < s.len() ==> s[first_sep(s, sep)] == sep,
        forall|j: int| 0 <= j < first_sep(s, sep) ==> s[j] != sep,
    decreases s.len(),
{
    if s.len() > 0 && s[0] != sep {
        lemma_first_sep_bounds(s.drop_first(), sep);
        assert forall|j: int| 0 <= j < first_sep(s, sep) implies s[j] != sep by {
            if j > 0 {
                assert(s.drop_first()[j - 1] == s[j]);
            }
        }
    }
}

/// If no separator stands before `i`, and `i` is either the end or a
/// separator position, then `i` is the first separator position.
pub proof fn lemma_first_sep_is(s: Seq<char>, sep: char, i: int)
    requires
        0 <= i <= s.len(),
        forall|j: int| 0 <= j < i ==> s[j] != sep,
        i < s.len() ==> s[i] == sep,
    ensures
        first_sep(s, sep) == i,
    decreases s.len(),
{
    if s.len() > 0 && s[0] != sep {
        assert forall|j: int| 0 <= j < i - 1 implies s.drop_first()[j] != sep by {
            assert(s.drop_first()[j] == s[j + 1]);
        }
        assert(i - 1 < s.drop_first().len() ==> s.drop_first()[i - 1] == sep);
        lemma_first_sep_is(s.drop_first(), sep, i - 1);
    }
}

/// The tokens of `s` between occurrences of `sep`, in order; always at
/// least one token, and one more token than separators.
pub open spec fn spec_split(s: Seq<char>, sep: char) -> Seq<Seq<char>>
    decreases s.len(),
    via spec_split_decreases
{
    let i = first_sep(s, sep);
    if i == s.len() {
        seq![s]
    } else {
        seq![s.take(i)] + spec_split(s.skip(i + 1), sep)
    }
}

#[via_fn]
proof fn spec_split_decreases(s: Seq<char>, sep: char) {
    lemma_first_sep_bounds(s, sep);
}

pub proof fn lemma_split_len(s: Seq<char>, sep: char)
    ensures
        spec_split(s, sep).len() >= 1,
    decreases s.len(),
{
    lemma_first_sep_bounds(s, sep);
    let i = first_sep(s, sep);
    if i != s.len() {
        lemma_split_len(s.skip(i + 1), sep);
    }
}

/// Finds the first occurrence of `sep` in `s`; returns `s`'s character
/// length if there is none.
pub fn find_char(s: &str, sep: char) -> (r: usize)
    ensures
        r as int == first_sep(s@, sep),
{
    let n = s.unicode_len();
    let mut j: usize = 0;
    let mut scanning = true;
    while scanning && j < n
        invariant
            j <= n,
            n == s@.len(),
            forall|k: int| 0 <= k < j ==> s@[k] != sep,
            !scanning ==> j < n && s@[j as int] == sep,
        decreases n - j + (if scanning { 1int } else { 0int }),
    {
        if s.get_char(j) == sep {
            scanning = false;
        } else {
            j += 1;
        }
    }
    proof {
        lemma_first_sep_is(s@, sep, j as int);
    }
    j
}

/// Splits `s` on `sep`; the result views to `spec_split(s@, sep)`.
pub fn split_char(s: &str, sep: char) -> (r: Vec<String>)
    ensures
        r@.len() == spec_split(s@, sep).len(),
        forall|i: int| 0 <= i < r@.len() ==> r@[i]@ == spec_split(s@, sep)[i],
{
    let mut tokens: Vec<String> = Vec::new();
    let mut rest: &str = s;
    let mut splitting = true;
    while splitting
        invariant
            splitting ==> {
                &&& tokens@.len() + spec_split(rest@, sep).len() == spec_split(s@, sep).len()
                &&& forall|i: int|
                    tokens@.len() <= i < spec_split(s@, sep).len() ==> spec_split(s@, sep)[i]
                        == spec_split(rest@, sep)[i - tokens@.len()]
            },
            !splitting ==> tokens@.len() == spec_split(s@, sep).len(),
            forall|i: int| 0 <= i < tokens@.len() ==> tokens@[i]@ == spec_split(s@, sep)[i],
        decreases rest@.len() + (if splitting { 1int } else { 0int }),
    {
        proof {
            lemma_first_sep_bounds(rest@, sep);
            lemma_split_len(rest@, sep);
        }
        let n = rest.unicode_len();
        let j = find_char(rest, sep);
        if j == n {
            tokens.push(rest.to_owned());
            splitting = false;
        } else {
            let ghost old_rest = rest@;
            let ghost old_len = tokens@.len() as int;
            let tok = rest.substring_char(0, j);
            tokens.push(tok.to_owned());
            rest = rest.substring_char(j + 1, n);
            proof {
                assert(rest@ == old_rest.skip(j + 1));
                assert(tok@ == old_rest.take(j as int));
                lemma_split_len(rest@, sep);
                assert(spec_split(old_rest, sep) == seq![old_rest.take(j as int)] + spec_split(
                    old_rest.skip(j + 1),
                    sep,
                ));
                assert forall|i: int|
                    tokens@.len() <= i < spec_split(s@, sep).len() implies spec_split(s@, sep)[i]
                    == spec_split(rest@, sep)[i - tokens@.len()] by {
                    assert(spec_split(s@, sep)[i] == spec_split(old_rest, sep)[i - old_len]);
                    assert(spec_split(old_rest, sep)[i - old_len] == spec_split(rest@, sep)[i
                        - old_len - 1]);
                }
            }
        }
    }
    tokens
}

pub open spec fn is_digit_char(c: char) -> bool {
    '0' <= c && c <= '9'
}

pub open spec fn digit_val(c: char) -> int {
    c as int - '0' as int
}

pub open spec fn all_digits(s: Seq<char>) -> bool {
    forall|i: int| 0 <= i < s.len() ==> is_digit_char(s[i])
}

/// Value of a sequence of decimal digits, most significant first.
pub open spec fn dec_val(s: Seq<char>) -> int
    decreases s.len(),
{
    if s.len() == 0 {
        0
    } else {
        dec_val(s.drop_last()) * 10 + digit_val(s.last())
    }
}

/// The unsigned value `s` denotes: defined exactly when `s` is a nonempty
/// run of decimal digits whose value fits in a `u64`.
pub open spec fn spec_parse_u64(s: Seq<char>) -> Option<u64> {
    if s.len() > 0 && all_digits(s) && dec_val(s) <= u64::MAX {
        Some(dec_val(s) as u64)
    } else {
        None
    }
}

/// As `spec_parse_u64`, with the `i32` range instead.
pub open spec fn spec_parse_i32(s: Seq<char>) -> Option<i32> {
    if s.len() > 0 && all_digits(s) && dec_val(s) <= i32::MAX {
        Some(dec_val(s) as i32)
    } else {
        None
    }
}

pub proof fn lemma_dec_val_nonneg(s: Seq<char>)
    requires
        all_digits(s),
    ensures
        dec_val(s) >= 0,
    decreases s.len(),
{
    if s.len() > 0 {
        assert(all_digits(s.drop_last()));
        lemma_dec_val_nonneg(s.drop_last());
    }
}

proof fn lemma_dec_val_take_step(s: Seq<char>, i: int)
    requires
        0 <= i < s.len(),
    ensures
        dec_val(s.take(i + 1)) == dec_val(s.take(i)) * 10 + digit_val(s[i]),
{
    assert(s.take(i + 1).drop_last() =~= s.take(i));
    assert(s.take(i + 1).last() == s[i]);
}

proof fn lemma_dec_val_take_mono(s: Seq<char>, i: int)
    requires
        all_digits(s),
        0 <= i <= s.len(),
    ensures
        dec_val(s.take(i)) <= dec_val(s),
    decreases s.len() - i,
{
    if i < s.len() {
        lemma_dec_val_take_step(s, i);
        assert(all_digits(s.take(i)));
        lemma_dec_val_nonneg(s.take(i));
        lemma_dec_val_take_mono(s, i + 1);
    } else {
        assert(s.take(i) =~= s);
    }
}

/// Parses a nonempty all-digit string as a `u64`; `None` on an empty
/// string, a non-digit, or overflow.
pub fn parse_u64_digits(s: &str) -> (r: Option<u64>)
    ensures
        r == spec_parse_u64(s@),
{
    let n = s.unicode_len();
    if n == 0 {
        return None;
    }
    let mut val: u64 = 0;
    let mut i: usize = 0;
    while i < n
        invariant
            0 < n == s@.len(),
            i <= n,
            all_digits(s@.take(i as int)),
            val == dec_val(s@.take(i as int)),
        decreases n - i,
    {
        let c = s.get_char(i);
        if c < '0' || c > '9' {
            assert(!is_digit_char(s@[i as int]));
            return None;
        }
        let d: u64 = (c as u32 - 48) as u64;
        assert(d == digit_val(s@[i as int]));
        proof {
            lemma_dec_val_take_step(s@, i as int);
        }
        if val > (u64::MAX - d) / 10 {
            proof {
                assert(val * 10 + d > u64::MAX) by (nonlinear_arith)
                    requires
                        val > (u64::MAX - d) / 10,
                        d <= 9,
                ;
                assert(dec_val(s@.take(i + 1)) > u64::MAX);
                assert(all_digits(s@.take(i + 1)));
                if all_digits(s@) {
                    lemma_dec_val_take_mono(s@, i + 1);
                }
            }
            return None;
        }
        proof {
            assert(val * 10 + d <= u64::MAX) by (nonlinear_arith)
                requires
                    val <= (u64::MAX - d) / 10,
                    d <= 9,
            ;
        }
        val = val * 10 + d;
        i += 1;
    }
    proof {
        assert(s@.take(n as int) =~= s@);
    }
    Some(val)
}

/// Parses a nonempty all-digit string as an `i32`; `None` on an empty
/// string, a non-digit, or a value above `i32::MAX`.
pub fn parse_i32_digits(s: &str) -> (r: Option<i32>)
    ensures
        r == spec_parse_i32(s@),
{
    match parse_u64_digits(s) {
        Some(v) => {
            proof {
                lemma_dec_val_nonneg(s@);
            }
            if v <= i32::MAX as u64 {
                Some(v as i32)
            } else {
                None
            }
        },
        None => {
            proof {
                if s@.len() > 0 && all_digits(s@) && dec_val(s@) <= i32::MAX {
                    lemma_dec_val_nonneg(s@);
                }
            }
            None
        },
    }
}

/// The characters Unicode marks as white space, as leading and trailing
/// content to strip.
pub open spec fn is_space_char(c: char) -> bool {
    ||| c == '\u{0009}'
    ||| c == '\u{000A}'
    ||| c == '\u{000B}'
    ||| c == '\u{000C}'
    ||| c == '\u{000D}'
    ||| c == '\u{0020}'
    ||| c == '\u{0085}'
    ||| c == '\u{00A0}'
    ||| c == '\u{1680}'
    ||| ('\u{2000}' <= c && c <= '\u{200A}')
    ||| c == '\u{2028}'
    ||| c == '\u{2029}'
    ||| c == '\u{202F}'
    ||| c == '\u{205F}'
    ||| c == '\u{3000}'
}

pub open spec fn trim_front(s: Seq<char>) -> Seq<char>
    decreases s.len(),
{
    if s.len() > 0 && is_space_char(s[0]) {
        trim_front(s.drop_first())
    } else {
        s
    }
}

pub open spec fn trim_back(s: Seq<char>) -> Seq<char>
    decreases s.len(),
{
    if s.len() > 0 && is_space_char(s.last()) {
        trim_back(s.drop_last())
    } else {
        s
    }
}

/// `s` without leading and trailing white space.
pub open spec fn spec_trim(s: Seq<char>) -> Seq<char> {
    trim_back(trim_front(s))
}

fn is_space(c: char) -> (r: bool)
    ensures
        r == is_space_char(c),
{
    c == '\u{0009}' || c == '\u{000A}' || c == '\u{000B}' || c == '\u{000C}' || c == '\u{000D}'
        || c == '\u{0020}' || c == '\u{0085}' || c == '\u{00A0}' || c == '\u{1680}' || ('\u{2000}'
        <= c && c <= '\u{200A}') || c == '\u{2028}' || c == '\u{2029}' || c == '\u{202F}' || c
        == '\u{205F}' || c == '\u{3000}'
}

/// Strips leading and trailing white space from `s`.
pub fn trim_str(s: &str) -> (r: String)
    ensures
        r@ == spec_trim(s@),
{
    let n = s.unicode_len();
    let mut a: usize = 0;
    let mut scanning = true;
    proof {
        assert(s@.skip(0) =~= s@);
    }
    while scanning && a < n
        invariant
            a <= n,
            n == s@.len(),
            trim_front(s@) == trim_front(s@.skip(a as int)),
            !scanning ==> a < n && !is_space_char(s@[a as int]),
        decreases n - a + (if scanning { 1int } else { 0int }),
    {
        if is_space(s.get_char(a)) {
            proof {
                assert(s@.skip(a as int).drop_first() =~= s@.skip(a + 1));
            }
            a += 1;
        } else {
            scanning = false;
        }
    }
    proof {
        assert(trim_front(s@) =~= s@.skip(a as int));
        assert(s@.skip(a as int) =~= s@.subrange(a as int, n as int));
    }
    let mut b: usize = n;
    scanning = true;
    while scanning && b > a
        invariant
            a <= b <= n,
            n == s@.len(),
            trim_back(s@.subrange(a as int, n as int)) == trim_back(
                s@.subrange(a as int, b as int),
            ),
            a < n ==> !is_space_char(s@[a as int]),
            !scanning ==> b > a && !is_space_char(s@[b - 1]),
        decreases b - a + (if scanning { 1int } else { 0int }),
    {
        if is_space(s.get_char(b - 1)) {
            proof {
                assert(s@.subrange(a as int, b as int).drop_last() =~= s@.subrange(
                    a as int,
                    b - 1,
                ));
            }
            b -= 1;
        } else {
            scanning = false;
        }
    }
    proof {
        assert(trim_back(s@.subrange(a as int, b as int)) =~= s@.subrange(a as int, b as int));
    }
    let r = s.substring_char(a, b);
    r.to_owned()
}

/// The parts joined by single spaces: empty for no parts, and
/// `p0 p1 ... pk` otherwise.
pub open spec fn spec_join_space(parts: Seq<Seq<char>>) -> Seq<char>
    decreases parts.len(),
{
    if parts.len() == 0 {
        Seq::empty()
    } else if parts.len() == 1 {
        parts[0]
    } else {
        spec_join_space(parts.drop_last()) + seq![' '] + parts.last()
    }
}

/// Joins the given fragments with single spaces.
pub fn join_space(parts: &Vec<String>) -> (r: String)
    ensures
        r@ == spec_join_space(parts@.map_values(|p: String| p@)),
{
    let ghost views = parts@.map_values(|p: String| p@);
    let mut out = String::new();
    let mut i: usize = 0;
    while i < parts.len()
        invariant
            i <= parts@.len(),
            views == parts@.map_values(|p: String| p@),
            out@ == spec_join_space(views.take(i as int)),
        decreases parts@.len() - i,
    {
        if i > 0 {
            out.append(" ");
            proof {
                reveal_strlit(" ");
            }
        }
        out.append(parts[i].as_str());
        proof {
            assert(views.take(i + 1).drop_last() =~= views.take(i as int));
            assert(views.take(i + 1).last() == views[i as int]);
            if i == 0 {
                assert(out@ =~= spec_join_space(views.take(1)));
            } else {
                assert(out@ =~= spec_join_space(views.take(i + 1)));
            }
        }
        i += 1;
    }
    proof {
        assert(views.take(parts@.len() as int) =~= views);
    }
    out
}

} // verus!
