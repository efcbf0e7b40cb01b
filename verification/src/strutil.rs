//! Verified string utilities: comparison, affix tests, searching,
//! splitting, trimming, and decimal formatting and parsing.
//!
//! Executable code walks strings with the character-indexed helpers of
//! vstd, so every contract is stated over the `Seq<char>` view.
use vstd::prelude::*;
use vstd::string::*;

verus! {

/// `p` is a prefix of `s`.
pub open spec fn spec_starts_with(s: Seq<char>, p: Seq<char>) -> bool {
    p.len() <= s.len() && s.subrange(0, p.len() as int) == p
}

/// `p` is a suffix of `s`.
pub open spec fn spec_ends_with(s: Seq<char>, p: Seq<char>) -> bool {
    p.len() <= s.len() && s.subrange(s.len() - p.len(), s.len() as int) == p
}

/// `p` occurs in `s` at position `i`.
pub open spec fn occurs_at(s: Seq<char>, p: Seq<char>, i: int) -> bool {
    0 <= i && i + p.len() <= s.len() && s.subrange(i, i + p.len()) == p
}

/// Compares two strings by their characters.
pub fn str_eq(a: &str, b: &str) -> (r: bool)
    ensures
        r == (a@ == b@),
{
    let la = a.unicode_len();
    let lb = b.unicode_len();
    if la != lb {
        return false;
    }
    let mut i: usize = 0;
    while i < la
        invariant
            0 <= i <= la,
            la == a@.len(),
            lb == b@.len(),
            la == lb,
            forall|j: int| 0 <= j < i ==> a@[j] == b@[j],
        decreases la - i,
    {
        if a.get_char(i) != b.get_char(i) {
            return false;
        }
        i += 1;
    }
    proof {
        assert(a@ =~= b@);
    }
    true
}

/// Tests whether `p` is a prefix of `s`.
pub fn str_starts_with(s: &str, p: &str) -> (r: bool)
    ensures
        r == spec_starts_with(s@, p@),
{
    let ls = s.unicode_len();
    let lp = p.unicode_len();
    if lp > ls {
        return false;
    }
    let mut i: usize = 0;
    while i < lp
        invariant
            0 <= i <= lp,
            ls == s@.len(),
            lp == p@.len(),
            lp <= ls,
            forall|j: int| 0 <= j < i ==> s@[j] == p@[j],
        decreases lp - i,
    {
        if s.get_char(i) != p.get_char(i) {
            return false;
        }
        i += 1;
    }
    proof {
        assert(s@.subrange(0, p@.len() as int) =~= p@);
    }
    true
}

/// Tests whether `p` is a suffix of `s`.
pub fn str_ends_with(s: &str, p: &str) -> (r: bool)
    ensures
        r == spec_ends_with(s@, p@),
{
    let ls = s.unicode_len();
    let lp = p.unicode_len();
    if lp > ls {
        return false;
    }
    let base = ls - lp;
    let mut i: usize = 0;
    while i < lp
        invariant
            0 <= i <= lp,
            ls == s@.len(),
            lp == p@.len(),
            lp <= ls,
            base == ls - lp,
            forall|j: int| 0 <= j < i ==> s@[base + j] == p@[j],
        decreases lp - i,
    {
        if s.get_char(base + i) != p.get_char(i) {
            return false;
        }
        i += 1;
    }
    proof {
        assert(s@.subrange(s@.len() - p@.len(), s@.len() as int) =~= p@);
    }
    true
}

/// Finds the first occurrence of `p` in `s` at or after position `from`.
#[verifier::loop_isolation(false)]
pub fn str_find_from(s: &str, from: usize, p: &str) -> (r: Option<usize>)
    requires
        from <= s@.len(),
    ensures
        match r {
            Some(i) => from <= i && occurs_at(s@, p@, i as int) && forall|j: int|
                from <= j < i ==> !occurs_at(s@, p@, j),
            None => forall|j: int| from <= j ==> !occurs_at(s@, p@, j),
        },
{
    let ls = s.unicode_len();
    let lp = p.unicode_len();
    if lp == 0 {
        proof {
            assert(s@.subrange(from as int, from as int) =~= p@);
        }
        return Some(from);
    }
    if lp > ls || from > ls - lp {
        proof {
            assert forall|j: int| from <= j implies !occurs_at(s@, p@, j) by {
                assert(j + p@.len() > s@.len());
            }
        }
        return None;
    }
    let mut i: usize = from;
    while i <= ls - lp
        invariant
            from <= i <= ls - lp + 1,
            forall|j: int| from <= j < i ==> !occurs_at(s@, p@, j),
        decreases ls - i,
    {
        if occurs_here(s, i, p, ls, lp) {
            return Some(i);
        }
        i += 1;
    }
    proof {
        assert forall|j: int| from <= j implies !occurs_at(s@, p@, j) by {
            if j >= i {
                assert(j + p@.len() > s@.len());
            }
        }
    }
    None
}

/// Tests whether `p` occurs in `s` exactly at position `at`.
fn occurs_here(s: &str, at: usize, p: &str, ls: usize, lp: usize) -> (r: bool)
    requires
        ls == s@.len(),
        lp == p@.len(),
        at + lp <= ls,
    ensures
        r == occurs_at(s@, p@, at as int),
{
    let mut i: usize = 0;
    while i < lp
        invariant
            0 <= i <= lp,
            ls == s@.len(),
            lp == p@.len(),
            at + lp <= ls,
            forall|j: int| 0 <= j < i ==> s@[at + j] == p@[j],
        decreases lp - i,
    {
        if s.get_char(at + i) != p.get_char(i) {
            proof {
                let j = i as int;
                assert(s@.subrange(at as int, at + p@.len())[j] == s@[at + j]);
            }
            return false;
        }
        i += 1;
    }
    proof {
        assert(s@.subrange(at as int, at + p@.len()) =~= p@);
    }
    true
}

/// Characters the gateway treats as blank when trimming.
pub open spec fn is_blank(c: char) -> bool {
    c == ' ' || c == '\t' || c == '\n' || c == '\r'
}

/// `s` with leading and trailing blanks removed: the subrange from the
/// first non-blank character to the last.
pub open spec fn spec_trim(s: Seq<char>) -> Seq<char> {
    let a = first_non_blank(s, 0);
    if a == s.len() {
        Seq::empty()
    } else {
        s.subrange(a, last_non_blank(s) + 1)
    }
}

/// First index at or after `from` holding a non-blank character, or
/// `s.len()` if there is none.
pub open spec fn first_non_blank(s: Seq<char>, from: int) -> int
    decreases s.len() - from when 0 <= from <= s.len()
{
    if from >= s.len() {
        s.len() as int
    } else if is_blank(s[from]) {
        first_non_blank(s, from + 1)
    } else {
        from
    }
}

/// Last index holding a non-blank character, or -1 if there is none.
pub open spec fn last_non_blank(s: Seq<char>) -> int
    decreases s.len()
{
    if s.len() == 0 {
        -1
    } else if is_blank(s[s.len() - 1]) {
        last_non_blank(s.drop_last())
    } else {
        s.len() - 1
    }
}

fn is_blank_exec(c: char) -> (r: bool)
    ensures
        r == is_blank(c),
{
    c == ' ' || c == '\t' || c == '\n' || c == '\r'
}

/// Removes leading and trailing blanks.
#[verifier::loop_isolation(false)]
pub fn str_trim(s: &str) -> (r: &str)
    ensures
        r@ == spec_trim(s@),
{
    let ls = s.unicode_len();
    let mut a: usize = 0;
    while a < ls && is_blank_exec(s.get_char(a))
        invariant
            0 <= a <= ls,
            first_non_blank(s@, 0) == first_non_blank(s@, a as int),
        decreases ls - a,
    {
        a += 1;
    }
    if a == ls {
        proof {
            assert(first_non_blank(s@, a as int) == s@.len());
        }
        return s.substring_char(ls, ls);
    }
    proof {
        assert(first_non_blank(s@, a as int) == a);
    }
    let mut b: usize = ls;
    proof {
        assert(s@.subrange(0, ls as int) =~= s@);
    }
    while b > a && is_blank_exec(s.get_char(b - 1))
        invariant
            a <= b <= ls,
            last_non_blank(s@.subrange(0, b as int)) == last_non_blank(s@),
            forall|j: int| b <= j < ls ==> is_blank(s@[j]),
        decreases b,
    {
        proof {
            assert(s@.subrange(0, b as int).drop_last() =~= s@.subrange(0, b - 1));
        }
        b -= 1;
    }
    proof {
        assert(b > a);
        assert(s@.subrange(0, b as int).last() == s@[b - 1]);
        assert(last_non_blank(s@.subrange(0, b as int)) == b - 1);
    }
    s.substring_char(a, b)
}

/// First index at or after `from` holding a character other than `c`, or
/// `s.len()` if there is none.
pub open spec fn first_not_char(s: Seq<char>, c: char, from: int) -> int
    decreases s.len() - from when 0 <= from <= s.len()
{
    if from >= s.len() {
        s.len() as int
    } else if s[from] == c {
        first_not_char(s, c, from + 1)
    } else {
        from
    }
}

/// Last index holding a character other than `c`, or -1 if there is none.
pub open spec fn last_not_char(s: Seq<char>, c: char) -> int
    decreases s.len()
{
    if s.len() == 0 {
        -1
    } else if s[s.len() - 1] == c {
        last_not_char(s.drop_last(), c)
    } else {
        s.len() - 1
    }
}

/// `s` with every leading and trailing copy of `c` removed.
pub open spec fn spec_trim_char(s: Seq<char>, c: char) -> Seq<char> {
    let a = first_not_char(s, c, 0);
    if a == s.len() {
        Seq::empty()
    } else {
        s.subrange(a, last_not_char(s, c) + 1)
    }
}

/// Removes every leading and trailing copy of `c`.
#[verifier::loop_isolation(false)]
pub fn str_trim_char(s: &str, c: char) -> (r: &str)
    ensures
        r@ == spec_trim_char(s@, c),
{
    let ls = s.unicode_len();
    let mut a: usize = 0;
    while a < ls && s.get_char(a) == c
        invariant
            0 <= a <= ls,
            first_not_char(s@, c, 0) == first_not_char(s@, c, a as int),
        decreases ls - a,
    {
        a += 1;
    }
    if a == ls {
        proof {
            assert(first_not_char(s@, c, a as int) == s@.len());
        }
        return s.substring_char(ls, ls);
    }
    proof {
        assert(first_not_char(s@, c, a as int) == a);
    }
    let mut b: usize = ls;
    proof {
        assert(s@.subrange(0, ls as int) =~= s@);
    }
    while b > a && s.get_char(b - 1) == c
        invariant
            a <= b <= ls,
            last_not_char(s@.subrange(0, b as int), c) == last_not_char(s@, c),
            forall|j: int| b <= j < ls ==> s@[j] == c,
        decreases b,
    {
        proof {
            assert(s@.subrange(0, b as int).drop_last() =~= s@.subrange(0, b - 1));
        }
        b -= 1;
    }
    proof {
        assert(b > a);
        assert(s@.subrange(0, b as int).last() == s@[b - 1]);
        assert(last_not_char(s@.subrange(0, b as int), c) == b - 1);
    }
    s.substring_char(a, b)
}

/// Fields of `s` between occurrences of `sep`: splitting keeps empty
/// fields, so the result always holds at least one field and rejoining the
/// fields with `sep` yields `s` back.
pub open spec fn spec_split(s: Seq<char>, sep: char) -> Seq<Seq<char>>
    decreases s.len(),
{
    if s.len() == 0 {
        seq![s]
    } else if s[0] == sep {
        seq![Seq::<char>::empty()] + spec_split(s.subrange(1, s.len() as int), sep)
    } else {
        let rest = spec_split(s.subrange(1, s.len() as int), sep);
        seq![seq![s[0]] + rest[0]] + rest.subrange(1, rest.len() as int)
    }
}

pub proof fn lemma_split_nonempty(s: Seq<char>, sep: char)
    ensures
        spec_split(s, sep).len() >= 1,
    decreases s.len(),
{
    if s.len() == 0 {
    } else if s[0] == sep {
    } else {
        lemma_split_nonempty(s.subrange(1, s.len() as int), sep);
    }
}

/// Characterizes a split by the position of the first separator: with no
/// separator the string is one field; otherwise the part before the first
/// separator is the first field and the rest splits on its own.
proof fn lemma_split_at_first_sep(s: Seq<char>, sep: char, i: int)
    requires
        0 <= i <= s.len(),
        forall|j: int| 0 <= j < i ==> s[j] != sep,
        i < s.len() ==> s[i] == sep,
    ensures
        i == s.len() ==> spec_split(s, sep) =~~= seq![s],
        i < s.len() ==> spec_split(s, sep) =~~= seq![s.subrange(0, i)] + spec_split(
            s.subrange(i + 1, s.len() as int),
            sep,
        ),
    decreases i,
{
    lemma_split_nonempty(s, sep);
    if i == 0 {
        if 0 < s.len() {
            assert(s.subrange(0, 0) =~= Seq::<char>::empty());
        }
    } else {
        let tail = s.subrange(1, s.len() as int);
        lemma_split_nonempty(tail, sep);
        lemma_split_at_first_sep(tail, sep, i - 1);
        let rest = spec_split(tail, sep);
        if i == s.len() {
            assert(tail.len() == i - 1);
            assert(rest =~~= seq![tail]);
            assert(seq![s[0]] + tail =~= s);
            assert(spec_split(s, sep) =~~= seq![s]);
        } else {
            assert(rest =~~= seq![tail.subrange(0, i - 1)] + spec_split(
                tail.subrange(i, tail.len() as int),
                sep,
            ));
            assert(seq![s[0]] + tail.subrange(0, i - 1) =~= s.subrange(0, i));
            assert(tail.subrange(i, tail.len() as int) =~= s.subrange(i + 1, s.len() as int));
            assert(spec_split(s, sep) =~~= seq![s.subrange(0, i)] + spec_split(
                s.subrange(i + 1, s.len() as int),
                sep,
            ));
        }
    }
}

/// Finds the first position at or after `from` holding the character `c`.
#[verifier::loop_isolation(false)]
pub fn find_char_from(s: &str, from: usize, c: char) -> (r: Option<usize>)
    requires
        from <= s@.len(),
    ensures
        match r {
            Some(i) => from <= i < s@.len() && s@[i as int] == c && forall|j: int|
                from <= j < i ==> s@[j] != c,
            None => forall|j: int| from <= j < s@.len() ==> s@[j] != c,
        },
{
    let ls = s.unicode_len();
    let mut i: usize = from;
    while i < ls
        invariant
            from <= i <= ls,
            forall|j: int| from <= j < i ==> s@[j] != c,
        decreases ls - i,
    {
        if s.get_char(i) == c {
            return Some(i);
        }
        i += 1;
    }
    None
}

/// Splits `s` into the fields between occurrences of `sep`.
pub fn split_char(s: &str, sep: char) -> (r: Vec<String>)
    ensures
        r.deep_view() == spec_split(s@, sep),
        r@.len() >= 1,
    decreases s@.len(),
{
    let ls = s.unicode_len();
    match find_char_from(s, 0, sep) {
        None => {
            proof {
                lemma_split_at_first_sep(s@, sep, s@.len() as int);
            }
            let mut v: Vec<String> = Vec::new();
            v.push(s.to_owned());
            proof {
                assert(v.deep_view() =~~= spec_split(s@, sep));
            }
            v
        },
        Some(i) => {
            let field = s.substring_char(0, i);
            let rest = s.substring_char(i + 1, ls);
            let mut v = split_char(rest, sep);
            v.insert(0, field.to_owned());
            proof {
                lemma_split_at_first_sep(s@, sep, i as int);
                assert(v.deep_view() =~~= spec_split(s@, sep));
            }
            v
        },
    }
}

} // verus!
