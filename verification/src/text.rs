//! Character-level text models and verified scanning primitives: whitespace
//! classification, tokenization on whitespace runs, joining with single
//! spaces, trimming, locating the first colon, and decimal parsing.

use vstd::prelude::*;
use vstd::string::*;

verus! {

/// The characters treated as whitespace when a raw line is tokenized:
/// the set `char::is_whitespace` accepts.
pub open spec fn is_ws(c: char) -> bool {
    c == ' ' || c == '\t' || c == '\n' || c == '\r' || c == '\u{b}' || c == '\u{c}'
        || c == '\u{85}' || c == '\u{a0}' || c == '\u{1680}'
        || (0x2000 <= c as u32 && c as u32 <= 0x200a)
        || c == '\u{2028}' || c == '\u{2029}' || c == '\u{202f}' || c == '\u{205f}'
        || c == '\u{3000}'
}

/// Executable whitespace test matching `is_ws`.
pub fn is_whitespace_char(c: char) -> (r: bool)
    ensures
        r == is_ws(c),
{
    c == ' ' || c == '\t' || c == '\n' || c == '\r' || c == '\u{b}' || c == '\u{c}'
        || c == '\u{85}' || c == '\u{a0}' || c == '\u{1680}'
        || (c >= '\u{2000}' && c <= '\u{200a}')
        || c == '\u{2028}' || c == '\u{2029}' || c == '\u{202f}' || c == '\u{205f}'
        || c == '\u{3000}'
}

/// Length of the maximal non-whitespace prefix of `s`: where the first token ends.
pub open spec fn tok_len(s: Seq<char>) -> nat
    decreases s.len(),
{
    if s.len() > 0 && !is_ws(s[0]) {
        (1 + tok_len(s.drop_first())) as nat
    } else {
        0
    }
}

/// A scan that stops at the first whitespace character (or the end) has
/// found exactly the first token's length.
pub proof fn lemma_tok_len_at(s: Seq<char>, i: int)
    requires
        0 <= i <= s.len(),
        forall|j: int| 0 <= j < i ==> !is_ws(s[j]),
        i == s.len() || is_ws(s[i]),
    ensures
        tok_len(s) == i,
    decreases i,
{
    if i == 0 {
    } else {
        lemma_tok_len_at(s.drop_first(), i - 1);
    }
}

/// The first token never extends past the end of the text.
pub proof fn lemma_tok_len_le(s: Seq<char>)
    ensures
        tok_len(s) <= s.len(),
    decreases s.len(),
{
    if s.len() > 0 && !is_ws(s[0]) {
        lemma_tok_len_le(s.drop_first());
    }
}

/// The whitespace-separated tokens of `s`, in order: what splitting on runs
/// of whitespace yields.
pub open spec fn split_ws(s: Seq<char>) -> Seq<Seq<char>>
    decreases s.len(),
    via split_ws_decreases
{
    if s.len() == 0 {
        Seq::empty()
    } else if is_ws(s[0]) {
        split_ws(s.drop_first())
    } else {
        seq![s.subrange(0, tok_len(s) as int)] + split_ws(
            s.subrange(tok_len(s) as int, s.len() as int),
        )
    }
}

#[via_fn]
proof fn split_ws_decreases(s: Seq<char>) {
    lemma_tok_len_le(s);
}

/// The views of a sequence of owned strings.
pub open spec fn views_of(ts: Seq<String>) -> Seq<Seq<char>> {
    ts.map_values(|t: String| t@)
}

/// Splits `s` into its whitespace-separated tokens.
pub fn tokenize(s: &str) -> (toks: Vec<String>)
    ensures
        views_of(toks@) == split_ws(s@),
    decreases s@.len(),
{
    let n = s.unicode_len();
    if n == 0 {
        let toks: Vec<String> = Vec::new();
        proof {
            assert(views_of(toks@) =~= split_ws(s@));
        }
        toks
    } else if is_whitespace_char(s.get_char(0)) {
        let rest = s.substring_char(1, n);
        proof {
            assert(rest@ =~= s@.drop_first());
        }
        tokenize(rest)
    } else {
        let mut k: usize = 1;
        while k < n && !is_whitespace_char(s.get_char(k))
            invariant
                1 <= k <= n,
                n == s@.len(),
                forall|j: int| 0 <= j < k ==> !is_ws(s@[j]),
            decreases n - k,
        {
            k = k + 1;
        }
        proof {
            lemma_tok_len_at(s@, k as int);
        }
        let tok = s.substring_char(0, k).to_owned();
        let rest = s.substring_char(k, n);
        let mut toks = tokenize(rest);
        toks.insert(0, tok);
        proof {
            assert(views_of(toks@) =~= split_ws(s@));
        }
        toks
    }
}

/// The tokens of `ts`, joined with single spaces.
pub open spec fn join_sp(ts: Seq<Seq<char>>) -> Seq<char>
    decreases ts.len(),
{
    if ts.len() == 0 {
        Seq::empty()
    } else if ts.len() == 1 {
        ts[0]
    } else {
        join_sp(ts.drop_last()) + seq![' '] + ts.last()
    }
}

/// Joins the tokens of `toks` from index `from` on with single spaces.
pub fn join_tokens(toks: &Vec<String>, from: usize) -> (r: String)
    requires
        from <= toks@.len(),
    ensures
        r@ == join_sp(views_of(toks@).subrange(from as int, toks@.len() as int)),
{
    let ghost all = views_of(toks@);
    let n = toks.len();
    let mut r = String::new();
    let mut i: usize = from;
    while i < n
        invariant
            from <= i <= n,
            n == toks@.len(),
            all == views_of(toks@),
            r@ == join_sp(all.subrange(from as int, i as int)),
        decreases n - i,
    {
        if i > from {
            r.append(" ");
        }
        r.append(toks[i].as_str());
        proof {
            let prev = all.subrange(from as int, i as int);
            let now = all.subrange(from as int, i + 1);
            assert(now.drop_last() =~= prev);
            if i > from {
                reveal_strlit(" ");
                assert(r@ =~= join_sp(prev) + seq![' '] + all[i as int]);
            } else {
                assert(r@ =~= all[i as int]);
            }
        }
        i = i + 1;
    }
    proof {
        if from == n {
            assert(r@ =~= join_sp(all.subrange(from as int, n as int)));
        }
    }
    r
}

/// Index of the first colon in `s`, or `s.len()` when there is none.
pub open spec fn colon_pos(s: Seq<char>) -> nat
    decreases s.len(),
{
    if s.len() == 0 {
        0
    } else if s[0] == ':' {
        0
    } else {
        (1 + colon_pos(s.drop_first())) as nat
    }
}

/// A scan that stops at the first colon (or the end) has found `colon_pos`.
pub proof fn lemma_colon_pos_at(s: Seq<char>, i: int)
    requires
        0 <= i <= s.len(),
        forall|j: int| 0 <= j < i ==> s[j] != ':',
        i == s.len() || s[i] == ':',
    ensures
        colon_pos(s) == i,
    decreases i,
{
    if i > 0 {
        lemma_colon_pos_at(s.drop_first(), i - 1);
    }
}

/// Finds the position of the first colon in `s`, or `s@.len()` when none occurs.
pub fn find_colon(s: &str) -> (i: usize)
    ensures
        i == colon_pos(s@),
        i <= s@.len(),
{
    let n = s.unicode_len();
    let mut i: usize = 0;
    while i < n && s.get_char(i) != ':'
        invariant
            0 <= i <= n,
            n == s@.len(),
            forall|j: int| 0 <= j < i ==> s@[j] != ':',
        decreases n - i,
    {
        i = i + 1;
    }
    proof {
        lemma_colon_pos_at(s@, i as int);
    }
    i
}

/// `s` with its leading whitespace removed.
pub open spec fn trim_start_ws(s: Seq<char>) -> Seq<char>
    decreases s.len(),
{
    if s.len() > 0 && is_ws(s[0]) {
        trim_start_ws(s.drop_first())
    } else {
        s
    }
}

/// `s` with its trailing whitespace removed.
pub open spec fn trim_end_ws(s: Seq<char>) -> Seq<char>
    decreases s.len(),
{
    if s.len() > 0 && is_ws(s.last()) {
        trim_end_ws(s.drop_last())
    } else {
        s
    }
}

/// `s` with leading and trailing whitespace removed: what `str::trim` keeps.
pub open spec fn trim_ws(s: Seq<char>) -> Seq<char> {
    trim_end_ws(trim_start_ws(s))
}

/// A scan from the left that stops at the first non-whitespace character
/// (or the end) has found where the trimmed text starts.
pub proof fn lemma_trim_start_ws_at(s: Seq<char>, i: int)
    requires
        0 <= i <= s.len(),
        forall|j: int| 0 <= j < i ==> is_ws(s[j]),
        i == s.len() || !is_ws(s[i]),
    ensures
        trim_start_ws(s) == s.subrange(i, s.len() as int),
    decreases i,
{
    if i == 0 {
        assert(s.subrange(0, s.len() as int) =~= s);
    } else {
        lemma_trim_start_ws_at(s.drop_first(), i - 1);
        assert(s.drop_first().subrange(i - 1, s.drop_first().len() as int) =~= s.subrange(
            i,
            s.len() as int,
        ));
    }
}

/// A scan from the right that stops at the first non-whitespace character
/// (or the start) has found where the trimmed text ends.
pub proof fn lemma_trim_end_ws_at(s: Seq<char>, i: int)
    requires
        0 <= i <= s.len(),
        forall|j: int| i <= j < s.len() ==> is_ws(s[j]),
        i == 0 || !is_ws(s[i - 1]),
    ensures
        trim_end_ws(s) == s.subrange(0, i),
    decreases s.len() - i,
{
    if i == s.len() {
        assert(s.subrange(0, s.len() as int) =~= s);
    } else {
        lemma_trim_end_ws_at(s.drop_last(), i);
        assert(s.drop_last().subrange(0, i) =~= s.subrange(0, i));
    }
}

/// Copies `s` with leading and trailing whitespace removed.
pub fn trim_ws_str(s: &str) -> (r: String)
    ensures
        r@ == trim_ws(s@),
{
    let n = s.unicode_len();
    let mut i: usize = 0;
    while i < n && is_whitespace_char(s.get_char(i))
        invariant
            0 <= i <= n,
            n == s@.len(),
            forall|j: int| 0 <= j < i ==> is_ws(s@[j]),
        decreases n - i,
    {
        i = i + 1;
    }
    let mut j: usize = n;
    while j > i && is_whitespace_char(s.get_char(j - 1))
        invariant
            i <= j <= n,
            n == s@.len(),
            forall|m: int| j <= m < n ==> is_ws(s@[m]),
        decreases j,
    {
        j = j - 1;
    }
    proof {
        lemma_trim_start_ws_at(s@, i as int);
        let t = s@.subrange(i as int, n as int);
        lemma_trim_end_ws_at(t, j - i);
        assert(t.subrange(0, j - i) =~= s@.subrange(i as int, j as int));
    }
    s.substring_char(i, j).to_owned()
}

/// `s` with its leading NUL bytes removed.
pub open spec fn trim_start_nul(s: Seq<char>) -> Seq<char>
    decreases s.len(),
{
    if s.len() > 0 && s[0] == '\u{0}' {
        trim_start_nul(s.drop_first())
    } else {
        s
    }
}

/// `s` with its trailing NUL bytes removed.
pub open spec fn trim_end_nul(s: Seq<char>) -> Seq<char>
    decreases s.len(),
{
    if s.len() > 0 && s.last() == '\u{0}' {
        trim_end_nul(s.drop_last())
    } else {
        s
    }
}

/// `s` with leading and trailing NULs removed: what `str::trim_matches('\0')` keeps.
pub open spec fn trim_nul(s: Seq<char>) -> Seq<char> {
    trim_end_nul(trim_start_nul(s))
}

/// A scan from the left that stops at the first non-NUL character has found
/// where the NUL-trimmed text starts.
pub proof fn lemma_trim_start_nul_at(s: Seq<char>, i: int)
    requires
        0 <= i <= s.len(),
        forall|j: int| 0 <= j < i ==> s[j] == '\u{0}',
        i == s.len() || s[i] != '\u{0}',
    ensures
        trim_start_nul(s) == s.subrange(i, s.len() as int),
    decreases i,
{
    if i == 0 {
        assert(s.subrange(0, s.len() as int) =~= s);
    } else {
        lemma_trim_start_nul_at(s.drop_first(), i - 1);
        assert(s.drop_first().subrange(i - 1, s.drop_first().len() as int) =~= s.subrange(
            i,
            s.len() as int,
        ));
    }
}

/// A scan from the right that stops at the first non-NUL character has found
/// where the NUL-trimmed text ends.
pub proof fn lemma_trim_end_nul_at(s: Seq<char>, i: int)
    requires
        0 <= i <= s.len(),
        forall|j: int| i <= j < s.len() ==> s[j] == '\u{0}',
        i == 0 || s[i - 1] != '\u{0}',
    ensures
        trim_end_nul(s) == s.subrange(0, i),
    decreases s.len() - i,
{
    if i == s.len() {
        assert(s.subrange(0, s.len() as int) =~= s);
    } else {
        lemma_trim_end_nul_at(s.drop_last(), i);
        assert(s.drop_last().subrange(0, i) =~= s.subrange(0, i));
    }
}

/// Copies `s` with leading and trailing NULs removed.
pub fn trim_nul_str(s: &str) -> (r: String)
    ensures
        r@ == trim_nul(s@),
{
    let n = s.unicode_len();
    let mut i: usize = 0;
    while i < n && s.get_char(i) == '\u{0}'
        invariant
            0 <= i <= n,
            n == s@.len(),
            forall|j: int| 0 <= j < i ==> s@[j] == '\u{0}',
        decreases n - i,
    {
        i = i + 1;
    }
    let mut j: usize = n;
    while j > i && s.get_char(j - 1) == '\u{0}'
        invariant
            i <= j <= n,
            n == s@.len(),
            forall|m: int| j <= m < n ==> s@[m] == '\u{0}',
        decreases j,
    {
        j = j - 1;
    }
    proof {
        lemma_trim_start_nul_at(s@, i as int);
        let t = s@.subrange(i as int, n as int);
        lemma_trim_end_nul_at(t, j - i);
        assert(t.subrange(0, j - i) =~= s@.subrange(i as int, j as int));
    }
    s.substring_char(i, j).to_owned()
}

/// Whether two string slices hold the same characters.
pub fn str_eq(a: &str, b: &str) -> (r: bool)
    ensures
        r == (a@ == b@),
{
    let na = a.unicode_len();
    let nb = b.unicode_len();
    if na != nb {
        return false;
    }
    let mut i: usize = 0;
    while i < na
        invariant
            0 <= i <= na,
            na == a@.len(),
            na == b@.len(),
            forall|j: int| 0 <= j < i ==> a@[j] == b@[j],
        decreases na - i,
    {
        if a.get_char(i) != b.get_char(i) {
            return false;
        }
        i = i + 1;
    }
    proof {
        assert(a@ =~= b@);
    }
    true
}

/// Whether `c` is a decimal digit.
pub open spec fn is_digit(c: char) -> bool {
    48 <= c as u32 && c as u32 <= 57
}

/// The numeric value of the decimal digit string `s`.
pub open spec fn digits_val(s: Seq<char>) -> nat
    decreases s.len(),
{
    if s.len() == 0 {
        0
    } else {
        digits_val(s.drop_last()) * 10 + (s.last() as u32 - 48) as nat
    }
}

/// `s` without an optional leading `+` sign.
pub open spec fn sign_stripped(s: Seq<char>) -> Seq<char> {
    if s.len() > 0 && s[0] == '+' {
        s.drop_first()
    } else {
        s
    }
}

/// What `str::parse::<u32>` returns on `s`: the digits' value when `s` is an
/// optional `+` sign followed by at least one digit and the value fits in
/// `u32`, and nothing otherwise.
pub open spec fn u32_of_text(s: Seq<char>) -> Option<u32> {
    let body = sign_stripped(s);
    if body.len() > 0 && (forall|j: int| 0 <= j < body.len() ==> is_digit(body[j])) && digits_val(
        body,
    ) <= u32::MAX {
        Some(digits_val(body) as u32)
    } else {
        None
    }
}

/// A longer digit string never has a smaller value than its prefix.
proof fn lemma_digits_val_prefix_le(s: Seq<char>, i: int)
    requires
        0 <= i <= s.len(),
    ensures
        digits_val(s.subrange(0, i)) <= digits_val(s),
    decreases s.len() - i,
{
    if i == s.len() {
        assert(s.subrange(0, i) =~= s);
    } else {
        lemma_digits_val_prefix_le(s.drop_last(), i);
        assert(s.drop_last().subrange(0, i) =~= s.subrange(0, i));
    }
}

/// Parses a non-negative decimal integer as `str::parse::<u32>` does.
pub fn parse_u32(s: &str) -> (r: Option<u32>)
    ensures
        r == u32_of_text(s@),
{
    let n = s.unicode_len();
    let start: usize = if n > 0 && s.get_char(0) == '+' {
        1
    } else {
        0
    };
    let ghost body = sign_stripped(s@);
    proof {
        assert(body =~= s@.subrange(start as int, n as int));
    }
    if start == n {
        return None;
    }
    let mut acc: u32 = 0;
    let mut i: usize = start;
    while i < n
        invariant
            start <= i <= n,
            n == s@.len(),
            start == 1 ==> s@.len() > 0 && s@[0] == '+',
            start == 0 ==> s@.len() == 0 || s@[0] != '+',
            body == s@.subrange(start as int, n as int),
            body == sign_stripped(s@),
            forall|j: int| start <= j < i ==> is_digit(s@[j]),
            acc == digits_val(body.subrange(0, i - start)),
        decreases n - i,
    {
        let c = s.get_char(i);
        let u = c as u32;
        if u < 48 || u > 57 {
            proof {
                assert(!is_digit(body[i - start]));
            }
            return None;
        }
        let d: u32 = u - 48;
        if acc > (u32::MAX - d) / 10 {
            proof {
                let pre = body.subrange(0, i + 1 - start);
                assert(pre.drop_last() =~= body.subrange(0, i - start));
                assert(digits_val(pre) == acc * 10 + d);
                lemma_digits_val_prefix_le(body, i + 1 - start);
                assert(digits_val(body) > u32::MAX);
            }
            return None;
        }
        acc = acc * 10 + d;
        proof {
            let pre = body.subrange(0, i + 1 - start);
            assert(pre.drop_last() =~= body.subrange(0, i - start));
        }
        i = i + 1;
    }
    proof {
        assert(body.subrange(0, n - start) =~= body);
        assert forall|j: int| 0 <= j < body.len() implies is_digit(body[j]) by {
            assert(body[j] == s@[j + start]);
        }
    }
    Some(acc)
}

} // verus!
