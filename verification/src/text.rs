//! Verified text helpers used by the state engine: character-level string
//! equality, extraction of the first team name from a "Home - Away" label,
//! and decimal rendering of counts for status messages.

use vstd::prelude::*;

verus! {

/// The result of `str::to_lowercase`, which depends on the characters alone.
pub uninterp spec fn lower_of(s: Seq<char>) -> Seq<char>;

/// Relies on str::to_lowercase: lowercases every character of the string;
/// the result is a function of the characters alone.
#[verifier::external_body]
pub(crate) fn lowercase(s: &str) -> (r: String)
    ensures
        r@ == lower_of(s@),
{
    s.to_lowercase()
}

/// Relies on String::push: appends one character at the end of the string.
#[verifier::external_body]
pub(crate) fn push_char(s: &mut String, c: char)
    ensures
        final(s)@ == old(s)@.push(c),
{
    s.push(c);
}

/// Relies on String::pop: removes and returns the last character, or leaves
/// an empty string as it is.
#[verifier::external_body]
pub(crate) fn pop_char(s: &mut String) -> (r: Option<char>)
    ensures
        old(s)@.len() == 0 ==> final(s)@ == old(s)@ && r is None,
        old(s)@.len() > 0 ==> final(s)@ == old(s)@.drop_last() && r == Some(old(s)@.last()),
{
    s.pop()
}

/// Character-by-character string equality.
pub fn str_eq(a: &str, b: &str) -> (r: bool)
    ensures
        r == (a@ == b@),
{
    let alen = a.unicode_len();
    let blen = b.unicode_len();
    if alen != blen {
        return false;
    }
    let mut i: usize = 0;
    while i < alen
        invariant
            0 <= i <= alen,
            alen == a@.len(),
            alen == b@.len(),
            forall|j: int| 0 <= j < i ==> a@[j] == b@[j],
        decreases alen - i,
    {
        if a.get_char(i) != b.get_char(i) {
            return false;
        }
        i += 1;
    }
    proof {
        assert(a@ =~= b@);
    }
    true
}

/// Whether the teams-label separator `" - "` stands at position `i` of `s`.
pub open spec fn sep_at(s: Seq<char>, i: int) -> bool {
    0 <= i && i + 3 <= s.len() && s.subrange(i, i + 3) == " - "@
}

/// The prefix of `s` before the first occurrence of `" - "`; all of `s` when
/// the separator does not occur.
pub open spec fn before_first_sep(s: Seq<char>) -> Seq<char>
    decreases s.len(),
{
    if s.len() < 3 {
        s
    } else if s.subrange(0, 3) == " - "@ {
        Seq::empty()
    } else {
        seq![s[0]] + before_first_sep(s.skip(1))
    }
}

/// A character the trim and tokenize steps treat as whitespace: the
/// characters with Unicode's White_Space property.
pub open spec fn is_blank(c: char) -> bool {
    ||| c == '\u{0009}' || c == '\u{000A}' || c == '\u{000B}' || c == '\u{000C}' || c
        == '\u{000D}' || c == ' '
    ||| c == '\u{0085}' || c == '\u{00A0}' || c == '\u{1680}'
    ||| '\u{2000}' <= c && c <= '\u{200A}'
    ||| c == '\u{2028}' || c == '\u{2029}' || c == '\u{202F}' || c == '\u{205F}' || c
        == '\u{3000}'
}

/// `s` without leading blank characters.
pub open spec fn trim_start_spec(s: Seq<char>) -> Seq<char>
    decreases s.len(),
{
    if s.len() > 0 && is_blank(s[0]) {
        trim_start_spec(s.skip(1))
    } else {
        s
    }
}

/// `s` without trailing blank characters.
pub open spec fn trim_end_spec(s: Seq<char>) -> Seq<char>
    decreases s.len(),
{
    if s.len() > 0 && is_blank(s[s.len() - 1]) {
        trim_end_spec(s.drop_last())
    } else {
        s
    }
}

/// `s` without blank characters at either end.
pub open spec fn trim_spec(s: Seq<char>) -> Seq<char> {
    trim_end_spec(trim_start_spec(s))
}

/// The team a selection resolves to: the part of the label before the first
/// `" - "` (the whole label when the separator is absent), trimmed.
pub open spec fn first_team_spec(s: Seq<char>) -> Seq<char> {
    trim_spec(before_first_sep(s))
}

proof fn lemma_before_first_sep_hit(s: Seq<char>, i: int)
    requires
        sep_at(s, i),
        forall|j: int| 0 <= j < i ==> !sep_at(s, j),
    ensures
        before_first_sep(s) == s.take(i),
    decreases i,
{
    if i == 0 {
        assert(s.subrange(0, 3) == " - "@);
        assert(before_first_sep(s) =~= s.take(0));
    } else {
        assert(!sep_at(s, 0));
        assert(s.len() >= i + 3);
        assert(s.subrange(0, 3) != " - "@);
        let t = s.skip(1);
        assert(t.subrange(i - 1, i + 2) =~= s.subrange(i, i + 3));
        assert(sep_at(t, i - 1));
        assert forall|j: int| 0 <= j < i - 1 implies !sep_at(t, j) by {
            assert(t.subrange(j, j + 3) =~= s.subrange(j + 1, j + 4));
            assert(!sep_at(s, j + 1));
        }
        lemma_before_first_sep_hit(t, i - 1);
        assert(seq![s[0]] + t.take(i - 1) =~= s.take(i));
    }
}

proof fn lemma_before_first_sep_miss(s: Seq<char>)
    requires
        forall|j: int| !sep_at(s, j),
    ensures
        before_first_sep(s) == s,
    decreases s.len(),
{
    if s.len() < 3 {
    } else {
        assert(!sep_at(s, 0));
        assert(s.subrange(0, 3) != " - "@);
        let t = s.skip(1);
        assert forall|j: int| !sep_at(t, j) by {
            if 0 <= j && j + 3 <= t.len() {
                assert(t.subrange(j, j + 3) =~= s.subrange(j + 1, j + 4));
                assert(!sep_at(s, j + 1));
            }
        }
        lemma_before_first_sep_miss(t);
        assert(seq![s[0]] + t =~= s);
    }
}

/// Whether `" - "` stands at position `i` of `s`, decided executably.
fn sep_at_exec(s: &str, i: usize) -> (r: bool)
    requires
        i < s@.len(),
    ensures
        r == sep_at(s@, i as int),
{
    proof {
        reveal_strlit(" - ");
    }
    let len = s.unicode_len();
    if len - i < 3 {
        return false;
    }
    let r = s.get_char(i) == ' ' && s.get_char(i + 1) == '-' && s.get_char(i + 2) == ' ';
    proof {
        let sub = s@.subrange(i as int, i as int + 3);
        assert(sub.len() == 3);
        assert(sub[0] == s@[i as int] && sub[1] == s@[i as int + 1] && sub[2] == s@[
            i as int + 2
        ]);
        if r {
            assert(sub =~= " - "@);
        } else {
            assert(sub != " - "@);
        }
    }
    r
}

/// The prefix of `s` before the first `" - "`, or all of `s` when the
/// separator does not occur.
fn split_before_sep<'a>(s: &'a str) -> (r: &'a str)
    ensures
        r@ == before_first_sep(s@),
{
    let len = s.unicode_len();
    let mut i: usize = 0;
    while i < len
        invariant
            0 <= i <= len,
            len == s@.len(),
            forall|j: int| 0 <= j < i ==> !sep_at(s@, j),
        decreases len - i,
    {
        if sep_at_exec(s, i) {
            proof {
                lemma_before_first_sep_hit(s@, i as int);
            }
            return s.substring_char(0, i);
        }
        i += 1;
    }
    proof {
        assert forall|j: int| !sep_at(s@, j) by {
            if 0 <= j && j + 3 <= s@.len() {
                assert(!sep_at(s@, j));
            }
        }
        lemma_before_first_sep_miss(s@);
    }
    s
}

fn is_blank_exec(c: char) -> (r: bool)
    ensures
        r == is_blank(c),
{
    (c == '\u{0009}' || c == '\u{000A}' || c == '\u{000B}' || c == '\u{000C}' || c
        == '\u{000D}' || c == ' ') || (c == '\u{0085}' || c == '\u{00A0}' || c == '\u{1680}')
        || ('\u{2000}' <= c && c <= '\u{200A}') || (c == '\u{2028}' || c == '\u{2029}' || c
        == '\u{202F}' || c == '\u{205F}' || c == '\u{3000}')
}

proof fn lemma_trim_start_skip(s: Seq<char>, a: int)
    requires
        0 <= a <= s.len(),
        forall|j: int| 0 <= j < a ==> is_blank(s[j]),
        a < s.len() ==> !is_blank(s[a]),
    ensures
        trim_start_spec(s) == s.skip(a),
    decreases a,
{
    if a == 0 {
        if s.len() > 0 {
            assert(!is_blank(s[0]));
        }
        assert(s.skip(0) =~= s);
    } else {
        assert(is_blank(s[0]));
        let t = s.skip(1);
        assert forall|j: int| 0 <= j < a - 1 implies is_blank(t[j]) by {
            assert(t[j] == s[j + 1]);
        }
        if a - 1 < t.len() {
            assert(t[a - 1] == s[a]);
        }
        lemma_trim_start_skip(t, a - 1);
        assert(t.skip(a - 1) =~= s.skip(a));
    }
}

proof fn lemma_trim_end_take(s: Seq<char>, b: int)
    requires
        0 <= b <= s.len(),
        forall|j: int| b <= j < s.len() ==> is_blank(s[j]),
        b > 0 ==> !is_blank(s[b - 1]),
    ensures
        trim_end_spec(s) == s.take(b),
    decreases s.len() - b,
{
    if b == s.len() {
        if s.len() > 0 {
            assert(!is_blank(s[s.len() - 1]));
        }
        assert(s.take(b) =~= s);
    } else {
        assert(is_blank(s[s.len() - 1]));
        let t = s.drop_last();
        assert forall|j: int| b <= j < t.len() implies is_blank(t[j]) by {
            assert(t[j] == s[j]);
        }
        if b > 0 {
            assert(t[b - 1] == s[b - 1]);
        }
        lemma_trim_end_take(t, b);
        assert(t.take(b) =~= s.take(b));
    }
}

/// `s` without blank characters at either end.
pub fn trim_str<'a>(s: &'a str) -> (r: &'a str)
    ensures
        r@ == trim_spec(s@),
{
    let len = s.unicode_len();
    let mut a: usize = 0;
    while a < len && is_blank_exec(s.get_char(a))
        invariant
            0 <= a <= len,
            len == s@.len(),
            forall|j: int| 0 <= j < a ==> is_blank(s@[j]),
        decreases len - a,
    {
        a += 1;
    }
    proof {
        lemma_trim_start_skip(s@, a as int);
    }
    let mut b: usize = len;
    while b > a && is_blank_exec(s.get_char(b - 1))
        invariant
            a <= b <= len,
            len == s@.len(),
            forall|j: int| b <= j < len ==> is_blank(s@[j]),
        decreases b,
    {
        b -= 1;
    }
    let r = s.substring_char(a, b);
    proof {
        let t = s@.skip(a as int);
        assert forall|j: int| (b - a) <= j < t.len() implies is_blank(t[j]) by {
            assert(t[j] == s@[j + a]);
        }
        if b > a {
            assert(t[b - a - 1] == s@[b - 1]);
        } else {
            // the start scan stopped at `a`, so either the string ended or
            // the character there is not blank; with b == a the end scan
            // never moved, meaning everything from a on is blank, which
            // forces a == len
            if a < len {
                assert(!is_blank(s@[a as int]));
                assert(is_blank(s@[a as int]));
            }
        }
        lemma_trim_end_take(t, b - a);
        assert(t.take(b - a) =~= s@.subrange(a as int, b as int));
    }
    r
}

/// Extracts the first team name from a "Home - Away" teams label: the part
/// before the first `" - "` (the whole label when no separator occurs),
/// trimmed of surrounding blanks.
pub fn first_team_of(teams: &str) -> (r: String)
    ensures
        r@ == first_team_spec(teams@),
{
    trim_str(split_before_sep(teams)).to_owned()
}

/// The whitespace-separated tokens of `s`, given the token read so far.
pub open spec fn tokens_acc(s: Seq<char>, cur: Seq<char>) -> Seq<Seq<char>>
    decreases s.len(),
{
    if s.len() == 0 {
        if cur.len() > 0 {
            seq![cur]
        } else {
            Seq::empty()
        }
    } else if is_blank(s[0]) {
        if cur.len() > 0 {
            seq![cur] + tokens_acc(s.skip(1), Seq::empty())
        } else {
            tokens_acc(s.skip(1), Seq::empty())
        }
    } else {
        tokens_acc(s.skip(1), cur.push(s[0]))
    }
}

/// The whitespace-separated tokens of `s`, in order.
pub open spec fn tokens_of(s: Seq<char>) -> Seq<Seq<char>> {
    tokens_acc(s, Seq::empty())
}

/// The views of a list of strings.
pub open spec fn strings_view(v: Seq<String>) -> Seq<Seq<char>> {
    Seq::new(v.len(), |i: int| v[i]@)
}

/// Splits `s` at blank characters into its non-empty tokens.
pub fn tokens(s: &str) -> (r: Vec<String>)
    ensures
        strings_view(r@) == tokens_of(s@),
{
    let len = s.unicode_len();
    let mut out: Vec<String> = Vec::new();
    let mut cur = String::new();
    let mut i: usize = 0;
    proof {
        assert(s@.skip(0) =~= s@);
        assert(strings_view(out@) + tokens_acc(s@, cur@) =~= tokens_of(s@));
    }
    while i < len
        invariant
            0 <= i <= len,
            len == s@.len(),
            tokens_of(s@) == strings_view(out@) + tokens_acc(s@.skip(i as int), cur@),
        decreases len - i,
    {
        let ghost prev_out = out@;
        let ghost prev_cur = cur@;
        let ghost t = s@.skip(i as int);
        let c = s.get_char(i);
        proof {
            assert(t.len() > 0);
            assert(t[0] == c);
            assert(t.skip(1) =~= s@.skip(i as int + 1));
        }
        if is_blank_exec(c) {
            if !cur.as_str().is_empty() {
                out.push(cur);
                cur = String::new();
                proof {
                    assert(tokens_acc(t, prev_cur) == seq![prev_cur] + tokens_acc(
                        t.skip(1),
                        Seq::empty(),
                    ));
                    assert(strings_view(out@) =~= strings_view(prev_out) + seq![prev_cur]);
                    assert(strings_view(prev_out) + tokens_acc(t, prev_cur) =~= strings_view(out@)
                        + tokens_acc(t.skip(1), cur@));
                }
            } else {
                proof {
                    assert(prev_cur =~= Seq::<char>::empty());
                    assert(tokens_acc(t, prev_cur) == tokens_acc(t.skip(1), Seq::empty()));
                }
            }
        } else {
            push_char(&mut cur, c);
            proof {
                assert(tokens_acc(t, prev_cur) == tokens_acc(t.skip(1), prev_cur.push(c)));
            }
        }
        i += 1;
    }
    proof {
        assert(s@.skip(len as int) =~= Seq::<char>::empty());
    }
    if !cur.as_str().is_empty() {
        let ghost prev_out = out@;
        let ghost prev_cur = cur@;
        out.push(cur);
        proof {
            assert(tokens_acc(Seq::<char>::empty(), prev_cur) == seq![prev_cur]);
            assert(strings_view(out@) =~= strings_view(prev_out) + seq![prev_cur]);
            assert(strings_view(out@) =~= tokens_of(s@));
        }
    } else {
        proof {
            assert(tokens_acc(Seq::<char>::empty(), cur@) =~= Seq::<Seq<char>>::empty());
            assert(strings_view(out@) =~= tokens_of(s@));
        }
    }
    out
}

/// The decimal digit `d` as a character.
pub open spec fn digit_char(d: int) -> char {
    if d == 0 {
        '0'
    } else if d == 1 {
        '1'
    } else if d == 2 {
        '2'
    } else if d == 3 {
        '3'
    } else if d == 4 {
        '4'
    } else if d == 5 {
        '5'
    } else if d == 6 {
        '6'
    } else if d == 7 {
        '7'
    } else if d == 8 {
        '8'
    } else {
        '9'
    }
}

/// The usual decimal rendering of `n`, without sign or padding.
pub open spec fn dec_str(n: int) -> Seq<char>
    decreases n,
{
    if n < 10 {
        seq![digit_char(n)]
    } else {
        dec_str(n / 10).push(digit_char(n % 10))
    }
}

fn digit_char_of(d: usize) -> (c: char)
    requires
        d < 10,
    ensures
        c == digit_char(d as int),
{
    match d {
        0 => '0',
        1 => '1',
        2 => '2',
        3 => '3',
        4 => '4',
        5 => '5',
        6 => '6',
        7 => '7',
        8 => '8',
        _ => '9',
    }
}

fn push_decimal(s: &mut String, n: usize)
    ensures
        final(s)@ == old(s)@ + dec_str(n as int),
    decreases n,
{
    if n >= 10 {
        push_decimal(s, n / 10);
    }
    push_char(s, digit_char_of(n % 10));
    proof {
        if n >= 10 {
            assert(old(s)@ + dec_str(n as int / 10) + seq![digit_char(n as int % 10)] =~= old(
                s,
            )@ + dec_str(n as int));
        } else {
            assert(old(s)@ + seq![digit_char(n as int)] =~= old(s)@ + dec_str(n as int));
        }
    }
}

/// Renders `n` in decimal.
pub fn usize_to_string(n: usize) -> (r: String)
    ensures
        r@ == dec_str(n as int),
{
    let mut s = String::new();
    push_decimal(&mut s, n);
    proof {
        assert(Seq::<char>::empty() + dec_str(n as int) =~= dec_str(n as int));
    }
    s
}

} // verus!
