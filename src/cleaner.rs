use crate::error::Result;
use crate::text::{chars_of, string_of};
use vstd::prelude::*;

verus! {

// Character classes. Word characters are the Unicode word characters of
// the `\w` class; white space is the Unicode `White_Space` set; digits are
// ASCII digits, the only digits a JSON number holds.

pub open spec fn is_control(c: char) -> bool {
    (c as u32) < 0x20 || (c as u32) == 0x7F
}

/// Whether a character is a Unicode word character (UTS#18 Annex C:
/// `Alphabetic`, `Join_Control`, `Decimal_Number`, `Mark` or
/// `Connector_Punctuation`).
pub uninterp spec fn unicode_word_char(c: char) -> bool;

/// ASCII letters, digits and `_`: the ASCII word characters.
pub open spec fn is_ascii_word(c: char) -> bool {
    let u = c as u32;
    (0x61 <= u && u <= 0x7A) || (0x41 <= u && u <= 0x5A) || (0x30 <= u && u <= 0x39) || u == 0x5F
}

/// A word character: among ASCII exactly the ASCII word characters.
pub open spec fn is_word(c: char) -> bool {
    if (c as u32) < 0x80 {
        is_ascii_word(c)
    } else {
        unicode_word_char(c)
    }
}

pub open spec fn is_digit(c: char) -> bool {
    0x30 <= (c as u32) && (c as u32) <= 0x39
}

pub open spec fn is_space(c: char) -> bool {
    let u = c as u32;
    (0x09 <= u && u <= 0x0D) || u == 0x20 || u == 0x85 || u == 0xA0 || u == 0x1680 || (0x2000
        <= u && u <= 0x200A) || u == 0x2028 || u == 0x2029 || u == 0x202F || u == 0x205F || u
        == 0x3000
}

pub open spec fn is_sign(c: char) -> bool {
    c == '+' || c == '-'
}

/// `c` is the letter given in lower and upper case, in either case.
pub open spec fn is_letter(c: char, lower: char, upper: char) -> bool {
    c == lower || c == upper
}

// Step 1: control characters.

/// `t` without its control characters (0x00 to 0x1F and 0x7F).
pub open spec fn strip_controls(t: Seq<char>) -> Seq<char>
    decreases t.len(),
{
    if t.len() == 0 {
        t
    } else {
        let rest = strip_controls(t.drop_last());
        if is_control(t.last()) {
            rest
        } else {
            rest.push(t.last())
        }
    }
}

// Steps 2 and 3: the tokens `nan`, `inf` and `infinity`.

/// No word character stands right before position `i`.
pub open spec fn word_starts(t: Seq<char>, i: int) -> bool {
    i <= 0 || !is_word(t[i - 1])
}

/// No word character stands at position `j`.
pub open spec fn word_ends(t: Seq<char>, j: int) -> bool {
    j >= t.len() || !is_word(t[j])
}

pub open spec fn at_nan(t: Seq<char>, j: int) -> bool {
    0 <= j && j + 3 <= t.len() && is_letter(t[j], 'n', 'N') && is_letter(t[j + 1], 'a', 'A')
        && is_letter(t[j + 2], 'n', 'N')
}

pub open spec fn at_inf(t: Seq<char>, j: int) -> bool {
    0 <= j && j + 3 <= t.len() && is_letter(t[j], 'i', 'I') && is_letter(t[j + 1], 'n', 'N')
        && is_letter(t[j + 2], 'f', 'F')
}

pub open spec fn at_infinity(t: Seq<char>, j: int) -> bool {
    at_inf(t, j) && j + 8 <= t.len() && is_letter(t[j + 3], 'i', 'I') && is_letter(
        t[j + 4],
        'n',
        'N',
    ) && is_letter(t[j + 5], 'i', 'I') && is_letter(t[j + 6], 't', 'T') && is_letter(
        t[j + 7],
        'y',
        'Y',
    )
}

/// The length of the unsigned token at `j` that is not followed by a word
/// character: `nan` when `infinity` is false, else `inf` or (where `inf` is
/// followed by more letters) `infinity`. Zero where there is none.
pub open spec fn token_len(t: Seq<char>, j: int, infinity: bool) -> int {
    if !infinity {
        if at_nan(t, j) && word_ends(t, j + 3) {
            3
        } else {
            0
        }
    } else if at_inf(t, j) && word_ends(t, j + 3) {
        3
    } else if at_infinity(t, j) && word_ends(t, j + 8) {
        8
    } else {
        0
    }
}

/// The length of the optionally signed token that starts at `i`, with no
/// word character before it; zero where none starts there.
pub open spec fn special_match(t: Seq<char>, i: int, infinity: bool) -> int {
    if 0 <= i < t.len() && word_starts(t, i) {
        if is_sign(t[i]) {
            let n = token_len(t, i + 1, infinity);
            if n > 0 {
                n + 1
            } else {
                0
            }
        } else {
            token_len(t, i, infinity)
        }
    } else {
        0
    }
}

pub open spec fn null_chars() -> Seq<char> {
    seq!['n', 'u', 'l', 'l']
}

/// `t` from position `i` on, with each token matched left to right
/// replaced by `null`.
pub open spec fn replace_special_from(t: Seq<char>, i: int, infinity: bool) -> Seq<char>
    decreases t.len() - i,
{
    if i < 0 || i >= t.len() {
        seq![]
    } else {
        let m = special_match(t, i, infinity);
        if m > 0 {
            null_chars() + replace_special_from(t, i + m, infinity)
        } else {
            seq![t[i]] + replace_special_from(t, i + 1, infinity)
        }
    }
}

/// Every `nan` token, any case, optionally signed, replaced by `null`.
pub open spec fn replace_nan(t: Seq<char>) -> Seq<char> {
    replace_special_from(t, 0, false)
}

/// Every `inf` or `infinity` token, any case, optionally signed, replaced
/// by `null`.
pub open spec fn replace_infinity(t: Seq<char>) -> Seq<char> {
    replace_special_from(t, 0, true)
}

// Steps 4 and 5: a decimal comma inside a number.

/// The number of consecutive ASCII digits from position `j`.
pub open spec fn digits_from(t: Seq<char>, j: int) -> nat
    decreases t.len() - j,
{
    if 0 <= j < t.len() && is_digit(t[j]) {
        (1 + digits_from(t, j + 1)) as nat
    } else {
        0
    }
}

/// The number of consecutive white-space characters from position `j`.
pub open spec fn spaces_from(t: Seq<char>, j: int) -> nat
    decreases t.len() - j,
{
    if 0 <= j < t.len() && is_space(t[j]) {
        (1 + spaces_from(t, j + 1)) as nat
    } else {
        0
    }
}

/// Where an optionally negative integer that starts at `a` is followed by a
/// comma and more digits: the position of that comma; else -1.
pub open spec fn split_comma(t: Seq<char>, a: int) -> int {
    let b = if 0 <= a < t.len() && t[a] == '-' {
        a + 1
    } else {
        a
    };
    let c = b + digits_from(t, b);
    if c > b && c < t.len() && t[c] == ',' && digits_from(t, c + 1) > 0 {
        c
    } else {
        -1
    }
}

/// A split decimal in object-value position that starts at `i` (`":`,
/// white space, the number): the position of its comma and where it ends.
pub open spec fn object_split(t: Seq<char>, i: int) -> Option<(int, int)> {
    if 0 <= i && i + 1 < t.len() && t[i] == '"' && t[i + 1] == ':' {
        let c = split_comma(t, i + 2 + spaces_from(t, i + 2));
        if c >= 0 {
            Some((c, c + 1 + digits_from(t, c + 1)))
        } else {
            None
        }
    } else {
        None
    }
}

/// A split decimal in array position that starts at `i` (`[`, or `,` and
/// white space, then the number) and is followed by `,` or `]`: the
/// position of its comma and where it ends.
pub open spec fn array_split(t: Seq<char>, i: int) -> Option<(int, int)> {
    if 0 <= i < t.len() && (t[i] == '[' || t[i] == ',') {
        let a = if t[i] == '[' {
            i + 1
        } else {
            i + 1 + spaces_from(t, i + 1)
        };
        let c = split_comma(t, a);
        let e = c + 1 + digits_from(t, c + 1);
        if c >= 0 && e < t.len() && (t[e] == ',' || t[e] == ']') {
            Some((c, e))
        } else {
            None
        }
    } else {
        None
    }
}

pub open spec fn split_decimal_at(t: Seq<char>, i: int, object: bool) -> Option<(int, int)> {
    if object {
        object_split(t, i)
    } else {
        array_split(t, i)
    }
}

/// `t` from position `i` on, with the comma of each split decimal matched
/// left to right turned into a point. (A match always has `i < c < e`
/// within `t`; the other branch only keeps the definition total.)
pub open spec fn fix_split_from(t: Seq<char>, i: int, object: bool) -> Seq<char>
    decreases t.len() - i,
{
    if i < 0 || i >= t.len() {
        seq![]
    } else {
        match split_decimal_at(t, i, object) {
            Some((c, e)) => if i < c < e <= t.len() {
                t.subrange(i, c).push('.') + t.subrange(c + 1, e) + fix_split_from(t, e, object)
            } else {
                seq![]
            },
            None => seq![t[i]] + fix_split_from(t, i + 1, object),
        }
    }
}

/// `"key": 75,5` becomes `"key": 75.5`.
pub open spec fn fix_decimal_obj(t: Seq<char>) -> Seq<char> {
    fix_split_from(t, 0, true)
}

/// `[1,5, 2,3]` becomes `[1.5, 2.3]`.
pub open spec fn fix_decimal_arr(t: Seq<char>) -> Seq<char> {
    fix_split_from(t, 0, false)
}

/// The full repair: the five steps in order.
pub open spec fn repair(t: Seq<char>) -> Seq<char> {
    fix_decimal_arr(fix_decimal_obj(replace_infinity(replace_nan(strip_controls(t)))))
}

/// Text that none of the repair steps touches: no control character, no
/// `nan`/`inf`/`infinity` token, and no comma between two runs of digits in
/// object-value or array position.
pub open spec fn needs_no_repair(t: Seq<char>) -> bool {
    &&& forall|i: int| 0 <= i < t.len() ==> !is_control(#[trigger] t[i])
    &&& forall|i: int| #[trigger] special_match(t, i, false) == 0
    &&& forall|i: int| #[trigger] special_match(t, i, true) == 0
    &&& forall|i: int| #[trigger] object_split(t, i) is None
    &&& forall|i: int| #[trigger] array_split(t, i) is None
}

proof fn lemma_strip_identity(t: Seq<char>)
    requires
        forall|i: int| 0 <= i < t.len() ==> !is_control(#[trigger] t[i]),
    ensures
        strip_controls(t) == t,
    decreases t.len(),
{
    if t.len() > 0 {
        let d = t.drop_last();
        assert forall|i: int| 0 <= i < d.len() implies !is_control(#[trigger] d[i]) by {
            assert(d[i] == t[i]);
        }
        lemma_strip_identity(d);
        assert(d.push(t.last()) == t);
    }
}

proof fn lemma_replace_identity(t: Seq<char>, i: int, infinity: bool)
    requires
        0 <= i <= t.len(),
        forall|j: int| i <= j ==> #[trigger] special_match(t, j, infinity) == 0,
    ensures
        replace_special_from(t, i, infinity) == t.subrange(i, t.len() as int),
    decreases t.len() - i,
{
    if i < t.len() {
        assert(special_match(t, i, infinity) == 0);
        lemma_replace_identity(t, i + 1, infinity);
        assert(seq![t[i]] + t.subrange(i + 1, t.len() as int) == t.subrange(i, t.len() as int));
    }
}

proof fn lemma_fix_identity(t: Seq<char>, i: int, object: bool)
    requires
        0 <= i <= t.len(),
        forall|j: int| #[trigger] split_decimal_at(t, j, object) is None,
    ensures
        fix_split_from(t, i, object) == t.subrange(i, t.len() as int),
    decreases t.len() - i,
{
    if i < t.len() {
        assert(split_decimal_at(t, i, object) is None);
        lemma_fix_identity(t, i + 1, object);
        assert(seq![t[i]] + t.subrange(i + 1, t.len() as int) == t.subrange(i, t.len() as int));
    }
}

/// Repair leaves text that needs none unchanged, so well-formed JSON that
/// holds none of the malformed patterns parses after repair as before.
pub proof fn lemma_repair_keeps_clean_text(t: Seq<char>)
    requires
        needs_no_repair(t),
    ensures
        repair(t) == t,
{
    lemma_strip_identity(t);
    lemma_replace_identity(t, 0, false);
    lemma_replace_identity(t, 0, true);
    assert forall|j: int| #[trigger] split_decimal_at(t, j, true) is None by {
        assert(object_split(t, j) is None);
    }
    assert forall|j: int| #[trigger] split_decimal_at(t, j, false) is None by {
        assert(array_split(t, j) is None);
    }
    lemma_fix_identity(t, 0, true);
    lemma_fix_identity(t, 0, false);
    assert(t.subrange(0, t.len() as int) == t);
}

/// `t` is one token alone: `nan` (or, with `infinity`, `inf` or
/// `infinity`) in any case, optionally signed.
pub open spec fn lone_token(t: Seq<char>, infinity: bool) -> bool {
    t.len() > 1 && if is_sign(t[0]) {
        token_len(t, 1, infinity) == t.len() - 1
    } else {
        token_len(t, 0, infinity) == t.len()
    }
}

/// A prefix after which a token may start: empty, or ending in a character
/// that is neither a word character nor a sign.
pub open spec fn token_may_follow(p: Seq<char>) -> bool {
    p.len() == 0 || (!is_word(p.last()) && !is_sign(p.last()))
}

proof fn lemma_match_same_in_prefix(p: Seq<char>, s: Seq<char>, i: int, infinity: bool)
    requires
        token_may_follow(p),
        0 <= i < p.len(),
    ensures
        special_match(p + s, i, infinity) == special_match(p, i, infinity),
        special_match(p, i, infinity) <= p.len() - 1 - i,
{
    let t = p + s;
    assert forall|k: int| 0 <= k < p.len() implies #[trigger] t[k] == p[k] by {}
    let last = p.len() - 1;
    assert(!is_word(p[last]) && !is_sign(p[last]));
    assert(!is_letter(p[last], 'n', 'N') && !is_letter(p[last], 'a', 'A'));
    assert(!is_letter(p[last], 'i', 'I') && !is_letter(p[last], 'f', 'F'));
    assert(!is_letter(p[last], 't', 'T') && !is_letter(p[last], 'y', 'Y'));
}

proof fn lemma_prefix_rewrites_alone(p: Seq<char>, s: Seq<char>, i: int, infinity: bool)
    requires
        token_may_follow(p),
        0 <= i <= p.len(),
    ensures
        replace_special_from(p + s, i, infinity) == replace_special_from(p, i, infinity)
            + replace_special_from(p + s, p.len() as int, infinity),
    decreases p.len() - i,
{
    let t = p + s;
    if i < p.len() {
        lemma_match_same_in_prefix(p, s, i, infinity);
        let m = special_match(p, i, infinity);
        assert(t[i] == p[i]);
        if m > 0 {
            lemma_prefix_rewrites_alone(p, s, i + m, infinity);
            assert(null_chars() + replace_special_from(p, i + m, infinity) + replace_special_from(
                t,
                p.len() as int,
                infinity,
            ) == null_chars() + (replace_special_from(p, i + m, infinity)
                + replace_special_from(t, p.len() as int, infinity)));
        } else {
            lemma_prefix_rewrites_alone(p, s, i + 1, infinity);
            assert(seq![p[i]] + replace_special_from(p, i + 1, infinity) + replace_special_from(
                t,
                p.len() as int,
                infinity,
            ) == seq![p[i]] + (replace_special_from(p, i + 1, infinity)
                + replace_special_from(t, p.len() as int, infinity)));
        }
    } else {
        assert(replace_special_from(p, i, infinity) == Seq::<char>::empty());
        assert(Seq::<char>::empty() + replace_special_from(t, i, infinity)
            == replace_special_from(t, i, infinity));
    }
}

/// A `nan` token (or, with `infinity`, an `inf` or `infinity` token), in
/// any case and with or without a sign, that stands after a prefix it may
/// follow and before a character that is not a word character, is replaced
/// by `null`; the prefix is rewritten as it would be alone.
pub proof fn lemma_token_becomes_null(p: Seq<char>, tok: Seq<char>, q: Seq<char>, infinity: bool)
    requires
        token_may_follow(p),
        lone_token(tok, infinity),
        q.len() == 0 || !is_word(q[0]),
    ensures
        replace_special_from(p + tok + q, 0, infinity) == replace_special_from(p, 0, infinity)
            + null_chars() + replace_special_from(
            p + tok + q,
            (p.len() + tok.len()) as int,
            infinity,
        ),
{
    let t = p + tok + q;
    let n = p.len() as int;
    assert(t == p + (tok + q));
    lemma_prefix_rewrites_alone(p, tok + q, 0, infinity);
    assert forall|k: int| 0 <= k < tok.len() implies #[trigger] t[n + k] == tok[k] by {}
    assert(n + tok.len() < t.len() ==> t[n + tok.len()] == q[0]);
    if n > 0 {
        assert(t[n - 1] == p.last());
    }
    assert(special_match(t, n, infinity) == tok.len());
    assert(replace_special_from(t, n, infinity) == null_chars() + replace_special_from(
        t,
        n + tok.len(),
        infinity,
    ));
    assert(replace_special_from(p, 0, infinity) + (null_chars() + replace_special_from(
        t,
        n + tok.len(),
        infinity,
    )) == replace_special_from(p, 0, infinity) + null_chars() + replace_special_from(
        t,
        n + tok.len(),
        infinity,
    ));
}

proof fn lemma_special_shift(t: Seq<char>, u: Seq<char>, k: int, m: int, i: int, infinity: bool)
    requires
        0 < k <= t.len(),
        0 < m <= u.len(),
        t.skip(k) == u.skip(m),
        is_word(t[k - 1]) == is_word(u[m - 1]),
        0 <= i,
    ensures
        special_match(t, k + i, infinity) == special_match(u, m + i, infinity),
{
    let a = t.skip(k);
    let b = u.skip(m);
    assert(a.len() == t.len() - k);
    assert(b.len() == u.len() - m);
    assert forall|j: int| k <= j < t.len() implies #[trigger] t[j] == u[j - k + m] by {
        assert(a[j - k] == t[j]);
        assert(b[j - k] == u[j - k + m]);
    }
    if i > 0 && k + i - 1 < t.len() {
        assert(t[k + i - 1] == u[k + i - 1 - k + m]);
    }
}

/// A hole in value position of a text `p + null + q` that needs no repair:
/// `p` is a prefix a token may follow and `q` does not start with a word
/// character.
pub open spec fn null_hole(p: Seq<char>, q: Seq<char>) -> bool {
    &&& token_may_follow(p)
    &&& (q.len() == 0 || !is_word(q[0]))
    &&& needs_no_repair(p + null_chars() + q)
}

proof fn lemma_no_match_in_prefix(p: Seq<char>, q: Seq<char>, tail: Seq<char>, infinity: bool)
    requires
        null_hole(p, q),
    ensures
        forall|j: int| 0 <= j < p.len() ==> #[trigger] special_match(p + tail, j, infinity)
            == 0,
        forall|j: int| #[trigger] special_match(p, j, infinity) == 0,
{
    let u = p + null_chars() + q;
    assert(u == p + (null_chars() + q));
    assert forall|j: int| 0 <= j < p.len() implies #[trigger] special_match(p + tail, j, infinity)
        == 0 by {
        lemma_match_same_in_prefix(p, tail, j, infinity);
        lemma_match_same_in_prefix(p, null_chars() + q, j, infinity);
        assert(special_match(u, j, infinity) == 0);
    }
    assert forall|j: int| #[trigger] special_match(p, j, infinity) == 0 by {
        if 0 <= j < p.len() {
            lemma_match_same_in_prefix(p, null_chars() + q, j, infinity);
            assert(special_match(u, j, infinity) == 0);
        }
    }
}

/// The text after the token is rewritten as it stands in `p + null + q`,
/// that is not at all.
proof fn lemma_tail_kept(p: Seq<char>, tok: Seq<char>, q: Seq<char>, infinity: bool, any: bool)
    requires
        null_hole(p, q),
        lone_token(tok, infinity),
    ensures
        replace_special_from(p + tok + q, (p.len() + tok.len()) as int, any) == q,
        forall|j: int| (p.len() + tok.len()) <= j ==> #[trigger] special_match(p + tok + q, j, any)
            == 0,
{
    let t = p + tok + q;
    let u = p + null_chars() + q;
    let k = (p.len() + tok.len()) as int;
    let m = (p.len() + 4) as int;
    assert(t.skip(k) =~= q);
    assert(u.skip(m) =~= q);
    assert(t[k - 1] == tok[tok.len() - 1]);
    assert(u[m - 1] == 'l');
    assert forall|j: int| k <= j implies #[trigger] special_match(t, j, any) == 0 by {
        lemma_special_shift(t, u, k, m, j - k, any);
        assert(special_match(u, m + (j - k), any) == 0);
    }
    lemma_replace_identity(t, k, any);
    assert(t.subrange(k, t.len() as int) =~= q);
}

/// A `nan`, `inf` or `infinity` token, in any case and with or without a
/// sign, standing in a hole of a text `p + null + q` that needs no repair,
/// is repaired to exactly that text: the token becomes `null` and nothing
/// else changes.
pub proof fn lemma_repair_fills_hole_with_null(
    p: Seq<char>,
    tok: Seq<char>,
    q: Seq<char>,
    infinity: bool,
)
    requires
        null_hole(p, q),
        lone_token(tok, infinity),
    ensures
        repair(p + tok + q) == p + null_chars() + q,
{
    let t = p + tok + q;
    let u = p + null_chars() + q;
    let n = p.len() as int;
    let k = (p.len() + tok.len()) as int;
    assert forall|x: int| 0 <= x < tok.len() implies #[trigger] t[n + x] == tok[x] by {}
    assert forall|x: int| 0 <= x < p.len() implies #[trigger] t[x] == p[x] && u[x] == p[x] by {}
    assert forall|x: int| 0 <= x < q.len() implies #[trigger] t[k + x] == q[x] && u[n + 4 + x]
        == q[x] by {}
    // no control characters in t
    assert forall|i: int| 0 <= i < t.len() implies !is_control(#[trigger] t[i]) by {
        if i < n {
            assert(u[i] == t[i]);
        } else if i >= k {
            assert(u[n + 4 + (i - k)] == t[i]);
        } else {
            assert(t[i] == tok[i - n]);
        }
    }
    lemma_strip_identity(t);
    lemma_no_match_in_prefix(p, q, tok + q, false);
    lemma_no_match_in_prefix(p, q, tok + q, true);
    assert(t == p + (tok + q));
    lemma_replace_identity(p, 0, infinity);
    assert(p.subrange(0, n) == p);
    lemma_tail_kept(p, tok, q, infinity, infinity);
    lemma_tail_kept(p, tok, q, infinity, !infinity);
    lemma_token_becomes_null(p, tok, q, infinity);
    assert(p + null_chars() + q == u);
    if infinity {
        // the `nan` step finds nothing in t
        assert forall|j: int| #[trigger] special_match(t, j, false) == 0 by {
            if n <= j < k {
                if j > n + 1 || (j == n + 1 && !is_sign(t[n])) {
                    assert(is_word(t[j - 1]));
                }
            }
        }
        lemma_replace_identity(t, 0, false);
        assert(t.subrange(0, t.len() as int) == t);
    } else {
        lemma_replace_identity(u, 0, true);
        assert(u.subrange(0, u.len() as int) == u);
    }
    assert forall|j: int| #[trigger] split_decimal_at(u, j, true) is None by {
        assert(object_split(u, j) is None);
    }
    assert forall|j: int| #[trigger] split_decimal_at(u, j, false) is None by {
        assert(array_split(u, j) is None);
    }
    lemma_fix_identity(u, 0, true);
    lemma_fix_identity(u, 0, false);
    assert(u.subrange(0, u.len() as int) == u);
}

fn is_control_exec(c: char) -> (r: bool)
    ensures
        r == is_control(c),
{
    (c as u32) < 0x20 || (c as u32) == 0x7F
}

/// Relies on `regex_syntax::is_word_character`, the table behind the regex
/// engines' Unicode `\w`: among ASCII it holds of letters, digits and `_`
/// alone. It cannot panic here: the crate's default features include
/// `unicode-perl`.
#[verifier::external_body]
fn is_word_exec(c: char) -> (r: bool)
    ensures
        (c as u32) < 0x80 ==> r == is_ascii_word(c),
        (c as u32) >= 0x80 ==> r == unicode_word_char(c),
{
    regex_syntax::is_word_character(c)
}

fn is_digit_exec(c: char) -> (r: bool)
    ensures
        r == is_digit(c),
{
    0x30 <= (c as u32) && (c as u32) <= 0x39
}

fn is_space_exec(c: char) -> (r: bool)
    ensures
        r == is_space(c),
{
    let u = c as u32;
    (0x09 <= u && u <= 0x0D) || u == 0x20 || u == 0x85 || u == 0xA0 || u == 0x1680 || (0x2000
        <= u && u <= 0x200A) || u == 0x2028 || u == 0x2029 || u == 0x202F || u == 0x205F || u
        == 0x3000
}

fn letter_at(t: &Vec<char>, j: usize, lower: char, upper: char) -> (r: bool)
    ensures
        r == (j < t.len() && is_letter(t@[j as int], lower, upper)),
{
    j < t.len() && (t[j] == lower || t[j] == upper)
}

fn word_ends_exec(t: &Vec<char>, j: usize) -> (r: bool)
    ensures
        r == word_ends(t@, j as int),
{
    j >= t.len() || !is_word_exec(t[j])
}

fn token_len_exec(t: &Vec<char>, j: usize, infinity: bool) -> (r: usize)
    requires
        j <= t.len(),
    ensures
        r as int == token_len(t@, j as int, infinity),
{
    let three = letter_at(t, j, if infinity { 'i' } else { 'n' }, if infinity { 'I' } else { 'N' })
        && letter_at(t, j + 1, if infinity { 'n' } else { 'a' }, if infinity { 'N' } else { 'A' })
        && letter_at(t, j + 2, if infinity { 'f' } else { 'n' }, if infinity { 'F' } else { 'N' });
    if !three {
        return 0;
    }
    if word_ends_exec(t, j + 3) {
        return 3;
    }
    if infinity && letter_at(t, j + 3, 'i', 'I') && letter_at(t, j + 4, 'n', 'N') && letter_at(
        t,
        j + 5,
        'i',
        'I',
    ) && letter_at(t, j + 6, 't', 'T') && letter_at(t, j + 7, 'y', 'Y') && word_ends_exec(
        t,
        j + 8,
    ) {
        return 8;
    }
    0
}

fn special_match_exec(t: &Vec<char>, i: usize, infinity: bool) -> (r: usize)
    requires
        i < t.len(),
    ensures
        r as int == special_match(t@, i as int, infinity),
        r as int <= t.len() - i,
{
    if i > 0 && is_word_exec(t[i - 1]) {
        return 0;
    }
    if t[i] == '+' || t[i] == '-' {
        let n = token_len_exec(t, i + 1, infinity);
        if n > 0 {
            n + 1
        } else {
            0
        }
    } else {
        token_len_exec(t, i, infinity)
    }
}

fn replace_special(t: &Vec<char>, infinity: bool) -> (r: Vec<char>)
    ensures
        r@ == replace_special_from(t@, 0, infinity),
{
    let mut out: Vec<char> = Vec::new();
    let mut i: usize = 0;
    while i < t.len()
        invariant
            i <= t.len(),
            out@ + replace_special_from(t@, i as int, infinity) == replace_special_from(
                t@,
                0,
                infinity,
            ),
        decreases t.len() - i,
    {
        let m = special_match_exec(t, i, infinity);
        if m > 0 {
            let ghost before = out@;
            out.push('n');
            out.push('u');
            out.push('l');
            out.push('l');
            assert(out@ == before + null_chars());
            assert(before + (null_chars() + replace_special_from(t@, i + m, infinity)) == out@
                + replace_special_from(t@, i + m, infinity));
            i = i + m;
        } else {
            let ghost before = out@;
            out.push(t[i]);
            assert(before + (seq![t@[i as int]] + replace_special_from(t@, i + 1, infinity))
                == out@ + replace_special_from(t@, i + 1, infinity));
            i = i + 1;
        }
    }
    assert(out@ + replace_special_from(t@, i as int, infinity) == out@);
    out
}

fn digits_at(t: &Vec<char>, j: usize) -> (n: usize)
    requires
        j <= t.len(),
    ensures
        n == digits_from(t@, j as int),
        j + n <= t.len(),
{
    let mut k: usize = j;
    while k < t.len() && is_digit_exec(t[k])
        invariant
            j <= k <= t.len(),
            digits_from(t@, j as int) == (k - j) + digits_from(t@, k as int),
        decreases t.len() - k,
    {
        k = k + 1;
    }
    k - j
}

fn spaces_at(t: &Vec<char>, j: usize) -> (n: usize)
    requires
        j <= t.len(),
    ensures
        n == spaces_from(t@, j as int),
        j + n <= t.len(),
{
    let mut k: usize = j;
    while k < t.len() && is_space_exec(t[k])
        invariant
            j <= k <= t.len(),
            spaces_from(t@, j as int) == (k - j) + spaces_from(t@, k as int),
        decreases t.len() - k,
    {
        k = k + 1;
    }
    k - j
}

/// The comma of a split decimal whose number starts at `a`, if any.
fn split_comma_exec(t: &Vec<char>, a: usize) -> (r: Option<usize>)
    requires
        a <= t.len(),
    ensures
        match r {
            Some(c) => split_comma(t@, a as int) == c as int && a < c < t.len() && c + 1
                + digits_from(t@, c + 1) <= t.len(),
            None => split_comma(t@, a as int) == -1,
        },
{
    let b = if a < t.len() && t[a] == '-' {
        a + 1
    } else {
        a
    };
    let c = b + digits_at(t, b);
    if c > b && c < t.len() && t[c] == ',' {
        let d = digits_at(t, c + 1);
        if d > 0 {
            return Some(c);
        }
    }
    None
}

fn split_at_exec(t: &Vec<char>, i: usize, object: bool) -> (r: Option<(usize, usize)>)
    requires
        i < t.len(),
    ensures
        match r {
            Some((c, e)) => split_decimal_at(t@, i as int, object) == Some((c as int, e as int)) && i < c
                < e <= t.len(),
            None => split_decimal_at(t@, i as int, object) is None,
        },
{
    if object {
        if i + 1 < t.len() && t[i] == '"' && t[i + 1] == ':' {
            let a = i + 2 + spaces_at(t, i + 2);
            match split_comma_exec(t, a) {
                Some(c) => Some((c, c + 1 + digits_at(t, c + 1))),
                None => None,
            }
        } else {
            None
        }
    } else {
        if t[i] == '[' || t[i] == ',' {
            let a = if t[i] == '[' {
                i + 1
            } else {
                i + 1 + spaces_at(t, i + 1)
            };
            match split_comma_exec(t, a) {
                Some(c) => {
                    let e = c + 1 + digits_at(t, c + 1);
                    if e < t.len() && (t[e] == ',' || t[e] == ']') {
                        Some((c, e))
                    } else {
                        None
                    }
                },
                None => None,
            }
        } else {
            None
        }
    }
}

/// `out` followed by `t[from..to]`.
fn push_range(out: &mut Vec<char>, t: &Vec<char>, from: usize, to: usize)
    requires
        from <= to <= t.len(),
    ensures
        final(out)@ == old(out)@ + t@.subrange(from as int, to as int),
{
    let ghost start = out@;
    let mut k: usize = from;
    while k < to
        invariant
            from <= k <= to <= t.len(),
            out@ == start + t@.subrange(from as int, k as int),
        decreases to - k,
    {
        out.push(t[k]);
        assert(t@.subrange(from as int, k + 1) == t@.subrange(from as int, k as int).push(
            t@[k as int],
        ));
        k = k + 1;
    }
}

fn fix_split(t: &Vec<char>, object: bool) -> (r: Vec<char>)
    ensures
        r@ == fix_split_from(t@, 0, object),
{
    let mut out: Vec<char> = Vec::new();
    let mut i: usize = 0;
    while i < t.len()
        invariant
            i <= t.len(),
            out@ + fix_split_from(t@, i as int, object) == fix_split_from(t@, 0, object),
        decreases t.len() - i,
    {
        match split_at_exec(t, i, object) {
            Some((c, e)) => {
                let ghost before = out@;
                push_range(&mut out, t, i, c);
                out.push('.');
                push_range(&mut out, t, c + 1, e);
                assert(before + (t@.subrange(i as int, c as int).push('.') + t@.subrange(
                    c + 1,
                    e as int,
                ) + fix_split_from(t@, e as int, object)) == out@ + fix_split_from(
                    t@,
                    e as int,
                    object,
                ));
                i = e;
            },
            None => {
                let ghost before = out@;
                out.push(t[i]);
                assert(before + (seq![t@[i as int]] + fix_split_from(t@, i + 1, object)) == out@
                    + fix_split_from(t@, i + 1, object));
                i = i + 1;
            },
        }
    }
    assert(out@ + fix_split_from(t@, i as int, object) == out@);
    out
}

fn strip_controls_exec(t: &Vec<char>) -> (r: Vec<char>)
    ensures
        r@ == strip_controls(t@),
{
    let mut out: Vec<char> = Vec::new();
    let mut i: usize = 0;
    while i < t.len()
        invariant
            i <= t.len(),
            out@ == strip_controls(t@.take(i as int)),
        decreases t.len() - i,
    {
        assert(t@.take(i + 1).drop_last() == t@.take(i as int));
        assert(t@.take(i + 1).last() == t@[i as int]);
        if !is_control_exec(t[i]) {
            out.push(t[i]);
        }
        i = i + 1;
    }
    assert(t@.take(t.len() as int) == t@);
    out
}

/// Repairs the near-JSON text that the monitoring application sends, so
/// that a strict JSON parser accepts it.
#[derive(Clone, Copy, Debug)]
pub struct VitalDataCleaner;

impl VitalDataCleaner {
    pub fn new() -> (r: Self)
        ensures
            r == VitalDataCleaner,
    {
        VitalDataCleaner
    }

    /// Applies the five repair steps in order: control characters removed,
    /// `nan` and then `inf`/`infinity` tokens replaced by `null`, and the
    /// decimal commas in object values and then in arrays turned into points.
    pub fn clean(&self, json_str: &str) -> (r: Result<String>)
        ensures
            r matches Ok(s) && s@ == repair(json_str@),
    {
        let t = chars_of(json_str);
        let t = strip_controls_exec(&t);
        let t = replace_special(&t, false);
        let t = replace_special(&t, true);
        let t = fix_split(&t, true);
        let t = fix_split(&t, false);
        Ok(string_of(&t))
    }

    /// Removes every control character (0x00 to 0x1F and 0x7F).
    pub fn remove_control_chars(&self, json_str: &str) -> (r: String)
        ensures
            r@ == strip_controls(json_str@),
    {
        let t = chars_of(json_str);
        string_of(&strip_controls_exec(&t))
    }

    /// Replaces each `nan` token (any case, optionally signed, with no word
    /// character on either side) by `null`.
    pub fn replace_nan(&self, json_str: &str) -> (r: String)
        ensures
            r@ == replace_nan(json_str@),
    {
        let t = chars_of(json_str);
        string_of(&replace_special(&t, false))
    }

    /// Replaces each `inf` or `infinity` token (any case, optionally signed,
    /// with no word character on either side) by `null`.
    pub fn replace_infinity(&self, json_str: &str) -> (r: String)
        ensures
            r@ == replace_infinity(json_str@),
    {
        let t = chars_of(json_str);
        string_of(&replace_special(&t, true))
    }

    /// Rewrites `"key": <int>,<digits>` as `"key": <int>.<digits>`.
    pub fn fix_decimal_obj(&self, json_str: &str) -> (r: String)
        ensures
            r@ == fix_decimal_obj(json_str@),
    {
        let t = chars_of(json_str);
        string_of(&fix_split(&t, true))
    }

    /// Rewrites `<int>,<digits>` as `<int>.<digits>` after `[` or `,` where
    /// the pair is followed by `,` or `]`.
    pub fn fix_decimal_arr(&self, json_str: &str) -> (r: String)
        ensures
            r@ == fix_decimal_arr(json_str@),
    {
        let t = chars_of(json_str);
        string_of(&fix_split(&t, false))
    }
}

impl Default for VitalDataCleaner {
    fn default() -> (r: Self)
        ensures
            r == VitalDataCleaner,
    {
        VitalDataCleaner
    }
}

} // verus!
