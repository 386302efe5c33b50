//! Text helpers: decimal numbers, byte lists as Rust prints them, whitespace
//! tokenization and comparison of strings.
use vstd::prelude::*;

verus! {

// ---------------------------------------------------------------------------
// Decimal digits
// ---------------------------------------------------------------------------

/// The character of the decimal digit `d`.
pub open spec fn digit_char(d: nat) -> char {
    if d == 0 {
        '0'
    } else if d == 1 {
        '1'
    } else if d == 2 {
        '2'
    } else if d == 3 {
        '3'
    } else if d == 4 {
        '4'
    } else if d == 5 {
        '5'
    } else if d == 6 {
        '6'
    } else if d == 7 {
        '7'
    } else if d == 8 {
        '8'
    } else {
        '9'
    }
}

/// The digit that an ASCII decimal character stands for.
pub open spec fn char_digit(c: char) -> nat {
    (c as u32 - '0' as u32) as nat
}

pub open spec fn is_decimal_char(c: char) -> bool {
    '0' <= c && c <= '9'
}

/// `n` written in decimal without leading zeros, as `{}` prints it.
pub open spec fn decimal(n: nat) -> Seq<char>
    decreases n,
{
    if n < 10 {
        seq![digit_char(n)]
    } else {
        decimal(n / 10).push(digit_char(n % 10))
    }
}

/// The value of a sequence of decimal digits, most significant first.
pub open spec fn digits_value(s: Seq<char>) -> nat
    decreases s.len(),
{
    if s.len() == 0 {
        0
    } else {
        digits_value(s.drop_last()) * 10 + char_digit(s.last())
    }
}

pub open spec fn all_decimal(s: Seq<char>) -> bool {
    forall|i: int| 0 <= i < s.len() ==> is_decimal_char(#[trigger] s[i])
}

/// What `str::parse::<u64>` gives: an optional `+`, then at least one
/// decimal digit, and a value that fits in 64 bits.
pub open spec fn parse_u64_spec(s: Seq<char>) -> Option<u64> {
    let d = if s.len() > 0 && s[0] == '+' {
        s.drop_first()
    } else {
        s
    };
    if d.len() > 0 && all_decimal(d) && digits_value(d) <= u64::MAX {
        Some(digits_value(d) as u64)
    } else {
        None
    }
}

/// The elements of a byte list as `{:?}` prints them, without brackets.
pub open spec fn byte_list_body(v: Seq<u8>) -> Seq<char>
    decreases v.len(),
{
    if v.len() == 0 {
        Seq::empty()
    } else if v.len() == 1 {
        decimal(v[0] as nat)
    } else {
        byte_list_body(v.drop_last()) + ", "@ + decimal(v.last() as nat)
    }
}

/// A byte list as `{:?}` prints it, e.g. `[1, 22, 255]`.
pub open spec fn byte_list_debug(v: Seq<u8>) -> Seq<char> {
    "["@ + byte_list_body(v) + "]"@
}

fn digit_str(d: u64) -> (r: &'static str)
    requires
        d < 10,
    ensures
        r@ == seq![digit_char(d as nat)],
{
    proof {
        reveal_strlit("0");
        reveal_strlit("1");
        reveal_strlit("2");
        reveal_strlit("3");
        reveal_strlit("4");
        reveal_strlit("5");
        reveal_strlit("6");
        reveal_strlit("7");
        reveal_strlit("8");
        reveal_strlit("9");
    }
    if d == 0 {
        "0"
    } else if d == 1 {
        "1"
    } else if d == 2 {
        "2"
    } else if d == 3 {
        "3"
    } else if d == 4 {
        "4"
    } else if d == 5 {
        "5"
    } else if d == 6 {
        "6"
    } else if d == 7 {
        "7"
    } else if d == 8 {
        "8"
    } else {
        "9"
    }
}

/// Appends `n` in decimal to `out`.
pub fn push_decimal(out: &mut String, n: u64)
    ensures
        final(out)@ == old(out)@ + decimal(n as nat),
    decreases n,
{
    if n < 10 {
        out.append(digit_str(n));
    } else {
        push_decimal(out, n / 10);
        out.append(digit_str(n % 10));
        proof {
            assert(decimal(n as nat) == decimal((n / 10) as nat).push(digit_char((n % 10) as nat)));
        }
    }
}

/// `n` in decimal, as `n.to_string()` gives it.
pub fn u64_to_decimal(n: u64) -> (r: String)
    ensures
        r@ == decimal(n as nat),
{
    let mut out = String::new();
    push_decimal(&mut out, n);
    proof {
        assert(Seq::<char>::empty() + decimal(n as nat) =~= decimal(n as nat));
    }
    out
}

/// Appends a byte list to `out` as `{:?}` prints it.
pub fn push_byte_list(out: &mut String, v: &[u8])
    ensures
        final(out)@ == old(out)@ + byte_list_debug(v@),
{
    let ghost start = out@;
    out.append("[");
    let n = v.len();
    let mut i: usize = 0;
    while i < n
        invariant
            0 <= i <= n,
            n == v@.len(),
            out@ == start + "["@ + byte_list_body(v@.take(i as int)),
        decreases n - i,
    {
        let ghost before = out@;
        if i > 0 {
            out.append(", ");
        }
        push_decimal(out, v[i] as u64);
        proof {
            let t = v@.take(i as int + 1);
            assert(t.drop_last() =~= v@.take(i as int));
            assert(t.last() == v@[i as int]);
            if i == 0 {
                assert(byte_list_body(v@.take(0)) =~= Seq::<char>::empty());
                assert(t.len() == 1);
                assert(out@ =~= start + "["@ + byte_list_body(t));
            } else {
                assert(out@ =~= start + "["@ + byte_list_body(t));
            }
        }
        i = i + 1;
    }
    out.append("]");
    proof {
        assert(v@.take(n as int) =~= v@);
        assert(out@ =~= start + byte_list_debug(v@));
    }
}

proof fn lemma_digits_value_prefix(s: Seq<char>, k: int)
    requires
        0 <= k <= s.len(),
    ensures
        digits_value(s.take(k)) <= digits_value(s),
    decreases s.len(),
{
    if k < s.len() {
        assert(s.drop_last().take(k) =~= s.take(k));
        lemma_digits_value_prefix(s.drop_last(), k);
    } else {
        assert(s.take(k) =~= s);
    }
}

/// Reads an unsigned 64-bit decimal number as `str::parse::<u64>` does.
pub fn parse_u64(s: &str) -> (r: Option<u64>)
    ensures
        r == parse_u64_spec(s@),
{
    let len = s.unicode_len();
    let mut start: usize = 0;
    if len > 0 && s.get_char(0) == '+' {
        start = 1;
    }
    let ghost d = if s@.len() > 0 && s@[0] == '+' {
        s@.drop_first()
    } else {
        s@
    };
    assert(d =~= s@.subrange(start as int, len as int));
    if start == len {
        return None;
    }
    let mut acc: u64 = 0;
    let mut i: usize = start;
    while i < len
        invariant
            start <= i <= len,
            len == s@.len(),
            d =~= s@.subrange(start as int, len as int),
            d == (if s@.len() > 0 && s@[0] == '+' {
                s@.drop_first()
            } else {
                s@
            }),
            all_decimal(d.take(i - start)),
            acc as nat == digits_value(d.take(i - start)),
        decreases len - i,
    {
        let c = s.get_char(i);
        let ghost k = (i - start) as int;
        proof {
            assert(d[k] == c);
            assert(d.take(k + 1).drop_last() =~= d.take(k));
            assert(d.take(k + 1).last() == c);
        }
        if !('0' <= c && c <= '9') {
            proof {
                assert(!is_decimal_char(d[k]));
                assert(!all_decimal(d));
                assert(parse_u64_spec(s@) == None::<u64>);
            }
            return None;
        }
        let digit = (c as u32 - '0' as u32) as u64;
        let next = acc.checked_mul(10);
        match next {
            None => {
                proof {
                    assert(digits_value(d.take(k + 1)) == acc * 10 + char_digit(c));
                    assert(acc * 10 > u64::MAX);
                    lemma_digits_value_prefix(d, k + 1);
                    assert(digits_value(d) > u64::MAX);
                    assert(parse_u64_spec(s@) == None::<u64>);
                }
                return None;
            },
            Some(m) => {
                match m.checked_add(digit) {
                    None => {
                        proof {
                            assert(digits_value(d.take(k + 1)) == acc * 10 + char_digit(c));
                            lemma_digits_value_prefix(d, k + 1);
                        }
                        return None;
                    },
                    Some(v) => {
                        acc = v;
                    },
                }
            },
        }
        proof {
            assert forall|j: int| 0 <= j < k + 1 implies is_decimal_char(#[trigger] d.take(k + 1)[j]) by {
                if j < k {
                    assert(d.take(k + 1)[j] == d.take(k)[j]);
                }
            }
        }
        i = i + 1;
    }
    proof {
        assert(d.take(len - start) =~= d);
    }
    Some(acc)
}

// ---------------------------------------------------------------------------
// Whitespace
// ---------------------------------------------------------------------------

/// Unicode `White_Space`, the set that `char::is_whitespace`, `str::trim`
/// and `str::split_whitespace` go by.
pub open spec fn is_white_space(c: char) -> bool {
    let u = c as u32;
    ||| 0x09 <= u <= 0x0d
    ||| u == 0x20
    ||| u == 0x85
    ||| u == 0xa0
    ||| u == 0x1680
    ||| 0x2000 <= u <= 0x200a
    ||| u == 0x2028
    ||| u == 0x2029
    ||| u == 0x202f
    ||| u == 0x205f
    ||| u == 0x3000
}

pub fn is_white_space_char(c: char) -> (r: bool)
    ensures
        r == is_white_space(c),
{
    let u = c as u32;
    (0x09 <= u && u <= 0x0d) || u == 0x20 || u == 0x85 || u == 0xa0 || u == 0x1680 || (0x2000
        <= u && u <= 0x200a) || u == 0x2028 || u == 0x2029 || u == 0x202f || u == 0x205f || u
        == 0x3000
}

/// The number of leading characters of `s` up to the first white space.
pub open spec fn word_len(s: Seq<char>) -> nat
    decreases s.len(),
{
    if s.len() == 0 || is_white_space(s[0]) {
        0
    } else {
        1 + word_len(s.drop_first())
    }
}

pub proof fn lemma_word_len_bounds(s: Seq<char>)
    ensures
        word_len(s) <= s.len(),
        s.len() > 0 && !is_white_space(s[0]) ==> word_len(s) >= 1,
    decreases s.len(),
{
    if s.len() > 0 {
        lemma_word_len_bounds(s.drop_first());
    }
}

/// The words of `s` separated by white space, as `str::split_whitespace`
/// yields them.
pub open spec fn split_white_space(s: Seq<char>) -> Seq<Seq<char>>
    decreases s.len(),
{
    if s.len() == 0 {
        Seq::empty()
    } else if is_white_space(s[0]) {
        split_white_space(s.drop_first())
    } else {
        let n = word_len(s);
        proof {
            lemma_word_len_bounds(s);
        }
        seq![s.take(n as int)] + split_white_space(s.skip(n as int))
    }
}

/// `s` without leading white space.
pub open spec fn trim_start(s: Seq<char>) -> Seq<char>
    decreases s.len(),
{
    if s.len() > 0 && is_white_space(s[0]) {
        trim_start(s.drop_first())
    } else {
        s
    }
}

/// `s` without trailing white space.
pub open spec fn trim_end(s: Seq<char>) -> Seq<char>
    decreases s.len(),
{
    if s.len() > 0 && is_white_space(s.last()) {
        trim_end(s.drop_last())
    } else {
        s
    }
}

/// `s` without leading or trailing white space, as `str::trim` gives it.
pub open spec fn trim(s: Seq<char>) -> Seq<char> {
    trim_end(trim_start(s))
}

pub open spec fn string_views(v: Seq<String>) -> Seq<Seq<char>> {
    v.map_values(|t: String| t@)
}

proof fn lemma_word_len_step(s: Seq<char>, i: int, k: int)
    requires
        0 <= i <= k <= s.len(),
        forall|j: int| i <= j < k ==> !is_white_space(#[trigger] s[j]),
    ensures
        word_len(s.subrange(i, s.len() as int)) == (k - i) + word_len(
            s.subrange(k, s.len() as int),
        ),
    decreases k - i,
{
    if i < k {
        let a = s.subrange(i, s.len() as int);
        assert(a.drop_first() =~= s.subrange(i + 1, s.len() as int));
        assert(a[0] == s[i]);
        lemma_word_len_step(s, i + 1, k);
    }
}

/// The words of `s` separated by white space.
pub fn split_words(s: &str) -> (r: Vec<String>)
    ensures
        string_views(r@) == split_white_space(s@),
{
    let n = s.unicode_len();
    let mut words: Vec<String> = Vec::new();
    let mut i: usize = 0;
    proof {
        assert(s@.subrange(0, n as int) =~= s@);
        assert(string_views(words@) =~= Seq::<Seq<char>>::empty());
        assert(string_views(words@) + split_white_space(s@) =~= split_white_space(s@));
    }
    while i < n
        invariant
            0 <= i <= n,
            n == s@.len(),
            string_views(words@) + split_white_space(s@.subrange(i as int, n as int))
                == split_white_space(s@),
        decreases n - i,
    {
        let ghost rest = s@.subrange(i as int, n as int);
        let c = s.get_char(i);
        if is_white_space_char(c) {
            proof {
                assert(rest[0] == c);
                assert(rest.drop_first() =~= s@.subrange(i + 1, n as int));
            }
            i = i + 1;
        } else {
            let mut k: usize = i + 1;
            while k < n && !is_white_space_char(s.get_char(k))
                invariant
                    i < k <= n,
                    n == s@.len(),
                    forall|j: int| i <= j < k ==> !is_white_space(#[trigger] s@[j]),
                decreases n - k,
            {
                k = k + 1;
            }
            let word = s.substring_char(i, k).to_owned();
            proof {
                lemma_word_len_step(s@, i as int, k as int);
                let tail = s@.subrange(k as int, n as int);
                if k < n {
                    assert(tail[0] == s@[k as int]);
                }
                assert(word_len(tail) == 0);
                assert(rest[0] == c);
                assert(word_len(rest) == k - i);
                assert(rest.take((k - i) as int) =~= s@.subrange(i as int, k as int));
                assert(rest.skip((k - i) as int) =~= tail);
                let old_words = words@;
                assert(string_views(old_words.push(word)) =~= string_views(old_words).push(
                    word@,
                ));
            }
            words.push(word);
            proof {
                let tail = s@.subrange(k as int, n as int);
                assert(split_white_space(rest) == seq![s@.subrange(i as int, k as int)]
                    + split_white_space(tail));
                assert(string_views(words@) + split_white_space(tail) =~= string_views(
                    words@.drop_last(),
                ) + split_white_space(rest));
            }
            i = k;
        }
    }
    proof {
        assert(split_white_space(s@.subrange(n as int, n as int)) =~= Seq::<Seq<char>>::empty());
        assert(s@.subrange(n as int, n as int) =~= Seq::<char>::empty());
        assert(string_views(words@) + Seq::<Seq<char>>::empty() =~= string_views(words@));
    }
    words
}

proof fn lemma_trim_start_skip(s: Seq<char>, i: int)
    requires
        0 <= i <= s.len(),
        forall|j: int| 0 <= j < i ==> is_white_space(#[trigger] s[j]),
    ensures
        trim_start(s) == trim_start(s.skip(i)),
    decreases i,
{
    if i > 0 {
        assert(s.drop_first().skip(i - 1) =~= s.skip(i));
        lemma_trim_start_skip(s.drop_first(), i - 1);
    } else {
        assert(s.skip(0) =~= s);
    }
}

proof fn lemma_trim_end_take(s: Seq<char>, e: int)
    requires
        0 <= e <= s.len(),
        forall|j: int| e <= j < s.len() ==> is_white_space(#[trigger] s[j]),
    ensures
        trim_end(s) == trim_end(s.take(e)),
    decreases s.len() - e,
{
    if e < s.len() {
        assert(s.drop_last().take(e) =~= s.take(e));
        lemma_trim_end_take(s.drop_last(), e);
    } else {
        assert(s.take(e) =~= s);
    }
}

/// `s` without leading or trailing white space.
pub fn trim_white_space(s: &str) -> (r: String)
    ensures
        r@ == trim(s@),
{
    let n = s.unicode_len();
    let mut b: usize = 0;
    while b < n && is_white_space_char(s.get_char(b))
        invariant
            0 <= b <= n,
            n == s@.len(),
            forall|j: int| 0 <= j < b ==> is_white_space(#[trigger] s@[j]),
        decreases n - b,
    {
        b = b + 1;
    }
    let mut e: usize = n;
    while e > b && is_white_space_char(s.get_char(e - 1))
        invariant
            b <= e <= n,
            n == s@.len(),
            forall|j: int| e <= j < n ==> is_white_space(#[trigger] s@[j]),
        decreases e,
    {
        e = e - 1;
    }
    let r = s.substring_char(b, e).to_owned();
    proof {
        lemma_trim_start_skip(s@, b as int);
        let t = s@.skip(b as int);
        if b < n {
            assert(t[0] == s@[b as int]);
        }
        assert(trim_start(t) == t);
        lemma_trim_end_take(t, (e - b) as int);
        let u = t.take((e - b) as int);
        assert(u =~= s@.subrange(b as int, e as int));
        if e > b {
            assert(u.last() == s@[e - 1]);
        }
        assert(trim_end(u) == u);
    }
    r
}

// ---------------------------------------------------------------------------
// Comparison
// ---------------------------------------------------------------------------

/// Whether two strings hold the same characters.
pub fn str_eq(a: &str, b: &str) -> (r: bool)
    ensures
        r == (a@ == b@),
{
    let n = a.unicode_len();
    if n != b.unicode_len() {
        return false;
    }
    let mut i: usize = 0;
    while i < n
        invariant
            0 <= i <= n,
            n == a@.len(),
            n == b@.len(),
            forall|j: int| 0 <= j < i ==> a@[j] == b@[j],
        decreases n - i,
    {
        if a.get_char(i) != b.get_char(i) {
            return false;
        }
        i = i + 1;
    }
    assert(a@ =~= b@);
    true
}


// ---------------------------------------------------------------------------
// Lines made of words
// ---------------------------------------------------------------------------

/// A word: at least one character, none of them white space.
pub open spec fn is_word(s: Seq<char>) -> bool {
    s.len() > 0 && forall|i: int| 0 <= i < s.len() ==> !is_white_space(#[trigger] s[i])
}

/// The words `ws` joined by single spaces.
pub open spec fn unwords(ws: Seq<Seq<char>>) -> Seq<char>
    decreases ws.len(),
{
    if ws.len() == 0 {
        Seq::empty()
    } else if ws.len() == 1 {
        ws[0]
    } else {
        ws[0] + seq![' '] + unwords(ws.drop_first())
    }
}

proof fn lemma_word_len_of_word(a: Seq<char>, t: Seq<char>)
    requires
        forall|i: int| 0 <= i < a.len() ==> !is_white_space(#[trigger] a[i]),
        t.len() == 0 || is_white_space(t[0]),
    ensures
        word_len(a + t) == a.len(),
    decreases a.len(),
{
    if a.len() == 0 {
        assert(a + t =~= t);
    } else {
        assert((a + t).drop_first() =~= a.drop_first() + t);
        assert((a + t)[0] == a[0]);
        assert forall|i: int| 0 <= i < a.drop_first().len() implies !is_white_space(
            #[trigger] a.drop_first()[i],
        ) by {
            assert(a.drop_first()[i] == a[i + 1]);
        }
        lemma_word_len_of_word(a.drop_first(), t);
    }
}

/// A word followed by white space or by nothing is the first word.
pub proof fn lemma_split_word_then(a: Seq<char>, t: Seq<char>)
    requires
        is_word(a),
        t.len() == 0 || is_white_space(t[0]),
    ensures
        split_white_space(a + t) == seq![a] + split_white_space(t),
{
    lemma_word_len_of_word(a, t);
    assert((a + t)[0] == a[0]);
    assert((a + t).take(a.len() as int) =~= a);
    assert((a + t).skip(a.len() as int) =~= t);
}

proof fn lemma_unwords_ends(ws: Seq<Seq<char>>)
    requires
        forall|i: int| 0 <= i < ws.len() ==> is_word(#[trigger] ws[i]),
        ws.len() > 0,
    ensures
        unwords(ws).len() > 0,
        unwords(ws)[0] == ws[0][0],
        unwords(ws).last() == ws.last().last(),
    decreases ws.len(),
{
    assert(is_word(ws[0]));
    if ws.len() > 1 {
        let rest = ws.drop_first();
        assert forall|i: int| 0 <= i < rest.len() implies is_word(#[trigger] rest[i]) by {
            assert(rest[i] == ws[i + 1]);
        }
        lemma_unwords_ends(rest);
        assert(rest.last() == ws.last());
    }
}

proof fn lemma_unwords_split(ws: Seq<Seq<char>>)
    requires
        forall|i: int| 0 <= i < ws.len() ==> is_word(#[trigger] ws[i]),
    ensures
        split_white_space(unwords(ws)) == ws,
    decreases ws.len(),
{
    if ws.len() == 0 {
        assert(split_white_space(unwords(ws)) =~= ws);
    } else if ws.len() == 1 {
        assert(is_word(ws[0]));
        lemma_split_word_then(ws[0], Seq::empty());
        assert(ws[0] + Seq::<char>::empty() =~= ws[0]);
        assert(seq![ws[0]] =~= ws);
    } else {
        let rest = ws.drop_first();
        assert forall|i: int| 0 <= i < rest.len() implies is_word(#[trigger] rest[i]) by {
            assert(rest[i] == ws[i + 1]);
        }
        lemma_unwords_split(rest);
        let t = seq![' '] + unwords(rest);
        assert(is_word(ws[0]));
        assert(is_white_space(t[0]));
        assert(unwords(ws) =~= ws[0] + t);
        lemma_split_word_then(ws[0], t);
        assert(t.drop_first() =~= unwords(rest));
        assert(split_white_space(t) == split_white_space(unwords(rest)));
        assert(seq![ws[0]] + rest =~= ws);
    }
}

/// Splitting words joined by single spaces gives the words back, and such a
/// line has nothing to trim.
pub proof fn lemma_unwords(ws: Seq<Seq<char>>)
    requires
        forall|i: int| 0 <= i < ws.len() ==> is_word(#[trigger] ws[i]),
    ensures
        split_white_space(unwords(ws)) == ws,
        trim(unwords(ws)) == unwords(ws),
{
    lemma_unwords_split(ws);
    let u = unwords(ws);
    if ws.len() > 0 {
        lemma_unwords_ends(ws);
        assert(is_word(ws[0]));
        assert(is_word(ws.last()));
        assert(!is_white_space(u[0]));
        assert(!is_white_space(u.last()));
        assert(trim_start(u) == u);
        assert(trim_end(u) == u);
    } else {
        assert(trim_start(u) == u);
        assert(trim_end(u) == u);
    }
}

/// A number written in decimal is a word, and reads back as itself.
pub proof fn lemma_decimal_word(n: nat)
    ensures
        is_word(decimal(n)),
        all_decimal(decimal(n)),
        digits_value(decimal(n)) == n,
        n <= u64::MAX ==> parse_u64_spec(decimal(n)) == Some(n as u64),
    decreases n,
{
    let s = decimal(n);
    let d = n % 10;
    assert(is_decimal_char(digit_char(d)) && char_digit(digit_char(d)) == d);
    if n < 10 {
        assert(s.drop_last() =~= Seq::<char>::empty());
        assert(s[0] == digit_char(d));
        assert(s.last() == s[0]);
        assert(all_decimal(s));
        assert(digits_value(s) == digits_value(s.drop_last()) * 10 + char_digit(s.last()));
    } else {
        lemma_decimal_word(n / 10);
        let p = decimal(n / 10);
        assert(s.drop_last() =~= p);
        assert(s.last() == digit_char(d));
        assert(digits_value(s) == digits_value(p) * 10 + char_digit(s.last()));
        assert((n / 10) * 10 + n % 10 == n);
        assert forall|i: int| 0 <= i < s.len() implies is_decimal_char(#[trigger] s[i]) by {
            if i < p.len() {
                assert(s[i] == p[i]);
            } else {
                assert(s[i] == s.last());
            }
        }
    }
    assert(forall|i: int| 0 <= i < s.len() ==> is_decimal_char(#[trigger] s[i]) ==> !is_white_space(s[i]));
    assert(is_decimal_char(s[0]));
}

} // verus!
