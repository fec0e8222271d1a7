//! Text helpers shared by the planner: whitespace tokenising and decimal
//! rendering, each specified over sequences of characters.

use vstd::prelude::*;
use vstd::string::*;

verus! {

/// Whether `c` separates tokens: the Unicode `White_Space` code points.
pub open spec fn is_space(c: char) -> bool {
    let n = c as u32;
    ||| 0x09 <= n <= 0x0d
    ||| n == 0x20
    ||| n == 0x85
    ||| n == 0xa0
    ||| n == 0x1680
    ||| 0x2000 <= n <= 0x200a
    ||| n == 0x2028
    ||| n == 0x2029
    ||| n == 0x202f
    ||| n == 0x205f
    ||| n == 0x3000
}

/// Executable form of [`is_space`].
pub fn is_whitespace(c: char) -> (r: bool)
    ensures
        r == is_space(c),
{
    let n: u32 = c as u32;
    (0x09 <= n && n <= 0x0d) || n == 0x20 || n == 0x85 || n == 0xa0 || n == 0x1680 || (0x2000 <= n
        && n <= 0x200a) || n == 0x2028 || n == 0x2029 || n == 0x202f || n == 0x205f || n == 0x3000
}

/// Length of the run of non-separator characters at the front of `s`.
pub open spec fn word_len(s: Seq<char>) -> nat
    decreases s.len(),
{
    if s.len() == 0 || is_space(s[0]) {
        0
    } else {
        1 + word_len(s.drop_first())
    }
}

/// The leading run never extends past the end of the text.
pub proof fn lemma_word_len_bound(s: Seq<char>)
    ensures
        word_len(s) <= s.len(),
    decreases s.len(),
{
    if s.len() != 0 && !is_space(s[0]) {
        lemma_word_len_bound(s.drop_first());
    }
}

/// The whitespace-delimited tokens of `s`, in order of appearance: leading
/// separators are skipped, then the longest run of non-separators is one
/// token, and so on to the end.
pub open spec fn tokens(s: Seq<char>) -> Seq<Seq<char>>
    decreases s.len(),
{
    if s.len() == 0 {
        Seq::empty()
    } else if is_space(s[0]) {
        tokens(s.drop_first())
    } else {
        let n = word_len(s) as int;
        proof {
            lemma_word_len_bound(s);
        }
        seq![s.take(n)] + tokens(s.skip(n))
    }
}

/// A word: at least one character, none of them a separator.
pub open spec fn is_word(t: Seq<char>) -> bool {
    t.len() > 0 && forall|k: int| 0 <= k < t.len() ==> !is_space(#[trigger] t[k])
}

/// No character of the leading run is a separator.
pub proof fn lemma_word_has_no_space(s: Seq<char>)
    ensures
        forall|k: int| 0 <= k < word_len(s) ==> !is_space(#[trigger] s[k]),
    decreases s.len(),
{
    if s.len() != 0 && !is_space(s[0]) {
        lemma_word_has_no_space(s.drop_first());
        lemma_word_len_bound(s);
        assert forall|k: int| 0 <= k < word_len(s) implies !is_space(#[trigger] s[k]) by {
            if k > 0 {
                assert(s[k] == s.drop_first()[k - 1]);
            }
        }
    }
}

/// Every token is a word: non-empty and free of separators.
pub proof fn lemma_tokens_are_words(s: Seq<char>)
    ensures
        forall|i: int| 0 <= i < tokens(s).len() ==> is_word(#[trigger] tokens(s)[i]),
    decreases s.len(),
{
    if s.len() == 0 {
        assert(tokens(s).len() == 0);
    } else if is_space(s[0]) {
        lemma_tokens_are_words(s.drop_first());
        assert(tokens(s) == tokens(s.drop_first()));
    } else {
        let n = word_len(s) as int;
        lemma_word_len_bound(s);
        lemma_word_has_no_space(s);
        assert(tokens(s) == seq![s.take(n)] + tokens(s.skip(n)));
        lemma_tokens_are_words(s.skip(n));
        assert(is_word(s.take(n))) by {
            assert forall|k: int| 0 <= k < s.take(n).len() implies !is_space(
                #[trigger] s.take(n)[k],
            ) by {
                assert(s.take(n)[k] == s[k]);
            }
        }
        assert forall|i: int| 0 <= i < tokens(s).len() implies is_word(#[trigger] tokens(s)[i]) by {
            if i > 0 {
                assert(tokens(s)[i] == tokens(s.skip(n))[i - 1]);
            } else {
                assert(tokens(s)[0] == s.take(n));
            }
        }
    }
}

/// A non-empty text without separators is its own single token.
pub proof fn lemma_single_token(s: Seq<char>)
    requires
        is_word(s),
    ensures
        tokens(s) == seq![s],
{
    lemma_word_len_full(s);
    assert(s.take(s.len() as int) == s);
    assert(tokens(s.skip(s.len() as int)) == Seq::<Seq<char>>::empty());
    assert(seq![s] + Seq::<Seq<char>>::empty() == seq![s]);
}

/// Without separators the leading run is the whole text.
pub proof fn lemma_word_len_full(s: Seq<char>)
    requires
        forall|k: int| 0 <= k < s.len() ==> !is_space(#[trigger] s[k]),
    ensures
        word_len(s) == s.len(),
    decreases s.len(),
{
    if s.len() != 0 {
        assert forall|k: int| 0 <= k < s.drop_first().len() implies !is_space(
            #[trigger] s.drop_first()[k],
        ) by {
            assert(s.drop_first()[k] == s[k + 1]);
        }
        lemma_word_len_full(s.drop_first());
    }
}

/// A leading run that stops inside a text stops there whatever follows the
/// text; so does one that fills the text, if a separator follows.
pub proof fn lemma_word_len_joined(head: Seq<char>, tail: Seq<char>)
    requires
        word_len(head) < head.len() || (tail.len() > 0 && is_space(tail[0])),
    ensures
        word_len(head + tail) == word_len(head),
    decreases head.len(),
{
    let all = head + tail;
    if head.len() == 0 {
        assert(all =~= tail);
    } else {
        assert(all[0] == head[0]);
        if !is_space(head[0]) {
            assert(all.drop_first() =~= head.drop_first() + tail);
            lemma_word_len_joined(head.drop_first(), tail);
        }
    }
}

/// Tokens are delimited by separators and by nothing else: the tokens of
/// two texts with a separator between them are the tokens of the first
/// followed by the tokens of the second.
pub proof fn lemma_tokens_joined(head: Seq<char>, separator: char, tail: Seq<char>)
    requires
        is_space(separator),
    ensures
        tokens(head + seq![separator] + tail) == tokens(head) + tokens(tail),
    decreases head.len(),
{
    let rest = seq![separator] + tail;
    let all = head + rest;
    assert(head + seq![separator] + tail =~= all);
    if head.len() == 0 {
        assert(all =~= rest);
        assert(rest.drop_first() =~= tail);
        assert(tokens(head) + tokens(tail) =~= tokens(tail));
    } else {
        assert(all[0] == head[0]);
        if is_space(head[0]) {
            assert(all.drop_first() =~= head.drop_first() + seq![separator] + tail);
            lemma_tokens_joined(head.drop_first(), separator, tail);
        } else {
            let n = word_len(head) as int;
            lemma_word_len_bound(head);
            lemma_word_len_joined(head, rest);
            assert(all.take(n) =~= head.take(n));
            assert(all.skip(n) =~= head.skip(n) + seq![separator] + tail);
            lemma_tokens_joined(head.skip(n), separator, tail);
            assert(seq![head.take(n)] + (tokens(head.skip(n)) + tokens(tail)) =~= (seq![
                head.take(n),
            ] + tokens(head.skip(n))) + tokens(tail));
        }
    }
}

/// The characters of `s`, one vector element each.
pub fn chars_of(s: &str) -> (v: Vec<char>)
    ensures
        v@ == s@,
{
    let mut v: Vec<char> = Vec::new();
    for c in it: s.chars()
        invariant
            v@ == it.seq().take(it.index() as int),
            it.seq() == s@,
    {
        v.push(c);
    }
    v
}

/// Splits `s` at whitespace, as `str::split_whitespace` does, and returns the
/// tokens as owned strings.
pub fn split_whitespace(s: &str) -> (out: Vec<String>)
    ensures
        out.deep_view() == tokens(s@),
{
    let chars = chars_of(s);
    let len = chars.len();
    let mut out: Vec<String> = Vec::new();
    let mut i: usize = 0;
    proof {
        assert(s@.skip(0) == s@);
        assert(out.deep_view() == Seq::<Seq<char>>::empty());
        assert(Seq::<Seq<char>>::empty() + tokens(s@) == tokens(s@));
    }
    while i < len
        invariant
            chars@ == s@,
            len == chars.len(),
            i <= len,
            tokens(s@) == out.deep_view() + tokens(s@.skip(i as int)),
        decreases len - i,
    {
        let ghost rest = s@.skip(i as int);
        if is_whitespace(chars[i]) {
            proof {
                assert(rest.drop_first() == s@.skip(i + 1));
            }
            i = i + 1;
        } else {
            let mut j: usize = i + 1;
            proof {
                assert(rest.drop_first() == s@.skip(i + 1));
            }
            while j < len && !is_whitespace(chars[j])
                invariant
                    chars@ == s@,
                    len == chars.len(),
                    i < j <= len,
                    word_len(s@.skip(i as int)) == (j - i) + word_len(s@.skip(j as int)),
                decreases len - j,
            {
                proof {
                    assert(s@.skip(j as int).drop_first() == s@.skip(j + 1));
                }
                j = j + 1;
            }
            let word = s.substring_char(i, j);
            let ghost before = out.deep_view();
            out.push(word.to_owned());
            proof {
                let n = word_len(rest) as int;
                assert(n == j - i);
                assert(rest.take(n) == s@.subrange(i as int, j as int));
                assert(rest.skip(n) == s@.skip(j as int));
                assert(out.deep_view() == before + seq![word@]);
                assert(tokens(rest) == seq![word@] + tokens(s@.skip(j as int)));
                assert(before + (seq![word@] + tokens(s@.skip(j as int))) == (before + seq![
                    word@,
                ]) + tokens(s@.skip(j as int)));
            }
            i = j;
        }
    }
    proof {
        assert(tokens(s@.skip(len as int)) == Seq::<Seq<char>>::empty());
        assert(out.deep_view() + Seq::<Seq<char>>::empty() == out.deep_view());
    }
    out
}

/// Whether two texts hold the same characters.
pub fn same_text(a: &str, b: &str) -> (r: bool)
    ensures
        r == (a@ == b@),
{
    let x = a.to_owned();
    let y = b.to_owned();
    x == y
}

/// Whether `word` stands in `text` at position `at`.
pub open spec fn occurs_at(text: Seq<char>, word: Seq<char>, at: int) -> bool {
    0 <= at && at + word.len() <= text.len() && text.subrange(at, at + word.len()) == word
}

/// Whether `word` stands somewhere in `text`.
pub open spec fn mentions(text: Seq<char>, word: Seq<char>) -> bool {
    exists|at: int| occurs_at(text, word, at)
}

/// Whether `word` stands in `text` at position `at`, which leaves room for it.
fn matches_at(text: &Vec<char>, word: &Vec<char>, at: usize) -> (r: bool)
    requires
        at + word.len() <= text.len(),
    ensures
        r == occurs_at(text@, word@, at as int),
{
    let mut k: usize = 0;
    while k < word.len()
        invariant
            k <= word.len(),
            at + word.len() <= text.len(),
            forall|m: int| 0 <= m < k ==> text@[at + m] == word@[m],
        decreases word.len() - k,
    {
        if text[at + k] != word[k] {
            assert(text@.subrange(at as int, at + word.len())[k as int] != word@[k as int]);
            return false;
        }
        k = k + 1;
    }
    assert(text@.subrange(at as int, at + word.len()) =~= word@);
    true
}

/// Searches `text` for `word`.
pub fn contains(text: &str, word: &str) -> (r: bool)
    ensures
        r == mentions(text@, word@),
{
    let hay = chars_of(text);
    let needle = chars_of(word);
    if needle.len() > hay.len() {
        return false;
    }
    let last = hay.len() - needle.len();
    let mut at: usize = 0;
    loop
        invariant
            hay@ == text@,
            needle@ == word@,
            last == hay.len() - needle.len(),
            at <= last,
            forall|i: int| 0 <= i < at ==> !occurs_at(text@, word@, i),
        decreases last - at,
    {
        if matches_at(&hay, &needle, at) {
            assert(occurs_at(text@, word@, at as int));
            return true;
        }
        if at == last {
            return false;
        }
        at = at + 1;
    }
}

/// The character that writes the decimal digit `d`.
pub open spec fn digit(d: nat) -> char {
    if d == 0 {
        '0'
    } else if d == 1 {
        '1'
    } else if d == 2 {
        '2'
    } else if d == 3 {
        '3'
    } else if d == 4 {
        '4'
    } else if d == 5 {
        '5'
    } else if d == 6 {
        '6'
    } else if d == 7 {
        '7'
    } else if d == 8 {
        '8'
    } else {
        '9'
    }
}

/// The decimal numeral of `n`, without sign or leading zeros.
pub open spec fn decimal(n: nat) -> Seq<char>
    decreases n,
{
    if n < 10 {
        seq![digit(n)]
    } else {
        decimal(n / 10).push(digit(n % 10))
    }
}

/// The one-character text of the digit `d`.
fn digit_text(d: u64) -> (r: &'static str)
    requires
        d < 10,
    ensures
        r@ == seq![digit(d as nat)],
{
    proof {
        reveal_strlit("0");
        reveal_strlit("1");
        reveal_strlit("2");
        reveal_strlit("3");
        reveal_strlit("4");
        reveal_strlit("5");
        reveal_strlit("6");
        reveal_strlit("7");
        reveal_strlit("8");
        reveal_strlit("9");
    }
    let r = if d == 0 {
        "0"
    } else if d == 1 {
        "1"
    } else if d == 2 {
        "2"
    } else if d == 3 {
        "3"
    } else if d == 4 {
        "4"
    } else if d == 5 {
        "5"
    } else if d == 6 {
        "6"
    } else if d == 7 {
        "7"
    } else if d == 8 {
        "8"
    } else {
        "9"
    };
    assert(r@ =~= seq![digit(d as nat)]);
    r
}

/// Writes `n` in decimal.
pub fn decimal_string(n: u64) -> (r: String)
    ensures
        r@ == decimal(n as nat),
    decreases n,
{
    if n < 10 {
        String::from_str(digit_text(n))
    } else {
        let mut r = decimal_string(n / 10);
        r.append(digit_text(n % 10));
        assert(r@ =~= decimal(n as nat));
        r
    }
}

} // verus!
