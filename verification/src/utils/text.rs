//! Text operations the library relies on: substring tests, case folding,
//! splitting into words and decimal rendering.

use vstd::prelude::*;
use vstd::std_specs::iter::IteratorSpec;
use vstd::string::{StrSliceExecFns, StringExecFns};

verus! {

/// `pattern` occurs in `text` as a contiguous run of characters.
pub open spec fn occurs_in(pattern: Seq<char>, text: Seq<char>) -> bool {
    exists|i: int|
        0 <= i && i + pattern.len() <= text.len() && #[trigger] text.subrange(i, i + pattern.len())
            == pattern
}

/// The characters of a text, in order.
pub fn text_chars(text: &str) -> (r: Vec<char>)
    ensures
        r@ == text@,
{
    broadcast use vstd::string::group_string_axioms;
    let mut chars = text.chars();
    let mut out: Vec<char> = Vec::new();
    loop
        invariant
            out@.len() <= text@.len(),
            out@ == text@.take(out@.len() as int),
            chars.obeys_prophetic_iter_laws(),
            chars.remaining() == text@.skip(out@.len() as int),
        ensures
            out@ == text@,
        decreases text@.len() - out@.len(),
    {
        match chars.next() {
            Some(c) => {
                assert(text@.take((out@.len() + 1) as int) =~= text@.take(out@.len() as int).push(c));
                out.push(c);
                assert(text@.skip(out@.len() as int) =~= text@.skip(out@.len() - 1).drop_first());
            },
            None => {
                assert(text@.take(out@.len() as int) =~= text@);
                break;
            },
        }
    }
    out
}

/// Whether `pattern` occurs in `text` at position `at`.
fn occurs_at(pattern: &Vec<char>, text: &Vec<char>, at: usize) -> (r: bool)
    requires
        at + pattern.len() <= text.len(),
    ensures
        r == (text@.subrange(at as int, at + pattern.len()) == pattern@),
{
    let mut j: usize = 0;
    while j < pattern.len()
        invariant
            0 <= j <= pattern.len(),
            at + pattern.len() <= text.len(),
            forall|k: int| 0 <= k < j ==> text@[at + k] == pattern@[k],
        decreases pattern.len() - j,
    {
        if text[at + j] != pattern[j] {
            assert(text@.subrange(at as int, at + pattern.len())[j as int] != pattern@[j as int]);
            return false;
        }
        j = j + 1;
    }
    assert(text@.subrange(at as int, at + pattern.len()) =~= pattern@);
    true
}

/// Whether `pattern` occurs in `text` as a contiguous run of characters (the empty
/// pattern occurs in every text), as std's `str::contains` tells.
pub fn str_contains(text: &str, pattern: &str) -> (r: bool)
    ensures
        r == occurs_in(pattern@, text@),
{
    let t = text_chars(text);
    let p = text_chars(pattern);
    if p.len() > t.len() {
        return false;
    }
    let last = t.len() - p.len();
    let mut i: usize = 0;
    loop
        invariant
            0 <= i <= last,
            last + p.len() == t.len(),
            t@ == text@,
            p@ == pattern@,
            forall|k: int| 0 <= k < i ==> #[trigger] t@.subrange(k, k + p@.len()) != p@,
        decreases last - i,
    {
        if occurs_at(&p, &t, i) {
            assert(t@.subrange(i as int, i + p@.len()) == p@);
            return true;
        }
        if i == last {
            return false;
        }
        i = i + 1;
    }
}

/// The lowercase form of a text, as std's `str::to_lowercase` computes it
/// (Unicode case mapping, character by character).
pub uninterp spec fn lowercase(text: Seq<char>) -> Seq<char>;

/// std: `str::to_lowercase`. Its result is named `lowercase`.
#[verifier::external_body]
pub(crate) fn to_lowercase(text: &str) -> (r: String)
    ensures
        r@ == lowercase(text@),
{
    text.to_lowercase()
}

/// Whether `c` has Unicode's White_Space property, which is what std's
/// `char::is_whitespace` tests.
pub open spec fn white_space(c: char) -> bool {
    let u = c as u32;
    ||| 0x9 <= u <= 0xD
    ||| u == 0x20
    ||| u == 0x85
    ||| u == 0xA0
    ||| u == 0x1680
    ||| 0x2000 <= u <= 0x200A
    ||| u == 0x2028
    ||| u == 0x2029
    ||| u == 0x202F
    ||| u == 0x205F
    ||| u == 0x3000
}

/// The word being read, as a list of at most one word.
pub open spec fn pending_word(current: Seq<char>) -> Seq<Seq<char>> {
    if current.len() == 0 {
        Seq::empty()
    } else {
        seq![current]
    }
}

/// The words of `text` when `current` holds the characters of the word being read.
pub open spec fn words_from(text: Seq<char>, current: Seq<char>) -> Seq<Seq<char>>
    decreases text.len(),
{
    if text.len() == 0 {
        pending_word(current)
    } else if white_space(text[0]) {
        pending_word(current) + words_from(text.drop_first(), Seq::empty())
    } else {
        words_from(text.drop_first(), current.push(text[0]))
    }
}

/// The words of a text: its maximal runs of non-whitespace characters, in order, as
/// std's `str::split_whitespace` yields them.
pub open spec fn whitespace_words(text: Seq<char>) -> Seq<Seq<char>> {
    words_from(text, Seq::empty())
}

/// Whether `c` has Unicode's White_Space property.
pub fn is_white_space(c: char) -> (r: bool)
    ensures
        r == white_space(c),
{
    let u = c as u32;
    (0x9 <= u && u <= 0xD) || u == 0x20 || u == 0x85 || u == 0xA0 || u == 0x1680 || (0x2000 <= u && u
        <= 0x200A) || u == 0x2028 || u == 0x2029 || u == 0x202F || u == 0x205F || u == 0x3000
}

/// The words of a text, each copied into a `String`, as `str::split_whitespace` yields them.
pub fn split_whitespace(text: &str) -> (r: Vec<String>)
    ensures
        r@.map_values(|w: String| w@) == whitespace_words(text@),
{
    let t = text_chars(text);
    let mut words: Vec<String> = Vec::new();
    let mut start: usize = 0;
    let mut i: usize = 0;
    assert(t@.skip(0) =~= t@);
    assert(t@.subrange(0, 0) =~= Seq::<char>::empty());
    assert(words@.map_values(|w: String| w@) + whitespace_words(t@) =~= whitespace_words(t@));
    while i < t.len()
        invariant
            0 <= start <= i <= t.len(),
            t@ == text@,
            words@.map_values(|w: String| w@) + words_from(t@.skip(i as int), t@.subrange(start as int, i as int))
                == whitespace_words(t@),
        decreases t.len() - i,
    {
        let c = t[i];
        let ghost ws = words@.map_values(|w: String| w@);
        let ghost cur = t@.subrange(start as int, i as int);
        assert(t@.skip(i as int).drop_first() =~= t@.skip(i + 1));
        assert(t@.skip(i as int)[0] == c);
        if is_white_space(c) {
            if start < i {
                let w = String::from_str(text.substring_char(start, i));
                words.push(w);
                assert(words@.map_values(|w: String| w@) =~= ws + pending_word(cur));
            } else {
                assert(cur =~= Seq::<char>::empty());
                assert(words@.map_values(|w: String| w@) =~= ws + pending_word(cur));
            }
            assert(t@.subrange(i + 1, i + 1) =~= Seq::<char>::empty());
            assert(ws + (pending_word(cur) + words_from(t@.skip(i + 1), Seq::empty())) =~= (ws
                + pending_word(cur)) + words_from(t@.skip(i + 1), Seq::empty()));
            start = i + 1;
        } else {
            assert(cur.push(c) =~= t@.subrange(start as int, i + 1));
        }
        i = i + 1;
    }
    let ghost ws = words@.map_values(|w: String| w@);
    let ghost cur = t@.subrange(start as int, i as int);
    assert(t@.skip(i as int) =~= Seq::<char>::empty());
    if start < i {
        let w = String::from_str(text.substring_char(start, i));
        words.push(w);
        assert(words@.map_values(|w: String| w@) =~= ws + pending_word(cur));
    } else {
        assert(cur =~= Seq::<char>::empty());
        assert(ws + pending_word(cur) =~= ws);
    }
    words
}

/// The decimal digit character for `d` (0 to 9).
pub open spec fn digit_char(d: nat) -> char {
    (48 + d) as char
}

/// The decimal rendering of `n`, without sign or leading zeros.
pub open spec fn decimal_text(n: nat) -> Seq<char>
    decreases n,
{
    if n < 10 {
        seq![digit_char(n)]
    } else {
        decimal_text(n / 10).push(digit_char(n % 10))
    }
}

/// The one-character text of the digit `d`.
fn digit_text(d: usize) -> (r: &'static str)
    requires
        d < 10,
    ensures
        r@ == seq![digit_char(d as nat)],
{
    proof {
        reveal_strlit("0");
        reveal_strlit("1");
        reveal_strlit("2");
        reveal_strlit("3");
        reveal_strlit("4");
        reveal_strlit("5");
        reveal_strlit("6");
        reveal_strlit("7");
        reveal_strlit("8");
        reveal_strlit("9");
    }
    let r = if d == 0 {
        "0"
    } else if d == 1 {
        "1"
    } else if d == 2 {
        "2"
    } else if d == 3 {
        "3"
    } else if d == 4 {
        "4"
    } else if d == 5 {
        "5"
    } else if d == 6 {
        "6"
    } else if d == 7 {
        "7"
    } else if d == 8 {
        "8"
    } else {
        "9"
    };
    assert(r@ =~= seq![digit_char(d as nat)]);
    r
}

/// The decimal rendering of `n`, as `usize::to_string` writes it.
pub fn usize_to_text(n: usize) -> (r: String)
    ensures
        r@ == decimal_text(n as nat),
    decreases n,
{
    if n < 10 {
        String::from_str(digit_text(n))
    } else {
        let mut head = usize_to_text(n / 10);
        head.append(digit_text(n % 10));
        assert(head@ =~= decimal_text((n / 10) as nat).push(digit_char((n % 10) as nat)));
        head
    }
}

} // verus!
