//! Escape bytes that may have special meaning in a POSIX shell, spaces included.
//!
//! A byte string made only of "safe" bytes is passed on as it is; any other
//! string is wrapped in single quotes, and each `'` or `!` inside it is written
//! as `'\x'` (leave the quotes, escape the byte, re-enter the quotes).

use vstd::prelude::*;

use crate::text::{chars_of, string_of};

verus! {

/// The bytes that a shell never interprets in an unquoted word.
pub open spec fn is_safe_byte(b: u8) -> bool {
    ||| (97u8 <= b && b <= 122u8)  // a-z
    ||| (65u8 <= b && b <= 90u8)  // A-Z
    ||| (48u8 <= b && b <= 57u8)  // 0-9
    ||| b == 45u8  // -
    ||| b == 95u8  // _
    ||| b == 61u8  // =
    ||| b == 47u8  // /
    ||| b == 44u8  // ,
    ||| b == 46u8  // .
    ||| b == 43u8  // +
}

/// The alphabet of a shell word: which symbols may stand unquoted, and the
/// single quote, backslash and exclamation mark of that alphabet. The same
/// quoting works on bytes and on characters.
#[verifier::reject_recursive_types(T)]
pub ghost struct Alphabet<T> {
    pub safe: spec_fn(T) -> bool,
    pub quote: T,
    pub backslash: T,
    pub bang: T,
    pub space: T,
}

/// The quote, the backslash and the space are distinct and none of them may
/// stand unquoted, so that a quoted word reads back unambiguously.
pub open spec fn well_formed_alphabet<T>(a: Alphabet<T>) -> bool {
    &&& !(a.safe)(a.quote)
    &&& !(a.safe)(a.backslash)
    &&& a.quote != a.backslash
    &&& !(a.safe)(a.space)
    &&& a.space != a.quote
    &&& a.space != a.backslash
}

/// Whether every symbol of `s` may stand unquoted.
pub open spec fn all_safe_in<T>(a: Alphabet<T>, s: Seq<T>) -> bool {
    forall|i: int| 0 <= i < s.len() ==> (a.safe)(#[trigger] s[i])
}

/// How one symbol is written inside the single quotes: a quote or an
/// exclamation mark leaves the quotes, is escaped, and re-enters them.
pub open spec fn quoted_piece_in<T>(a: Alphabet<T>, b: T) -> Seq<T> {
    if b == a.quote || b == a.bang {
        seq![a.quote, a.backslash, b, a.quote]
    } else {
        seq![b]
    }
}

/// The body that stands between the outer single quotes.
pub open spec fn quoted_body_in<T>(a: Alphabet<T>, s: Seq<T>) -> Seq<T>
    decreases s.len(),
{
    if s.len() == 0 {
        Seq::empty()
    } else {
        quoted_body_in(a, s.drop_last()) + quoted_piece_in(a, s.last())
    }
}

/// The escaped form of `s`: `s` itself when it is non-empty and all safe,
/// else `s` in single quotes.
pub open spec fn escaped_in<T>(a: Alphabet<T>, s: Seq<T>) -> Seq<T> {
    if s.len() > 0 && all_safe_in(a, s) {
        s
    } else {
        seq![a.quote] + quoted_body_in(a, s) + seq![a.quote]
    }
}

/// The word that a POSIX shell reads from `w`, where `w` may only use single
/// quotes, backslash escapes outside the quotes, and safe symbols outside the
/// quotes. `quoted` says whether reading starts inside single quotes.
/// `None` when `w` uses anything else or leaves a quote open.
pub open spec fn shell_word_in<T>(a: Alphabet<T>, w: Seq<T>, quoted: bool) -> Option<Seq<T>>
    decreases w.len(),
{
    if w.len() == 0 {
        if quoted {
            None
        } else {
            Some(Seq::empty())
        }
    } else if quoted {
        if w[0] == a.quote {
            shell_word_in(a, w.drop_first(), false)
        } else {
            match shell_word_in(a, w.drop_first(), true) {
                Some(r) => Some(seq![w[0]] + r),
                None => None,
            }
        }
    } else if w[0] == a.quote {
        shell_word_in(a, w.drop_first(), true)
    } else if w[0] == a.backslash {
        if w.len() < 2 {
            None
        } else {
            match shell_word_in(a, w.subrange(2, w.len() as int), false) {
                Some(r) => Some(seq![w[1]] + r),
                None => None,
            }
        }
    } else if (a.safe)(w[0]) {
        match shell_word_in(a, w.drop_first(), false) {
            Some(r) => Some(seq![w[0]] + r),
            None => None,
        }
    } else {
        None
    }
}

proof fn lemma_safe_word<T>(a: Alphabet<T>, s: Seq<T>)
    requires
        well_formed_alphabet(a),
        all_safe_in(a, s),
    ensures
        shell_word_in(a, s, false) == Some(s),
    decreases s.len(),
{
    if s.len() > 0 {
        assert((a.safe)(s[0]));
        lemma_safe_word(a, s.drop_first());
        assert(seq![s[0]] + s.drop_first() =~= s);
    }
}

proof fn lemma_piece<T>(a: Alphabet<T>, b: T, rest: Seq<T>)
    requires
        well_formed_alphabet(a),
    ensures
        shell_word_in(a, quoted_piece_in(a, b) + rest, true) == match shell_word_in(a, rest, true) {
            Some(r) => Some(seq![b] + r),
            None => None::<Seq<T>>,
        },
{
    let w = quoted_piece_in(a, b) + rest;
    if b == a.quote || b == a.bang {
        let w1 = w.drop_first();
        assert(w[0] == a.quote);
        assert(w1 =~= seq![a.backslash, b, a.quote] + rest);
        assert(shell_word_in(a, w, true) == shell_word_in(a, w1, false));
        let w2 = w1.subrange(2, w1.len() as int);
        assert(w2 =~= seq![a.quote] + rest);
        assert(w1[0] == a.backslash && w1[1] == b);
        assert(w2[0] == a.quote);
        assert(w2.drop_first() =~= rest);
        assert(shell_word_in(a, w2, false) == shell_word_in(a, rest, true));
    } else {
        assert(w[0] == b);
        assert(w.drop_first() =~= rest);
    }
}

proof fn lemma_quoted_body<T>(a: Alphabet<T>, s: Seq<T>, rest: Seq<T>)
    requires
        well_formed_alphabet(a),
    ensures
        shell_word_in(a, quoted_body_in(a, s) + rest, true) == match shell_word_in(a, rest, true) {
            Some(r) => Some(s + r),
            None => None::<Seq<T>>,
        },
    decreases s.len(),
{
    if s.len() == 0 {
        assert(quoted_body_in(a, s) + rest =~= rest);
        match shell_word_in(a, rest, true) {
            Some(r) => {
                assert(s + r =~= r);
            },
            None => {},
        }
    } else {
        let b = s.last();
        let s0 = s.drop_last();
        let rest1 = quoted_piece_in(a, b) + rest;
        assert(quoted_body_in(a, s) + rest =~= quoted_body_in(a, s0) + rest1);
        lemma_quoted_body(a, s0, rest1);
        lemma_piece(a, b, rest);
        match shell_word_in(a, rest, true) {
            Some(r) => {
                assert(s0 + (seq![b] + r) =~= s + r);
            },
            None => {},
        }
    }
}

/// A shell reads back exactly what was escaped: for every string `s` over a
/// well-formed alphabet, `escaped_in(a, s)` is one shell word whose value is `s`.
pub proof fn lemma_escaped_in_round_trip<T>(a: Alphabet<T>, s: Seq<T>)
    requires
        well_formed_alphabet(a),
    ensures
        shell_word_in(a, escaped_in(a, s), false) == Some(s),
{
    if s.len() > 0 && all_safe_in(a, s) {
        lemma_safe_word(a, s);
    } else {
        let w = seq![a.quote] + quoted_body_in(a, s) + seq![a.quote];
        assert(w[0] == a.quote);
        assert(w.drop_first() =~= quoted_body_in(a, s) + seq![a.quote]);
        lemma_quoted_body(a, s, seq![a.quote]);
        let q = seq![a.quote];
        assert(q[0] == a.quote);
        assert(q.drop_first() =~= Seq::<T>::empty());
        assert(shell_word_in(a, Seq::<T>::empty(), false) == Some(Seq::<T>::empty()));
        assert(shell_word_in(a, q, true) == Some(Seq::<T>::empty()));
        assert(s + Seq::<T>::empty() =~= s);
    }
}

/// The word being read extended by `x` (a word starts empty).
pub open spec fn extend_word<T>(cur: Option<Seq<T>>, x: Seq<T>) -> Option<Seq<T>> {
    match cur {
        Some(c) => Some(c + x),
        None => Some(x),
    }
}

/// `w` in front of the list of words `ws`, if any.
pub open spec fn prepend_word<T>(w: Seq<T>, ws: Option<Seq<Seq<T>>>) -> Option<Seq<Seq<T>>> {
    match ws {
        Some(l) => Some(seq![w] + l),
        None => None,
    }
}

/// The words that a POSIX shell reads from the command line `w`, split at
/// unquoted spaces, with the same quoting as `shell_word_in`. `quoted` says
/// whether reading is inside single quotes, `cur` holds the word being read
/// (`None` between words). `None` when the line uses anything else or leaves a
/// quote open.
pub open spec fn shell_words_in<T>(
    a: Alphabet<T>,
    w: Seq<T>,
    quoted: bool,
    cur: Option<Seq<T>>,
) -> Option<Seq<Seq<T>>>
    decreases w.len(),
{
    if w.len() == 0 {
        if quoted {
            None
        } else {
            match cur {
                Some(c) => Some(seq![c]),
                None => Some(Seq::empty()),
            }
        }
    } else if quoted {
        if w[0] == a.quote {
            shell_words_in(a, w.drop_first(), false, cur)
        } else {
            shell_words_in(a, w.drop_first(), true, extend_word(cur, seq![w[0]]))
        }
    } else if w[0] == a.space {
        match cur {
            Some(c) => prepend_word(c, shell_words_in(a, w.drop_first(), false, None)),
            None => shell_words_in(a, w.drop_first(), false, None),
        }
    } else if w[0] == a.quote {
        shell_words_in(a, w.drop_first(), true, extend_word(cur, Seq::empty()))
    } else if w[0] == a.backslash {
        if w.len() < 2 {
            None
        } else {
            shell_words_in(a, w.subrange(2, w.len() as int), false, extend_word(cur, seq![w[1]]))
        }
    } else if (a.safe)(w[0]) {
        shell_words_in(a, w.drop_first(), false, extend_word(cur, seq![w[0]]))
    } else {
        None
    }
}

proof fn lemma_words_safe<T>(a: Alphabet<T>, s: Seq<T>, rest: Seq<T>, c: Seq<T>)
    requires
        well_formed_alphabet(a),
        all_safe_in(a, s),
    ensures
        shell_words_in(a, s + rest, false, Some(c)) == shell_words_in(a, rest, false, Some(c + s)),
    decreases s.len(),
{
    if s.len() == 0 {
        assert(s + rest =~= rest);
        assert(c + s =~= c);
    } else {
        let w = s + rest;
        assert((a.safe)(s[0]));
        assert(w[0] == s[0]);
        assert(w.drop_first() =~= s.drop_first() + rest);
        lemma_words_safe(a, s.drop_first(), rest, c + seq![s[0]]);
        assert(c + seq![s[0]] + s.drop_first() =~= c + s);
    }
}

proof fn lemma_words_piece<T>(a: Alphabet<T>, b: T, rest: Seq<T>, c: Seq<T>)
    requires
        well_formed_alphabet(a),
    ensures
        shell_words_in(a, quoted_piece_in(a, b) + rest, true, Some(c)) == shell_words_in(
            a,
            rest,
            true,
            Some(c.push(b)),
        ),
{
    let w = quoted_piece_in(a, b) + rest;
    if b == a.quote || b == a.bang {
        let w1 = w.drop_first();
        assert(w[0] == a.quote);
        assert(w1 =~= seq![a.backslash, b, a.quote] + rest);
        let w2 = w1.subrange(2, w1.len() as int);
        assert(w2 =~= seq![a.quote] + rest);
        assert(w1[0] == a.backslash && w1[1] == b);
        assert(w2[0] == a.quote);
        assert(w2.drop_first() =~= rest);
        assert(c + seq![b] =~= c.push(b));
        assert(c.push(b) + Seq::<T>::empty() =~= c.push(b));
        assert(shell_words_in(a, w, true, Some(c)) == shell_words_in(a, w1, false, Some(c)));
        assert(shell_words_in(a, w1, false, Some(c)) == shell_words_in(
            a,
            w2,
            false,
            Some(c.push(b)),
        ));
        assert(shell_words_in(a, w2, false, Some(c.push(b))) == shell_words_in(
            a,
            rest,
            true,
            Some(c.push(b)),
        ));
    } else {
        assert(w[0] == b);
        assert(w.drop_first() =~= rest);
        assert(c + seq![b] =~= c.push(b));
    }
}

proof fn lemma_words_body<T>(a: Alphabet<T>, s: Seq<T>, rest: Seq<T>, c: Seq<T>)
    requires
        well_formed_alphabet(a),
    ensures
        shell_words_in(a, quoted_body_in(a, s) + rest, true, Some(c)) == shell_words_in(
            a,
            rest,
            true,
            Some(c + s),
        ),
    decreases s.len(),
{
    if s.len() == 0 {
        assert(quoted_body_in(a, s) + rest =~= rest);
        assert(c + s =~= c);
    } else {
        let b = s.last();
        let s0 = s.drop_last();
        let rest1 = quoted_piece_in(a, b) + rest;
        assert(quoted_body_in(a, s) + rest =~= quoted_body_in(a, s0) + rest1);
        lemma_words_body(a, s0, rest1, c);
        lemma_words_piece(a, b, rest, c + s0);
        assert((c + s0).push(b) =~= c + s);
    }
}

/// Reading an escaped word and then `rest`: the word read so far is the
/// value that was escaped.
proof fn lemma_words_escaped<T>(a: Alphabet<T>, s: Seq<T>, rest: Seq<T>)
    requires
        well_formed_alphabet(a),
    ensures
        shell_words_in(a, escaped_in(a, s) + rest, false, None) == shell_words_in(
            a,
            rest,
            false,
            Some(s),
        ),
{
    if s.len() > 0 && all_safe_in(a, s) {
        let w = s + rest;
        assert(w[0] == s[0]);
        assert((a.safe)(s[0]));
        assert(w.drop_first() =~= s.drop_first() + rest);
        assert forall|i: int| 0 <= i < s.drop_first().len() implies (a.safe)(
            #[trigger] s.drop_first()[i],
        ) by {
            assert(s.drop_first()[i] == s[i + 1]);
        }
        lemma_words_safe(a, s.drop_first(), rest, seq![s[0]]);
        assert(seq![s[0]] + s.drop_first() =~= s);
    } else {
        let w = seq![a.quote] + quoted_body_in(a, s) + seq![a.quote] + rest;
        assert(w[0] == a.quote);
        assert(w.drop_first() =~= quoted_body_in(a, s) + (seq![a.quote] + rest));
        assert(extend_word(None::<Seq<T>>, Seq::<T>::empty()) == Some(Seq::<T>::empty()));
        lemma_words_body(a, s, seq![a.quote] + rest, Seq::empty());
        let q = seq![a.quote] + rest;
        assert(q[0] == a.quote);
        assert(q.drop_first() =~= rest);
        assert(Seq::<T>::empty() + s =~= s);
    }
}

/// The command line made of the words `ws`, each escaped, separated by single
/// spaces.
pub open spec fn escaped_line_in<T>(a: Alphabet<T>, ws: Seq<Seq<T>>) -> Seq<T>
    decreases ws.len(),
{
    if ws.len() <= 1 {
        if ws.len() == 0 {
            Seq::empty()
        } else {
            escaped_in(a, ws[0])
        }
    } else {
        escaped_line_in(a, ws.drop_last()) + seq![a.space] + escaped_in(a, ws.last())
    }
}

proof fn lemma_line_front<T>(a: Alphabet<T>, ws: Seq<Seq<T>>)
    requires
        ws.len() >= 2,
    ensures
        escaped_line_in(a, ws) == escaped_in(a, ws[0]) + seq![a.space] + escaped_line_in(
            a,
            ws.drop_first(),
        ),
    decreases ws.len(),
{
    if ws.len() == 2 {
        assert(ws.drop_last() =~= seq![ws[0]]);
        assert(ws.drop_first() =~= seq![ws[1]]);
        assert(escaped_line_in(a, ws.drop_last()) == escaped_in(a, ws[0]));
        assert(escaped_line_in(a, ws.drop_first()) == escaped_in(a, ws[1]));
        assert(ws.last() == ws[1]);
    } else {
        lemma_line_front(a, ws.drop_last());
        assert(ws.drop_last().drop_first() =~= ws.drop_first().drop_last());
        assert(ws.drop_first().last() == ws.last());
        assert(ws.drop_last()[0] == ws[0]);
        let e0 = escaped_in(a, ws[0]);
        let mid = escaped_line_in(a, ws.drop_first().drop_last());
        let el = escaped_in(a, ws.last());
        assert(escaped_line_in(a, ws.drop_first()) == mid + seq![a.space] + el);
        assert(escaped_line_in(a, ws) == (e0 + seq![a.space] + mid) + seq![a.space] + el);
        assert((e0 + seq![a.space] + mid) + seq![a.space] + el =~= e0 + seq![a.space] + (mid
            + seq![a.space] + el));
    }
}

/// A shell splits a command line made of escaped words back into exactly
/// those words: every word reaches the program as one argument, unchanged.
pub proof fn lemma_escaped_line_words<T>(a: Alphabet<T>, ws: Seq<Seq<T>>)
    requires
        well_formed_alphabet(a),
        ws.len() >= 1,
    ensures
        shell_words_in(a, escaped_line_in(a, ws), false, None) == Some(ws),
    decreases ws.len(),
{
    if ws.len() == 1 {
        lemma_words_escaped(a, ws[0], Seq::empty());
        assert(escaped_in(a, ws[0]) + Seq::<T>::empty() =~= escaped_in(a, ws[0]));
        assert(seq![ws[0]] =~= ws);
    } else {
        lemma_line_front(a, ws);
        let rest = seq![a.space] + escaped_line_in(a, ws.drop_first());
        assert(escaped_line_in(a, ws) =~= escaped_in(a, ws[0]) + rest);
        lemma_words_escaped(a, ws[0], rest);
        assert(rest[0] == a.space);
        assert(rest.drop_first() =~= escaped_line_in(a, ws.drop_first()));
        lemma_escaped_line_words(a, ws.drop_first());
        assert(seq![ws[0]] + ws.drop_first() =~= ws);
    }
}

/// The byte alphabet.
pub open spec fn byte_alphabet() -> Alphabet<u8> {
    Alphabet { safe: |b: u8| is_safe_byte(b), quote: 39u8, backslash: 92u8, bang: 33u8, space: 32u8 }
}

/// The characters that a shell never interprets in an unquoted word.
pub open spec fn is_safe_char(c: char) -> bool {
    ||| ('a' <= c && c <= 'z')
    ||| ('A' <= c && c <= 'Z')
    ||| ('0' <= c && c <= '9')
    ||| c == '-'
    ||| c == '_'
    ||| c == '='
    ||| c == '/'
    ||| c == ','
    ||| c == '.'
    ||| c == '+'
}

/// The character alphabet.
pub open spec fn char_alphabet() -> Alphabet<char> {
    Alphabet {
        safe: |c: char| is_safe_char(c),
        quote: '\'',
        backslash: '\\',
        bang: '!',
        space: ' ',
    }
}

/// What `escape` returns for the bytes `s`.
pub open spec fn escaped(s: Seq<u8>) -> Seq<u8> {
    escaped_in(byte_alphabet(), s)
}

/// The escaped form of the characters `s`.
pub open spec fn escaped_chars(s: Seq<char>) -> Seq<char> {
    escaped_in(char_alphabet(), s)
}

/// The words that a shell reads from the command line `w` (characters).
pub open spec fn shell_words(w: Seq<char>) -> Option<Seq<Seq<char>>> {
    shell_words_in(char_alphabet(), w, false, None)
}

/// The command line of the words `ws`, each escaped, separated by spaces.
pub open spec fn escaped_line(ws: Seq<Seq<char>>) -> Seq<char> {
    escaped_line_in(char_alphabet(), ws)
}

/// A remote shell splits a command line of escaped words back into exactly
/// those words.
pub proof fn lemma_escaped_line(ws: Seq<Seq<char>>)
    requires
        ws.len() >= 1,
    ensures
        shell_words(escaped_line(ws)) == Some(ws),
{
    lemma_escaped_line_words(char_alphabet(), ws);
}

/// The word that a shell reads from the bytes `w`.
pub open spec fn shell_word(w: Seq<u8>) -> Option<Seq<u8>> {
    shell_word_in(byte_alphabet(), w, false)
}

/// The word that a shell reads from the characters `w`.
pub open spec fn shell_word_chars(w: Seq<char>) -> Option<Seq<char>> {
    shell_word_in(char_alphabet(), w, false)
}

/// A shell reads back exactly the bytes that `escape` was given: `escaped(s)`
/// is a single shell word whose value is `s`, for every byte string `s`.
pub proof fn lemma_escape_round_trip(s: Seq<u8>)
    ensures
        shell_word(escaped(s)) == Some(s),
{
    lemma_escaped_in_round_trip(byte_alphabet(), s);
}

/// The same for characters: an argument escaped as `escaped_chars` reaches
/// the remote program as one word, unchanged.
pub proof fn lemma_escape_chars_round_trip(s: Seq<char>)
    ensures
        shell_word_chars(escaped_chars(s)) == Some(s),
{
    lemma_escaped_in_round_trip(char_alphabet(), s);
}

/// Whether `byte` may stand unquoted in a shell word.
pub fn whitelisted(byte: u8) -> (r: bool)
    ensures
        r == is_safe_byte(byte),
{
    (97u8 <= byte && byte <= 122u8) || (65u8 <= byte && byte <= 90u8) || (48u8 <= byte && byte
        <= 57u8) || byte == 45u8 || byte == 95u8 || byte == 61u8 || byte == 47u8 || byte == 44u8
        || byte == 46u8 || byte == 43u8
}

/// Escape the bytes `s` so that a shell reads them back as one word.
pub fn escape(s: &[u8]) -> (r: Vec<u8>)
    ensures
        r@ == escaped(s@),
{
    let n = s.len();
    let mut all = true;
    let mut i: usize = 0;
    while i < n
        invariant
            n == s@.len(),
            i <= n,
            all == (forall|k: int| 0 <= k < i ==> is_safe_byte(#[trigger] s@[k])),
        decreases n - i,
    {
        if !whitelisted(s[i]) {
            all = false;
        }
        i = i + 1;
    }
    if n > 0 && all {
        let mut out: Vec<u8> = Vec::new();
        let mut j: usize = 0;
        while j < n
            invariant
                n == s@.len(),
                j <= n,
                out@ =~= s@.take(j as int),
            decreases n - j,
        {
            out.push(s[j]);
            j = j + 1;
        }
        assert(s@.take(n as int) =~= s@);
        return out;
    }
    let mut escaped_bytes: Vec<u8> = Vec::new();
    escaped_bytes.push(39u8);
    let mut j: usize = 0;
    while j < n
        invariant
            n == s@.len(),
            j <= n,
            escaped_bytes@ == seq![39u8] + quoted_body_in(byte_alphabet(), s@.take(j as int)),
        decreases n - j,
    {
        let b = s[j];
        assert(s@.take(j + 1).drop_last() =~= s@.take(j as int));
        assert(s@.take(j + 1).last() == b);
        if b == 39u8 || b == 33u8 {
            escaped_bytes.push(39u8);
            escaped_bytes.push(92u8);
            escaped_bytes.push(b);
            escaped_bytes.push(39u8);
        } else {
            escaped_bytes.push(b);
        }
        assert(escaped_bytes@ =~= seq![39u8] + quoted_body_in(byte_alphabet(), s@.take(j + 1)));
        j = j + 1;
    }
    escaped_bytes.push(39u8);
    assert(s@.take(n as int) =~= s@);
    escaped_bytes
}

/// Whether the character `c` may stand unquoted in a shell word.
pub fn whitelisted_char(c: char) -> (r: bool)
    ensures
        r == is_safe_char(c),
{
    ('a' <= c && c <= 'z') || ('A' <= c && c <= 'Z') || ('0' <= c && c <= '9') || c == '-' || c
        == '_' || c == '=' || c == '/' || c == ',' || c == '.' || c == '+'
}

/// Escape the text `s` so that a shell reads it back as one word, as
/// `escape` does for bytes.
pub fn escape_str(s: &str) -> (r: String)
    ensures
        r@ == escaped_chars(s@),
{
    let cs = chars_of(s);
    let n = cs.len();
    let mut all = true;
    let mut i: usize = 0;
    while i < n
        invariant
            n == cs@.len(),
            i <= n,
            all == (forall|k: int| 0 <= k < i ==> is_safe_char(#[trigger] cs@[k])),
        decreases n - i,
    {
        if !whitelisted_char(cs[i]) {
            all = false;
        }
        i = i + 1;
    }
    if n > 0 && all {
        return string_of(&cs);
    }
    let mut out: Vec<char> = Vec::new();
    out.push('\'');
    let mut j: usize = 0;
    while j < n
        invariant
            n == cs@.len(),
            j <= n,
            out@ == seq!['\''] + quoted_body_in(char_alphabet(), cs@.take(j as int)),
        decreases n - j,
    {
        let c = cs[j];
        assert(cs@.take(j + 1).drop_last() =~= cs@.take(j as int));
        assert(cs@.take(j + 1).last() == c);
        if c == '\'' || c == '!' {
            out.push('\'');
            out.push('\\');
            out.push(c);
            out.push('\'');
        } else {
            out.push(c);
        }
        assert(out@ =~= seq!['\''] + quoted_body_in(char_alphabet(), cs@.take(j + 1)));
        j = j + 1;
    }
    out.push('\'');
    assert(cs@.take(n as int) =~= cs@);
    string_of(&out)
}

} // verus!
