//! Splitting a line of text into tokens.

use vstd::prelude::*;
use vstd::string::StrSliceExecFns;
use vstd::string::StringExecFns;
use crate::scan::{lemma_prefix_len, prefix_len, runs};

verus! {

/// The characters that separate words: those with the Unicode property `White_Space`.
pub open spec fn is_blank(c: char) -> bool {
    ||| ('\u{9}' <= c && c <= '\u{D}')
    ||| c == ' '
    ||| c == '\u{85}'
    ||| c == '\u{A0}'
    ||| c == '\u{1680}'
    ||| ('\u{2000}' <= c && c <= '\u{200A}')
    ||| c == '\u{2028}'
    ||| c == '\u{2029}'
    ||| c == '\u{202F}'
    ||| c == '\u{205F}'
    ||| c == '\u{3000}'
}

/// The two operators: `>` redirects output, `&` separates commands that run in parallel.
pub open spec fn is_operator(c: char) -> bool {
    c == '>' || c == '&'
}

/// A character that is part of a word: neither blank nor an operator.
pub open spec fn is_word_char(c: char) -> bool {
    !is_blank(c) && !is_operator(c)
}

/// `is_word_char` as a predicate value.
pub open spec fn word_chars() -> spec_fn(char) -> bool {
    |c: char| is_word_char(c)
}

/// Whether `c` is blank.
pub fn blank(c: char) -> (b: bool)
    ensures
        b == is_blank(c),
{
    ('\u{9}' <= c && c <= '\u{D}') || c == ' ' || c == '\u{85}' || c == '\u{A0}' || c == '\u{1680}'
        || ('\u{2000}' <= c && c <= '\u{200A}') || c == '\u{2028}' || c == '\u{2029}' || c
        == '\u{202F}' || c == '\u{205F}' || c == '\u{3000}'
}

/// Whether `c` is one of the two operators.
pub fn operator(c: char) -> (b: bool)
    ensures
        b == is_operator(c),
{
    c == '>' || c == '&'
}

/// The tokens of a line, in order.
///
/// Blank characters only separate tokens. Each operator is a token of its own, wherever it
/// stands. Every other token is a maximal run of word characters.
pub open spec fn tokens(line: Seq<char>) -> Seq<Seq<char>>
    decreases line.len(),
    via tokens_terminates
{
    if line.len() == 0 {
        Seq::empty()
    } else if is_blank(line[0]) {
        tokens(line.skip(1))
    } else if is_operator(line[0]) {
        seq![line.take(1)] + tokens(line.skip(1))
    } else {
        let n = prefix_len(line, word_chars()) as int;
        seq![line.take(n)] + tokens(line.skip(n))
    }
}

#[via_fn]
proof fn tokens_terminates(line: Seq<char>) {
    lemma_prefix_len(line, word_chars());
}

/// The characters that are not blank, as a predicate value.
pub open spec fn non_blank() -> spec_fn(char) -> bool {
    |c: char| !is_blank(c)
}

/// The words of a line: its maximal runs of characters that are not blank.
pub open spec fn words(line: Seq<char>) -> Seq<Seq<char>> {
    runs(line, non_blank())
}

/// `tokens` as a function value.
pub open spec fn tokens_of() -> spec_fn(Seq<char>) -> Seq<Seq<char>> {
    |word: Seq<char>| tokens(word)
}

/// Collects the characters of `line`.
fn characters(line: &str) -> (chars: Vec<char>)
    ensures
        chars@ == line@,
{
    let mut chars: Vec<char> = Vec::new();
    for c in it: line.chars()
        invariant
            it.seq() == line@,
            chars@ == line@.take(it.index()),
    {
        chars.push(c);
    }
    chars
}

/// Splits `line` into its tokens.
///
/// Leading and trailing blanks make no difference, so the line need not be trimmed.
pub fn parse_args(line: &str) -> (args: Vec<String>)
    ensures
        args.deep_view() == tokens(line@),
{
    let chars = characters(line);
    let n = chars.len();
    let mut args: Vec<String> = Vec::new();
    let mut i: usize = 0;
    assert(line@.skip(0) =~= line@);
    while i < n
        invariant
            chars@ == line@,
            n == chars.len(),
            i <= n,
            args.deep_view() + tokens(line@.skip(i as int)) == tokens(line@),
        decreases n - i,
    {
        let ghost rest = line@.skip(i as int);
        let c = chars[i];
        if blank(c) {
            i += 1;
            assert(rest.skip(1) =~= line@.skip(i as int));
        } else {
            let start = i;
            i += 1;
            if !operator(c) {
                while i < n && !blank(chars[i]) && !operator(chars[i])
                    invariant
                        chars@ == line@,
                        n == chars.len(),
                        start < i <= n,
                        forall|k: int| start <= k < i ==> is_word_char(#[trigger] line@[k]),
                    decreases n - i,
                {
                    i += 1;
                }
                proof {
                    lemma_prefix_len(rest, word_chars());
                }
            }
            let token = String::from_str(line.substring_char(start, i));
            args.push(token);
            proof {
                assert(token@ =~= rest.take(i - start));
                assert(rest.skip(i - start) =~= line@.skip(i as int));
            }
        }
    }
    args
}

/// A token as it can come out of a line: one operator alone, or a word without blanks and
/// operators that is not empty.
pub open spec fn is_token(token: Seq<char>) -> bool {
    ||| token.len() == 1 && is_operator(token[0])
    ||| token.len() > 0 && forall|i: int| 0 <= i < token.len() ==> is_word_char(#[trigger] token[i])
}

/// Every token of a line is an operator alone or a word.
pub proof fn law_tokens_shape(line: Seq<char>)
    ensures
        forall|k: int| 0 <= k < tokens(line).len() ==> is_token(#[trigger] tokens(line)[k]),
    decreases line.len(),
{
    if line.len() == 0 {
    } else if is_blank(line[0]) {
        law_tokens_shape(line.skip(1));
        assert(tokens(line) == tokens(line.skip(1)));
    } else {
        lemma_prefix_len(line, word_chars());
        let n = if is_operator(line[0]) {
            1
        } else {
            prefix_len(line, word_chars()) as int
        };
        law_tokens_shape(line.skip(n));
        assert(tokens(line) == seq![line.take(n)] + tokens(line.skip(n)));
    }
}

/// A word alone is one token.
pub proof fn law_word_is_one_token(word: Seq<char>)
    requires
        word.len() > 0,
        forall|i: int| 0 <= i < word.len() ==> is_word_char(#[trigger] word[i]),
    ensures
        tokens(word) == seq![word],
{
    lemma_prefix_len(word, word_chars());
    assert(word.take(word.len() as int) =~= word);
    assert(tokens(word.skip(word.len() as int)) =~= Seq::<Seq<char>>::empty());
}

/// An operator alone is one token.
pub proof fn law_operator_is_one_token(c: char)
    requires
        is_operator(c),
    ensures
        tokens(seq![c]) == seq![seq![c]],
{
    let line = seq![c];
    assert(line.take(1) =~= line);
    assert(tokens(line.skip(1)) =~= Seq::<Seq<char>>::empty());
}

/// A line of blanks has no tokens.
pub proof fn law_blank_line_has_no_tokens(line: Seq<char>)
    requires
        forall|i: int| 0 <= i < line.len() ==> is_blank(#[trigger] line[i]),
    ensures
        tokens(line) == Seq::<Seq<char>>::empty(),
    decreases line.len(),
{
    if line.len() > 0 {
        law_blank_line_has_no_tokens(line.skip(1));
    }
}

/// A line can be cut wherever no word is cut in two: the tokens of the whole are the tokens
/// of the two parts, one after the other.
pub proof fn law_tokens_concat(left: Seq<char>, right: Seq<char>)
    requires
        left.len() == 0 || right.len() == 0 || !is_word_char(left.last()) || !is_word_char(
            right[0],
        ),
    ensures
        tokens(left + right) == tokens(left) + tokens(right),
    decreases left.len(),
{
    let whole = left + right;
    if left.len() > 0 {
        lemma_prefix_len(left, word_chars());
        lemma_prefix_len(whole, word_chars());
        // the first token of `left` is the first token of the whole
        let n = if is_word_char(left[0]) {
            prefix_len(left, word_chars()) as int
        } else {
            1
        };
        let rest = left.skip(n);
        assert(whole.take(n) =~= left.take(n));
        assert(whole.skip(n) =~= rest + right);
        law_tokens_concat(rest, right);
    }
}

/// Blanks around a line make no difference to its tokens.
pub proof fn law_tokens_ignore_margins(before: Seq<char>, line: Seq<char>, after: Seq<char>)
    requires
        forall|i: int| 0 <= i < before.len() ==> is_blank(#[trigger] before[i]),
        forall|i: int| 0 <= i < after.len() ==> is_blank(#[trigger] after[i]),
    ensures
        tokens(before + line + after) == tokens(line),
{
    law_blank_line_has_no_tokens(before);
    law_blank_line_has_no_tokens(after);
    law_tokens_concat(before, line);
    law_tokens_concat(before + line, after);
}

/// To cut a line into words at its blanks, and then the operators out of each word, gives the
/// tokens of the line.
pub proof fn law_tokens_by_words(line: Seq<char>)
    ensures
        tokens(line) == words(line).map_values(tokens_of()).flatten(),
    decreases line.len(),
{
    let pieces = words(line).map_values(tokens_of());
    if line.len() == 0 {
    } else if is_blank(line[0]) {
        law_tokens_by_words(line.skip(1));
    } else {
        lemma_prefix_len(line, non_blank());
        let n = prefix_len(line, non_blank()) as int;
        let word = line.take(n);
        let rest = line.skip(n);
        assert(line =~= word + rest);
        law_tokens_concat(word, rest);
        law_tokens_by_words(rest);
        assert(pieces.drop_first() =~= words(rest).map_values(tokens_of()));
    }
}

} // verus!
