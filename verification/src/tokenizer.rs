//! The tokenizer: one raw input line to its ordered word tokens.
//!
//! The model is a small machine that reads the line one character at a time.
//! It is in one of three quoting modes, remembers whether the previous
//! character was a backslash that still waits for its partner, and holds the
//! word under construction beside the tokens already finished. `tokenize` runs
//! the machine over the whole line and closes whatever is still open.

use vstd::prelude::*;
use crate::text::{join, lemma_deep_view_push};

verus! {

/// The quoting mode of the tokenizer.
#[derive(Clone, Copy, Debug, PartialEq, Eq, Structural)]
pub enum PromptQuote {
    Unquoted,
    SingleQuoted,
    DoubleQuoted,
}

/// The state of the tokenizer between two characters.
pub struct Lexer {
    /// The quoting mode.
    pub quote: PromptQuote,
    /// A backslash was read and the character it applies to has not come yet.
    pub escaped: bool,
    /// The characters of the word under construction.
    pub buffer: Seq<char>,
    /// The tokens finished so far, in order.
    pub tokens: Seq<Seq<char>>,
}

/// The characters that end a word outside quotes.
pub open spec fn is_blank(c: char) -> bool {
    c == ' ' || c == '\t' || c == '\n'
}

/// The characters a backslash can escape inside double quotes.
pub open spec fn is_escapable(c: char) -> bool {
    c == '\\' || c == '"' || c == '$' || c == '`' || c == '\n'
}

/// The token that marks a pipe boundary.
pub open spec fn pipe_token() -> Seq<char> {
    seq!['|']
}

/// The tokens once the word under construction is closed: an empty word is
/// dropped.
pub open spec fn flushed(tokens: Seq<Seq<char>>, buffer: Seq<char>) -> Seq<Seq<char>> {
    if buffer.len() == 0 {
        tokens
    } else {
        tokens.push(buffer)
    }
}

/// The state before the first character.
pub open spec fn lexer_start() -> Lexer {
    Lexer {
        quote: PromptQuote::Unquoted,
        escaped: false,
        buffer: Seq::empty(),
        tokens: Seq::empty(),
    }
}

/// The state after reading `c` in state `st`.
pub open spec fn lexer_step(st: Lexer, c: char) -> Lexer {
    match st.quote {
        PromptQuote::Unquoted => {
            if st.escaped {
                Lexer { escaped: false, buffer: st.buffer.push(c), ..st }
            } else if is_blank(c) {
                Lexer { buffer: Seq::empty(), tokens: flushed(st.tokens, st.buffer), ..st }
            } else if c == '|' {
                Lexer {
                    buffer: Seq::empty(),
                    tokens: flushed(st.tokens, st.buffer).push(pipe_token()),
                    ..st
                }
            } else if c == '\'' {
                Lexer { quote: PromptQuote::SingleQuoted, ..st }
            } else if c == '"' {
                Lexer { quote: PromptQuote::DoubleQuoted, ..st }
            } else if c == '\\' {
                Lexer { escaped: true, ..st }
            } else {
                Lexer { buffer: st.buffer.push(c), ..st }
            }
        },
        PromptQuote::SingleQuoted => {
            if c == '\'' {
                Lexer { quote: PromptQuote::Unquoted, ..st }
            } else {
                Lexer { buffer: st.buffer.push(c), ..st }
            }
        },
        PromptQuote::DoubleQuoted => {
            if st.escaped {
                if c == '\n' {
                    Lexer { escaped: false, ..st }
                } else if is_escapable(c) {
                    Lexer { escaped: false, buffer: st.buffer.push(c), ..st }
                } else {
                    Lexer { escaped: false, buffer: st.buffer.push('\\').push(c), ..st }
                }
            } else if c == '"' {
                Lexer { quote: PromptQuote::Unquoted, ..st }
            } else if c == '\\' {
                Lexer { escaped: true, ..st }
            } else {
                Lexer { buffer: st.buffer.push(c), ..st }
            }
        },
    }
}

/// The state after reading every character of `line` from state `st`.
pub open spec fn lexer_run(st: Lexer, line: Seq<char>) -> Lexer
    decreases line.len(),
{
    if line.len() == 0 {
        st
    } else {
        lexer_step(lexer_run(st, line.drop_last()), line.last())
    }
}

/// The tokens when the line ends in state `st`. An open quote is closed as if
/// its partner had been there. A backslash that waits for its partner is kept
/// inside double quotes and dropped outside.
pub open spec fn lexer_finish(st: Lexer) -> Seq<Seq<char>> {
    if st.escaped && st.quote == PromptQuote::DoubleQuoted {
        flushed(st.tokens, st.buffer.push('\\'))
    } else {
        flushed(st.tokens, st.buffer)
    }
}

/// The tokens of a line.
pub open spec fn tokenize(line: Seq<char>) -> Seq<Seq<char>> {
    lexer_finish(lexer_run(lexer_start(), line))
}

/// Moves the word under construction, unless it is empty, to the end of the
/// tokens, and starts a new word.
fn flush_word(tokens: &mut Vec<String>, buffer: &mut String)
    ensures
        final(tokens).deep_view() == flushed(old(tokens).deep_view(), old(buffer)@),
        final(buffer)@ == Seq::<char>::empty(),
{
    let mut word = String::new();
    std::mem::swap(buffer, &mut word);
    if !word.as_str().is_empty() {
        proof {
            lemma_deep_view_push(tokens@, tokens@.push(word), word);
        }
        tokens.push(word);
    }
}

/// Splits a line into its tokens.
///
/// Outside quotes a blank ends the word, a quote character opens its mode
/// without being copied, a backslash makes the next character an ordinary one,
/// and `|` ends the word and is a token by itself. Inside single quotes
/// everything up to the closing quote is copied. Inside double quotes a
/// backslash escapes only `\`, `"`, `$`, a backtick and the newline, which it
/// removes; before any other character it is kept. Words that touch form one
/// token, and empty words are dropped.
pub fn parse_prompt(prompt: &str) -> (tokens: Vec<String>)
    ensures
        tokens.deep_view() == tokenize(prompt@),
{
    broadcast use vstd::string::group_string_axioms;

    let mut tokens: Vec<String> = Vec::new();
    let mut buffer = String::new();
    let mut quote = PromptQuote::Unquoted;
    let mut escaped = false;
    assert(tokens.deep_view() =~= Seq::<Seq<char>>::empty());

    for c in iter: prompt.chars()
        invariant
            iter.seq() == prompt@,
            lexer_run(lexer_start(), prompt@.take(iter.index() as int)) == (Lexer {
                quote,
                escaped,
                buffer: buffer@,
                tokens: tokens.deep_view(),
            }),
    {
        let ghost before = prompt@.take(iter.index() as int);
        let ghost after = prompt@.take(iter.index() + 1);
        assert(after.drop_last() =~= before);
        assert(after.last() == c);
        match quote {
            PromptQuote::Unquoted => {
                if escaped {
                    buffer.push(c);
                    escaped = false;
                } else if c == ' ' || c == '\t' || c == '\n' {
                    flush_word(&mut tokens, &mut buffer);
                } else if c == '|' {
                    flush_word(&mut tokens, &mut buffer);
                    let mut pipe = String::new();
                    pipe.push('|');
                    assert(pipe@ =~= pipe_token());
                    proof {
                        lemma_deep_view_push(tokens@, tokens@.push(pipe), pipe);
                    }
                    tokens.push(pipe);
                } else if c == '\'' {
                    quote = PromptQuote::SingleQuoted;
                } else if c == '"' {
                    quote = PromptQuote::DoubleQuoted;
                } else if c == '\\' {
                    escaped = true;
                } else {
                    buffer.push(c);
                }
            },
            PromptQuote::SingleQuoted => {
                if c == '\'' {
                    quote = PromptQuote::Unquoted;
                } else {
                    buffer.push(c);
                }
            },
            PromptQuote::DoubleQuoted => {
                if escaped {
                    if c == '\n' {
                    } else if c == '\\' || c == '"' || c == '$' || c == '`' {
                        buffer.push(c);
                    } else {
                        buffer.push('\\');
                        buffer.push(c);
                    }
                    escaped = false;
                } else if c == '"' {
                    quote = PromptQuote::Unquoted;
                } else if c == '\\' {
                    escaped = true;
                } else {
                    buffer.push(c);
                }
            },
        }
    }
    assert(prompt@.take(prompt@.len() as int) =~= prompt@);
    if escaped && quote == PromptQuote::DoubleQuoted {
        buffer.push('\\');
    }
    flush_word(&mut tokens, &mut buffer);
    tokens
}

/// A character that stands for itself outside quotes and ends no word.
pub open spec fn is_word_char(c: char) -> bool {
    !is_blank(c) && c != '|' && c != '\'' && c != '"' && c != '\\'
}

/// A word that needs no quoting: not empty, and made of word characters only.
pub open spec fn is_plain_word(word: Seq<char>) -> bool {
    word.len() > 0 && forall|i: int| 0 <= i < word.len() ==> is_word_char(#[trigger] word[i])
}

/// A token that reads back as itself: a plain word or the pipe boundary.
pub open spec fn is_plain_token(token: Seq<char>) -> bool {
    is_plain_word(token) || token == pipe_token()
}

/// Every token is a plain token.
pub open spec fn all_plain(tokens: Seq<Seq<char>>) -> bool {
    forall|k: int| 0 <= k < tokens.len() ==> is_plain_token(#[trigger] tokens[k])
}

/// Text without quote characters and backslashes.
pub open spec fn is_unquoted(text: Seq<char>) -> bool {
    forall|i: int|
        0 <= i < text.len() ==> (#[trigger] text[i]) != '\'' && text[i] != '"' && text[i] != '\\'
}

/// A state outside quotes, with no backslash waiting, whose word and tokens
/// need no quoting.
spec fn lexer_is_plain(st: Lexer) -> bool {
    &&& st.quote == PromptQuote::Unquoted
    &&& !st.escaped
    &&& forall|i: int| 0 <= i < st.buffer.len() ==> is_word_char(#[trigger] st.buffer[i])
    &&& all_plain(st.tokens)
}

/// Reading two texts one after the other is reading their concatenation.
pub proof fn lemma_run_concat(st: Lexer, first: Seq<char>, second: Seq<char>)
    ensures
        lexer_run(st, first + second) == lexer_run(lexer_run(st, first), second),
    decreases second.len(),
{
    if second.len() == 0 {
        assert(first + second =~= first);
    } else {
        lemma_run_concat(st, first, second.drop_last());
        assert((first + second).drop_last() =~= first + second.drop_last());
        assert((first + second).last() == second.last());
    }
}

/// Reading a text of one character is one step.
pub proof fn lemma_run_one(st: Lexer, c: char)
    ensures
        lexer_run(st, seq![c]) == lexer_step(st, c),
{
    let one = seq![c];
    assert(one.drop_last() =~= Seq::<char>::empty());
    assert(one.last() == c);
    assert(lexer_run(st, one.drop_last()) == st);
}

/// Outside quotes, word characters are copied to the word under construction
/// and change nothing else.
proof fn lemma_run_word(st: Lexer, word: Seq<char>)
    requires
        st.quote == PromptQuote::Unquoted,
        !st.escaped,
        forall|i: int| 0 <= i < word.len() ==> is_word_char(#[trigger] word[i]),
    ensures
        lexer_run(st, word) == (Lexer { buffer: st.buffer + word, ..st }),
    decreases word.len(),
{
    if word.len() == 0 {
        assert(st.buffer + word =~= st.buffer);
    } else {
        lemma_run_word(st, word.drop_last());
        assert(is_word_char(word[word.len() - 1]));
        assert((st.buffer + word.drop_last()).push(word.last()) =~= st.buffer + word);
    }
}

/// Reading unquoted text from a plain state leads to a plain state.
proof fn lemma_run_unquoted(text: Seq<char>)
    requires
        is_unquoted(text),
    ensures
        lexer_is_plain(lexer_run(lexer_start(), text)),
    decreases text.len(),
{
    if text.len() > 0 {
        let init = text.drop_last();
        let c = text.last();
        assert forall|i: int| 0 <= i < init.len() implies (#[trigger] init[i]) != '\''
            && init[i] != '"' && init[i] != '\\' by {
            assert(init[i] == text[i]);
        }
        lemma_run_unquoted(init);
        let st = lexer_run(lexer_start(), init);
        let next = lexer_step(st, c);
        assert(c == text[text.len() - 1]);
        assert(lexer_is_plain(next)) by {
            if is_blank(c) || c == '|' {
                let closed = flushed(st.tokens, st.buffer);
                assert(all_plain(closed)) by {
                    assert forall|k: int| 0 <= k < closed.len() implies is_plain_token(
                        #[trigger] closed[k],
                    ) by {
                        if k < st.tokens.len() {
                            assert(closed[k] == st.tokens[k]);
                        } else {
                            assert(closed[k] == st.buffer);
                            assert(is_plain_word(st.buffer));
                        }
                    }
                }
                if c == '|' {
                    assert forall|k: int| 0 <= k < next.tokens.len() implies is_plain_token(
                        #[trigger] next.tokens[k],
                    ) by {
                        if k < closed.len() {
                            assert(next.tokens[k] == closed[k]);
                        }
                    }
                }
            } else {
                assert(is_word_char(c));
                assert forall|i: int| 0 <= i < next.buffer.len() implies is_word_char(
                    #[trigger] next.buffer[i],
                ) by {
                    if i < st.buffer.len() {
                        assert(next.buffer[i] == st.buffer[i]);
                    }
                }
            }
        }
    } else {
        assert(all_plain(lexer_start().tokens));
    }
}

/// Reading plain tokens joined by single spaces rebuilds them: the state is
/// outside quotes, and closing its word gives the tokens back.
proof fn lemma_run_joined(tokens: Seq<Seq<char>>)
    requires
        all_plain(tokens),
    ensures
        ({
            let st = lexer_run(lexer_start(), join(tokens));
            &&& st.quote == PromptQuote::Unquoted
            &&& !st.escaped
            &&& flushed(st.tokens, st.buffer) == tokens
        }),
    decreases tokens.len(),
{
    if tokens.len() == 0 {
        assert(flushed(lexer_start().tokens, lexer_start().buffer) =~= tokens);
    } else {
        let init = tokens.drop_last();
        let last = tokens.last();
        assert(is_plain_token(tokens[tokens.len() - 1]));
        assert(all_plain(init)) by {
            assert forall|k: int| 0 <= k < init.len() implies is_plain_token(
                #[trigger] init[k],
            ) by {
                assert(init[k] == tokens[k]);
            }
        }
        // The state in which the last token starts: nothing under construction,
        // and the tokens before it finished.
        let gap = if tokens.len() == 1 {
            lexer_start()
        } else {
            lexer_run(lexer_start(), join(init) + seq![' '])
        };
        assert(gap == (Lexer { tokens: init, ..lexer_start() })) by {
            if tokens.len() == 1 {
                assert(init =~= Seq::<Seq<char>>::empty());
            } else {
                lemma_run_joined(init);
                lemma_run_concat(lexer_start(), join(init), seq![' ']);
                let st = lexer_run(lexer_start(), join(init));
                lemma_run_one(st, ' ');
            }
        }
        assert(lexer_run(lexer_start(), join(tokens)) == lexer_run(gap, last)) by {
            if tokens.len() == 1 {
            } else {
                lemma_run_concat(lexer_start(), join(init) + seq![' '], last);
            }
        }
        let end = lexer_run(gap, last);
        if is_plain_word(last) {
            lemma_run_word(gap, last);
            assert(gap.buffer + last =~= last);
            assert(flushed(end.tokens, end.buffer) =~= tokens);
        } else {
            assert(last == pipe_token());
            lemma_run_one(gap, '|');
            assert(flushed(end.tokens, end.buffer) =~= tokens);
        }
    }
}

/// Plain tokens survive a round trip: joined by single spaces and split again,
/// they come back unchanged.
pub proof fn lemma_tokenize_joined(tokens: Seq<Seq<char>>)
    requires
        all_plain(tokens),
    ensures
        tokenize(join(tokens)) == tokens,
{
    lemma_run_joined(tokens);
}

/// The tokens of text without quote characters and backslashes are plain
/// tokens.
pub proof fn lemma_tokenize_unquoted(text: Seq<char>)
    requires
        is_unquoted(text),
    ensures
        all_plain(tokenize(text)),
{
    lemma_run_unquoted(text);
    let st = lexer_run(lexer_start(), text);
    let tokens = tokenize(text);
    assert forall|k: int| 0 <= k < tokens.len() implies is_plain_token(#[trigger] tokens[k]) by {
        if k < st.tokens.len() {
            assert(tokens[k] == st.tokens[k]);
        } else {
            assert(tokens[k] == st.buffer);
            assert(is_plain_word(st.buffer));
        }
    }
}

/// Splitting is stable on unquoted text: the tokens of such a text, joined by
/// single spaces and split again, are the same tokens.
pub proof fn lemma_retokenize(text: Seq<char>)
    requires
        is_unquoted(text),
    ensures
        tokenize(join(tokenize(text))) == tokenize(text),
{
    lemma_tokenize_unquoted(text);
    lemma_tokenize_joined(tokenize(text));
}

} // verus!
