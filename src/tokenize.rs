//! Splitting an input line into a keyword and its arguments.

use vstd::prelude::*;
use vstd::string::*;

verus! {

/// The characters with Unicode's `White_Space` property: the separators
/// between words of a command line.
pub open spec fn is_space(c: char) -> bool {
    let u = c as u32;
    (0x09 <= u && u <= 0x0D) || u == 0x20 || u == 0x85 || u == 0xA0 || u == 0x1680
        || (0x2000 <= u && u <= 0x200A) || u == 0x2028 || u == 0x2029 || u == 0x202F
        || u == 0x205F || u == 0x3000
}

/// The words of `s`, left to right: maximal runs of non-space characters.
/// Each character that is not a space either extends the word that the
/// character before it belongs to, or starts a new one.
pub open spec fn words_of(s: Seq<char>) -> Seq<Seq<char>>
    decreases s.len(),
{
    if s.len() == 0 {
        seq![]
    } else {
        let prev = words_of(s.drop_last());
        let c = s.last();
        if is_space(c) {
            prev
        } else if s.len() >= 2 && !is_space(s[s.len() - 2]) {
            prev.update(prev.len() - 1, prev.last().push(c))
        } else {
            prev.push(seq![c])
        }
    }
}

/// Whether `c` separates words.
pub fn is_separator(c: char) -> (r: bool)
    ensures
        r == is_space(c),
{
    let u = c as u32;
    (0x09 <= u && u <= 0x0D) || u == 0x20 || u == 0x85 || u == 0xA0 || u == 0x1680
        || (0x2000 <= u && u <= 0x200A) || u == 0x2028 || u == 0x2029 || u == 0x202F
        || u == 0x205F || u == 0x3000
}

/// Splits `line` into its words, left to right.
pub fn split_words(line: &str) -> (r: Vec<String>)
    ensures
        r.deep_view() == words_of(line@),
{
    let n = line.unicode_len();
    let mut words: Vec<String> = Vec::new();
    let mut start: usize = 0;
    let mut in_word = false;
    let mut i: usize = 0;
    while i < n
        invariant
            n == line@.len(),
            start <= i <= n,
            in_word == (i > 0 && !is_space(line@[i - 1])),
            in_word ==> start < i,
            in_word ==> words_of(line@.take(i as int)) == words.deep_view().push(
                line@.subrange(start as int, i as int),
            ),
            !in_word ==> words_of(line@.take(i as int)) == words.deep_view(),
        decreases n - i,
    {
        let c = line.get_char(i);
        let ghost pre = line@.take(i as int);
        let ghost cur = line@.take(i as int + 1);
        assert(cur.drop_last() == pre);
        assert(cur.last() == c);
        if is_separator(c) {
            if in_word {
                let ghost before = words.deep_view();
                let w = line.substring_char(start, i).to_owned();
                words.push(w);
                assert(words.deep_view() =~= before.push(line@.subrange(start as int, i as int)));
            }
            in_word = false;
        } else {
            if in_word {
                assert(line@.subrange(start as int, i as int).push(c) =~= line@.subrange(
                    start as int,
                    i as int + 1,
                ));
            } else {
                start = i;
                assert(seq![c] =~= line@.subrange(i as int, i as int + 1));
            }
            in_word = true;
        }
        i = i + 1;
    }
    if in_word {
        let ghost before = words.deep_view();
        let w = line.substring_char(start, n).to_owned();
        words.push(w);
        assert(words.deep_view() =~= before.push(line@.subrange(start as int, n as int)));
    }
    assert(line@.take(n as int) =~= line@);
    words
}

/// A command line split into the operation it names and its arguments.
pub struct Command {
    /// The first word of the line.
    pub keyword: String,
    /// The remaining words, in the order they appear.
    pub args: Vec<String>,
}

/// Why a line could not be made into a command.
#[derive(Debug, PartialEq, Eq, Structural)]
pub enum TokenizeError {
    /// The line holds no word at all: it is empty or all spaces.
    EmptyInput,
}

/// Whether `r` is the outcome of tokenizing `line`: a command whose keyword
/// is the first word and whose arguments are the others, or `EmptyInput`
/// where the line holds no word.
pub open spec fn tokenizes_to(line: Seq<char>, r: Result<Command, TokenizeError>) -> bool {
    match r {
        Ok(cmd) => words_of(line).len() > 0 && cmd.keyword@ == words_of(line)[0]
            && cmd.args.deep_view() == words_of(line).drop_first(),
        Err(e) => words_of(line).len() == 0 && e == TokenizeError::EmptyInput,
    }
}

/// Splits line `c` into a command: its first word is the keyword and the
/// other words, in order, are the arguments. A line without words is
/// refused with `EmptyInput`.
pub fn tokenize_command(c: String) -> (r: Result<Command, TokenizeError>)
    ensures
        tokenizes_to(c@, r),
{
    let mut words = split_words(c.as_str());
    if words.len() == 0 {
        return Err(TokenizeError::EmptyInput);
    }
    let ghost all = words.deep_view();
    let keyword = words.remove(0);
    assert(words.deep_view() =~= all.drop_first());
    Ok(Command { keyword, args: words })
}

/// A word: at least one character, and no space among them.
pub open spec fn is_word(w: Seq<char>) -> bool {
    w.len() > 0 && forall|j: int| 0 <= j < w.len() ==> !is_space(#[trigger] w[j])
}

/// Every word of a line is non-empty and holds no space.
pub proof fn lemma_words_are_nonblank(s: Seq<char>)
    ensures
        forall|k: int| 0 <= k < words_of(s).len() ==> is_word(#[trigger] words_of(s)[k]),
    decreases s.len(),
{
    if s.len() > 0 {
        let p = s.drop_last();
        let prev = words_of(p);
        let c = s.last();
        lemma_words_are_nonblank(p);
        if !is_space(c) {
            if s.len() >= 2 && !is_space(s[s.len() - 2]) {
                lemma_no_words_iff_blank(p);
                assert(!is_space(p[p.len() - 1]));
                let w = prev.last().push(c);
                assert(is_word(prev[prev.len() - 1]));
                assert forall|j: int| 0 <= j < w.len() implies !is_space(#[trigger] w[j]) by {
                    if j < w.len() - 1 {
                        assert(w[j] == prev.last()[j]);
                    }
                }
            } else {
                assert(is_word(seq![c]));
            }
        }
    }
}

/// A line has no words exactly when every character of it is a space.
pub proof fn lemma_no_words_iff_blank(s: Seq<char>)
    ensures
        words_of(s).len() == 0 <==> forall|i: int| 0 <= i < s.len() ==> is_space(#[trigger] s[i]),
    decreases s.len(),
{
    if s.len() > 0 {
        let p = s.drop_last();
        lemma_no_words_iff_blank(p);
        if words_of(s).len() == 0 {
            assert forall|i: int| 0 <= i < s.len() implies is_space(#[trigger] s[i]) by {
                if i < s.len() - 1 {
                    assert(s[i] == p[i]);
                }
            }
        }
        if forall|i: int| 0 <= i < s.len() ==> is_space(#[trigger] s[i]) {
            assert forall|i: int| 0 <= i < p.len() implies is_space(#[trigger] p[i]) by {
                assert(s[i] == p[i]);
            }
        }
    }
}

/// Tokenizing a line that holds a character other than a space succeeds:
/// the keyword is the line's first word, non-empty and without spaces, each
/// argument is a word too, and there is one argument for each further word.
pub proof fn lemma_tokenize_nonblank(line: Seq<char>, r: Result<Command, TokenizeError>)
    requires
        tokenizes_to(line, r),
        exists|i: int| 0 <= i < line.len() && !is_space(#[trigger] line[i]),
    ensures
        r matches Ok(cmd) && {
            &&& cmd.keyword@ == words_of(line)[0]
            &&& is_word(cmd.keyword@)
            &&& cmd.args@.len() == words_of(line).len() - 1
            &&& forall|k: int| 0 <= k < cmd.args@.len() ==> is_word(#[trigger] cmd.args@[k]@)
        },
{
    lemma_no_words_iff_blank(line);
    lemma_words_are_nonblank(line);
    if let Ok(cmd) = r {
        let w = words_of(line);
        assert(cmd.args.deep_view().len() == cmd.args@.len());
        assert forall|k: int| 0 <= k < cmd.args@.len() implies is_word(#[trigger] cmd.args@[k]@) by {
            assert(cmd.args.deep_view()[k] == cmd.args@[k]@);
            assert(w.drop_first()[k] == w[k + 1]);
        }
    }
}

/// Tokenizing a line that is empty or all spaces fails with `EmptyInput`.
pub proof fn lemma_tokenize_blank(line: Seq<char>, r: Result<Command, TokenizeError>)
    requires
        tokenizes_to(line, r),
        forall|i: int| 0 <= i < line.len() ==> is_space(#[trigger] line[i]),
    ensures
        r matches Err(e) && e == TokenizeError::EmptyInput,
{
    lemma_no_words_iff_blank(line);
}

} // verus!
