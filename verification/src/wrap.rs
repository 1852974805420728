//! Breaking a comma-separated list into lines of a bounded width.

use vstd::prelude::*;
use vstd::string::{StringExecFns, StrSliceExecFns};
use vstd::utf8::encode_utf8;
use crate::report::AnalysisReport;
use crate::text::chars_of;

verus! {

/// The width of a text: the number of bytes of its UTF-8 form.
pub open spec fn width(s: Seq<char>) -> nat {
    encode_utf8(s).len()
}

/// Where the first `", "` of `s` starts; `s.len()` when `s` holds none.
pub open spec fn next_separator(s: Seq<char>) -> int
    decreases s.len(),
{
    if s.len() < 2 {
        s.len() as int
    } else if s[0] == ',' && s[1] == ' ' {
        0
    } else {
        1 + next_separator(s.drop_first())
    }
}

/// The words of `s`: what stands between its separators `", "`, taken from
/// left to right. A text without a separator is one word.
pub open spec fn split_words(s: Seq<char>) -> Seq<Seq<char>>
    decreases s.len(),
{
    let i = next_separator(s);
    if 0 <= i && i + 2 <= s.len() {
        seq![s.take(i)] + split_words(s.skip(i + 2))
    } else {
        seq![s]
    }
}

/// The lines that are complete, joined by line breaks, and the line that is
/// being filled.
pub struct Lines {
    pub done: Seq<char>,
    pub line: Seq<char>,
}

/// `done` with `line` added as one more line.
pub open spec fn with_line(done: Seq<char>, line: Seq<char>) -> Seq<char> {
    if done.len() == 0 {
        line
    } else {
        done.push('\n') + line
    }
}

/// Puts one word: behind the current line, after a `", "` unless the line is
/// empty, if the line then stays within `max`; otherwise the current line is
/// completed and the word starts a new one.
pub open spec fn place(st: Lines, word: Seq<char>, max: nat) -> Lines {
    let piece = if st.line.len() == 0 {
        word
    } else {
        seq![',', ' '] + word
    };
    if width(st.line) + width(piece) <= max {
        Lines { done: st.done, line: st.line + piece }
    } else {
        Lines { done: with_line(st.done, st.line), line: word }
    }
}

/// Puts the words one after the other.
pub open spec fn place_all(words: Seq<Seq<char>>, st: Lines, max: nat) -> Lines
    decreases words.len(),
{
    if words.len() == 0 {
        st
    } else {
        place_all(words.drop_first(), place(st, words[0], max), max)
    }
}

/// `text` broken into lines: unchanged if it is no wider than `max`;
/// otherwise its words are put on lines that are filled as far as `max`
/// allows, and the lines are joined by line breaks. A word wider than `max`
/// stands on a line of its own.
pub open spec fn wrapped(text: Seq<char>, max: nat) -> Seq<char> {
    if width(text) <= max {
        text
    } else {
        let st = place_all(split_words(text), Lines { done: Seq::empty(), line: Seq::empty() }, max);
        if st.line.len() > 0 {
            with_line(st.done, st.line)
        } else {
            st.done
        }
    }
}

/// A separator, if there is one, starts inside the text and is followed by
/// its second character.
proof fn lemma_next_separator(s: Seq<char>)
    ensures
        0 <= next_separator(s) <= s.len(),
        next_separator(s) < s.len() ==> next_separator(s) + 2 <= s.len(),
    decreases s.len(),
{
    if s.len() >= 2 && !(s[0] == ',' && s[1] == ' ') {
        lemma_next_separator(s.drop_first());
    }
}

/// Adds `line` to `done` as one more line.
fn push_line(done: &mut String, line: &str)
    ensures
        final(done)@ == with_line(old(done)@, line@),
{
    if !done.as_str().is_empty() {
        proof {
            reveal_strlit("\n");
        }
        done.append("\n");
    } else {
        assert(done@ + line@ =~= line@);
    }
    done.append(line);
}

/// Puts one word, as `place` says.
fn place_word(done: &mut String, line: &mut String, word: &str, max_width: usize)
    ensures
        (Lines { done: final(done)@, line: final(line)@ }) == place(
            Lines { done: old(done)@, line: old(line)@ },
            word@,
            max_width as nat,
        ),
{
    let piece = if line.as_str().is_empty() {
        word.to_owned()
    } else {
        proof {
            reveal_strlit(", ");
        }
        let mut p = String::from_str(", ");
        p.append(word);
        assert(p@ =~= seq![',', ' '] + word@);
        p
    };
    let used = line.as_str().as_bytes().len();
    let more = piece.as_str().as_bytes().len();
    if used <= max_width && more <= max_width - used {
        line.append(piece.as_str());
    } else {
        push_line(done, line.as_str());
        *line = word.to_owned();
    }
}

impl AnalysisReport {
    /// Breaks a comma-separated list into lines no wider than `max_width`
    /// bytes, as far as its words allow.
    pub fn wrap_text(text: &str, max_width: usize) -> (r: String)
        ensures
            r@ == wrapped(text@, max_width as nat),
    {
        if text.as_bytes().len() <= max_width {
            return text.to_owned();
        }
        let chars = chars_of(text);
        let n = chars.len();
        let mut done = String::new();
        let mut line = String::new();
        let mut start: usize = 0;
        let ghost goal = place_all(
            split_words(text@),
            Lines { done: Seq::empty(), line: Seq::empty() },
            max_width as nat,
        );
        assert(text@.skip(0) =~= text@);
        loop
            invariant_except_break
                start <= n,
                place_all(
                    split_words(text@.skip(start as int)),
                    Lines { done: done@, line: line@ },
                    max_width as nat,
                ) == goal,
            invariant
                n == text@.len(),
                chars@ == text@,
            ensures
                (Lines { done: done@, line: line@ }) == goal,
            decreases n - start,
        {
            let ghost rest = text@.skip(start as int);
            let mut i: usize = start;
            while n - i > 1 && !(chars[i] == ',' && chars[i + 1] == ' ')
                invariant
                    start <= i <= n,
                    n == text@.len(),
                    chars@ == text@,
                    rest == text@.skip(start as int),
                    next_separator(rest) == (i - start) + next_separator(text@.skip(i as int)),
                decreases n - i,
            {
                assert(text@.skip(i as int).drop_first() =~= text@.skip(i + 1));
                i += 1;
            }
            proof {
                lemma_next_separator(text@.skip(i as int));
                lemma_next_separator(rest);
            }
            let ghost st = Lines { done: done@, line: line@ };
            if n - i > 1 {
                let word = text.substring_char(start, i);
                proof {
                    assert(rest.take(i - start) =~= word@);
                    assert(rest.skip(i - start + 2) =~= text@.skip(i + 2));
                    let words = split_words(rest);
                    assert(words.drop_first() =~= split_words(text@.skip(i + 2)));
                }
                place_word(&mut done, &mut line, word, max_width);
                start = i + 2;
            } else {
                let word = text.substring_char(start, n);
                proof {
                    let words = split_words(rest);
                    assert(place_all(words, st, max_width as nat) == place_all(
                        words.drop_first(),
                        place(st, words[0], max_width as nat),
                        max_width as nat,
                    ));
                }
                place_word(&mut done, &mut line, word, max_width);
                break;
            }
        }
        if !line.as_str().is_empty() {
            push_line(&mut done, line.as_str());
        }
        done
    }

}

} // verus!
