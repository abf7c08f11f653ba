//! The node's command prompt: each line the user types is read as one command.
use vstd::prelude::*;
use vstd::string::*;

use crate::data::crdt::string_views;

verus! {

/// A white-space character, as `char::is_whitespace` counts them: space, tab to
/// carriage return, and the other Unicode `White_Space` characters.
pub open spec fn is_ws(c: char) -> bool {
    ||| c == ' '
    ||| ('\t' <= c && c <= '\r')
    ||| c == '\u{85}'
    ||| c == '\u{a0}'
    ||| c == '\u{1680}'
    ||| ('\u{2000}' <= c && c <= '\u{200a}')
    ||| c == '\u{2028}'
    ||| c == '\u{2029}'
    ||| c == '\u{202f}'
    ||| c == '\u{205f}'
    ||| c == '\u{3000}'
}

/// The words of `s` after the partly read word `cur`: the maximal runs of
/// non-white-space characters, in order.
pub open spec fn words_after(s: Seq<char>, cur: Seq<char>) -> Seq<Seq<char>>
    decreases s.len(),
{
    if s.len() == 0 {
        if cur.len() == 0 {
            Seq::<Seq<char>>::empty()
        } else {
            seq![cur]
        }
    } else if is_ws(s[0]) {
        if cur.len() == 0 {
            words_after(s.drop_first(), Seq::<char>::empty())
        } else {
            seq![cur] + words_after(s.drop_first(), Seq::<char>::empty())
        }
    } else {
        words_after(s.drop_first(), cur.push(s[0]))
    }
}

/// The words of `s`, as `str::split_whitespace` yields them.
pub open spec fn words(s: Seq<char>) -> Seq<Seq<char>> {
    words_after(s, Seq::<char>::empty())
}

/// Reading on past a white-space character ends the word being read: the words
/// of `a`, a space and `b` are those of `a` followed by those of `b`.
proof fn lemma_words_after_split(a: Seq<char>, b: Seq<char>, cur: Seq<char>)
    ensures
        words_after(a + seq![' '] + b, cur) == words_after(a, cur) + words(b),
    decreases a.len(),
{
    let s = a + seq![' '] + b;
    if a.len() == 0 {
        assert(s =~= seq![' '] + b);
        assert(s.drop_first() =~= b);
        assert(is_ws(s[0]));
        if cur.len() == 0 {
            assert(words_after(a, cur) + words(b) =~= words(b));
        }
    } else {
        assert(s[0] == a[0]);
        assert(s.drop_first() =~= a.drop_first() + seq![' '] + b);
        if is_ws(a[0]) {
            lemma_words_after_split(a.drop_first(), b, Seq::<char>::empty());
            if cur.len() != 0 {
                assert(seq![cur] + (words_after(a.drop_first(), Seq::<char>::empty()) + words(b)) =~= (seq![
                    cur,
                ] + words_after(a.drop_first(), Seq::<char>::empty())) + words(b));
            }
        } else {
            lemma_words_after_split(a.drop_first(), b, cur.push(a[0]));
        }
    }
}

/// Joining two texts with a space joins their words: the words of `a + " " + b`
/// are the words of `a` followed by the words of `b`, however many there are.
pub proof fn lemma_words_join(a: Seq<char>, b: Seq<char>)
    ensures
        words(a + seq![' '] + b) == words(a) + words(b),
{
    lemma_words_after_split(a, b, Seq::<char>::empty());
}

/// The rest of a word read on from `cur`: a run of non-white-space characters.
proof fn lemma_words_after_word(w: Seq<char>, cur: Seq<char>)
    requires
        cur.len() + w.len() > 0,
        forall|i: int| 0 <= i < w.len() ==> !is_ws(#[trigger] w[i]),
    ensures
        words_after(w, cur) == seq![cur + w],
    decreases w.len(),
{
    if w.len() == 0 {
        assert(cur + w =~= cur);
    } else {
        assert(!is_ws(w[0]));
        assert forall|i: int| 0 <= i < w.drop_first().len() implies !is_ws(#[trigger] w.drop_first()[i]) by {
            assert(w.drop_first()[i] == w[i + 1]);
        }
        lemma_words_after_word(w.drop_first(), cur.push(w[0]));
        assert(cur.push(w[0]) + w.drop_first() =~= cur + w);
    }
}

/// A non-empty text without white space is one word: itself.
pub proof fn lemma_words_single(w: Seq<char>)
    requires
        w.len() > 0,
        forall|i: int| 0 <= i < w.len() ==> !is_ws(#[trigger] w[i]),
    ensures
        words(w) == seq![w],
{
    lemma_words_after_word(w, Seq::<char>::empty());
    assert(Seq::<char>::empty() + w =~= w);
}

/// What the user asked for on one line.
#[derive(Debug)]
pub enum Command {
    /// `show`: list every service in the map.
    Show,
    /// `run <ability>...`: call a node offering each ability, in order.
    Run(Vec<String>),
    /// `quit`, `exit` or `q`: withdraw this node's services and stop.
    Quit,
    /// `cd [dir]`: change the working directory (`/` without an argument).
    Cd(String),
    /// An empty line: ask again.
    Empty,
    /// Anything else: run it as a program with the remaining words as arguments.
    Exec(String, Vec<String>),
}

fn is_whitespace(c: char) -> (r: bool)
    ensures
        r == is_ws(c),
{
    c == ' ' || ('\t' <= c && c <= '\r') || c == '\u{85}' || c == '\u{a0}' || c == '\u{1680}'
        || ('\u{2000}' <= c && c <= '\u{200a}') || c == '\u{2028}' || c == '\u{2029}'
        || c == '\u{202f}' || c == '\u{205f}' || c == '\u{3000}'
}

/// The words of `s`, as `str::split_whitespace` yields them.
pub fn split_words(s: &str) -> (r: Vec<String>)
    ensures
        string_views(r@) == words(s@),
{
    let n = s.unicode_len();
    let mut result: Vec<String> = Vec::new();
    let mut i: usize = 0;
    let mut start: usize = 0;
    let mut in_word = false;
    proof {
        assert(s@.skip(0) == s@);
    }
    while i < n
        invariant
            n == s@.len(),
            i <= n,
            start <= i,
            in_word ==> start < i,
            string_views(result@) + words_after(
                s@.skip(i as int),
                if in_word { s@.subrange(start as int, i as int) } else { Seq::<char>::empty() },
            ) == words(s@),
        decreases n - i,
    {
        let c = s.get_char(i);
        let ghost cur = if in_word { s@.subrange(start as int, i as int) } else { Seq::<char>::empty() };
        let ghost before = result@;
        proof {
            let tail = s@.skip(i as int);
            assert(tail[0] == c);
            assert(tail.drop_first() == s@.skip(i + 1));
        }
        if is_whitespace(c) {
            if in_word {
                let word = String::from_str(s.substring_char(start, i));
                result.push(word);
                proof {
                    assert(string_views(result@) == string_views(before).push(cur));
                    assert(string_views(before) + (seq![cur] + words_after(s@.skip(i + 1), Seq::<char>::empty()))
                        == string_views(result@) + words_after(s@.skip(i + 1), Seq::<char>::empty()));
                }
                in_word = false;
            }
        } else {
            if !in_word {
                in_word = true;
                start = i;
                assert(s@.subrange(start as int, i + 1) == Seq::<char>::empty().push(c));
            } else {
                assert(s@.subrange(start as int, i + 1) == cur.push(c));
            }
        }
        i = i + 1;
    }
    proof {
        assert(s@.skip(n as int) == Seq::<char>::empty());
    }
    if in_word {
        let ghost before = result@;
        let word = String::from_str(s.substring_char(start, n));
        result.push(word);
        proof {
            assert(string_views(result@) == string_views(before).push(word@));
        }
    }
    result
}

/// The command a line stands for, read off its words: `show`, `run`, `quit`,
/// `exit`, `q` and `cd` as the first word name the built-in commands; no word is
/// the empty command; any other first word is a program to run.
pub fn parse_command(input: &str) -> (cmd: Command)
    ensures
        cmd is Empty <==> words(input@).len() == 0,
        cmd is Show <==> words(input@).len() > 0 && words(input@)[0] == "show"@,
        cmd is Run <==> words(input@).len() > 0 && words(input@)[0] == "run"@,
        cmd is Quit <==> words(input@).len() > 0 && (words(input@)[0] == "quit"@ || words(input@)[0]
            == "exit"@ || words(input@)[0] == "q"@),
        cmd is Cd <==> words(input@).len() > 0 && words(input@)[0] == "cd"@,
        cmd matches Command::Run(names) ==> string_views(names@) == words(input@).drop_first(),
        cmd matches Command::Cd(dir) ==> dir@ == (if words(input@).len() > 1 {
            words(input@)[1]
        } else {
            "/"@
        }),
        cmd matches Command::Exec(program, args) ==> program@ == words(input@)[0] && string_views(
            args@,
        ) == words(input@).drop_first(),
{
    proof {
        reveal_strlit("show");
        reveal_strlit("run");
        reveal_strlit("quit");
        reveal_strlit("exit");
        reveal_strlit("q");
        reveal_strlit("cd");
        assert("quit"@[0] != "show"@[0]);
        assert("exit"@[0] != "show"@[0]);
    }
    let mut ws = split_words(input);
    let ghost all = string_views(ws@);
    if ws.len() == 0 {
        return Command::Empty;
    }
    let head = ws.remove(0);
    proof {
        assert(string_views(ws@) == all.drop_first());
        assert(head@ == all[0]);
    }
    if head == String::from_str("show") {
        Command::Show
    } else if head == String::from_str("run") {
        Command::Run(ws)
    } else if head == String::from_str("quit") || head == String::from_str("exit") || head == String::from_str("q") {
        Command::Quit
    } else if head == String::from_str("cd") {
        if ws.len() > 0 {
            let dir = ws.remove(0);
            Command::Cd(dir)
        } else {
            Command::Cd(String::from_str("/"))
        }
    } else {
        Command::Exec(head, ws)
    }
}

} // verus!
