//! The scripts through which the system's dialog, trash and process control
//! are reached, and the reading of their answers.
//!
//! Paths and names come from the disk and may hold any character. Whatever
//! is placed in a script is placed there as a quoted literal, so that no
//! name can change what the script does.

use vstd::prelude::*;
use vstd::string::{StrSliceExecFns, StringExecFns};
use crate::text::{
    chars_of, decimal, find_end, find_word, join, push_char, push_decimal, same_text, trimmed,
};

verus! {

/// One character as it stands inside a quoted literal: a quote and a
/// backslash are each preceded by a backslash.
pub open spec fn escaped_char(c: char) -> Seq<char> {
    if c == '"' || c == '\\' {
        seq!['\\', c]
    } else {
        seq![c]
    }
}

/// A text as it stands inside a quoted literal.
pub open spec fn escaped(text: Seq<char>) -> Seq<char>
    decreases text.len(),
{
    if text.len() == 0 {
        Seq::empty()
    } else {
        escaped(text.drop_last()) + escaped_char(text.last())
    }
}

/// The quoted literal that stands for a text.
pub open spec fn quoted(text: Seq<char>) -> Seq<char> {
    seq!['"'] + escaped(text) + seq!['"']
}

/// What a script reads back from the inside of a quoted literal: a
/// backslash gives way to the character after it.
pub open spec fn unescaped(literal: Seq<char>) -> Seq<char>
    decreases literal.len(),
{
    if literal.len() == 0 {
        Seq::empty()
    } else if literal[0] == '\\' && literal.len() >= 2 {
        seq![literal[1]] + unescaped(literal.subrange(2, literal.len() as int))
    } else {
        seq![literal[0]] + unescaped(literal.subrange(1, literal.len() as int))
    }
}

/// The reference to a file by its path, as a script writes it.
pub open spec fn posix_file(path: Seq<char>) -> Seq<char> {
    "POSIX file "@ + quoted(path)
}

/// The references to the first `n` paths.
pub open spec fn posix_files(paths: Seq<Seq<char>>, n: int) -> Seq<Seq<char>>
    decreases n,
{
    if n <= 0 {
        Seq::empty()
    } else {
        posix_files(paths, n - 1).push(posix_file(paths[n - 1]))
    }
}

/// The script that moves the paths to the trash.
pub open spec fn trash_script_of(paths: Seq<Seq<char>>) -> Seq<char> {
    "tell application \"Finder\" to move {"@ + join(
        posix_files(paths, paths.len() as int),
        ", "@,
    ) + "} to trash"@
}

/// The script that asks a yes-or-no question and answers `YES` or `NO`.
pub open spec fn confirm_script_of(prompt: Seq<char>) -> Seq<char> {
    "display dialog "@ + quoted(prompt)
        + " buttons {\"No\", \"Yes\"} default button \"No\"\nif button returned of result is \"Yes\" then\n    return \"YES\"\nelse\n    return \"NO\"\nend if\n"@
}

/// The numerals of the process ids among the first `n` that name a
/// process.
pub open spec fn pid_numerals(pids: Seq<i32>, n: int) -> Seq<Seq<char>>
    decreases n,
{
    if n <= 0 {
        Seq::empty()
    } else if pids[n - 1] > 0 {
        pid_numerals(pids, n - 1).push(decimal(pids[n - 1] as nat))
    } else {
        pid_numerals(pids, n - 1)
    }
}

/// The script that ends the processes with the system's permission, or
/// `None` where no id names a process. An id that is not positive would
/// address a group of processes: it is left out.
pub open spec fn kill_script_of(pids: Seq<i32>) -> Option<Seq<char>> {
    let numerals = pid_numerals(pids, pids.len() as int);
    if numerals.len() == 0 {
        None
    } else {
        Some(
            "do shell script \"kill "@ + join(numerals, " "@)
                + " 2>/dev/null\" with administrator privileges"@,
        )
    }
}

/// Appends `text` to `out` as it stands inside a quoted literal.
fn push_escaped(out: &mut String, text: &str)
    ensures
        final(out)@ == old(out)@ + escaped(text@),
{
    let ghost start = out@;
    assert(text@.take(0) =~= Seq::empty());
    assert(out@ =~= start + escaped(text@.take(0)));
    for c in it: text.chars()
        invariant
            it.seq() == text@,
            out@ == start + escaped(text@.take(it.index() as int)),
    {
        proof {
            let i = it.index() as int;
            assert(text@.take(i + 1).drop_last() =~= text@.take(i));
            assert(text@.take(i + 1).last() == c);
        }
        let ghost before = out@;
        if c == '"' || c == '\\' {
            push_char(out, '\\');
        }
        push_char(out, c);
        assert(out@ =~= before + escaped_char(c));
        assert(out@ =~= start + escaped(text@.take(it.index() + 1)));
    }
    assert(text@.take(text@.len() as int) =~= text@);
}

/// Appends the quoted literal for `text` to `out`.
fn push_quoted(out: &mut String, text: &str)
    ensures
        final(out)@ == old(out)@ + quoted(text@),
{
    push_char(out, '"');
    push_escaped(out, text);
    push_char(out, '"');
    assert(out@ =~= old(out)@ + quoted(text@));
}

/// The quoted literal that stands for `text` in a script.
pub fn quote(text: &str) -> (r: String)
    ensures
        r@ == quoted(text@),
{
    let mut out = String::new();
    push_quoted(&mut out, text);
    assert(out@ =~= quoted(text@));
    out
}

/// The script that moves `paths` to the trash, or `None` where there is no
/// path, for which nothing is to be run.
pub fn trash_script(paths: &Vec<String>) -> (r: Option<String>)
    ensures
        match r {
            Some(script) => paths.len() > 0 && script@ == trash_script_of(paths.deep_view()),
            None => paths.len() == 0,
        },
{
    if paths.len() == 0 {
        return None;
    }
    let ghost all = paths.deep_view();
    let mut out = "tell application \"Finder\" to move {".to_owned();
    let ghost head = out@;
    let mut i: usize = 0;
    while i < paths.len()
        invariant
            i <= paths.len(),
            all == paths.deep_view(),
            out@ == head + join(posix_files(all, i as int), ", "@),
        decreases paths.len() - i,
    {
        let ghost before = out@;
        let ghost shown = posix_files(all, i as int);
        proof {
            lemma_posix_files_len(all, i as int);
            assert(posix_files(all, i + 1).drop_last() =~= shown);
        }
        if i > 0 {
            out.append(", ");
        }
        out.append("POSIX file ");
        push_quoted(&mut out, paths[i].as_str());
        proof {
            let item = posix_file(all[i as int]);
            if i > 0 {
                assert(out@ =~= head + (join(shown, ", "@) + ", "@ + item));
            } else {
                assert(out@ =~= head + item);
            }
        }
        i += 1;
    }
    out.append("} to trash");
    Some(out)
}

proof fn lemma_posix_files_len(paths: Seq<Seq<char>>, n: int)
    requires
        0 <= n,
    ensures
        posix_files(paths, n).len() == n,
    decreases n,
{
    if n > 0 {
        lemma_posix_files_len(paths, n - 1);
    }
}

/// The script that puts `prompt` to the user as a question with the
/// buttons No and Yes, No being the default.
pub fn confirm_script(prompt: &str) -> (r: String)
    ensures
        r@ == confirm_script_of(prompt@),
{
    let mut out = "display dialog ".to_owned();
    push_quoted(&mut out, prompt);
    out.append(
        " buttons {\"No\", \"Yes\"} default button \"No\"\nif button returned of result is \"Yes\" then\n    return \"YES\"\nelse\n    return \"NO\"\nend if\n",
    );
    out
}

/// Whether the answer of the confirmation script is a yes: the text `YES`,
/// blanks around it aside.
pub fn is_yes(response: &str) -> (r: bool)
    ensures
        r == (trimmed(response@) == "YES"@),
{
    let chars = chars_of(response);
    let start = find_word(&chars, 0);
    let end = find_end(&chars);
    if start < end {
        same_text(response.substring_char(start, end), "YES")
    } else {
        proof {
            reveal_strlit("YES");
            assert("YES"@.len() == 3);
        }
        false
    }
}

/// The script that ends the processes `pids` with the system's permission.
pub fn kill_script(pids: &Vec<i32>) -> (r: Option<String>)
    ensures
        match r {
            Some(script) => kill_script_of(pids@) == Some(script@),
            None => kill_script_of(pids@) is None,
        },
{
    let mut out = "do shell script \"kill ".to_owned();
    let ghost head = out@;
    let mut any = false;
    let mut i: usize = 0;
    while i < pids.len()
        invariant
            i <= pids.len(),
            any == (pid_numerals(pids@, i as int).len() > 0),
            out@ == head + join(pid_numerals(pids@, i as int), " "@),
        decreases pids.len() - i,
    {
        let pid = pids[i];
        if pid > 0 {
            let ghost shown = pid_numerals(pids@, i as int);
            let ghost before = out@;
            proof {
                assert(pid_numerals(pids@, i + 1).drop_last() =~= shown);
            }
            if any {
                out.append(" ");
            }
            push_decimal(&mut out, pid as u64);
            proof {
                let item = decimal(pid as nat);
                if any {
                    assert(out@ =~= head + (join(shown, " "@) + " "@ + item));
                } else {
                    assert(out@ =~= head + item);
                }
            }
            any = true;
        }
        i += 1;
    }
    if any {
        out.append(" 2>/dev/null\" with administrator privileges");
        Some(out)
    } else {
        None
    }
}

/// A script reads a quoted literal back as the text it was made from:
/// nothing in a text can end its literal early.
pub proof fn lemma_unescaped_escaped(text: Seq<char>)
    ensures
        unescaped(escaped(text)) == text,
    decreases text.len(),
{
    if text.len() > 0 {
        let c = text[0];
        let rest = text.subrange(1, text.len() as int);
        lemma_escaped_prepend(text);
        lemma_unescaped_escaped(rest);
        let literal = escaped(text);
        if c == '"' || c == '\\' {
            assert(literal.subrange(2, literal.len() as int) =~= escaped(rest));
        } else {
            assert(literal.subrange(1, literal.len() as int) =~= escaped(rest));
        }
        assert(seq![c] + rest =~= text);
    }
}

/// Escaping goes character by character from the front as well.
proof fn lemma_escaped_prepend(text: Seq<char>)
    requires
        text.len() > 0,
    ensures
        escaped(text) == escaped_char(text[0]) + escaped(text.subrange(1, text.len() as int)),
    decreases text.len(),
{
    let rest = text.subrange(1, text.len() as int);
    if text.len() == 1 {
        assert(text.drop_last() =~= Seq::empty());
        assert(escaped(text.drop_last()) =~= Seq::empty());
        assert(text.last() == text[0]);
        assert(escaped(text) =~= escaped_char(text[0]));
        assert(rest =~= Seq::empty());
        assert(escaped(rest) =~= Seq::empty());
        assert(escaped(text) =~= escaped_char(text[0]) + escaped(rest));
    } else {
        lemma_escaped_prepend(text.drop_last());
        assert(text.drop_last().subrange(1, text.len() - 1) =~= rest.drop_last());
        assert(rest.last() == text.last());
        assert(escaped(text) =~= escaped_char(text[0]) + escaped(rest));
    }
}

} // verus!
