//! Helpers for command texts.

use vstd::prelude::*;

verus! {

/// What is written between the commands of a pipeline.
pub open spec fn separator() -> Seq<char> {
    seq![' ', '|', ' ']
}

/// The commands, with separators between them.
pub open spec fn joined(commands: Seq<Seq<char>>) -> Seq<char>
    decreases commands.len(),
{
    if commands.len() == 0 {
        Seq::empty()
    } else if commands.len() == 1 {
        commands[0]
    } else {
        commands[0] + separator() + joined(commands.drop_first())
    }
}

proof fn lemma_joined_push(commands: Seq<Seq<char>>, command: Seq<char>)
    requires
        commands.len() > 0,
    ensures
        joined(commands.push(command)) == joined(commands) + separator() + command,
    decreases commands.len(),
{
    let longer = commands.push(command);
    if commands.len() == 1 {
        assert(longer.drop_first() =~= seq![command]);
        assert(joined(longer.drop_first()) == command);
    } else {
        assert(longer.drop_first() =~= commands.drop_first().push(command));
        lemma_joined_push(commands.drop_first(), command);
        assert(longer[0] + separator() + (joined(commands.drop_first()) + separator() + command)
            =~= (commands[0] + separator() + joined(commands.drop_first())) + separator()
            + command);
    }
}

/// One more command is written behind the others with ` | ` between, and a single command is written
/// as it is.
pub proof fn law_joined_with_bars(commands: Seq<Seq<char>>, command: Seq<char>)
    ensures
        commands.len() == 0 ==> joined(commands.push(command)) == command,
        commands.len() > 0 ==> joined(commands.push(command)) == joined(commands) + " | "@
            + command,
{
    reveal_strlit(" | ");
    assert(" | "@ =~= separator());
    if commands.len() > 0 {
        lemma_joined_push(commands, command);
    }
}

/// The views of a list of strings.
pub open spec fn string_views(list: Seq<String>) -> Seq<Seq<char>> {
    list.map_values(|s: String| s@)
}

/// Writes the commands as one pipeline.
pub fn join_commands(commands: &Vec<String>) -> (r: String)
    ensures
        r@ == joined(string_views(commands@)),
{
    let mut result = String::new();
    let mut i: usize = 0;
    let ghost all = string_views(commands@);
    assert(all.take(0) =~= Seq::empty());
    while i < commands.len()
        invariant
            i <= commands@.len(),
            all == string_views(commands@),
            result@ == joined(all.take(i as int)),
        decreases commands@.len() - i,
    {
        proof {
            reveal_strlit(" | ");
            assert(" | "@ =~= separator());
            assert(all.take(i + 1) =~= all.take(i as int).push(all[i as int]));
            if i > 0 {
                lemma_joined_push(all.take(i as int), all[i as int]);
            }
        }
        if i != 0 {
            result.append(" | ");
        }
        result.append(commands[i].as_str());
        i = i + 1;
        assert(i == 1 ==> result@ =~= all[0]);
    }
    assert(all.take(i as int) =~= all);
    result
}

/// The characters with the Unicode property `White_Space`.
pub open spec fn is_white_space_spec(c: char) -> bool {
    ||| '\u{9}' <= c <= '\u{d}'
    ||| c == '\u{20}'
    ||| c == '\u{85}'
    ||| c == '\u{a0}'
    ||| c == '\u{1680}'
    ||| '\u{2000}' <= c <= '\u{200a}'
    ||| c == '\u{2028}'
    ||| c == '\u{2029}'
    ||| c == '\u{202f}'
    ||| c == '\u{205f}'
    ||| c == '\u{3000}'
}

fn is_white_space(c: char) -> (r: bool)
    ensures
        r == is_white_space_spec(c),
{
    ('\u{9}' <= c && c <= '\u{d}') || c == '\u{20}' || c == '\u{85}' || c == '\u{a0}' || c
        == '\u{1680}' || ('\u{2000}' <= c && c <= '\u{200a}') || c == '\u{2028}' || c == '\u{2029}'
        || c == '\u{202f}' || c == '\u{205f}' || c == '\u{3000}'
}

/// The text without white space at its ends.
pub open spec fn stripped(text: Seq<char>) -> Seq<char>
    decreases text.len(),
{
    if text.len() == 0 {
        text
    } else if is_white_space_spec(text[0]) {
        stripped(text.drop_first())
    } else if is_white_space_spec(text.last()) {
        stripped(text.drop_last())
    } else {
        text
    }
}

/// The command that an edited file stands for: one line, with no white space around it.
pub open spec fn cleaned(contents: Seq<char>) -> Seq<char> {
    stripped(contents).map_values(
        |c: char|
            if c == '\n' {
                ' '
            } else {
                c
            },
    )
}

/// The characters of a text.
pub fn characters(text: &str) -> (r: Vec<char>)
    ensures
        r@ == text@,
{
    let mut result: Vec<char> = Vec::new();
    for c in chars: text.chars()
        invariant
            chars.seq() == text@,
            result@ == text@.take(chars.index() as int),
    {
        result.push(c);
        assert(result@ =~= text@.take(chars.index() + 1));
    }
    assert(text@.take(text@.len() as int) =~= text@);
    result
}

/// `String::push` appends one character.
pub assume_specification[ String::push ](string: &mut String, c: char)
    ensures
        final(string)@ == old(string)@.push(c),
;

/// `==` on `str` holds for texts made of the same characters.
pub assume_specification[ <str as PartialEq<str>>::eq ](left: &str, right: &str) -> (r: bool)
    ensures
        r == (left@ == right@),
;

/// Turns the contents of an edited file into a command.
pub fn clean_command(contents: &str) -> (r: String)
    ensures
        r@ == cleaned(contents@),
{
    let all = characters(contents);
    let mut start: usize = 0;
    let mut end: usize = all.len();
    assert(all@.subrange(0, end as int) =~= contents@);
    while start < end && is_white_space(all[start])
        invariant
            start <= end == all@.len(),
            stripped(all@.subrange(start as int, end as int)) == stripped(contents@),
        decreases end - start,
    {
        assert(all@.subrange(start as int, end as int).drop_first() =~= all@.subrange(
            start + 1,
            end as int,
        ));
        start = start + 1;
    }
    while start < end && is_white_space(all[end - 1])
        invariant
            start <= end <= all@.len(),
            start < end ==> !is_white_space_spec(all@[start as int]),
            stripped(all@.subrange(start as int, end as int)) == stripped(contents@),
        decreases end - start,
    {
        assert(all@.subrange(start as int, end as int).drop_last() =~= all@.subrange(
            start as int,
            end - 1,
        ));
        end = end - 1;
    }
    let ghost target = cleaned(contents@);
    assert(stripped(contents@) == all@.subrange(start as int, end as int));
    let mut result = String::new();
    let mut i: usize = start;
    assert(target.take(0) =~= Seq::empty());
    while i < end
        invariant
            start <= i <= end <= all@.len(),
            stripped(contents@) == all@.subrange(start as int, end as int),
            target == cleaned(contents@),
            result@ == target.take(i - start),
        decreases end - i,
    {
        let c = if all[i] == '\n' {
            ' '
        } else {
            all[i]
        };
        result.push(c);
        assert(target.take(i + 1 - start) =~= target.take(i - start).push(c));
        i = i + 1;
    }
    assert(target.take(end - start) =~= target);
    result
}

/// Blanks, tabs and ends of lines are white space. No visible ASCII character is.
pub proof fn law_white_space(c: char)
    ensures
        c == ' ' || c == '\t' || c == '\n' || c == '\r' ==> is_white_space_spec(c),
        '!' <= c <= '~' ==> !is_white_space_spec(c),
{
}

proof fn lemma_stripped(before: Seq<char>, command: Seq<char>, after: Seq<char>)
    requires
        forall|i: int| 0 <= i < before.len() ==> is_white_space_spec(#[trigger] before[i]),
        forall|i: int| 0 <= i < after.len() ==> is_white_space_spec(#[trigger] after[i]),
        command.len() > 0 ==> !is_white_space_spec(command[0]) && !is_white_space_spec(
            command.last(),
        ),
    ensures
        stripped(before + command + after) == command,
    decreases before.len() + after.len(),
{
    let all = before + command + after;
    if before.len() > 0 {
        assert(all[0] == before[0]);
        assert(all.drop_first() =~= before.drop_first() + command + after);
        lemma_stripped(before.drop_first(), command, after);
    } else if after.len() > 0 {
        assert(all.last() == after.last());
        assert(after[after.len() - 1] == after.last());
        assert(all.drop_last() =~= before + command + after.drop_last());
        if command.len() > 0 {
            assert(all[0] == command[0]);
            lemma_stripped(before, command, after.drop_last());
        } else {
            assert(all =~= after);
            assert(all[0] == after[0]);
            assert(all.drop_first() =~= after.drop_first() + command + before);
            lemma_stripped(after.drop_first(), command, before);
            assert(command =~= Seq::empty());
        }
    } else {
        assert(all =~= command);
    }
}

/// White space around an edited command is taken away, and nothing else is. Ends of lines inside it
/// become blanks.
pub proof fn law_edited_command_is_one_line(
    before: Seq<char>,
    command: Seq<char>,
    after: Seq<char>,
)
    requires
        forall|i: int| 0 <= i < before.len() ==> is_white_space_spec(#[trigger] before[i]),
        forall|i: int| 0 <= i < after.len() ==> is_white_space_spec(#[trigger] after[i]),
        command.len() > 0 ==> !is_white_space_spec(command[0]) && !is_white_space_spec(
            command.last(),
        ),
    ensures
        ({
            let r = cleaned(before + command + after);
            &&& r.len() == command.len()
            &&& forall|i: int|
                0 <= i < command.len() ==> #[trigger] r[i] == (if command[i] == '\n' {
                    ' '
                } else {
                    command[i]
                })
        }),
{
    lemma_stripped(before, command, after);
}

} // verus!
