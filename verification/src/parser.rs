//! Splitting of shell pipelines into commands.
//!
//! A pipeline is a sequence of commands with `|` between them. A bar separates commands only
//! where it stands by itself: inside quotes, behind a backslash, and inside a `{ .. }` group or a
//! `( .. )` subshell it is a part of the command. White space around a command does not belong to
//! it.

use crate::text;
use vstd::prelude::*;

verus! {

/// Reasons why a text is not a pipeline.
#[derive(Debug, Clone, Copy, PartialEq, Eq, Structural)]
pub enum ParseError {
    /// A `)` or `}` closes nothing, or not what was opened last.
    UnexpectedClose,
    /// The text ends inside quotes, a group or a subshell, or right behind a backslash.
    UnexpectedEnd,
    /// There is nothing where a command should be.
    EmptyCommand,
}

/// How the next character is read.
#[derive(Debug, Clone, Copy, PartialEq, Eq, Structural)]
pub enum Mode {
    /// Outside of quotes.
    Plain,
    /// Behind a backslash, outside of quotes.
    Escaped,
    /// Between single quotes.
    Single,
    /// Between double quotes.
    Double,
    /// Behind a backslash, between double quotes.
    DoubleEscaped,
    /// Behind a closing bracket that does not fit.
    Broken,
}

/// What has been opened by a prefix of the text and not closed yet.
pub struct Context {
    pub mode: Mode,
    /// The closing brackets that are due, the innermost last.
    pub due: Seq<char>,
}

/// The part that a character plays for the whole pipeline.
#[derive(Debug, Clone, Copy, PartialEq, Eq, Structural)]
pub enum Role {
    /// A part of a command.
    Solid,
    /// White space that separates words of a command or surrounds a command.
    Gap,
    /// A bar between commands.
    Bar,
}

/// The context in which a pipeline starts, and in which commands are separated.
pub open spec fn top() -> Context {
    Context { mode: Mode::Plain, due: Seq::empty() }
}

pub open spec fn is_blank_spec(c: char) -> bool {
    c == ' ' || c == '\t' || c == '\n' || c == '\r' || c == '\x0C'
}

/// The context behind `c`, where `context` is the one before it.
pub open spec fn step(context: Context, c: char) -> Context {
    match context.mode {
        Mode::Plain => if c == '\\' {
            Context { mode: Mode::Escaped, ..context }
        } else if c == '\'' {
            Context { mode: Mode::Single, ..context }
        } else if c == '"' {
            Context { mode: Mode::Double, ..context }
        } else if c == '(' {
            Context { due: context.due.push(')'), ..context }
        } else if c == '{' {
            Context { due: context.due.push('}'), ..context }
        } else if c == ')' || c == '}' {
            if context.due.len() > 0 && context.due.last() == c {
                Context { due: context.due.drop_last(), ..context }
            } else {
                Context { mode: Mode::Broken, ..context }
            }
        } else {
            context
        },
        Mode::Escaped => Context { mode: Mode::Plain, ..context },
        Mode::Single => if c == '\'' {
            Context { mode: Mode::Plain, ..context }
        } else {
            context
        },
        Mode::Double => if c == '"' {
            Context { mode: Mode::Plain, ..context }
        } else if c == '\\' {
            Context { mode: Mode::DoubleEscaped, ..context }
        } else {
            context
        },
        Mode::DoubleEscaped => Context { mode: Mode::Double, ..context },
        Mode::Broken => context,
    }
}

/// The context behind the whole of `text`, where `start` is the one before it.
pub open spec fn context_after(start: Context, text: Seq<char>) -> Context
    decreases text.len(),
{
    if text.len() == 0 {
        start
    } else {
        step(context_after(start, text.drop_last()), text.last())
    }
}

/// The role of the character at `i`.
pub open spec fn role_at(text: Seq<char>, i: int) -> Role {
    if context_after(top(), text.take(i)) != top() {
        Role::Solid
    } else if text[i] == '|' {
        Role::Bar
    } else if is_blank_spec(text[i]) {
        Role::Gap
    } else {
        Role::Solid
    }
}

/// The roles of all characters.
pub open spec fn roles(text: Seq<char>) -> Seq<Role> {
    Seq::new(text.len(), |i: int| role_at(text, i))
}

/// The text without the gaps at its ends.
pub open spec fn trimmed(text: Seq<char>, roles: Seq<Role>) -> Seq<char>
    decreases text.len(),
{
    if text.len() == 0 {
        text
    } else if roles[0] == Role::Gap {
        trimmed(text.drop_first(), roles.drop_first())
    } else if roles.last() == Role::Gap {
        trimmed(text.drop_last(), roles.drop_last())
    } else {
        text
    }
}

/// The number of characters before the first bar.
pub open spec fn first_bar(roles: Seq<Role>) -> int
    decreases roles.len(),
{
    if roles.len() == 0 || roles[0] == Role::Bar {
        0
    } else {
        1 + first_bar(roles.drop_first())
    }
}

pub proof fn lemma_first_bar(roles: Seq<Role>)
    ensures
        0 <= first_bar(roles) <= roles.len(),
        first_bar(roles) < roles.len() ==> roles[first_bar(roles)] == Role::Bar,
        forall|i: int| 0 <= i < first_bar(roles) ==> roles[i] != Role::Bar,
    decreases roles.len(),
{
    if roles.len() > 0 && roles[0] != Role::Bar {
        let rest = roles.drop_first();
        lemma_first_bar(rest);
        assert forall|i: int| 0 <= i < first_bar(roles) implies roles[i] != Role::Bar by {
            if i > 0 {
                assert(rest[i - 1] == roles[i]);
            }
        }
    }
}

/// What stands between the bars, each piece without the gaps at its ends.
pub open spec fn pieces(text: Seq<char>, roles: Seq<Role>) -> Seq<Seq<char>>
    decreases text.len(),
{
    let bar = first_bar(roles);
    let piece = trimmed(text.take(bar), roles.take(bar));
    if 0 <= bar < text.len() {
        seq![piece] + pieces(text.skip(bar + 1), roles.skip(bar + 1))
    } else {
        seq![piece]
    }
}

/// The commands of a pipeline, or the reason why the text is none.
pub open spec fn parsed(text: Seq<char>) -> Result<Seq<Seq<char>>, ParseError> {
    let end = context_after(top(), text);
    let commands = pieces(text, roles(text));
    if end.mode == Mode::Broken {
        Err(ParseError::UnexpectedClose)
    } else if end != top() {
        Err(ParseError::UnexpectedEnd)
    } else if exists|i: int| 0 <= i < commands.len() && (#[trigger] commands[i]).len() == 0 {
        Err(ParseError::EmptyCommand)
    } else {
        Ok(commands)
    }
}

fn is_blank(c: char) -> (r: bool)
    ensures
        r == is_blank_spec(c),
{
    c == ' ' || c == '\t' || c == '\n' || c == '\r' || c == '\x0C'
}

/// Moves the context, held in `mode` and `due`, over one character.
fn advance(mode: Mode, due: &mut Vec<char>, c: char) -> (r: Mode)
    ensures
        (Context { mode: r, due: final(due)@ }) == step(Context { mode, due: old(due)@ }, c),
{
    match mode {
        Mode::Plain => if c == '\\' {
            Mode::Escaped
        } else if c == '\'' {
            Mode::Single
        } else if c == '"' {
            Mode::Double
        } else if c == '(' {
            due.push(')');
            Mode::Plain
        } else if c == '{' {
            due.push('}');
            Mode::Plain
        } else if c == ')' || c == '}' {
            let fits = due.len() > 0 && due[due.len() - 1] == c;
            if fits {
                due.pop();
                Mode::Plain
            } else {
                Mode::Broken
            }
        } else {
            Mode::Plain
        },
        Mode::Escaped => Mode::Plain,
        Mode::Single => if c == '\'' {
            Mode::Plain
        } else {
            Mode::Single
        },
        Mode::Double => if c == '"' {
            Mode::Plain
        } else if c == '\\' {
            Mode::DoubleEscaped
        } else {
            Mode::Double
        },
        Mode::DoubleEscaped => Mode::Double,
        Mode::Broken => Mode::Broken,
    }
}

/// Finds the role of each character, and the context behind the last one.
fn find_roles(text: &str) -> (r: (Vec<Role>, Mode, Vec<char>))
    ensures
        r.0@ == roles(text@),
        (Context { mode: r.1, due: r.2@ }) == context_after(top(), text@),
{
    let mut found: Vec<Role> = Vec::new();
    let mut mode = Mode::Plain;
    let mut due: Vec<char> = Vec::new();
    for c in chars: text.chars()
        invariant
            chars.seq() == text@,
            found@.len() == chars.index(),
            forall|i: int| 0 <= i < found@.len() ==> found@[i] == role_at(text@, i),
            (Context { mode, due: due@ }) == context_after(top(), text@.take(chars.index() as int)),
    {
        let ghost i = chars.index() as int;
        let at_top = mode == Mode::Plain && due.len() == 0;
        proof {
            assert(at_top ==> due@ =~= Seq::<char>::empty());
            assert(text@.take(i + 1).drop_last() =~= text@.take(i));
        }
        if at_top && c == '|' {
            found.push(Role::Bar);
        } else if at_top && is_blank(c) {
            found.push(Role::Gap);
        } else {
            found.push(Role::Solid);
        }
        mode = advance(mode, &mut due, c);
    }
    assert(text@.take(text@.len() as int) =~= text@);
    assert(found@ =~= roles(text@));
    (found, mode, due)
}

/// Finds the first bar at or behind `from`, or the end of the text.
fn find_bar(found: &Vec<Role>, from: usize) -> (r: usize)
    requires
        from <= found@.len(),
    ensures
        from <= r <= found@.len(),
        r - from == first_bar(found@.skip(from as int)),
{
    let mut end: usize = from;
    while end < found.len() && found[end] != Role::Bar
        invariant
            from <= end <= found@.len(),
            first_bar(found@.skip(from as int)) == (end - from) + first_bar(
                found@.skip(end as int),
            ),
        decreases found@.len() - end,
    {
        assert(found@.skip(end as int).drop_first() =~= found@.skip(end + 1));
        end = end + 1;
    }
    assert(first_bar(found@.skip(end as int)) == 0);
    end
}

/// Narrows the range from `from` to `to` by the gaps at its ends.
fn narrow(text: &str, found: &Vec<Role>, from: usize, to: usize) -> (r: (usize, usize))
    requires
        from <= to <= found@.len(),
        found@.len() == text@.len(),
    ensures
        from <= r.0 <= r.1 <= to,
        text@.subrange(r.0 as int, r.1 as int) == trimmed(
            text@.subrange(from as int, to as int),
            found@.subrange(from as int, to as int),
        ),
{
    let mut start: usize = from;
    let mut end: usize = to;
    while start < end && found[start] == Role::Gap
        invariant
            from <= start <= end == to <= found@.len(),
            found@.len() == text@.len(),
            trimmed(
                text@.subrange(start as int, end as int),
                found@.subrange(start as int, end as int),
            ) == trimmed(
                text@.subrange(from as int, to as int),
                found@.subrange(from as int, to as int),
            ),
        decreases end - start,
    {
        assert(text@.subrange(start as int, end as int).drop_first() =~= text@.subrange(
            start + 1,
            end as int,
        ));
        assert(found@.subrange(start as int, end as int).drop_first() =~= found@.subrange(
            start + 1,
            end as int,
        ));
        start = start + 1;
    }
    while start < end && found[end - 1] == Role::Gap
        invariant
            from <= start <= end <= to <= found@.len(),
            found@.len() == text@.len(),
            start < end ==> found@[start as int] != Role::Gap,
            trimmed(
                text@.subrange(start as int, end as int),
                found@.subrange(start as int, end as int),
            ) == trimmed(
                text@.subrange(from as int, to as int),
                found@.subrange(from as int, to as int),
            ),
        decreases end - start,
    {
        assert(text@.subrange(start as int, end as int).drop_last() =~= text@.subrange(
            start as int,
            end - 1,
        ));
        assert(found@.subrange(start as int, end as int).drop_last() =~= found@.subrange(
            start as int,
            end - 1,
        ));
        end = end - 1;
    }
    (start, end)
}

/// The views of a list of strings.
pub open spec fn views(list: Seq<&str>) -> Seq<Seq<char>> {
    list.map_values(|s: &str| s@)
}

/// Splits a pipeline into its commands.
pub fn split_pipeline(input: &str) -> (r: Result<Vec<&str>, ParseError>)
    ensures
        match r {
            Ok(commands) => parsed(input@) == Ok::<_, ParseError>(views(commands@)),
            Err(error) => parsed(input@) == Err::<Seq<Seq<char>>, _>(error),
        },
{
    let (found, mode, due) = find_roles(input);
    if mode == Mode::Broken {
        return Err(ParseError::UnexpectedClose);
    }
    if mode != Mode::Plain || due.len() > 0 {
        return Err(ParseError::UnexpectedEnd);
    }
    assert(due@ =~= Seq::<char>::empty());
    let ghost text = input@;
    let ghost all = pieces(text, found@);
    let mut commands: Vec<&str> = Vec::new();
    let mut from: usize = 0;
    let mut more = true;
    assert(text.skip(0) =~= text && found@.skip(0) =~= found@);
    assert(views(commands@) + pieces(text, found@) =~= all);
    while more
        invariant
            text == input@,
            found@.len() == text.len(),
            all == pieces(text, found@),
            more ==> from <= text.len(),
            more ==> all == views(commands@) + pieces(
                text.skip(from as int),
                found@.skip(from as int),
            ),
            !more ==> all == views(commands@),
            forall|i: int| 0 <= i < commands@.len() ==> (#[trigger] views(commands@)[i]).len() > 0,
            found@ == roles(text),
            context_after(top(), text) == top(),
        decreases (if more { text.len() - from + 1 } else { 0 }),
    {
        let bar = find_bar(&found, from);
        let (start, end) = narrow(input, &found, from, bar);
        let ghost before = commands@;
        let ghost rest = text.skip(from as int);
        let ghost rest_roles = found@.skip(from as int);
        let ghost piece = text.subrange(start as int, end as int);
        proof {
            let n = bar - from;
            assert(rest.take(n) =~= text.subrange(from as int, bar as int));
            assert(rest_roles.take(n) =~= found@.subrange(from as int, bar as int));
            assert(pieces(rest, rest_roles)[0] == piece);
            assert(all[before.len() as int] == piece);
        }
        if start == end {
            assert(all[before.len() as int].len() == 0);
            return Err(ParseError::EmptyCommand);
        }
        commands.push(input.substring_char(start, end));
        proof {
            assert(views(commands@) =~= views(before).push(piece));
            assert forall|i: int| 0 <= i < commands@.len() implies (#[trigger] views(
                commands@,
            )[i]).len() > 0 by {
                if i < before.len() {
                    assert(views(commands@)[i] == views(before)[i]);
                }
            }
        }
        if bar < found.len() {
            proof {
                let n = bar - from;
                assert(rest.skip(n + 1) =~= text.skip(bar + 1));
                assert(rest_roles.skip(n + 1) =~= found@.skip(bar + 1));
                assert(views(before) + (seq![piece] + pieces(text.skip(bar + 1), found@.skip(
                    bar + 1,
                ))) =~= views(commands@) + pieces(text.skip(bar + 1), found@.skip(bar + 1)));
            }
            from = bar + 1;
        } else {
            assert(views(before) + seq![piece] =~= views(commands@));
            more = false;
        }
    }
    Ok(commands)
}

/// Whether `text` opens nothing that it does not close.
pub open spec fn closed_text(text: Seq<char>) -> bool {
    context_after(top(), text) == top()
}

/// Whether `text` is a single command with no white space around it.
pub open spec fn is_command(text: Seq<char>) -> bool {
    parsed(text) == Ok::<_, ParseError>(seq![text])
}

/// The same as `is_command`, in terms of roles.
spec fn command_shape(text: Seq<char>) -> bool {
    &&& closed_text(text)
    &&& text.len() > 0
    &&& forall|i: int| 0 <= i < text.len() ==> roles(text)[i] != Role::Bar
    &&& roles(text)[0] != Role::Gap
    &&& roles(text).last() != Role::Gap
}

proof fn lemma_context_concat(start: Context, a: Seq<char>, b: Seq<char>)
    ensures
        context_after(start, a + b) == context_after(context_after(start, a), b),
    decreases b.len(),
{
    if b.len() == 0 {
        assert(a + b =~= a);
    } else {
        lemma_context_concat(start, a, b.drop_last());
        assert((a + b).drop_last() =~= a + b.drop_last());
        assert((a + b).last() == b.last());
    }
}

proof fn lemma_roles_concat(a: Seq<char>, b: Seq<char>)
    requires
        closed_text(a),
    ensures
        roles(a + b) == roles(a) + roles(b),
{
    assert forall|i: int| 0 <= i < (a + b).len() implies roles(a + b)[i] == (roles(a) + roles(
        b,
    ))[i] by {
        if i < a.len() {
            assert((a + b).take(i) =~= a.take(i));
        } else {
            let j = i - a.len();
            assert((a + b).take(i) =~= a + b.take(j));
            lemma_context_concat(top(), a, b.take(j));
        }
    }
    assert(roles(a + b) =~= roles(a) + roles(b));
}

proof fn lemma_roles_take(text: Seq<char>, n: int)
    requires
        0 <= n <= text.len(),
    ensures
        roles(text.take(n)) == roles(text).take(n),
{
    assert forall|i: int| 0 <= i < n implies roles(text.take(n))[i] == roles(text).take(n)[i] by {
        assert(text.take(n).take(i) =~= text.take(i));
    }
    assert(roles(text.take(n)) =~= roles(text).take(n));
}

proof fn lemma_one_char(c: char)
    requires
        c == '|' || is_blank_spec(c),
    ensures
        closed_text(seq![c]),
        roles(seq![c]) == seq![if c == '|' { Role::Bar } else { Role::Gap }],
{
    let text = seq![c];
    assert(text.drop_last() =~= Seq::empty());
    assert(context_after(top(), text.drop_last()) == top());
    assert(text.take(0) =~= Seq::empty());
    assert(roles(text)[0] == (if c == '|' {
        Role::Bar
    } else {
        Role::Gap
    }));
    assert(roles(text) =~= seq![
        if c == '|' {
            Role::Bar
        } else {
            Role::Gap
        },
    ]);
}

proof fn lemma_separator()
    ensures
        closed_text(text::separator()),
        roles(text::separator()) == seq![Role::Gap, Role::Bar, Role::Gap],
{
    lemma_one_char(' ');
    lemma_one_char('|');
    let a = seq![' '];
    let b = seq!['|'];
    lemma_context_concat(top(), a, b);
    lemma_roles_concat(a, b);
    lemma_context_concat(top(), a + b, a);
    lemma_roles_concat(a + b, a);
    assert(text::separator() =~= (a + b) + a);
    assert((roles(a) + roles(b)) + roles(a) =~= seq![Role::Gap, Role::Bar, Role::Gap]);
}

proof fn lemma_trimmed_len(text: Seq<char>, k: Seq<Role>)
    requires
        text.len() == k.len(),
    ensures
        trimmed(text, k).len() <= text.len(),
    decreases text.len(),
{
    if text.len() == 0 {
    } else if k[0] == Role::Gap {
        lemma_trimmed_len(text.drop_first(), k.drop_first());
    } else if k.last() == Role::Gap {
        lemma_trimmed_len(text.drop_last(), k.drop_last());
    }
}

/// Trimming leaves a command, or nothing.
proof fn lemma_trimmed_command(text: Seq<char>)
    requires
        closed_text(text),
        forall|i: int| 0 <= i < text.len() ==> roles(text)[i] != Role::Bar,
    ensures
        trimmed(text, roles(text)).len() > 0 ==> command_shape(trimmed(text, roles(text))),
    decreases text.len(),
{
    let k = roles(text);
    if text.len() == 0 {
    } else if k[0] == Role::Gap {
        let head = text.take(1);
        let rest = text.drop_first();
        assert(head =~= seq![text[0]]);
        lemma_one_char(text[0]);
        assert(text =~= head + rest);
        lemma_context_concat(top(), head, rest);
        lemma_roles_concat(head, rest);
        assert(roles(rest) =~= k.drop_first());
        assert forall|i: int| 0 <= i < rest.len() implies roles(rest)[i] != Role::Bar by {
            assert(roles(rest)[i] == k[i + 1]);
        }
        lemma_trimmed_command(rest);
    } else if k.last() == Role::Gap {
        let n = text.len() - 1;
        let rest = text.drop_last();
        assert(rest =~= text.take(n));
        lemma_roles_take(text, n);
        assert(roles(rest) =~= k.drop_last());
        assert(role_at(text, n) == Role::Gap);
        assert forall|i: int| 0 <= i < rest.len() implies roles(rest)[i] != Role::Bar by {
            assert(roles(rest)[i] == k[i]);
        }
        lemma_trimmed_command(rest);
    }
}

proof fn lemma_pieces_are_commands(text: Seq<char>)
    requires
        closed_text(text),
    ensures
        forall|i: int|
            0 <= i < pieces(text, roles(text)).len() && (#[trigger] pieces(text, roles(
                text,
            ))[i]).len() > 0 ==> command_shape(pieces(text, roles(text))[i]),
    decreases text.len(),
{
    let k = roles(text);
    let bar = first_bar(k);
    lemma_first_bar(k);
    let head = text.take(bar);
    lemma_roles_take(text, bar);
    assert forall|i: int| 0 <= i < head.len() implies roles(head)[i] != Role::Bar by {
        assert(roles(head)[i] == k[i]);
    }
    if bar < text.len() {
        assert(role_at(text, bar) == Role::Bar);
        lemma_trimmed_command(head);
        let middle = text.take(bar + 1);
        let rest = text.skip(bar + 1);
        assert(middle.drop_last() =~= head);
        assert(closed_text(middle));
        assert(text =~= middle + rest);
        lemma_context_concat(top(), middle, rest);
        lemma_roles_concat(middle, rest);
        assert(roles(rest) =~= k.skip(bar + 1));
        lemma_pieces_are_commands(rest);
        let tail = pieces(rest, roles(rest));
        assert forall|i: int|
            0 <= i < pieces(text, k).len() && (#[trigger] pieces(text, k)[i]).len()
                > 0 implies command_shape(pieces(text, k)[i]) by {
            if i > 0 {
                assert(pieces(text, k)[i] == tail[i - 1]);
            }
        }
    } else {
        assert(head =~= text);
        assert(k.take(bar) =~= k);
        lemma_trimmed_command(text);
    }
}

proof fn lemma_no_bar(k: Seq<Role>)
    requires
        forall|i: int| 0 <= i < k.len() ==> k[i] != Role::Bar,
    ensures
        first_bar(k) == k.len(),
{
    lemma_first_bar(k);
}

proof fn lemma_command_shape(text: Seq<char>)
    ensures
        is_command(text) <==> command_shape(text),
{
    let k = roles(text);
    let bar = first_bar(k);
    lemma_first_bar(k);
    if is_command(text) {
        let commands = pieces(text, k);
        assert(commands == seq![text]);
        assert(commands[0] == text);
        if bar < text.len() {
            assert(commands.len() == 1 + pieces(text.skip(bar + 1), k.skip(bar + 1)).len());
            assert(pieces(text.skip(bar + 1), k.skip(bar + 1)).len() > 0);
            assert(false);
        }
        assert(text.take(bar) =~= text && k.take(bar) =~= k);
        assert(trimmed(text, k) == text);
        assert(text.len() > 0);
        if k[0] == Role::Gap {
            lemma_trimmed_len(text.drop_first(), k.drop_first());
        } else if k.last() == Role::Gap {
            lemma_trimmed_len(text.drop_last(), k.drop_last());
        }
    }
    if command_shape(text) {
        lemma_no_bar(k);
        assert(text.take(bar) =~= text && k.take(bar) =~= k);
        assert(pieces(text, k) =~= seq![text]);
    }
}

/// A gap in front of a text changes none of its pieces.
proof fn lemma_leading_gap(c: char, text: Seq<char>, k: Seq<Role>)
    requires
        text.len() == k.len(),
    ensures
        pieces(seq![c] + text, seq![Role::Gap] + k) == pieces(text, k),
{
    let t = seq![c] + text;
    let r = seq![Role::Gap] + k;
    lemma_first_bar(k);
    let bar = first_bar(k);
    assert(r.drop_first() =~= k);
    assert(first_bar(r) == 1 + bar);
    assert(t.take(1 + bar).drop_first() =~= text.take(bar));
    assert(r.take(1 + bar).drop_first() =~= k.take(bar));
    assert(trimmed(t.take(1 + bar), r.take(1 + bar)) == trimmed(text.take(bar), k.take(bar)));
    if bar < text.len() {
        assert(t.skip(bar + 2) =~= text.skip(bar + 1));
        assert(r.skip(bar + 2) =~= k.skip(bar + 1));
    }
}

#[verifier::rlimit(30)]
proof fn lemma_joined_pieces(commands: Seq<Seq<char>>)
    requires
        commands.len() > 0,
        forall|i: int| 0 <= i < commands.len() ==> command_shape(#[trigger] commands[i]),
    ensures
        closed_text(text::joined(commands)),
        pieces(text::joined(commands), roles(text::joined(commands))) == commands,
    decreases commands.len(),
{
    let c = commands[0];
    let k = roles(c);
    assert(command_shape(c));
    lemma_no_bar(k);
    if commands.len() == 1 {
        assert(c.take(c.len() as int) =~= c && k.take(c.len() as int) =~= k);
        assert(commands =~= seq![c]);
        assert(pieces(c, k) =~= commands);
    } else {
        let rest = commands.drop_first();
        assert forall|i: int| 0 <= i < rest.len() implies command_shape(#[trigger] rest[i]) by {
            assert(rest[i] == commands[i + 1]);
        }
        lemma_joined_pieces(rest);
        let t = text::joined(rest);
        let s = c + text::separator() + t;
        lemma_separator();
        lemma_context_concat(top(), c, text::separator());
        lemma_roles_concat(c, text::separator());
        lemma_context_concat(top(), c + text::separator(), t);
        lemma_roles_concat(c + text::separator(), t);
        let r = roles(s);
        assert(r == (k + seq![Role::Gap, Role::Bar, Role::Gap]) + roles(t));
        let bar = c.len() as int + 1;
        lemma_first_bar(r);
        assert(r[bar] == Role::Bar);
        assert forall|i: int| 0 <= i < bar implies r[i] != Role::Bar by {
            if i < c.len() {
                assert(r[i] == k[i]);
            }
        }
        assert(first_bar(r) == bar);
        let padded = s.take(bar);
        let padded_roles = r.take(bar);
        assert(padded.drop_last() =~= c);
        assert(padded_roles.drop_last() =~= k);
        assert(padded_roles[0] == k[0]);
        assert(padded_roles.last() == Role::Gap);
        assert(trimmed(c, k) == c);
        assert(trimmed(padded, padded_roles) == c);
        assert(s.skip(bar + 1) =~= seq![' '] + t);
        assert(r.skip(bar + 1) =~= seq![Role::Gap] + roles(t));
        lemma_leading_gap(' ', t, roles(t));
        assert(seq![c] + rest =~= commands);
    }
}

/// Each command of a pipeline is a pipeline of its own: splitting it again changes nothing.
pub proof fn law_commands_do_not_split_further(text: Seq<char>)
    requires
        parsed(text) is Ok,
    ensures
        forall|i: int| 0 <= i < parsed(text)->Ok_0.len() ==> is_command(#[trigger] parsed(text)->Ok_0[i]),
{
    lemma_pieces_are_commands(text);
    let commands = pieces(text, roles(text));
    assert forall|i: int| 0 <= i < commands.len() implies is_command(#[trigger] commands[i]) by {
        lemma_command_shape(commands[i]);
    }
}

/// Splitting undoes joining: commands that are written as one pipeline come out of it again.
pub proof fn law_split_undoes_join(commands: Seq<Seq<char>>)
    requires
        commands.len() > 0,
        forall|i: int| 0 <= i < commands.len() ==> is_command(#[trigger] commands[i]),
    ensures
        parsed(text::joined(commands)) == Ok::<_, ParseError>(commands),
{
    assert forall|i: int| 0 <= i < commands.len() implies command_shape(#[trigger] commands[i]) by {
        lemma_command_shape(commands[i]);
    }
    lemma_joined_pieces(commands);
    assert forall|i: int| 0 <= i < commands.len() implies (#[trigger] commands[i]).len() != 0 by {
        assert(command_shape(commands[i]));
    }
}

/// A pipeline that is split into commands and printed again still splits into the same commands.
pub proof fn law_printed_pipeline_is_read_back(text: Seq<char>)
    requires
        parsed(text) is Ok,
    ensures
        parsed(text::joined(parsed(text)->Ok_0)) == parsed(text),
{
    law_commands_do_not_split_further(text);
    lemma_first_bar(roles(text));
    law_split_undoes_join(parsed(text)->Ok_0);
}

/// Whether a text is made of white space alone.
pub open spec fn is_blank_text(text: Seq<char>) -> bool {
    forall|i: int|
        0 <= i < text.len() ==> {
            ||| #[trigger] text[i] == ' '
            ||| text[i] == '\t'
            ||| text[i] == '\n'
            ||| text[i] == '\r'
            ||| text[i] == '\x0C'
        }
}

/// Whether a character is a part of a command and has no other meaning.
pub open spec fn is_word_char(c: char) -> bool {
    &&& c != '\'' && c != '"' && c != '\\' && c != '|'
    &&& c != '(' && c != ')' && c != '{' && c != '}'
    &&& c != ' ' && c != '\t' && c != '\n' && c != '\r' && c != '\x0C'
}

/// Whether a text can stand between double quotes: each quote in it has a backslash before it, and
/// each backslash has some character behind it.
pub open spec fn is_double_quotable(text: Seq<char>) -> bool
    decreases text.len(),
{
    if text.len() == 0 {
        true
    } else if text.last() == '"' || text.last() == '\\' {
        text.len() > 1 && text[text.len() - 2] == '\\' && is_double_quotable(
            text.drop_last().drop_last(),
        )
    } else {
        is_double_quotable(text.drop_last()) || (text.len() > 1 && text[text.len() - 2] == '\\'
            && is_double_quotable(text.drop_last().drop_last()))
    }
}

/// The text in single quotes.
pub open spec fn single_quoted(text: Seq<char>) -> Seq<char> {
    seq!['\''] + text + seq!['\'']
}

/// The text in double quotes.
pub open spec fn double_quoted(text: Seq<char>) -> Seq<char> {
    seq!['"'] + text + seq!['"']
}

/// The text as a subshell.
pub open spec fn subshell(text: Seq<char>) -> Seq<char> {
    seq!['('] + text + seq![')']
}

/// The text as a group.
pub open spec fn group(text: Seq<char>) -> Seq<char> {
    seq!['{'] + text + seq!['}']
}

proof fn lemma_push(start: Context, text: Seq<char>, c: char)
    ensures
        context_after(start, text + seq![c]) == step(context_after(start, text), c),
{
    assert((text + seq![c]).drop_last() =~= text);
    assert((text + seq![c]).last() == c);
}

proof fn lemma_first_step(start: Context, c: char)
    ensures
        context_after(start, seq![c]) == step(start, c),
{
    assert(seq![c].drop_last() =~= Seq::empty());
    assert(context_after(start, seq![c].drop_last()) == start);
}

proof fn lemma_in_single_quotes(start: Context, text: Seq<char>)
    requires
        start.mode == Mode::Single,
        !text.contains('\''),
    ensures
        context_after(start, text) == start,
    decreases text.len(),
{
    if text.len() > 0 {
        assert(text[text.len() - 1] == text.last());
        assert forall|i: int| 0 <= i < text.drop_last().len() implies text.drop_last()[i]
            != '\'' by {
            assert(text[i] == text.drop_last()[i]);
        }
        lemma_in_single_quotes(start, text.drop_last());
    }
}

proof fn lemma_in_double_quotes(start: Context, text: Seq<char>)
    requires
        start.mode == Mode::Double,
        is_double_quotable(text),
    ensures
        context_after(start, text) == start,
    decreases text.len(),
{
    if text.len() > 0 {
        let before = text.drop_last();
        if text.last() != '"' && text.last() != '\\' && is_double_quotable(before) {
            lemma_in_double_quotes(start, before);
        } else {
            lemma_in_double_quotes(start, before.drop_last());
            assert(before.last() == '\\');
            assert(context_after(start, before) == Context { mode: Mode::DoubleEscaped, ..start });
        }
    }
}

/// Between single quotes nothing but a single quote has a meaning: a text in single quotes leaves
/// the context as it was.
pub proof fn law_single_quotes_are_closed(context: Context, text: Seq<char>)
    requires
        context.mode == Mode::Plain,
        !text.contains('\''),
    ensures
        context_after(context, single_quoted(text)) == context,
{
    let open = Context { mode: Mode::Single, ..context };
    lemma_first_step(context, '\'');
    lemma_context_concat(context, seq!['\''], text);
    lemma_in_single_quotes(open, text);
    lemma_push(context, seq!['\''] + text, '\'');
}

/// Between double quotes nothing but a double quote and a backslash has a meaning: a text in double
/// quotes leaves the context as it was.
pub proof fn law_double_quotes_are_closed(context: Context, text: Seq<char>)
    requires
        context.mode == Mode::Plain,
        is_double_quotable(text),
    ensures
        context_after(context, double_quoted(text)) == context,
{
    let open = Context { mode: Mode::Double, ..context };
    lemma_first_step(context, '"');
    lemma_context_concat(context, seq!['"'], text);
    lemma_in_double_quotes(open, text);
    lemma_push(context, seq!['"'] + text, '"');
}

/// A backslash takes any meaning from the character behind it.
pub proof fn law_escaped_characters_are_closed(context: Context, c: char)
    requires
        context.mode == Mode::Plain,
    ensures
        context_after(context, seq!['\\', c]) == context,
{
    lemma_first_step(context, '\\');
    lemma_push(context, seq!['\\'], c);
    assert(seq!['\\'] + seq![c] =~= seq!['\\', c]);
}

proof fn lemma_broken(start: Context, text: Seq<char>)
    requires
        start.mode == Mode::Broken,
    ensures
        context_after(start, text) == start,
    decreases text.len(),
{
    if text.len() > 0 {
        lemma_broken(start, text.drop_last());
    }
}

/// What is due before a text stays due below what the text opens.
proof fn lemma_below(due: Seq<char>, text: Seq<char>)
    requires
        context_after(top(), text).mode != Mode::Broken,
    ensures
        ({
            let inner = context_after(top(), text);
            context_after(Context { mode: Mode::Plain, due }, text) == Context {
                mode: inner.mode,
                due: due + inner.due,
            }
        }),
    decreases text.len(),
{
    let start = Context { mode: Mode::Plain, due };
    if text.len() == 0 {
        assert(due + Seq::<char>::empty() =~= due);
    } else {
        let before = text.drop_last();
        let c = text.last();
        let inner = context_after(top(), before);
        lemma_below(due, before);
        let outer = context_after(start, before);
        if inner.due.len() > 0 {
            assert(outer.due.last() == inner.due.last());
            assert(outer.due.drop_last() =~= due + inner.due.drop_last());
        }
        assert((due + inner.due).push(')') =~= due + inner.due.push(')'));
        assert((due + inner.due).push('}') =~= due + inner.due.push('}'));
    }
}

/// A text that closes all that it opens leaves every context outside of quotes as it was.
pub proof fn law_closed_text_is_closed_everywhere(context: Context, text: Seq<char>)
    requires
        context.mode == Mode::Plain,
        closed_text(text),
    ensures
        context_after(context, text) == context,
{
    lemma_below(context.due, text);
    assert(context.due + Seq::<char>::empty() =~= context.due);
}

/// Brackets around a text that closes all that it opens leave the context as it was.
pub proof fn law_brackets_are_closed(context: Context, text: Seq<char>)
    requires
        context.mode == Mode::Plain,
        closed_text(text),
    ensures
        context_after(context, subshell(text)) == context,
        context_after(context, group(text)) == context,
{
    let round = Context { due: context.due.push(')'), ..context };
    let curly = Context { due: context.due.push('}'), ..context };
    lemma_first_step(context, '(');
    lemma_first_step(context, '{');
    lemma_context_concat(context, seq!['('], text);
    lemma_context_concat(context, seq!['{'], text);
    law_closed_text_is_closed_everywhere(round, text);
    law_closed_text_is_closed_everywhere(curly, text);
    lemma_push(context, seq!['('] + text, ')');
    lemma_push(context, seq!['{'] + text, '}');
    assert(context.due.push(')').drop_last() =~= context.due);
    assert(context.due.push('}').drop_last() =~= context.due);
}

/// A text that opens with its first character and closes with its last one is a command.
proof fn lemma_enclosed(text: Seq<char>)
    requires
        closed_text(text),
        text.len() > 0,
        !is_blank_spec(text[0]),
        text[0] != '|',
        forall|i: int|
            0 < i < text.len() ==> context_after(top(), #[trigger] text.take(i)) != top(),
    ensures
        is_command(text),
{
    let k = roles(text);
    assert(text.take(0) =~= Seq::empty());
    assert forall|i: int| 0 <= i < text.len() implies k[i] == Role::Solid by {
        assert(k[i] == role_at(text, i));
        if i > 0 {
            assert(context_after(top(), text.take(i)) != top());
        }
    }
    lemma_command_shape(text);
}

/// A text in single quotes is a command, or a word of one, whatever it holds.
pub proof fn law_single_quoted_text_is_a_command(text: Seq<char>)
    requires
        !text.contains('\''),
    ensures
        is_command(single_quoted(text)),
{
    let all = single_quoted(text);
    law_single_quotes_are_closed(top(), text);
    lemma_first_step(top(), '\'');
    assert forall|i: int| 0 < i < all.len() implies context_after(top(), #[trigger] all.take(i))
        != top() by {
        let inner = text.take(i - 1);
        assert(all.take(i) =~= seq!['\''] + inner);
        lemma_context_concat(top(), seq!['\''], inner);
        assert forall|j: int| 0 <= j < inner.len() implies inner[j] != '\'' by {
            assert(text[j] == inner[j]);
        }
        lemma_in_single_quotes(Context { mode: Mode::Single, ..top() }, inner);
    }
    lemma_enclosed(all);
}

/// Inside double quotes, every prefix stays between the quotes.
proof fn lemma_prefix_in_double_quotes(start: Context, text: Seq<char>, n: int)
    requires
        start.mode == Mode::Double,
        is_double_quotable(text),
        0 <= n <= text.len(),
    ensures
        context_after(start, text.take(n)).mode != Mode::Plain,
    decreases text.len(),
{
    if n == text.len() {
        assert(text.take(n) =~= text);
        lemma_in_double_quotes(start, text);
    } else {
        let before = text.drop_last();
        if text.last() != '"' && text.last() != '\\' && is_double_quotable(before) {
            assert(before.take(n) =~= text.take(n));
            lemma_prefix_in_double_quotes(start, before, n);
        } else {
            let rest = before.drop_last();
            if n == before.len() {
                assert(text.take(n) =~= before);
                lemma_in_double_quotes(start, rest);
                assert(before.last() == '\\');
            } else {
                assert(rest.take(n) =~= text.take(n));
                lemma_prefix_in_double_quotes(start, rest, n);
            }
        }
    }
}

/// A text in double quotes is a command, or a word of one, whatever it holds.
pub proof fn law_double_quoted_text_is_a_command(text: Seq<char>)
    requires
        is_double_quotable(text),
    ensures
        is_command(double_quoted(text)),
{
    let all = double_quoted(text);
    law_double_quotes_are_closed(top(), text);
    lemma_first_step(top(), '"');
    assert forall|i: int| 0 < i < all.len() implies context_after(top(), #[trigger] all.take(i))
        != top() by {
        let inner = text.take(i - 1);
        assert(all.take(i) =~= seq!['"'] + inner);
        lemma_context_concat(top(), seq!['"'], inner);
        lemma_prefix_in_double_quotes(Context { mode: Mode::Double, ..top() }, text, i - 1);
    }
    lemma_enclosed(all);
}

/// A character behind a backslash is a command, or a part of one, even a bar or a blank.
pub proof fn law_escaped_character_is_a_command(c: char)
    ensures
        is_command(seq!['\\', c]),
{
    let all = seq!['\\', c];
    law_escaped_characters_are_closed(top(), c);
    lemma_first_step(top(), '\\');
    assert forall|i: int| 0 < i < all.len() implies context_after(top(), #[trigger] all.take(i))
        != top() by {
        assert(all.take(i) =~= seq!['\\']);
    }
    lemma_enclosed(all);
}

proof fn lemma_prefix_not_broken(text: Seq<char>, n: int)
    requires
        closed_text(text),
        0 <= n <= text.len(),
    ensures
        context_after(top(), text.take(n)).mode != Mode::Broken,
{
    assert(text =~= text.take(n) + text.skip(n));
    lemma_context_concat(top(), text.take(n), text.skip(n));
    if context_after(top(), text.take(n)).mode == Mode::Broken {
        lemma_broken(context_after(top(), text.take(n)), text.skip(n));
    }
}

proof fn lemma_bracketed(open: char, text: Seq<char>, close: char)
    requires
        closed_text(text),
        open == '(' && close == ')' || open == '{' && close == '}',
    ensures
        is_command(seq![open] + text + seq![close]),
{
    let all = seq![open] + text + seq![close];
    law_brackets_are_closed(top(), text);
    lemma_first_step(top(), open);
    let due = Seq::<char>::empty().push(close);
    assert forall|i: int| 0 < i < all.len() implies context_after(top(), #[trigger] all.take(i))
        != top() by {
        let inner = text.take(i - 1);
        assert(all.take(i) =~= seq![open] + inner);
        lemma_context_concat(top(), seq![open], inner);
        lemma_prefix_not_broken(text, i - 1);
        lemma_below(due, inner);
        assert(context_after(top(), all.take(i)).due.len() > 0);
    }
    lemma_enclosed(all);
}

/// A pipeline in brackets is a command, or a part of one, with all its bars.
pub proof fn law_bracketed_text_is_a_command(text: Seq<char>)
    requires
        closed_text(text),
    ensures
        is_command(subshell(text)),
        is_command(group(text)),
{
    lemma_bracketed('(', text, ')');
    lemma_bracketed('{', text, '}');
}

/// A character without a meaning of its own is a command, or a part of one.
pub proof fn law_word_character_is_a_command(c: char)
    requires
        is_word_char(c),
    ensures
        is_command(seq![c]),
{
    lemma_first_step(top(), c);
    lemma_enclosed(seq![c]);
}

proof fn lemma_blank_text(text: Seq<char>)
    requires
        is_blank_text(text),
    ensures
        closed_text(text),
        roles(text) == Seq::new(text.len(), |i: int| Role::Gap),
    decreases text.len(),
{
    if text.len() > 0 {
        let before = text.drop_last();
        assert forall|i: int| 0 <= i < before.len() implies is_blank_spec(#[trigger] before[i]) by {
            assert(before[i] == text[i]);
        }
        lemma_blank_text(before);
        assert(text[text.len() - 1] == text.last());
        lemma_one_char(text.last());
        assert(text =~= before + seq![text.last()]);
        lemma_context_concat(top(), before, seq![text.last()]);
        lemma_roles_concat(before, seq![text.last()]);
    }
    assert(roles(text) =~= Seq::new(text.len(), |i: int| Role::Gap));
}

/// Parts that stand side by side, or with white space between, are one command.
pub proof fn law_words_make_a_command(a: Seq<char>, blank: Seq<char>, b: Seq<char>)
    requires
        is_command(a),
        is_command(b),
        is_blank_text(blank),
    ensures
        is_command(a + blank + b),
{
    lemma_command_shape(a);
    lemma_command_shape(b);
    lemma_blank_text(blank);
    lemma_context_concat(top(), a, blank);
    lemma_roles_concat(a, blank);
    lemma_context_concat(top(), a + blank, b);
    lemma_roles_concat(a + blank, b);
    let all = a + blank + b;
    let k = roles(all);
    assert forall|i: int| 0 <= i < all.len() implies k[i] != Role::Bar by {
        if i < a.len() {
            assert(k[i] == roles(a)[i]);
        } else if i >= a.len() + blank.len() {
            assert(k[i] == roles(b)[i - a.len() - blank.len()]);
        } else {
            assert(k[i] == roles(blank)[i - a.len()]);
        }
    }
    assert(k[0] == roles(a)[0]);
    assert(k.last() == roles(b).last());
    lemma_command_shape(all);
}

proof fn lemma_leading_gaps(blank: Seq<char>, text: Seq<char>, k: Seq<Role>)
    requires
        text.len() == k.len(),
    ensures
        pieces(blank + text, Seq::new(blank.len(), |i: int| Role::Gap) + k) == pieces(text, k),
    decreases blank.len(),
{
    let gaps = Seq::new(blank.len(), |i: int| Role::Gap);
    if blank.len() == 0 {
        assert(blank + text =~= text);
        assert(gaps + k =~= k);
    } else {
        let rest = blank.drop_first();
        let rest_gaps = Seq::new(rest.len(), |i: int| Role::Gap);
        lemma_leading_gaps(rest, text, k);
        lemma_leading_gap(blank[0], rest + text, rest_gaps + k);
        assert(blank + text =~= seq![blank[0]] + (rest + text));
        assert(gaps + k =~= seq![Role::Gap] + (rest_gaps + k));
    }
}

proof fn lemma_trimmed_trailing_gap(text: Seq<char>, k: Seq<Role>, c: char)
    requires
        text.len() == k.len(),
    ensures
        trimmed(text.push(c), k.push(Role::Gap)) == trimmed(text, k),
    decreases text.len(),
{
    let t = text.push(c);
    let r = k.push(Role::Gap);
    if text.len() == 0 {
        assert(t.drop_first() =~= text);
        assert(trimmed(t, r) == trimmed(t.drop_first(), r.drop_first()));
    } else if k[0] == Role::Gap {
        assert(t.drop_first() =~= text.drop_first().push(c));
        assert(r.drop_first() =~= k.drop_first().push(Role::Gap));
        lemma_trimmed_trailing_gap(text.drop_first(), k.drop_first(), c);
    } else {
        assert(t.drop_last() =~= text);
        assert(r.drop_last() =~= k);
    }
}

/// What stands before a bar and what stands behind it is split apart.
proof fn lemma_pieces_around_bar(a: Seq<char>, ka: Seq<Role>, b: Seq<char>, kb: Seq<Role>)
    requires
        a.len() == ka.len(),
        b.len() == kb.len(),
    ensures
        pieces(a + seq!['|'] + b, ka + seq![Role::Bar] + kb) == pieces(a, ka) + pieces(b, kb),
    decreases a.len(),
{
    let t = a + seq!['|'] + b;
    let r = ka + seq![Role::Bar] + kb;
    let bar = first_bar(ka);
    lemma_first_bar(ka);
    lemma_first_bar(r);
    assert(r[a.len() as int] == Role::Bar);
    assert forall|i: int| 0 <= i < bar implies r[i] != Role::Bar by {
        assert(r[i] == ka[i]);
    }
    if bar < a.len() {
        assert(r[bar] == ka[bar]);
    }
    assert(first_bar(r) == bar);
    assert(t.take(bar) =~= a.take(bar));
    assert(r.take(bar) =~= ka.take(bar));
    let piece = trimmed(a.take(bar), ka.take(bar));
    if bar < a.len() {
        let rest = a.skip(bar + 1);
        let rest_roles = ka.skip(bar + 1);
        lemma_pieces_around_bar(rest, rest_roles, b, kb);
        assert(t.skip(bar + 1) =~= rest + seq!['|'] + b);
        assert(r.skip(bar + 1) =~= rest_roles + seq![Role::Bar] + kb);
        assert(seq![piece] + (pieces(rest, rest_roles) + pieces(b, kb)) =~= (seq![piece] + pieces(
            rest,
            rest_roles,
        )) + pieces(b, kb));
    } else {
        assert(t.skip(bar + 1) =~= b);
        assert(r.skip(bar + 1) =~= kb);
    }
}

proof fn lemma_trailing_gap(text: Seq<char>, k: Seq<Role>, c: char)
    requires
        text.len() == k.len(),
    ensures
        pieces(text.push(c), k.push(Role::Gap)) == pieces(text, k),
    decreases text.len(),
{
    let t = text.push(c);
    let r = k.push(Role::Gap);
    let bar = first_bar(k);
    lemma_first_bar(k);
    lemma_first_bar(r);
    assert forall|i: int| 0 <= i < bar implies r[i] != Role::Bar by {
        assert(r[i] == k[i]);
    }
    if bar < text.len() {
        assert(r[bar] == k[bar]);
        assert(first_bar(r) == bar);
        assert(t.take(bar) =~= text.take(bar));
        assert(r.take(bar) =~= k.take(bar));
        lemma_trailing_gap(text.skip(bar + 1), k.skip(bar + 1), c);
        assert(t.skip(bar + 1) =~= text.skip(bar + 1).push(c));
        assert(r.skip(bar + 1) =~= k.skip(bar + 1).push(Role::Gap));
    } else {
        assert(first_bar(r) == r.len());
        assert(t.take(bar + 1) =~= t && r.take(bar + 1) =~= r);
        assert(text.take(bar) =~= text && k.take(bar) =~= k);
        lemma_trimmed_trailing_gap(text, k, c);
    }
}

proof fn lemma_trailing_gaps(text: Seq<char>, k: Seq<Role>, blank: Seq<char>)
    requires
        text.len() == k.len(),
    ensures
        pieces(text + blank, k + Seq::new(blank.len(), |i: int| Role::Gap)) == pieces(text, k),
    decreases blank.len(),
{
    let gaps = Seq::new(blank.len(), |i: int| Role::Gap);
    if blank.len() == 0 {
        assert(text + blank =~= text);
        assert(k + gaps =~= k);
    } else {
        let rest = blank.drop_last();
        let rest_gaps = Seq::new(rest.len(), |i: int| Role::Gap);
        lemma_trailing_gaps(text, k, rest);
        lemma_trailing_gap(text + rest, k + rest_gaps, blank.last());
        assert(text + blank =~= (text + rest).push(blank.last()));
        assert(k + gaps =~= (k + rest_gaps).push(Role::Gap));
    }
}

proof fn lemma_padded(before: Seq<char>, text: Seq<char>, after: Seq<char>)
    requires
        closed_text(text),
        is_blank_text(before),
        is_blank_text(after),
    ensures
        closed_text(before + text + after),
        pieces(before + text + after, roles(before + text + after)) == pieces(text, roles(text)),
{
    lemma_blank_text(before);
    lemma_blank_text(after);
    lemma_context_concat(top(), before, text);
    lemma_roles_concat(before, text);
    lemma_context_concat(top(), before + text, after);
    lemma_roles_concat(before + text, after);
    lemma_leading_gaps(before, text, roles(text));
    lemma_trailing_gaps(before + text, roles(before + text), after);
}

/// White space around a pipeline does not belong to it.
pub proof fn law_white_space_around_is_ignored(
    before: Seq<char>,
    text: Seq<char>,
    after: Seq<char>,
)
    requires
        is_blank_text(before),
        is_blank_text(after),
        parsed(text) is Ok,
    ensures
        parsed(before + text + after) == parsed(text),
{
    lemma_padded(before, text, after);
}

/// A bar that stands by itself ends a pipeline and starts a new command: the commands before it are
/// those that came out without it.
pub proof fn law_bar_separates_commands(
    text: Seq<char>,
    before: Seq<char>,
    after: Seq<char>,
    command: Seq<char>,
)
    requires
        parsed(text) is Ok,
        is_blank_text(before),
        is_blank_text(after),
        is_command(command),
    ensures
        parsed(text + before + seq!['|'] + (after + command)) == Ok::<_, ParseError>(
            parsed(text)->Ok_0.push(command),
        ),
{
    let none = Seq::<char>::empty();
    let a = text + before;
    let b = after + command;
    let all = a + seq!['|'] + b;
    lemma_command_shape(command);
    lemma_padded(none, text, before);
    assert(none + text + before =~= a);
    lemma_padded(after, command, none);
    assert(after + command + none =~= b);
    lemma_one_char('|');
    lemma_context_concat(top(), a, seq!['|']);
    lemma_roles_concat(a, seq!['|']);
    lemma_context_concat(top(), a + seq!['|'], b);
    lemma_roles_concat(a + seq!['|'], b);
    lemma_pieces_around_bar(a, roles(a), b, roles(b));
    let commands = parsed(text)->Ok_0;
    assert(pieces(command, roles(command)) == seq![command]);
    assert(commands + seq![command] =~= commands.push(command));
    assert(pieces(all, roles(all)) == commands.push(command));
    assert forall|i: int| 0 <= i < commands.push(command).len() implies (
    #[trigger] commands.push(command)[i]).len() != 0 by {
        if i < commands.len() {
            assert(commands[i].len() != 0);
        }
    }
}

/// Where a bar has no command on one of its sides, the text is no pipeline. Neither is white space
/// alone.
pub proof fn law_commands_are_not_empty(a: Seq<char>, blank: Seq<char>, b: Seq<char>)
    requires
        closed_text(a),
        closed_text(b),
        is_blank_text(blank),
    ensures
        parsed(blank) == Err::<Seq<Seq<char>>, _>(ParseError::EmptyCommand),
        parsed(a + seq!['|'] + blank) == Err::<Seq<Seq<char>>, _>(ParseError::EmptyCommand),
        parsed(blank + seq!['|'] + b) == Err::<Seq<Seq<char>>, _>(ParseError::EmptyCommand),
{
    let none = Seq::<char>::empty();
    lemma_blank_text(blank);
    lemma_padded(blank, none, none);
    assert(blank + none + none =~= blank);
    let nothing = pieces(none, roles(none));
    lemma_first_bar(roles(none));
    assert(none.take(0) =~= none);
    assert(nothing =~= seq![none]);
    assert(pieces(blank, roles(blank))[0].len() == 0);
    lemma_one_char('|');
    lemma_context_concat(top(), a, seq!['|']);
    lemma_roles_concat(a, seq!['|']);
    lemma_context_concat(top(), a + seq!['|'], blank);
    lemma_roles_concat(a + seq!['|'], blank);
    lemma_pieces_around_bar(a, roles(a), blank, roles(blank));
    let left = pieces(a, roles(a));
    assert((left + seq![none])[left.len() as int].len() == 0);
    lemma_context_concat(top(), blank, seq!['|']);
    lemma_roles_concat(blank, seq!['|']);
    lemma_context_concat(top(), blank + seq!['|'], b);
    lemma_roles_concat(blank + seq!['|'], b);
    lemma_pieces_around_bar(blank, roles(blank), b, roles(b));
    assert((seq![none] + pieces(b, roles(b)))[0].len() == 0);
}

/// A text that ends between quotes, behind a backslash or in brackets is no pipeline.
pub proof fn law_what_is_opened_must_be_closed(a: Seq<char>, text: Seq<char>)
    requires
        closed_text(a),
    ensures
        !text.contains('\'') ==> parsed(a + (seq!['\''] + text)) == Err::<Seq<Seq<char>>, _>(
            ParseError::UnexpectedEnd,
        ),
        is_double_quotable(text) ==> parsed(a + (seq!['"'] + text)) == Err::<Seq<Seq<char>>, _>(
            ParseError::UnexpectedEnd,
        ),
        parsed(a + seq!['\\']) == Err::<Seq<Seq<char>>, _>(ParseError::UnexpectedEnd),
        closed_text(text) ==> parsed(a + (seq!['('] + text)) == Err::<Seq<Seq<char>>, _>(
            ParseError::UnexpectedEnd,
        ),
        closed_text(text) ==> parsed(a + (seq!['{'] + text)) == Err::<Seq<Seq<char>>, _>(
            ParseError::UnexpectedEnd,
        ),
{
    lemma_first_step(top(), '\'');
    lemma_first_step(top(), '"');
    lemma_first_step(top(), '\\');
    lemma_first_step(top(), '(');
    lemma_first_step(top(), '{');
    lemma_context_concat(top(), a, seq!['\''] + text);
    lemma_context_concat(top(), a, seq!['"'] + text);
    lemma_context_concat(top(), a, seq!['\\']);
    lemma_context_concat(top(), a, seq!['('] + text);
    lemma_context_concat(top(), a, seq!['{'] + text);
    lemma_context_concat(top(), seq!['\''], text);
    lemma_context_concat(top(), seq!['"'], text);
    lemma_context_concat(top(), seq!['('], text);
    lemma_context_concat(top(), seq!['{'], text);
    if !text.contains('\'') {
        lemma_in_single_quotes(Context { mode: Mode::Single, ..top() }, text);
    }
    if is_double_quotable(text) {
        lemma_in_double_quotes(Context { mode: Mode::Double, ..top() }, text);
    }
    if closed_text(text) {
        let round = Seq::<char>::empty().push(')');
        let curly = Seq::<char>::empty().push('}');
        law_closed_text_is_closed_everywhere(Context { mode: Mode::Plain, due: round }, text);
        law_closed_text_is_closed_everywhere(Context { mode: Mode::Plain, due: curly }, text);
        assert(round.len() == 1 && curly.len() == 1);
    }
}

/// A bracket that closes nothing, or not what was opened last, makes any text no pipeline.
pub proof fn law_brackets_must_fit(a: Seq<char>, b: Seq<char>, rest: Seq<char>)
    requires
        closed_text(a),
        closed_text(b),
    ensures
        parsed(a + seq![')'] + rest) == Err::<Seq<Seq<char>>, _>(ParseError::UnexpectedClose),
        parsed(a + seq!['}'] + rest) == Err::<Seq<Seq<char>>, _>(ParseError::UnexpectedClose),
        parsed(a + (seq!['('] + b + seq!['}']) + rest) == Err::<Seq<Seq<char>>, _>(
            ParseError::UnexpectedClose,
        ),
        parsed(a + (seq!['{'] + b + seq![')']) + rest) == Err::<Seq<Seq<char>>, _>(
            ParseError::UnexpectedClose,
        ),
{
    let round = Seq::<char>::empty().push(')');
    let curly = Seq::<char>::empty().push('}');
    lemma_push(top(), a, ')');
    lemma_push(top(), a, '}');
    lemma_first_step(top(), '(');
    lemma_first_step(top(), '{');
    lemma_context_concat(top(), seq!['('], b);
    lemma_context_concat(top(), seq!['{'], b);
    law_closed_text_is_closed_everywhere(Context { mode: Mode::Plain, due: round }, b);
    law_closed_text_is_closed_everywhere(Context { mode: Mode::Plain, due: curly }, b);
    lemma_push(top(), seq!['('] + b, '}');
    lemma_push(top(), seq!['{'] + b, ')');
    lemma_context_concat(top(), a, seq!['('] + b + seq!['}']);
    lemma_context_concat(top(), a, seq!['{'] + b + seq![')']);
    assert(round.last() == ')' && curly.last() == '}');
    lemma_after_broken(a + seq![')'], rest);
    lemma_after_broken(a + seq!['}'], rest);
    lemma_after_broken(a + (seq!['('] + b + seq!['}']), rest);
    lemma_after_broken(a + (seq!['{'] + b + seq![')']), rest);
}

proof fn lemma_after_broken(text: Seq<char>, rest: Seq<char>)
    requires
        context_after(top(), text).mode == Mode::Broken,
    ensures
        context_after(top(), text + rest).mode == Mode::Broken,
{
    lemma_context_concat(top(), text, rest);
    lemma_broken(context_after(top(), text), rest);
}

/// Whether a text is made of words: it starts and ends with a character of a word, and between there
/// are such characters and white space.
pub open spec fn is_plain_command(text: Seq<char>) -> bool {
    &&& text.len() > 0
    &&& is_word_char(text[0])
    &&& is_word_char(text.last())
    &&& forall|i: int|
        0 <= i < text.len() ==> is_word_char(#[trigger] text[i]) || is_blank_spec(text[i])
}

/// Words are a command.
pub proof fn law_words_are_a_command(text: Seq<char>)
    requires
        is_plain_command(text),
    ensures
        is_command(text),
{
    let k = roles(text);
    assert forall|i: int| 0 <= i <= text.len() implies context_after(top(), #[trigger] text.take(i))
        == top() by {
        lemma_plain_prefix(text, i);
    }
    assert(text.take(text.len() as int) =~= text);
    assert forall|i: int| 0 <= i < text.len() implies k[i] != Role::Bar by {
        assert(is_word_char(text[i]) || is_blank_spec(text[i]));
    }
    lemma_command_shape(text);
}

proof fn lemma_plain_prefix(text: Seq<char>, n: int)
    requires
        is_plain_command(text),
        0 <= n <= text.len(),
    ensures
        context_after(top(), text.take(n)) == top(),
    decreases n,
{
    if n > 0 {
        lemma_plain_prefix(text, n - 1);
        assert(text.take(n).drop_last() =~= text.take(n - 1));
        assert(text.take(n).last() == text[n - 1]);
        assert(is_word_char(text[n - 1]) || is_blank_spec(text[n - 1]));
    } else {
        assert(text.take(0) =~= Seq::empty());
    }
}

/// Whatever stands in single quotes, bars and other quotes included, stays with its command.
pub proof fn law_single_quotes_protect_bars(a: Seq<char>, text: Seq<char>, b: Seq<char>)
    requires
        is_plain_command(a),
        is_plain_command(b),
        !text.contains('\''),
    ensures
        parsed(a + " '"@ + text + "' | "@ + b) == Ok::<_, ParseError>(
            seq![a + " '"@ + text + "'"@, b],
        ),
{
    reveal_strlit(" '");
    reveal_strlit("'");
    reveal_strlit("' | ");
    law_words_are_a_command(a);
    law_words_are_a_command(b);
    law_single_quoted_text_is_a_command(text);
    law_words_make_a_command(a, seq![' '], single_quoted(text));
    let first = a + seq![' '] + single_quoted(text);
    assert(a + " '"@ + text + "'"@ =~= first);
    assert(a + " '"@ + text + "' | "@ + b =~= first + seq![' '] + seq!['|'] + (seq![' '] + b));
    law_bar_separates_commands(first, seq![' '], seq![' '], b);
    assert(seq![first].push(b) =~= seq![first, b]);
}

/// Whatever stands in double quotes, bars and other quotes included, stays with its command.
pub proof fn law_double_quotes_protect_bars(a: Seq<char>, text: Seq<char>, b: Seq<char>)
    requires
        is_plain_command(a),
        is_plain_command(b),
        is_double_quotable(text),
    ensures
        parsed(a + " \""@ + text + "\" | "@ + b) == Ok::<_, ParseError>(
            seq![a + " \""@ + text + "\""@, b],
        ),
{
    reveal_strlit(" \"");
    reveal_strlit("\"");
    reveal_strlit("\" | ");
    law_words_are_a_command(a);
    law_words_are_a_command(b);
    law_double_quoted_text_is_a_command(text);
    law_words_make_a_command(a, seq![' '], double_quoted(text));
    let first = a + seq![' '] + double_quoted(text);
    assert(a + " \""@ + text + "\""@ =~= first);
    assert(a + " \""@ + text + "\" | "@ + b =~= first + seq![' '] + seq!['|'] + (seq![' '] + b));
    law_bar_separates_commands(first, seq![' '], seq![' '], b);
    assert(seq![first].push(b) =~= seq![first, b]);
}

} // verus!
