//! Lines and command bodies written out by the grammar, and what reading
//! them gives.

use crate::command::{command_kind, command_model, command_options, name_end, CommandModel};
use crate::event::{
    author_start, body_event, event_view, message_event, parse_event, prefixed_event,
    EventContent, EventModel, TextModel,
};
use crate::text::{
    is_white_space, lemma_first_index_bounds, lemma_first_index_is, lemma_trimmed_len, split_on,
    trim_end,
};
use vstd::prelude::*;

verus! {

/// `c` does not occur in `s`.
pub open spec fn free_of(s: Seq<char>, c: char) -> bool {
    forall|i: int| 0 <= i < s.len() ==> s[i] != c
}

/// An author's name: not empty, without space or `!`.
pub open spec fn is_author(author: Seq<char>) -> bool {
    author.len() > 0 && free_of(author, ' ') && free_of(author, '!')
}

/// A line without tags: `:author!info verb rest`.
pub open spec fn plain_line(
    author: Seq<char>,
    info: Seq<char>,
    verb: Seq<char>,
    rest: Seq<char>,
) -> Seq<char> {
    seq![':'] + author + seq!['!'] + info + seq![' '] + verb + seq![' '] + rest
}

/// A line that leads with tags: `@tags :author!info verb rest`.
pub open spec fn tagged_line(
    tags: Seq<char>,
    author: Seq<char>,
    info: Seq<char>,
    verb: Seq<char>,
    rest: Seq<char>,
) -> Seq<char> {
    seq!['@'] + tags + seq![' '] + plain_line(author, info, verb, rest)
}

/// What follows the verb `PRIVMSG`: a channel, the `:` marker, the body.
pub open spec fn message_rest(channel: Seq<char>, body: Seq<char>) -> Seq<char> {
    channel + seq![':'] + body
}

/// The event of a line by its verb, once author, verb and the rest are known.
pub open spec fn verb_event(verb: Seq<char>, author: Seq<char>, after: Option<EventModel>) -> Option<
    EventModel,
> {
    if verb == "PRIVMSG"@ {
        after
    } else if verb == "JOIN"@ {
        Some(EventModel::Join(author))
    } else if verb == "PART"@ {
        Some(EventModel::Part(author))
    } else {
        None
    }
}

/// Reading from the author's name on finds the name, skips the user
/// information and finds the verb, wherever in the line the name starts.
proof fn lemma_prefixed(
    line: Seq<char>,
    start: int,
    author: Seq<char>,
    info: Seq<char>,
    verb: Seq<char>,
    rest: Seq<char>,
)
    requires
        0 <= start <= line.len(),
        line.subrange(start, line.len() as int) == author + seq!['!'] + info + seq![' '] + verb
            + seq![' '] + rest,
        is_author(author),
        free_of(info, ' '),
        free_of(verb, ' '),
    ensures
        prefixed_event(line, start) == verb_event(
            verb,
            author,
            message_event(line, start + author.len() + info.len() + verb.len() + 2, author),
        ),
{
    let tail = line.subrange(start, line.len() as int);
    let bang = start + author.len();
    let gap = bang + 1 + info.len();
    let verb_end = gap + 1 + verb.len();
    assert(tail.len() == author.len() + info.len() + verb.len() + rest.len() + 3);
    assert forall|j: int| start <= j < bang implies line[j] != '!' && line[j] != ' ' by {
        assert(line[j] == tail[j - start]);
        assert(tail[j - start] == author[j - start]);
    }
    assert(line[bang] == '!') by {
        assert(line[bang] == tail[bang - start]);
    }
    assert forall|j: int| bang < j < gap implies line[j] != ' ' by {
        assert(line[j] == tail[j - start]);
        assert(tail[j - start] == info[j - bang - 1]);
    }
    assert(line[gap] == ' ') by {
        assert(line[gap] == tail[gap - start]);
    }
    assert forall|j: int| gap < j < verb_end implies line[j] != ' ' by {
        assert(line[j] == tail[j - start]);
        assert(tail[j - start] == verb[j - gap - 1]);
    }
    assert(line[verb_end] == ' ') by {
        assert(line[verb_end] == tail[verb_end - start]);
    }
    lemma_first_index_is(line, '!', start, bang);
    assert forall|j: int| start <= j < gap implies line[j] != ' ' by {
        if j == bang {
        }
    }
    lemma_first_index_is(line, ' ', start, gap);
    lemma_first_index_is(line, ' ', gap + 1, verb_end);
    assert(line.subrange(start, bang) =~= author) by {
        assert forall|j: int| 0 <= j < author.len() implies line.subrange(start, bang)[j]
            == author[j] by {
            assert(line[start + j] == tail[j]);
        }
    }
    assert(line.subrange(gap + 1, verb_end) =~= verb) by {
        assert forall|j: int| 0 <= j < verb.len() implies line.subrange(gap + 1, verb_end)[j]
            == verb[j] by {
            assert(line[gap + 1 + j] == tail[gap + 1 + j - start]);
        }
    }
}

/// Reading on from the verb `PRIVMSG` finds the body behind the first `:`.
proof fn lemma_message(
    line: Seq<char>,
    verb_end: int,
    author: Seq<char>,
    channel: Seq<char>,
    body: Seq<char>,
)
    requires
        0 <= verb_end < line.len(),
        line.subrange(verb_end + 1, line.len() as int) == message_rest(channel, body),
        free_of(channel, ':'),
    ensures
        message_event(line, verb_end, author) == if body.len() > 0 {
            body_event(trim_end(body), author)
        } else {
            None
        },
{
    let tail = line.subrange(verb_end + 1, line.len() as int);
    let marker = verb_end + 1 + channel.len();
    assert(tail.len() == channel.len() + 1 + body.len());
    assert forall|j: int| verb_end + 1 <= j < marker implies line[j] != ':' by {
        assert(line[j] == tail[j - verb_end - 1]);
        assert(tail[j - verb_end - 1] == channel[j - verb_end - 1]);
    }
    assert(line[marker] == ':') by {
        assert(line[marker] == tail[channel.len() as int]);
    }
    lemma_first_index_is(line, ':', verb_end + 1, marker);
    assert(line.subrange(marker + 1, line.len() as int) =~= body) by {
        assert forall|j: int| 0 <= j < body.len() implies line.subrange(
            marker + 1,
            line.len() as int,
        )[j] == body[j] by {
            assert(line[marker + 1 + j] == tail[channel.len() + 1 + j]);
        }
    }
}

/// A line with or without leading tags.
pub open spec fn line_of(
    tags: Option<Seq<char>>,
    author: Seq<char>,
    info: Seq<char>,
    verb: Seq<char>,
    rest: Seq<char>,
) -> Seq<char> {
    match tags {
        Some(t) => tagged_line(t, author, info, verb, rest),
        None => plain_line(author, info, verb, rest),
    }
}

/// What the parts of a line must be made of: tags without space, a proper
/// author's name, user information and a verb without space.
pub open spec fn line_parts_fit(
    tags: Option<Seq<char>>,
    author: Seq<char>,
    info: Seq<char>,
    verb: Seq<char>,
) -> bool {
    &&& tags matches Some(t) ==> free_of(t, ' ')
    &&& is_author(author)
    &&& free_of(info, ' ')
    &&& free_of(verb, ' ')
}

/// Where the author's name starts in a line made by `line_of`.
pub open spec fn start_in(tags: Option<Seq<char>>) -> int {
    match tags {
        Some(t) => t.len() as int + 3,
        None => 1,
    }
}

/// A well-formed line is read by its verb: the lead is recognised, with or
/// without tags, and the author's name and the verb are found.
proof fn lemma_line(
    tags: Option<Seq<char>>,
    author: Seq<char>,
    info: Seq<char>,
    verb: Seq<char>,
    rest: Seq<char>,
)
    requires
        line_parts_fit(tags, author, info, verb),
    ensures
        ({
            let line = line_of(tags, author, info, verb, rest);
            let verb_end = start_in(tags) + author.len() + info.len() + verb.len() + 2;
            &&& 0 <= verb_end < line.len()
            &&& line.subrange(verb_end + 1, line.len() as int) == rest
            &&& parse_event(line) == verb_event(verb, author, message_event(line, verb_end, author))
        }),
{
    let line = line_of(tags, author, info, verb, rest);
    let start = start_in(tags);
    let verb_end = start + author.len() + info.len() + verb.len() + 2;
    let core = author + seq!['!'] + info + seq![' '] + verb + seq![' '] + rest;
    match tags {
        Some(t) => {
            assert(line[0] == '@');
            assert forall|j: int| 1 <= j < t.len() + 1 implies line[j] != ' ' by {
                assert(line[j] == t[j - 1]);
            }
            assert(line[t.len() as int + 1] == ' ');
            assert(line[t.len() as int + 2] == ':');
            lemma_first_index_is(line, ' ', 1, t.len() as int + 1);
            assert(author_start(line) == Some(start));
        },
        None => {
            assert(line[0] == ':');
            assert(author_start(line) == Some(start));
        },
    }
    assert(line.subrange(start, line.len() as int) =~= core);
    assert(line.subrange(verb_end + 1, line.len() as int) =~= rest);
    lemma_prefixed(line, start, author, info, verb, rest);
}

/// The three verbs hold no space and differ from each other.
proof fn lemma_verbs()
    ensures
        free_of("PRIVMSG"@, ' '),
        free_of("JOIN"@, ' '),
        free_of("PART"@, ' '),
        "JOIN"@ != "PRIVMSG"@,
        "PART"@ != "PRIVMSG"@,
        "PART"@ != "JOIN"@,
{
    reveal_strlit("PRIVMSG");
    reveal_strlit("JOIN");
    reveal_strlit("PART");
    assert("PRIVMSG"@.len() == 7 && "JOIN"@.len() == 4 && "PART"@.len() == 4);
    assert("JOIN"@[0] == 'J' && "PART"@[0] == 'P');
}

/// A `JOIN` line gives a join that carries the author's name, whatever
/// follows the verb.
pub proof fn join_line_gives_join(
    tags: Option<Seq<char>>,
    author: Seq<char>,
    info: Seq<char>,
    rest: Seq<char>,
)
    requires
        tags matches Some(t) ==> free_of(t, ' '),
        is_author(author),
        free_of(info, ' '),
    ensures
        parse_event(line_of(tags, author, info, "JOIN"@, rest)) == Some(EventModel::Join(author)),
{
    lemma_verbs();
    lemma_line(tags, author, info, "JOIN"@, rest);
}

/// A `PART` line gives a part that carries the author's name, whatever
/// follows the verb.
pub proof fn part_line_gives_part(
    tags: Option<Seq<char>>,
    author: Seq<char>,
    info: Seq<char>,
    rest: Seq<char>,
)
    requires
        tags matches Some(t) ==> free_of(t, ' '),
        is_author(author),
        free_of(info, ' '),
    ensures
        parse_event(line_of(tags, author, info, "PART"@, rest)) == Some(EventModel::Part(author)),
{
    lemma_verbs();
    lemma_line(tags, author, info, "PART"@, rest);
}

/// A `PRIVMSG` line with a body of at least one scalar value gives the event
/// of that body without its trailing white space.
pub proof fn message_line_gives_body_event(
    tags: Option<Seq<char>>,
    author: Seq<char>,
    info: Seq<char>,
    channel: Seq<char>,
    body: Seq<char>,
)
    requires
        tags matches Some(t) ==> free_of(t, ' '),
        is_author(author),
        free_of(info, ' '),
        free_of(channel, ':'),
        body.len() > 0,
    ensures
        parse_event(line_of(tags, author, info, "PRIVMSG"@, message_rest(channel, body)))
            == body_event(trim_end(body), author),
{
    lemma_verbs();
    let verb = "PRIVMSG"@;
    let rest = message_rest(channel, body);
    let line = line_of(tags, author, info, verb, rest);
    let verb_end = start_in(tags) + author.len() + info.len() + verb.len() + 2;
    lemma_line(tags, author, info, verb, rest);
    lemma_message(line, verb_end, author, channel, body);
}

/// A `PRIVMSG` line whose body does not start with `!` gives a text message:
/// its text is the body without trailing white space, its author the name
/// between the prefix marker and `!`.
pub proof fn text_line_gives_text_message(
    tags: Option<Seq<char>>,
    author: Seq<char>,
    info: Seq<char>,
    channel: Seq<char>,
    body: Seq<char>,
)
    requires
        tags matches Some(t) ==> free_of(t, ' '),
        is_author(author),
        free_of(info, ' '),
        free_of(channel, ':'),
        body.len() > 0,
        body[0] != '!',
    ensures
        parse_event(line_of(tags, author, info, "PRIVMSG"@, message_rest(channel, body))) == Some(
            EventModel::TextMessage(TextModel { text: trim_end(body), user_name: author }),
        ),
{
    message_line_gives_body_event(tags, author, info, channel, body);
    lemma_trimmed_len(body);
}

/// The parts joined with `sep` between them.
pub open spec fn join_on(parts: Seq<Seq<char>>, sep: char) -> Seq<char>
    decreases parts.len(),
{
    if parts.len() == 0 {
        Seq::empty()
    } else if parts.len() == 1 {
        parts[0]
    } else {
        parts[0] + seq![sep] + join_on(parts.drop_first(), sep)
    }
}

/// Splitting undoes joining, for parts that do not hold the separator.
pub proof fn split_of_joined(parts: Seq<Seq<char>>, sep: char)
    requires
        parts.len() > 0,
        forall|i: int| 0 <= i < parts.len() ==> free_of(#[trigger] parts[i], sep),
    ensures
        split_on(join_on(parts, sep), sep) == parts,
    decreases parts.len(),
{
    let joined = join_on(parts, sep);
    let head = parts[0];
    assert(free_of(head, sep));
    if parts.len() == 1 {
        lemma_first_index_is(joined, sep, 0, joined.len() as int);
        assert(seq![joined] =~= parts);
    } else {
        let others = parts.drop_first();
        let tail = join_on(others, sep);
        assert forall|i: int| 0 <= i < others.len() implies free_of(#[trigger] others[i], sep) by {
            assert(others[i] == parts[i + 1]);
        }
        assert forall|j: int| 0 <= j < head.len() implies joined[j] != sep by {
            assert(joined[j] == head[j]);
        }
        assert(joined[head.len() as int] == sep);
        lemma_first_index_is(joined, sep, 0, head.len() as int);
        assert(joined.subrange(0, head.len() as int) =~= head);
        assert(joined.subrange(head.len() as int + 1, joined.len() as int) =~= tail);
        split_of_joined(others, sep);
        assert(seq![head] + others =~= parts);
    }
}

/// A command body: `!`, the name, and each argument behind a single space.
pub open spec fn command_text(name: Seq<char>, arguments: Seq<Seq<char>>) -> Seq<char> {
    if arguments.len() == 0 {
        seq!['!'] + name
    } else {
        seq!['!'] + name + seq![' '] + join_on(arguments, ' ')
    }
}

/// The body `!name arg1 arg2 ...` with a known name gives that command with
/// exactly those arguments, in order; with no argument, it gives none. A
/// single empty argument is left out: written down it is an empty remainder,
/// which stands for no argument.
pub proof fn command_text_gives_command(
    name: Seq<char>,
    arguments: Seq<Seq<char>>,
    user_name: Seq<char>,
)
    requires
        command_kind(name) is Some,
        forall|i: int| 0 <= i < arguments.len() ==> free_of(#[trigger] arguments[i], ' '),
        arguments.len() == 1 ==> arguments[0].len() > 0,
    ensures
        command_model(command_text(name, arguments), user_name) == Some(
            CommandModel { kind: command_kind(name)->0, options: arguments, user_name },
        ),
{
    reveal_strlit("help");
    reveal_strlit("info");
    reveal_strlit("slap");
    let text = command_text(name, arguments);
    assert(name.len() == 4);
    assert(free_of(name, ' '));
    assert forall|j: int| 1 <= j < 1 + name.len() implies text[j] != ' ' by {
        assert(text[j] == name[j - 1]);
    }
    lemma_first_index_is(text, ' ', 1, 1 + name.len() as int);
    assert(text.subrange(1, 1 + name.len() as int) =~= name);
    if arguments.len() > 0 {
        assert(join_on(arguments, ' ').len() > 0);
        assert(text.subrange(name_end(text) + 1, text.len() as int) =~= join_on(arguments, ' '));
        split_of_joined(arguments, ' ');
    } else {
        assert(command_options(text) =~= arguments);
    }
}

/// A `PRIVMSG` line whose body is `!name arg1 arg2 ...`, with a known name
/// and no white space at its end, gives that command with exactly those
/// arguments, sent by the line's author.
pub proof fn command_line_gives_command(
    tags: Option<Seq<char>>,
    author: Seq<char>,
    info: Seq<char>,
    channel: Seq<char>,
    name: Seq<char>,
    arguments: Seq<Seq<char>>,
)
    requires
        tags matches Some(t) ==> free_of(t, ' '),
        is_author(author),
        free_of(info, ' '),
        free_of(channel, ':'),
        command_kind(name) is Some,
        forall|i: int| 0 <= i < arguments.len() ==> free_of(#[trigger] arguments[i], ' '),
        !is_white_space(command_text(name, arguments).last()),
    ensures
        parse_event(
            line_of(
                tags,
                author,
                info,
                "PRIVMSG"@,
                message_rest(channel, command_text(name, arguments)),
            ),
        ) == Some(
            EventModel::Command(
                CommandModel { kind: command_kind(name)->0, options: arguments, user_name: author },
            ),
        ),
{
    let body = command_text(name, arguments);
    assert(body.len() > 0 && body[0] == '!');
    if arguments.len() == 1 && arguments[0].len() == 0 {
        assert(join_on(arguments, ' ') =~= Seq::<char>::empty());
        assert(body.last() == ' ');
    }
    assert(trim_end(body) =~= body);
    message_line_gives_body_event(tags, author, info, channel, body);
    command_text_gives_command(name, arguments, author);
}

/// A line that starts with neither `@` nor `:` gives no event.
pub proof fn other_lead_gives_nothing(line: Seq<char>)
    requires
        line.len() == 0 || (line[0] != '@' && line[0] != ':'),
    ensures
        parse_event(line) is None,
{
}

/// Every event names its author: the name is never empty.
pub proof fn event_names_its_author(line: Seq<char>)
    ensures
        parse_event(line) matches Some(event) ==> event.author().len() > 0,
{
    if let Some(start) = author_start(line) {
        if line[0] == '@' {
            lemma_first_index_bounds(line, ' ', 1);
        }
        lemma_first_index_bounds(line, '!', start);
    }
}

/// Reading the same line twice gives equal events: nothing but the line
/// decides the outcome.
pub proof fn reading_is_repeatable(
    line: &str,
    first: Option<EventContent>,
    second: Option<EventContent>,
)
    requires
        event_view(first) == parse_event(line@),
        event_view(second) == parse_event(line@),
    ensures
        event_view(first) == event_view(second),
{
}

} // verus!
