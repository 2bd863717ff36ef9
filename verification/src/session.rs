//! Whole sessions: what a run of input lines leaves behind, and what holds
//! of every list and every line.

use vstd::prelude::*;
use crate::command::{
    argument, bad_index_message, keyword, parsed_line, unknown_command_message,
};
use crate::list::{listing, say, step_line, HELP_TEXT, LISTING_HEADER, NOT_VALID, OUT_OF_BOUNDS};
use crate::number::{
    decimal, digit, lemma_decimal_is_numeral, lemma_decimal_parses_back,
    lemma_non_digit_is_no_index, parsed_index,
};
use crate::text::{
    joined, lemma_tokens_are_words, lemma_tokens_of_joined, lemma_tokens_of_word, tokens,
    whitespace, word,
};

verus! {

/// The list that is left when `lines` have been carried out one after the
/// other, starting from `list`.
pub open spec fn replay(list: Seq<Seq<char>>, lines: Seq<Seq<char>>) -> Seq<Seq<char>>
    decreases lines.len(),
{
    if lines.len() == 0 {
        list
    } else {
        step_line(replay(list, lines.drop_last()), lines.last()).list
    }
}

/// The argument of each line, in the order of the lines.
pub open spec fn arguments(lines: Seq<Seq<char>>) -> Seq<Seq<char>> {
    Seq::new(lines.len(), |i: int| argument(lines[i]))
}

/// The five command words are words, and no two of them are the same.
proof fn lemma_command_words()
    ensures
        word("help"@),
        word("show"@),
        word("quit"@),
        word("add"@),
        word("remove"@),
        "show"@ != "help"@,
        "quit"@ != "help"@,
        "quit"@ != "show"@,
        "add"@ != "help"@,
        "add"@ != "show"@,
        "add"@ != "quit"@,
        "remove"@ != "help"@,
        "remove"@ != "show"@,
        "remove"@ != "quit"@,
        "remove"@ != "add"@,
{
    reveal_strlit("help");
    reveal_strlit("show");
    reveal_strlit("quit");
    reveal_strlit("add");
    reveal_strlit("remove");
    assert("show"@[0] != "help"@[0]);
    assert("quit"@[0] != "help"@[0]);
    assert("quit"@[0] != "show"@[0]);
}

/// A word alone on a line is the line's keyword, and the argument is empty.
pub proof fn lemma_single_word(w: Seq<char>)
    requires
        word(w),
    ensures
        tokens(w) == seq![w],
        keyword(w) == Some(w),
        argument(w) == Seq::<char>::empty(),
{
    lemma_tokens_of_word(w);
}

/// Two words with one space between them are the line's keyword and its
/// argument.
pub proof fn lemma_two_words(first: Seq<char>, second: Seq<char>)
    requires
        word(first),
        word(second),
    ensures
        tokens(first + seq![' '] + second) == seq![first, second],
        keyword(first + seq![' '] + second) == Some(first),
        argument(first + seq![' '] + second) == second,
{
    let words = seq![first, second];
    assert(words.drop_last() == seq![first]);
    assert(joined(seq![first]) == first);
    lemma_tokens_of_joined(words);
}

/// The argument of a line holds the words behind the keyword and nothing
/// else: whatever whitespace stood between them, around them or behind
/// them, one space is left between neighbours and none at either end.
pub proof fn law_argument_is_normalised(line: Seq<char>)
    requires
        keyword(line) is Some,
    ensures
        tokens(argument(line)) == tokens(line).skip(1),
        joined(tokens(argument(line))) == argument(line),
{
    let behind = tokens(line).skip(1);
    lemma_tokens_are_words(line);
    assert forall|k: int| 0 <= k < behind.len() implies word(#[trigger] behind[k]) by {
        assert(behind[k] == tokens(line)[k + 1]);
    }
    lemma_tokens_of_joined(behind);
}

/// A line is turned down exactly when it comes with a complaint: nothing is
/// rejected in silence, and nothing that was understood is complained about.
pub proof fn law_rejection_is_explained(line: Seq<char>)
    ensures
        parsed_line(line).command is Invalid <==> parsed_line(line).diagnostic is Some,
{
}

/// Only `add` and `remove` change the list: whatever the line, the list
/// stays as it was, or gains the line's argument at its end, or loses the
/// item at the position that the line names.
pub proof fn law_list_changes_by_add_and_remove(list: Seq<Seq<char>>, line: Seq<char>)
    ensures
        ({
            let after = step_line(list, line).list;
            ||| after == list
            ||| keyword(line) == Some("add"@) && after == list.push(argument(line))
            ||| keyword(line) == Some("remove"@) && parsed_index(argument(line)) is Some
                && parsed_index(argument(line))->0 < list.len() && after == list.remove(
                parsed_index(argument(line))->0 as int,
            )
        }),
{
}

/// A line whose keyword is `add` appends its argument to the list and
/// prints nothing.
pub proof fn law_add_appends(list: Seq<Seq<char>>, line: Seq<char>)
    requires
        keyword(line) == Some("add"@),
    ensures
        step_line(list, line).list == list.push(argument(line)),
        step_line(list, line).reply == say(Seq::empty()),
{
    lemma_command_words();
}

/// Lines whose keyword is `add` append their arguments in the order of the
/// lines, and leave the earlier items where they were.
pub proof fn law_adds_keep_order(list: Seq<Seq<char>>, lines: Seq<Seq<char>>)
    requires
        forall|i: int| 0 <= i < lines.len() ==> keyword(#[trigger] lines[i]) == Some("add"@),
    ensures
        replay(list, lines) == list + arguments(lines),
    decreases lines.len(),
{
    if lines.len() > 0 {
        let earlier = lines.drop_last();
        assert forall|i: int| 0 <= i < earlier.len() implies keyword(#[trigger] earlier[i])
            == Some("add"@) by {
            assert(earlier[i] == lines[i]);
        }
        law_adds_keep_order(list, earlier);
        law_add_appends(replay(list, earlier), lines.last());
    }
}

/// A line whose keyword is `show` prints the header and then the items in
/// ascending position, each behind its zero-based position and `> `, and
/// changes nothing.
pub proof fn law_show_numbers_items(list: Seq<Seq<char>>, line: Seq<char>)
    requires
        keyword(line) == Some("show"@),
    ensures
        step_line(list, line).list == list,
        step_line(list, line).reply == say(listing(list)),
        listing(list).len() == list.len() + 1,
        listing(list)[0] == LISTING_HEADER@,
        forall|i: int|
            0 <= i < list.len() ==> listing(list)[i + 1] == decimal(i as nat) + "> "@
                + #[trigger] list[i],
{
    lemma_command_words();
}

/// After any run of `add` lines on an empty list, `show` lists the
/// arguments of those lines in the order of the lines, each behind its
/// zero-based position.
pub proof fn law_show_after_adds(lines: Seq<Seq<char>>)
    requires
        forall|i: int| 0 <= i < lines.len() ==> keyword(#[trigger] lines[i]) == Some("add"@),
    ensures
        replay(Seq::empty(), lines) == arguments(lines),
        step_line(replay(Seq::empty(), lines), "show"@).reply == say(listing(arguments(lines))),
        listing(arguments(lines)).len() == lines.len() + 1,
        listing(arguments(lines))[0] == LISTING_HEADER@,
        forall|i: int|
            0 <= i < lines.len() ==> listing(arguments(lines))[i + 1] == decimal(i as nat) + "> "@
                + argument(#[trigger] lines[i]),
{
    law_adds_keep_order(Seq::empty(), lines);
    lemma_command_words();
    lemma_single_word("show"@);
    law_show_numbers_items(arguments(lines), "show"@);
    assert forall|i: int| 0 <= i < lines.len() implies listing(arguments(lines))[i + 1] == decimal(
        i as nat,
    ) + "> "@ + argument(#[trigger] lines[i]) by {
        assert(arguments(lines)[i] == argument(lines[i]));
    }
}

/// `add` with nothing behind it appends an item with the empty description,
/// and a listing shows that item as its position and `> `.
pub proof fn law_add_without_text(list: Seq<Seq<char>>, line: Seq<char>)
    requires
        tokens(line) == seq!["add"@],
    ensures
        step_line(list, line).list == list.push(Seq::empty()),
        step_line(list, line).reply == say(Seq::empty()),
        listing(list.push(Seq::empty())).last() == decimal(list.len()) + "> "@,
{
    law_add_appends(list, line);
}

/// `remove` with the position of an item deletes that item and no other:
/// the items before it stay, the items behind it move down by one, and
/// nothing is printed.
pub proof fn law_remove_deletes_one(list: Seq<Seq<char>>, line: Seq<char>, index: usize)
    requires
        keyword(line) == Some("remove"@),
        parsed_index(argument(line)) == Some(index),
        index < list.len(),
    ensures
        step_line(list, line).reply == say(Seq::empty()),
        step_line(list, line).list == list.remove(index as int),
        step_line(list, line).list.len() == list.len() - 1,
        forall|i: int| 0 <= i < index ==> #[trigger] step_line(list, line).list[i] == list[i],
        forall|i: int|
            index <= i < list.len() - 1 ==> #[trigger] step_line(list, line).list[i] == list[i
                + 1],
{
    lemma_command_words();
}

/// `remove` with a position at or past the end, and any `remove` on an
/// empty list, leaves the list as it was and prints the out-of-bounds
/// complaint.
pub proof fn law_remove_out_of_bounds(list: Seq<Seq<char>>, line: Seq<char>, index: usize)
    requires
        keyword(line) == Some("remove"@),
        parsed_index(argument(line)) == Some(index),
        index >= list.len(),
    ensures
        step_line(list, line).list == list,
        step_line(list, line).reply == say(seq![OUT_OF_BOUNDS@]),
{
    lemma_command_words();
}

/// The position that a listing shows in front of an item is the one to type
/// behind `remove` to delete that item.
pub proof fn law_remove_shown_position(list: Seq<Seq<char>>, index: usize)
    requires
        index < list.len(),
    ensures
        listing(list)[index + 1] == decimal(index as nat) + "> "@ + list[index as int],
        step_line(list, "remove "@ + decimal(index as nat)).list == list.remove(index as int),
        step_line(list, "remove "@ + decimal(index as nat)).reply == say(Seq::empty()),
{
    let position = decimal(index as nat);
    lemma_command_words();
    lemma_decimal_is_numeral(index as nat);
    lemma_decimal_parses_back(index);
    assert(word(position)) by {
        assert forall|i: int| 0 <= i < position.len() implies !whitespace(
            #[trigger] position[i],
        ) by {
            assert(digit(position[i]));
        }
    }
    assert("remove "@ == "remove"@ + seq![' ']) by {
        reveal_strlit("remove ");
        reveal_strlit("remove");
    }
    lemma_two_words("remove"@, position);
    law_remove_deletes_one(list, "remove "@ + position, index);
}

/// `remove` with an argument that is no index leaves the list as it was and
/// prints a complaint that quotes the argument, then the remark on invalid
/// commands.
pub proof fn law_remove_without_index(list: Seq<Seq<char>>, line: Seq<char>)
    requires
        keyword(line) == Some("remove"@),
        parsed_index(argument(line)) is None,
    ensures
        step_line(list, line).list == list,
        step_line(list, line).reply == say(
            seq!["Problem parsing \""@ + argument(line) + "\" as number"@, NOT_VALID@],
        ),
{
    lemma_command_words();
    assert(seq![bad_index_message(argument(line))] + seq![NOT_VALID@] == seq![
        bad_index_message(argument(line)),
        NOT_VALID@,
    ]);
}

/// `remove` with an argument that holds anything but digits behind an
/// optional leading plus sign leaves the list as it was and prints the
/// complaint that quotes the argument.
pub proof fn law_remove_non_numeric(list: Seq<Seq<char>>, line: Seq<char>, i: int)
    requires
        keyword(line) == Some("remove"@),
        0 <= i < argument(line).len(),
        !digit(argument(line)[i]),
        i > 0 || argument(line)[0] != '+',
    ensures
        step_line(list, line).list == list,
        step_line(list, line).reply == say(
            seq!["Problem parsing \""@ + argument(line) + "\" as number"@, NOT_VALID@],
        ),
{
    lemma_non_digit_is_no_index(argument(line), i);
    law_remove_without_index(list, line);
}

/// A keyword that is none of the five command words leaves the list as it
/// was and prints `No such command` with the keyword, then the remark on
/// invalid commands.
pub proof fn law_unknown_keyword(list: Seq<Seq<char>>, line: Seq<char>)
    requires
        keyword(line) is Some,
        keyword(line) != Some("add"@),
        keyword(line) != Some("remove"@),
        keyword(line) != Some("show"@),
        keyword(line) != Some("help"@),
        keyword(line) != Some("quit"@),
    ensures
        step_line(list, line).list == list,
        step_line(list, line).reply == say(
            seq!["No such command "@ + keyword(line)->0, NOT_VALID@],
        ),
{
    let name = keyword(line)->0;
    assert(seq![unknown_command_message(name)] + seq![NOT_VALID@] == seq![
        unknown_command_message(name),
        NOT_VALID@,
    ]);
}

/// `help` prints the same text whatever the list holds and however often it
/// is asked, and changes nothing.
pub proof fn law_help_is_constant(
    first: Seq<Seq<char>>,
    second: Seq<Seq<char>>,
    line: Seq<char>,
    again: Seq<char>,
)
    requires
        keyword(line) == Some("help"@),
        keyword(again) == Some("help"@),
    ensures
        step_line(first, line).reply == say(seq![HELP_TEXT@]),
        step_line(second, again).reply == step_line(first, line).reply,
        step_line(first, line).list == first,
        step_line(second, again).list == second,
{
}

} // verus!
