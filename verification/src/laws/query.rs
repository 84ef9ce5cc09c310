//! What the text of a query asks for.
use vstd::prelude::*;
use crate::daemon::{query_parts, query_pattern};
use crate::laws::text::{
    blank, is_bare, law_prefix, law_trailing_run_goes, law_trimming_gives_what_is_between, run,
};
use crate::text::{after_prefix, is_white_space, trimmed};

verus! {

/// Whether a text starts with another one.
pub open spec fn starts_with(s: Seq<char>, start: Seq<char>) -> bool {
    s.len() >= start.len() && s.take(start.len() as int) == start
}

/// Whether a text is a name: it is not empty, and neither white space nor a full
/// stop is at its ends. A full stop at its start, and whatever is inside it, is
/// part of the name.
pub open spec fn is_name(name: Seq<char>) -> bool {
    &&& name.len() > 0
    &&& is_bare(name)
    &&& name.last() != '.'
}

proof fn lemma_core(
    before: Seq<char>,
    word: Seq<char>,
    gap: Seq<char>,
    name: Seq<char>,
    space: Seq<char>,
    stops: nat,
    after: Seq<char>,
)
    requires
        is_name(name),
        word.len() > 0 ==> !is_white_space(word[0]),
        word.len() == 0 ==> gap.len() == 0,
        blank(before, 0, before.len() as int),
        blank(gap, 0, gap.len() as int),
        blank(space, 0, space.len() as int),
        blank(after, 0, after.len() as int),
        stops == 0 ==> space.len() == 0,
    ensures
        ({
            let rest = gap + name + space + run('.', stops);
            &&& trimmed(before + (word + rest) + after) == word + rest
            &&& after_prefix(word + rest, word) == Some(rest)
            &&& query_pattern(rest) == name
        }),
{
    let dots = run('.', stops);
    let kept = gap + name + space;
    let rest = kept + dots;
    let core = word + rest;
    assert(core[0] == if word.len() > 0 {
        word[0]
    } else {
        name[0]
    });
    assert(core.last() == if stops > 0 {
        '.'
    } else {
        name.last()
    });
    law_trimming_gives_what_is_between(before, core, after);
    law_prefix(core, word, rest);
    if space.len() > 0 {
        assert(kept.last() == space[space.len() - 1]);
    } else {
        assert(kept.last() == name.last());
    }
    law_trailing_run_goes(kept, '.', stops);
    law_trimming_gives_what_is_between(gap, name, space);
}

/// A text that says `Check`, `Print` or `About` asks for just that, of just the
/// name that follows, full stops inside it being part of it. White space around
/// the text, after the word and after the name is left out, and so are the full
/// stops at the end, however many there are.
pub proof fn law_a_query_names_what_follows_its_word(
    before: Seq<char>,
    gap: Seq<char>,
    name: Seq<char>,
    space: Seq<char>,
    stops: nat,
    after: Seq<char>,
)
    requires
        is_name(name),
        blank(before, 0, before.len() as int),
        blank(gap, 0, gap.len() as int),
        blank(space, 0, space.len() as int),
        blank(after, 0, after.len() as int),
        stops == 0 ==> space.len() == 0,
    ensures
        ({
            let rest = gap + name + space + run('.', stops);
            &&& query_parts(before + ("Check "@ + rest) + after) == ("check"@, name)
            &&& query_parts(before + ("Print "@ + rest) + after) == ("print"@, name)
            &&& query_parts(before + ("About "@ + rest) + after) == ("about"@, name)
        }),
{
    reveal_strlit("Check ");
    reveal_strlit("Print ");
    reveal_strlit("About ");
    let rest = gap + name + space + run('.', stops);
    lemma_core(before, "Check "@, gap, name, space, stops, after);
    lemma_core(before, "Print "@, gap, name, space, stops, after);
    lemma_core(before, "About "@, gap, name, space, stops, after);
    assert(("Check "@ + rest)[0] == 'C' && "Check "@[0] == 'C');
    assert(("Print "@ + rest)[0] == 'P' && "Print "@[0] == 'P');
    assert(("About "@ + rest)[0] == 'A' && "About "@[0] == 'A');
    lemma_other_start("Print "@ + rest, "Check "@);
    lemma_other_start("About "@ + rest, "Check "@);
    lemma_other_start("About "@ + rest, "Print "@);
}

proof fn lemma_other_start(s: Seq<char>, start: Seq<char>)
    requires
        start.len() > 0,
        s.len() > 0,
        s[0] != start[0],
    ensures
        after_prefix(s, start) is None,
{
    if s.len() >= start.len() {
        assert(s.take(start.len() as int)[0] == s[0]);
    }
}

/// `Check foo.` asks to check `foo`, whatever `foo` is as long as it neither
/// starts nor ends with white space nor ends with a full stop; and so with the
/// other words, and without the full stop.
pub proof fn law_a_query_is_a_word_a_name_and_a_full_stop(name: Seq<char>)
    requires
        is_name(name),
    ensures
        query_parts("Check "@ + name + seq!['.']) == ("check"@, name),
        query_parts("Print "@ + name + seq!['.']) == ("print"@, name),
        query_parts("About "@ + name + seq!['.']) == ("about"@, name),
        query_parts("Check "@ + name) == ("check"@, name),
        query_parts("Print "@ + name) == ("print"@, name),
        query_parts("About "@ + name) == ("about"@, name),
{
    let none = Seq::<char>::empty();
    law_a_query_names_what_follows_its_word(none, none, name, none, 1, none);
    law_a_query_names_what_follows_its_word(none, none, name, none, 0, none);
    lemma_plain("Check "@, name);
    lemma_plain("Print "@, name);
    lemma_plain("About "@, name);
}

proof fn lemma_plain(word: Seq<char>, name: Seq<char>)
    ensures
        ({
            let none = Seq::<char>::empty();
            &&& none + (word + (none + name + none + run('.', 1))) + none == word + name + seq!['.']
            &&& none + (word + (none + name + none + run('.', 0))) + none == word + name
        }),
{
    let none = Seq::<char>::empty();
    assert(none + (word + (none + name + none + run('.', 1))) + none =~= word + name + seq!['.']);
    assert(none + (word + (none + name + none + run('.', 0))) + none =~= word + name);
}

/// A text that starts with none of these words asks to check what it names: all
/// of it, but for the white space around it and the full stops at its end.
pub proof fn law_a_bare_name_is_checked(
    before: Seq<char>,
    name: Seq<char>,
    space: Seq<char>,
    stops: nat,
    after: Seq<char>,
)
    requires
        is_name(name),
        blank(before, 0, before.len() as int),
        blank(space, 0, space.len() as int),
        blank(after, 0, after.len() as int),
        stops == 0 ==> space.len() == 0,
        ({
            let text = name + space + run('.', stops);
            !starts_with(text, "Check "@) && !starts_with(text, "Print "@) && !starts_with(
                text,
                "About "@,
            )
        }),
    ensures
        query_parts(before + (name + space + run('.', stops)) + after) == ("check"@, name),
{
    let none = Seq::<char>::empty();
    let text = name + space + run('.', stops);
    lemma_core(before, none, none, name, space, stops, after);
    assert(none + (none + name + space + run('.', stops)) =~= text);
    assert(none + name + space + run('.', stops) =~= text);
}

} // verus!
