//! Building strings one character at a time.

use vstd::prelude::*;

verus! {

/// `String::push`: appends one character to the end of the string.
pub assume_specification[ String::push ](string: &mut String, character: char)
    ensures
        final(string)@ == old(string)@.push(character),
;

/// `char::from_u32`: the character with this scalar value, none for a surrogate or a value past
/// the last scalar value.
pub assume_specification[ char::from_u32 ](value: u32) -> (character: Option<char>)
    ensures
        character matches Some(found) ==> found == value as char,
        character is Some <==> (value < 0xD800 || 0xE000 <= value < 0x110000),
;

/// The characters of a text, in order.
pub fn characters_of(text: &str) -> (characters: Vec<char>)
    ensures
        characters@ == text@,
{
    let mut characters: Vec<char> = Vec::new();
    for character in iter: text.chars()
        invariant
            iter.seq() == text@,
            characters@ == text@.take(iter.index() as int),
    {
        characters.push(character);
        assert(text@.take(iter.index() + 1) == text@.take(iter.index() as int).push(character));
    }
    assert(text@.take(text@.len() as int) == text@);
    characters
}

/// The text these characters spell.
pub fn text_of(characters: &[char]) -> (text: String)
    ensures
        text@ == characters@,
{
    let mut text = String::new();
    let mut index: usize = 0;
    while index < characters.len()
        invariant
            index <= characters.len(),
            text@ == characters@.take(index as int),
        decreases characters.len() - index,
    {
        text.push(characters[index]);
        index += 1;
    }
    text
}

/// Whether both texts hold the same characters.
pub fn same_text(first: &str, second: &str) -> (same: bool)
    ensures
        same == (first@ == second@),
{
    let one = characters_of(first);
    let two = characters_of(second);
    if one.len() != two.len() {
        return false;
    }
    let mut index: usize = 0;
    while index < one.len()
        invariant
            one@ == first@,
            two@ == second@,
            one.len() == two.len(),
            index <= one.len(),
            forall|earlier: int| 0 <= earlier < index ==> one@[earlier] == two@[earlier],
        decreases one.len() - index,
    {
        if one[index] != two[index] {
            assert(first@[index as int] != second@[index as int]);
            return false;
        }
        index += 1;
    }
    assert(first@ =~= second@);
    true
}

/// The texts a list of static strings spells.
pub open spec fn texts(list: Seq<&'static str>) -> Seq<Seq<char>> {
    list.map_values(|text: &'static str| text@)
}

/// A character Unicode counts as white space.
pub open spec fn white_space(character: char) -> bool {
    let code = character as u32;
    ||| 0x09 <= code <= 0x0D
    ||| code == 0x20
    ||| code == 0x85
    ||| code == 0xA0
    ||| code == 0x1680
    ||| 0x2000 <= code <= 0x200A
    ||| code == 0x2028
    ||| code == 0x2029
    ||| code == 0x202F
    ||| code == 0x205F
    ||| code == 0x3000
}

pub fn is_white_space(character: char) -> (found: bool)
    ensures
        found == white_space(character),
{
    let code: u32 = character as u32;
    0x09 <= code && code <= 0x0D || code == 0x20 || code == 0x85 || code == 0xA0 || code == 0x1680
        || 0x2000 <= code && code <= 0x200A || code == 0x2028 || code == 0x2029 || code == 0x202F
        || code == 0x205F || code == 0x3000
}

/// A text that shows nothing.
pub open spec fn blank(text: Seq<char>) -> bool {
    forall|index: int| 0 <= index < text.len() ==> white_space(#[trigger] text[index])
}

pub fn is_blank(text: &str) -> (found: bool)
    ensures
        found == blank(text@),
{
    let characters = characters_of(text);
    let mut index: usize = 0;
    while index < characters.len()
        invariant
            characters@ == text@,
            index <= characters.len(),
            forall|earlier: int| 0 <= earlier < index ==> white_space(#[trigger] text@[earlier]),
        decreases characters.len() - index,
    {
        if !is_white_space(characters[index]) {
            assert(!white_space(text@[index as int]));
            return false;
        }
        index += 1;
    }
    true
}

/// A number in decimal digits.
pub open spec fn decimal_text(value: int) -> Seq<char>
    decreases value,
{
    if value < 10 {
        seq![(0x30 + value) as char]
    } else {
        decimal_text(value / 10).push((0x30 + value % 10) as char)
    }
}

/// Appends a number in decimal digits.
pub fn push_decimal(text: &mut String, value: u64)
    ensures
        final(text)@ == old(text)@ + decimal_text(value as int),
    decreases value,
{
    let ghost before = text@;
    if value >= 10 {
        push_decimal(text, value / 10);
    }
    match char::from_u32(0x30 + (value % 10) as u32) {
        Some(digit) => text.push(digit),
        None => {},
    }
    proof {
        if value >= 10 {
            assert(text@ =~= before + decimal_text(value as int));
        } else {
            assert(text@ =~= before + decimal_text(value as int));
        }
    }
}

/// One text comes before another, compared character by character from an index on.
pub open spec fn text_before_from(first: Seq<char>, second: Seq<char>, index: int) -> bool
    decreases second.len() - index,
{
    if index < 0 || index >= second.len() {
        false
    } else if index >= first.len() {
        true
    } else if first[index] != second[index] {
        first[index] < second[index]
    } else {
        text_before_from(first, second, index + 1)
    }
}

/// One text comes before another in the order of their characters.
pub open spec fn text_before(first: Seq<char>, second: Seq<char>) -> bool {
    text_before_from(first, second, 0)
}

pub fn comes_before(first: &str, second: &str) -> (before: bool)
    ensures
        before == text_before(first@, second@),
{
    let one = characters_of(first);
    let two = characters_of(second);
    let mut index: usize = 0;
    while index < two.len()
        invariant
            one@ == first@,
            two@ == second@,
            index <= two.len(),
            text_before(first@, second@) == text_before_from(first@, second@, index as int),
        decreases two.len() - index,
    {
        if index >= one.len() {
            return true;
        }
        if one[index] != two[index] {
            return one[index] < two[index];
        }
        index += 1;
    }
    false
}

/// The order of texts is consistent: no two come before each other, and it and its reverse chain.
pub proof fn lemma_text_order_chains_from(
    first: Seq<char>,
    second: Seq<char>,
    third: Seq<char>,
    index: int,
)
    requires
        0 <= index,
    ensures
        text_before_from(first, second, index) && text_before_from(second, third, index)
            ==> text_before_from(first, third, index),
        !text_before_from(second, first, index) && !text_before_from(third, second, index)
            ==> !text_before_from(third, first, index),
        !(text_before_from(first, second, index) && text_before_from(second, first, index)),
    decreases first.len() + second.len() + third.len() - index,
{
    if index < first.len() + second.len() + third.len() {
        lemma_text_order_chains_from(first, second, third, index + 1);
    }
}

/// A text put in place: behind every text that it does not come before.
pub open spec fn text_inserted(list: Seq<Seq<char>>, text: Seq<char>) -> Seq<Seq<char>>
    decreases list.len(),
{
    if list.len() > 0 && text_before(text, list.last()) {
        text_inserted(list.drop_last(), text).push(list.last())
    } else {
        list.push(text)
    }
}

/// The texts in order.
pub open spec fn texts_sorted(list: Seq<Seq<char>>) -> Seq<Seq<char>>
    decreases list.len(),
{
    if list.len() == 0 {
        Seq::empty()
    } else {
        text_inserted(texts_sorted(list.drop_last()), list.last())
    }
}

/// The texts a list of strings spells.
pub open spec fn spellings(list: Seq<String>) -> Seq<Seq<char>> {
    list.map_values(|text: String| text@)
}

fn insert_text(list: &mut Vec<String>, text: String)
    ensures
        spellings(final(list)@) == text_inserted(spellings(old(list)@), text@),
{
    let ghost models = spellings(list@);
    let ghost model = text@;
    let mut place: usize = list.len();
    assert(models.take(place as int) =~= models);
    assert(text_inserted(models, model) + models.skip(place as int) =~= text_inserted(
        models,
        model,
    ));
    while place > 0 && comes_before(text.as_str(), list[place - 1].as_str())
        invariant
            models == spellings(list@),
            model == text@,
            place <= list.len(),
            text_inserted(models, model) == text_inserted(models.take(place as int), model)
                + models.skip(place as int),
        decreases place,
    {
        let ghost shorter = models.take(place as int);
        assert(shorter.last() == models[place - 1]);
        assert(shorter.drop_last() =~= models.take(place - 1));
        assert(text_inserted(models.take(place - 1), model).push(models[place - 1]) + models.skip(
            place as int,
        ) =~= text_inserted(models.take(place - 1), model) + models.skip(place - 1));
        place -= 1;
    }
    proof {
        if place > 0 {
            assert(models.take(place as int).last() == models[place - 1]);
        }
    }
    list.insert(place, text);
    assert(spellings(list@) =~= models.take(place as int).push(model) + models.skip(place as int));
}

/// The strings of a list in order.
pub fn sorted_strings(list: &Vec<String>) -> (ordered: Vec<String>)
    ensures
        spellings(ordered@) == texts_sorted(spellings(list@)),
{
    let ghost models = spellings(list@);
    let mut ordered: Vec<String> = Vec::new();
    let mut index: usize = 0;
    assert(models.take(0) =~= Seq::empty());
    assert(spellings(ordered@) =~= Seq::empty());
    while index < list.len()
        invariant
            models == spellings(list@),
            index <= list.len(),
            spellings(ordered@) == texts_sorted(models.take(index as int)),
        decreases list.len() - index,
    {
        assert(models.take(index + 1).drop_last() =~= models.take(index as int));
        assert(models[index as int] == list@[index as int]@);
        insert_text(&mut ordered, list[index].clone());
        index += 1;
    }
    assert(models.take(index as int) =~= models);
    ordered
}

/// A copy of a list of strings.
pub fn copied_strings(list: &Vec<String>) -> (copy: Vec<String>)
    ensures
        spellings(copy@) == spellings(list@),
{
    let ghost models = spellings(list@);
    let mut copy: Vec<String> = Vec::new();
    let mut index: usize = 0;
    while index < list.len()
        invariant
            models == spellings(list@),
            index <= list.len(),
            spellings(copy@) == models.take(index as int),
        decreases list.len() - index,
    {
        let ghost before = spellings(copy@);
        copy.push(list[index].clone());
        assert(spellings(copy@) =~= before.push(models[index as int]));
        assert(models.take(index + 1) =~= models.take(index as int).push(models[index as int]));
        index += 1;
    }
    assert(models.take(index as int) =~= models);
    copy
}

/// Whether two lists spell the same texts.
pub fn same_strings(first: &Vec<String>, second: &Vec<String>) -> (same: bool)
    ensures
        same == (spellings(first@) == spellings(second@)),
{
    let ghost one = spellings(first@);
    let ghost two = spellings(second@);
    assert(one.len() == first@.len() && two.len() == second@.len());
    if first.len() != second.len() {
        return false;
    }
    let mut index: usize = 0;
    while index < first.len()
        invariant
            one == spellings(first@),
            two == spellings(second@),
            first.len() == second.len(),
            index <= first.len(),
            forall|earlier: int| 0 <= earlier < index ==> one[earlier] == two[earlier],
        decreases first.len() - index,
    {
        assert(one[index as int] == first@[index as int]@);
        assert(two[index as int] == second@[index as int]@);
        if !same_text(first[index].as_str(), second[index].as_str()) {
            return false;
        }
        index += 1;
    }
    assert(one =~= two);
    true
}

/// Whether a list holds a text.
pub fn holds_text(list: &Vec<String>, text: &str) -> (held: bool)
    ensures
        held == spellings(list@).contains(text@),
{
    let ghost models = spellings(list@);
    let mut index: usize = 0;
    while index < list.len()
        invariant
            models == spellings(list@),
            index <= list.len(),
            forall|earlier: int| 0 <= earlier < index ==> models[earlier] != text@,
        decreases list.len() - index,
    {
        assert(models[index as int] == list@[index as int]@);
        if same_text(list[index].as_str(), text) {
            assert(models.contains(text@));
            return true;
        }
        index += 1;
    }
    false
}

proof fn lemma_texts_are_told_apart_from(first: Seq<char>, second: Seq<char>, index: int)
    requires
        0 <= index,
        forall|earlier: int|
            0 <= earlier < index && earlier < first.len() && earlier < second.len()
                ==> first[earlier] == second[earlier],
        index <= first.len() || index <= second.len(),
        index > first.len() ==> first.len() == second.len(),
        index > second.len() ==> first.len() == second.len(),
        !text_before_from(first, second, index),
        !text_before_from(second, first, index),
    ensures
        first == second,
    decreases first.len() + second.len() - index,
{
    if index >= first.len() || index >= second.len() {
        assert(first =~= second);
    } else {
        lemma_texts_are_told_apart_from(first, second, index + 1);
    }
}

/// One text does not come after another.
pub open spec fn not_after() -> spec_fn(Seq<char>, Seq<char>) -> bool {
    |first: Seq<char>, second: Seq<char>| !text_before(second, first)
}

proof fn lemma_text_order_is_total()
    ensures
        vstd::relations::total_ordering(not_after()),
{
    let order = not_after();
    assert forall|x: Seq<char>| #[trigger] order(x, x) by {
        lemma_text_order_chains_from(x, x, x, 0);
    }
    assert forall|x: Seq<char>, y: Seq<char>| #[trigger] order(x, y) && #[trigger] order(
        y,
        x,
    ) implies x == y by {
        lemma_texts_are_told_apart_from(x, y, 0);
    }
    assert forall|x: Seq<char>, y: Seq<char>, z: Seq<char>| #[trigger] order(x, y)
        && #[trigger] order(y, z) implies order(x, z) by {
        lemma_text_order_chains_from(x, y, z, 0);
    }
    assert forall|x: Seq<char>, y: Seq<char>| #[trigger] order(x, y) || #[trigger] order(y, x) by {
        lemma_text_order_chains_from(x, y, x, 0);
    }
}

proof fn lemma_text_inserted(list: Seq<Seq<char>>, text: Seq<char>)
    requires
        vstd::relations::sorted_by(list, not_after()),
    ensures
        vstd::relations::sorted_by(text_inserted(list, text), not_after()),
        text_inserted(list, text).to_multiset() == list.to_multiset().insert(text),
        forall|index: int|
            0 <= index < text_inserted(list, text).len() ==> #[trigger] text_inserted(
                list,
                text,
            )[index] == text || list.contains(text_inserted(list, text)[index]),
    decreases list.len(),
{
    broadcast use vstd::seq_lib::group_to_multiset_ensures;

    let order = not_after();
    lemma_text_order_is_total();
    let whole = text_inserted(list, text);
    if list.len() > 0 && text_before(text, list.last()) {
        let shorter = list.drop_last();
        assert forall|i: int, j: int| 0 <= i < j < shorter.len() implies #[trigger] order(
            shorter[i],
            shorter[j],
        ) by {
            assert(order(list[i], list[j]));
        }
        lemma_text_inserted(shorter, text);
        let inner = text_inserted(shorter, text);
        assert(list =~= shorter.push(list.last()));
        assert(whole.to_multiset() =~= list.to_multiset().insert(text));
        assert forall|i: int, j: int| 0 <= i < j < whole.len() implies #[trigger] order(
            whole[i],
            whole[j],
        ) by {
            if j < inner.len() {
                assert(order(inner[i], inner[j]));
            } else if inner[i] == text {
                lemma_text_order_chains_from(text, list.last(), text, 0);
            } else {
                assert(shorter.contains(inner[i]));
                let at = choose|at: int| 0 <= at < shorter.len() && shorter[at] == inner[i];
                assert(order(list[at], list[list.len() - 1]));
            }
        }
        assert forall|index: int| 0 <= index < whole.len() implies #[trigger] whole[index] == text
            || list.contains(whole[index]) by {
            if index < inner.len() {
                assert(whole[index] == inner[index]);
                if inner[index] != text {
                    assert(shorter.contains(inner[index]));
                    let at = choose|at: int| 0 <= at < shorter.len() && shorter[at] == inner[index];
                    assert(list[at] == inner[index]);
                }
            } else {
                assert(list[list.len() - 1] == whole[index]);
            }
        }
    } else {
        assert forall|i: int, j: int| 0 <= i < j < whole.len() implies #[trigger] order(
            whole[i],
            whole[j],
        ) by {
            if j < list.len() {
                assert(order(list[i], list[j]));
            } else if i < list.len() - 1 {
                assert(order(list[i], list[list.len() - 1]));
                assert(order(list[list.len() - 1], text));
            }
        }
        assert forall|index: int| 0 <= index < whole.len() implies #[trigger] whole[index] == text
            || list.contains(whole[index]) by {
            if index < list.len() {
                assert(list[index] == whole[index]);
            }
        }
    }
}

proof fn lemma_texts_sorted(list: Seq<Seq<char>>)
    ensures
        vstd::relations::sorted_by(texts_sorted(list), not_after()),
        texts_sorted(list).to_multiset() == list.to_multiset(),
    decreases list.len(),
{
    broadcast use vstd::seq_lib::group_to_multiset_ensures;

    if list.len() > 0 {
        lemma_texts_sorted(list.drop_last());
        lemma_text_inserted(texts_sorted(list.drop_last()), list.last());
        assert(list =~= list.drop_last().push(list.last()));
    } else {
        assert(list =~= Seq::empty());
    }
}

/// Sorted texts stand in order, and the order they stood in before leaves no trace.
pub proof fn lemma_sorting_forgets_the_order(first: Seq<Seq<char>>, second: Seq<Seq<char>>)
    ensures
        forall|low: int, high: int|
            0 <= low < high < texts_sorted(first).len() ==> !text_before(
                #[trigger] texts_sorted(first)[high],
                #[trigger] texts_sorted(first)[low],
            ),
        first.to_multiset() == second.to_multiset() ==> texts_sorted(first) == texts_sorted(second),
{
    let order = not_after();
    lemma_texts_sorted(first);
    lemma_texts_sorted(second);
    lemma_text_order_is_total();
    assert forall|low: int, high: int| 0 <= low < high < texts_sorted(first).len() implies !text_before(
        #[trigger] texts_sorted(first)[high],
        #[trigger] texts_sorted(first)[low],
    ) by {
        assert(order(texts_sorted(first)[low], texts_sorted(first)[high]));
    }
    if first.to_multiset() == second.to_multiset() {
        vstd::seq_lib::lemma_sorted_unique(texts_sorted(first), texts_sorted(second), order);
    }
}

} // verus!
