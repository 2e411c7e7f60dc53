//! Text as the configuration document and the operator's console spell it:
//! equality, order, trimming, joining and decimal numbers, each over the
//! sequence of characters a string holds.

use vstd::prelude::*;
use vstd::string::*;

verus! {

/// Whether two strings hold the same characters.
pub fn same(left: &str, right: &str) -> (equal: bool)
    ensures
        equal == (left@ == right@),
{
    left.to_owned() == right.to_owned()
}

/// The characters Unicode calls white space.
pub open spec fn is_white_space(c: char) -> bool {
    let code = c as u32;
    ||| 0x09 <= code <= 0x0d
    ||| code == 0x20
    ||| code == 0x85
    ||| code == 0xa0
    ||| code == 0x1680
    ||| 0x2000 <= code <= 0x200a
    ||| 0x2028 <= code <= 0x2029
    ||| code == 0x202f
    ||| code == 0x205f
    ||| code == 0x3000
}

/// Text without its leading white space.
pub open spec fn trimmed_start(text: Seq<char>) -> Seq<char>
    decreases text.len(),
{
    if text.len() > 0 && is_white_space(text[0]) {
        trimmed_start(text.subrange(1, text.len() as int))
    } else {
        text
    }
}

/// Text without its trailing white space.
pub open spec fn trimmed_end(text: Seq<char>) -> Seq<char>
    decreases text.len(),
{
    if text.len() > 0 && is_white_space(text[text.len() - 1]) {
        trimmed_end(text.subrange(0, text.len() - 1))
    } else {
        text
    }
}

/// Text without the white space at either end.
pub open spec fn trimmed(text: Seq<char>) -> Seq<char> {
    trimmed_end(trimmed_start(text))
}

fn white_space(c: char) -> (yes: bool)
    ensures
        yes == is_white_space(c),
{
    let code: u32 = c as u32;
    (0x09 <= code && code <= 0x0d) || code == 0x20 || code == 0x85 || code == 0xa0 || code == 0x1680
        || (0x2000 <= code && code <= 0x200a) || (0x2028 <= code && code <= 0x2029) || code
        == 0x202f || code == 0x205f || code == 0x3000
}

/// The part of `text` that starts and ends with something other than white
/// space.
pub fn trim(text: &str) -> (kept: &str)
    ensures
        kept@ == trimmed(text@),
{
    let length: usize = text.unicode_len();
    let mut start: usize = 0;
    proof {
        assert(text@.subrange(0, length as int) =~= text@);
    }
    while start < length && white_space(text.get_char(start))
        invariant
            start <= length,
            length == text@.len(),
            trimmed_start(text@) == trimmed_start(text@.subrange(start as int, length as int)),
        decreases length - start,
    {
        proof {
            let rest = text@.subrange(start as int, length as int);
            assert(rest.subrange(1, rest.len() as int) =~= text@.subrange(
                start + 1,
                length as int,
            ));
        }
        start += 1;
    }
    let mut end: usize = length;
    while end > start && white_space(text.get_char(end - 1))
        invariant
            start <= end <= length,
            length == text@.len(),
            trimmed(text@) == trimmed_end(text@.subrange(start as int, end as int)),
        decreases end,
    {
        proof {
            let rest = text@.subrange(start as int, end as int);
            assert(rest.subrange(0, rest.len() - 1) =~= text@.subrange(start as int, end - 1));
        }
        end -= 1;
    }
    text.substring_char(start, end)
}

/// Whether `text` holds the character `wanted`.
pub fn has_char(text: &str, wanted: char) -> (found: bool)
    ensures
        found == text@.contains(wanted),
{
    let length: usize = text.unicode_len();
    let mut at: usize = 0;
    while at < length
        invariant
            at <= length,
            length == text@.len(),
            forall|i: int| 0 <= i < at ==> text@[i] != wanted,
        decreases length - at,
    {
        if text.get_char(at) == wanted {
            return true;
        }
        at += 1;
    }
    false
}

/// The order of two texts by their characters, shorter first where one is the
/// start of the other.
pub open spec fn precedes(left: Seq<char>, right: Seq<char>) -> bool
    decreases left.len(),
{
    if right.len() == 0 {
        false
    } else if left.len() == 0 {
        true
    } else if left[0] != right[0] {
        left[0] < right[0]
    } else {
        precedes(
            left.subrange(1, left.len() as int),
            right.subrange(1, right.len() as int),
        )
    }
}

/// Whether `left` comes before `right`.
pub fn before(left: &str, right: &str) -> (yes: bool)
    ensures
        yes == precedes(left@, right@),
{
    let left_length: usize = left.unicode_len();
    let right_length: usize = right.unicode_len();
    let mut at: usize = 0;
    proof {
        assert(left@.subrange(0, left@.len() as int) =~= left@);
        assert(right@.subrange(0, right@.len() as int) =~= right@);
    }
    while at < left_length && at < right_length
        invariant
            at <= left_length,
            at <= right_length,
            left_length == left@.len(),
            right_length == right@.len(),
            precedes(left@, right@) == precedes(
                left@.subrange(at as int, left@.len() as int),
                right@.subrange(at as int, right@.len() as int),
            ),
        decreases left_length - at,
    {
        let one: char = left.get_char(at);
        let other: char = right.get_char(at);
        if one != other {
            return (one as u32) < (other as u32);
        }
        proof {
            let l = left@.subrange(at as int, left@.len() as int);
            let r = right@.subrange(at as int, right@.len() as int);
            assert(l.subrange(1, l.len() as int) =~= left@.subrange(at + 1, left@.len() as int));
            assert(r.subrange(1, r.len() as int) =~= right@.subrange(at + 1, right@.len() as int));
        }
        at += 1;
    }
    at < right_length
}

/// Nothing comes before itself.
pub proof fn nothing_precedes_itself(text: Seq<char>)
    ensures
        !precedes(text, text),
    decreases text.len(),
{
    if text.len() > 0 {
        nothing_precedes_itself(text.subrange(1, text.len() as int));
    }
}

/// Of two different texts exactly one comes first.
pub proof fn one_of_two_precedes(left: Seq<char>, right: Seq<char>)
    requires
        left != right,
    ensures
        precedes(left, right) != precedes(right, left),
    decreases left.len(),
{
    if left.len() == 0 {
        assert(right.len() > 0) by {
            if right.len() == 0 {
                assert(left =~= right);
            }
        }
    } else if right.len() > 0 && left[0] == right[0] {
        let l = left.subrange(1, left.len() as int);
        let r = right.subrange(1, right.len() as int);
        assert(l != r) by {
            if l == r {
                assert(left =~= seq![left[0]] + l);
                assert(right =~= seq![right[0]] + r);
            }
        }
        one_of_two_precedes(l, r);
    }
}

/// The order is transitive.
pub proof fn precedes_is_transitive(one: Seq<char>, two: Seq<char>, three: Seq<char>)
    requires
        precedes(one, two),
        precedes(two, three),
    ensures
        precedes(one, three),
    decreases one.len(),
{
    if one.len() > 0 && one[0] == two[0] && two[0] == three[0] {
        precedes_is_transitive(
            one.subrange(1, one.len() as int),
            two.subrange(1, two.len() as int),
            three.subrange(1, three.len() as int),
        );
    }
}

/// The views of a list of strings.
pub open spec fn views(list: Seq<String>) -> Seq<Seq<char>> {
    list.map_values(|text: String| text@)
}

/// Append a text to a list.
pub fn push_text(list: &mut Vec<String>, added: String)
    ensures
        views(final(list)@) == views(old(list)@).push(added@),
{
    let ghost before = list@;
    let ghost text = added@;
    list.push(added);
    proof {
        assert(views(list@) =~= views(before).push(text));
    }
}

/// Texts one after another with a separator between each two.
pub open spec fn joined(parts: Seq<Seq<char>>, separator: Seq<char>) -> Seq<char>
    decreases parts.len(),
{
    if parts.len() == 0 {
        Seq::empty()
    } else if parts.len() == 1 {
        parts[0]
    } else {
        joined(parts.drop_last(), separator) + separator + parts.last()
    }
}

/// The strings of `parts` one after another, `separator` between each two.
pub fn join(parts: &Vec<String>, separator: &str) -> (whole: String)
    ensures
        whole@ == joined(views(parts@), separator@),
{
    let mut whole: String = String::new();
    let mut at: usize = 0;
    while at < parts.len()
        invariant
            at <= parts.len(),
            whole@ == joined(views(parts@).take(at as int), separator@),
        decreases parts.len() - at,
    {
        if at > 0 {
            whole.append(separator);
        }
        whole.append(parts[at].as_str());
        proof {
            let next = views(parts@).take(at + 1);
            assert(next.drop_last() =~= views(parts@).take(at as int));
            assert(next.last() == parts@[at as int]@);
            if at == 0 {
                assert(next.len() == 1);
                assert(Seq::<char>::empty() + parts@[0]@ =~= parts@[0]@);
            }
        }
        at += 1;
    }
    proof {
        assert(views(parts@).take(parts@.len() as int) =~= views(parts@));
    }
    whole
}

/// One decimal digit.
pub open spec fn digit(value: nat) -> char {
    if value == 0 {
        '0'
    } else if value == 1 {
        '1'
    } else if value == 2 {
        '2'
    } else if value == 3 {
        '3'
    } else if value == 4 {
        '4'
    } else if value == 5 {
        '5'
    } else if value == 6 {
        '6'
    } else if value == 7 {
        '7'
    } else if value == 8 {
        '8'
    } else {
        '9'
    }
}

/// A number in decimal, without leading zeros.
pub open spec fn decimal(value: nat) -> Seq<char>
    decreases value,
{
    if value < 10 {
        seq![digit(value)]
    } else {
        decimal(value / 10).push(digit(value % 10))
    }
}

fn digit_text(value: u64) -> (text: &'static str)
    requires
        value < 10,
    ensures
        text@ == seq![digit(value as nat)],
{
    proof {
        reveal_strlit("0");
        reveal_strlit("1");
        reveal_strlit("2");
        reveal_strlit("3");
        reveal_strlit("4");
        reveal_strlit("5");
        reveal_strlit("6");
        reveal_strlit("7");
        reveal_strlit("8");
        reveal_strlit("9");
    }
    match value {
        0 => "0",
        1 => "1",
        2 => "2",
        3 => "3",
        4 => "4",
        5 => "5",
        6 => "6",
        7 => "7",
        8 => "8",
        _ => "9",
    }
}

/// A number written out in decimal.
pub fn number(value: u64) -> (text: String)
    ensures
        text@ == decimal(value as nat),
    decreases value,
{
    if value < 10 {
        digit_text(value).to_owned()
    } else {
        let mut text: String = number(value / 10);
        text.append(digit_text(value % 10));
        proof {
            assert(decimal((value / 10) as nat) + seq![digit((value % 10) as nat)] =~= decimal(
                (value / 10) as nat,
            ).push(digit((value % 10) as nat)));
        }
        text
    }
}

/// One text may stand before another: the other does not come first.
pub open spec fn in_place(left: Seq<char>, right: Seq<char>) -> bool {
    !precedes(right, left)
}

/// A list with nothing before what it comes after.
pub open spec fn in_order(list: Seq<Seq<char>>) -> Seq<Seq<char>> {
    list.sort_by(|left: Seq<char>, right: Seq<char>| in_place(left, right))
}

proof fn the_order_is_total()
    ensures
        vstd::relations::total_ordering(
            |left: Seq<char>, right: Seq<char>| in_place(left, right),
        ),
{
    let leq = |left: Seq<char>, right: Seq<char>| in_place(left, right);
    assert forall|x: Seq<char>| #[trigger] leq(x, x) by {
        nothing_precedes_itself(x);
    }
    assert forall|x: Seq<char>, y: Seq<char>| #[trigger] leq(x, y) && #[trigger] leq(
        y,
        x,
    ) implies x == y by {
        if x != y {
            one_of_two_precedes(x, y);
        }
    }
    assert forall|x: Seq<char>, y: Seq<char>| #[trigger] leq(x, y) || #[trigger] leq(y, x) by {
        if precedes(y, x) && precedes(x, y) {
            precedes_is_transitive(x, y, x);
            nothing_precedes_itself(x);
        }
    }
    assert forall|x: Seq<char>, y: Seq<char>, z: Seq<char>| #[trigger] leq(x, y) && #[trigger] leq(
        y,
        z,
    ) implies leq(x, z) by {
        if precedes(z, x) {
            if x != y {
                one_of_two_precedes(x, y);
                precedes_is_transitive(z, x, y);
            }
        }
    }
}

/// Put a list in order.
pub fn sort(list: Vec<String>) -> (ordered: Vec<String>)
    ensures
        views(ordered@) == in_order(views(list@)),
{
    let ghost leq = |left: Seq<char>, right: Seq<char>| in_place(left, right);
    let ghost all = views(list@);
    let mut ordered: Vec<String> = Vec::new();
    let mut next: usize = 0;
    proof {
        assert(views(ordered@) =~= all.take(0));
    }
    while next < list.len()
        invariant
            next <= list.len(),
            all == views(list@),
            leq == (|left: Seq<char>, right: Seq<char>| in_place(left, right)),
            vstd::relations::sorted_by(views(ordered@), leq),
            views(ordered@).to_multiset() == all.take(next as int).to_multiset(),
        decreases list.len() - next,
    {
        let mut at: usize = ordered.len();
        while at > 0 && before(list[next].as_str(), ordered[at - 1].as_str())
            invariant
                next < list.len(),
                at <= ordered.len(),
                leq == (|left: Seq<char>, right: Seq<char>| in_place(left, right)),
                vstd::relations::sorted_by(views(ordered@), leq),
                forall|i: int|
                    at <= i < ordered.len() ==> #[trigger] precedes(list@[next as int]@, views(ordered@)[i]),
            decreases at,
        {
            at -= 1;
        }
        let ghost was = views(ordered@);
        let ghost added = list@[next as int]@;
        ordered.insert(at, list[next].clone());
        proof {
            assert(views(ordered@) =~= was.insert(at as int, added));
            the_order_is_total();
            inserting_in_place_keeps_order(was, at as int, added);
            broadcast use vstd::seq_lib::group_to_multiset_ensures;
            assert(all.take(next + 1) =~= all.take(next as int).push(added));
            assert(was.insert(at as int, added).to_multiset() =~= was.to_multiset().insert(added));
        }
        next += 1;
    }
    proof {
        the_order_is_total();
        assert(all.take(next as int) =~= all);
        all.lemma_sort_by_ensures(leq);
        vstd::seq_lib::lemma_sorted_unique(views(ordered@), in_order(all), leq);
    }
    ordered
}

proof fn inserting_in_place_keeps_order(list: Seq<Seq<char>>, at: int, added: Seq<char>)
    requires
        0 <= at <= list.len(),
        vstd::relations::sorted_by(
            list,
            |left: Seq<char>, right: Seq<char>| in_place(left, right),
        ),
        forall|i: int| at <= i < list.len() ==> #[trigger] precedes(added, list[i]),
        at > 0 ==> !precedes(added, list[at - 1]),
    ensures
        vstd::relations::sorted_by(
            list.insert(at, added),
            |left: Seq<char>, right: Seq<char>| in_place(left, right),
        ),
{
    let leq = |left: Seq<char>, right: Seq<char>| in_place(left, right);
    let after = list.insert(at, added);
    the_order_is_total();
    assert forall|i: int, j: int| 0 <= i < j < after.len() implies #[trigger] leq(
        after[i],
        after[j],
    ) by {
        if j == at {
            assert(after[i] == list[i]);
            assert(leq(list[at - 1], added));
            if i < at - 1 {
                assert(leq(list[i], list[at - 1]));
                assert(leq(list[i], added));
            }
        } else if i == at {
            assert(after[j] == list[j - 1]);
            assert(precedes(added, list[j - 1]));
            if precedes(list[j - 1], added) {
                precedes_is_transitive(added, list[j - 1], added);
                nothing_precedes_itself(added);
            }
        } else {
            let a = if i < at { i } else { i - 1 };
            let b = if j < at { j } else { j - 1 };
            assert(after[i] == list[a] && after[j] == list[b]);
            assert(leq(list[a], list[b]));
        }
    }
}

/// Putting a list in order loses nothing and adds nothing.
pub proof fn ordering_keeps_what_is_there(list: Seq<Seq<char>>)
    ensures
        in_order(list).to_multiset() == list.to_multiset(),
{
    the_order_is_total();
    list.lemma_sort_by_ensures(|left: Seq<char>, right: Seq<char>| in_place(left, right));
}

/// What stands before and after one of several joined texts.
pub proof fn a_joined_part_stands(parts: Seq<Seq<char>>, separator: Seq<char>, at: int) -> (around: (
    Seq<char>,
    Seq<char>,
))
    requires
        0 <= at < parts.len(),
    ensures
        joined(parts, separator) == around.0 + parts[at] + around.1,
    decreases parts.len(),
{
    if parts.len() == 1 {
        let around = (Seq::<char>::empty(), Seq::<char>::empty());
        assert(joined(parts, separator) =~= around.0 + parts[at] + around.1);
        around
    } else if at == parts.len() - 1 {
        let around = (joined(parts.drop_last(), separator) + separator, Seq::<char>::empty());
        assert(joined(parts, separator) =~= around.0 + parts[at] + around.1);
        around
    } else {
        let (before, after) = a_joined_part_stands(parts.drop_last(), separator, at);
        let around = (before, after + separator + parts.last());
        assert(parts.drop_last()[at] == parts[at]);
        assert(joined(parts, separator) =~= around.0 + parts[at] + around.1);
        around
    }
}

/// The characters that count as white space, by their numbers.
pub proof fn the_white_space_there_is(c: char)
    ensures
        is_white_space(c) <==> {
            let code = c as u32;
            (9 <= code && code <= 13) || code == 32 || code == 133 || code == 160 || code == 5760
                || (8192 <= code && code <= 8202) || code == 8232 || code == 8233 || code == 8239
                || code == 8287 || code == 12288
        },
{
}

/// Whether a text is nothing but white space.
pub open spec fn is_blank(text: Seq<char>) -> bool {
    forall|i: int| 0 <= i < text.len() ==> is_white_space(#[trigger] text[i])
}

/// Trimming takes the white space at the ends and nothing else, and leaves none
/// there.
pub proof fn trimming_takes_the_ends_alone(text: Seq<char>) -> (around: (Seq<char>, Seq<char>))
    ensures
        text == around.0 + trimmed(text) + around.1,
        is_blank(around.0),
        is_blank(around.1),
        trimmed(text).len() > 0 ==> !is_white_space(trimmed(text)[0]) && !is_white_space(
            trimmed(text).last(),
        ),
{
    let before = the_start_is_blank(text);
    let rest = trimmed_start(text);
    let after = the_end_is_blank(rest);
    assert(text =~= before + trimmed(text) + after);
    if trimmed(text).len() > 0 {
        assert(rest[0] == trimmed(text)[0]);
    }
    (before, after)
}

proof fn the_start_is_blank(text: Seq<char>) -> (before: Seq<char>)
    ensures
        text == before + trimmed_start(text),
        is_blank(before),
        trimmed_start(text).len() > 0 ==> !is_white_space(trimmed_start(text)[0]),
    decreases text.len(),
{
    if text.len() > 0 && is_white_space(text[0]) {
        let rest = text.subrange(1, text.len() as int);
        let before = the_start_is_blank(rest);
        let all = seq![text[0]] + before;
        assert(text =~= seq![text[0]] + rest);
        assert(text =~= all + trimmed_start(rest));
        all
    } else {
        assert(text =~= Seq::<char>::empty() + text);
        Seq::empty()
    }
}

proof fn the_end_is_blank(text: Seq<char>) -> (after: Seq<char>)
    ensures
        text == trimmed_end(text) + after,
        is_blank(after),
        trimmed_end(text).len() > 0 ==> !is_white_space(trimmed_end(text).last()),
    decreases text.len(),
{
    if text.len() > 0 && is_white_space(text[text.len() - 1]) {
        let rest = text.subrange(0, text.len() - 1);
        let after = the_end_is_blank(rest);
        let all = after + seq![text[text.len() - 1]];
        assert(text =~= rest + seq![text[text.len() - 1]]);
        assert(text =~= trimmed_end(rest) + all);
        all
    } else {
        assert(text =~= text + Seq::<char>::empty());
        Seq::empty()
    }
}

/// The first character two texts differ in decides which comes first, and where
/// they differ in none the shorter does.
pub proof fn the_first_difference_decides(
    common: Seq<char>,
    left: Seq<char>,
    right: Seq<char>,
)
    requires
        left.len() == 0 || right.len() == 0 || left[0] != right[0],
    ensures
        precedes(common + left, common + right) <==> right.len() > 0 && (left.len() == 0
            || left[0] < right[0]),
    decreases common.len(),
{
    let (l, r) = (common + left, common + right);
    if common.len() > 0 {
        let rest = common.subrange(1, common.len() as int);
        the_first_difference_decides(rest, left, right);
        assert(l.subrange(1, l.len() as int) =~= rest + left);
        assert(r.subrange(1, r.len() as int) =~= rest + right);
    } else {
        assert(l =~= left);
        assert(r =~= right);
    }
}

/// A list in order has nothing ahead of what it comes behind.
pub proof fn ordering_orders(list: Seq<Seq<char>>, one: int, other: int)
    requires
        0 <= one < other < in_order(list).len(),
    ensures
        !precedes(in_order(list)[other], in_order(list)[one]),
{
    the_order_is_total();
    let leq = |left: Seq<char>, right: Seq<char>| in_place(left, right);
    list.lemma_sort_by_ensures(leq);
    assert(leq(in_order(list)[one], in_order(list)[other]));
}

/// One more text is joined behind the others with the separator between.
pub proof fn joining_goes_on(parts: Seq<Seq<char>>, separator: Seq<char>, next: Seq<char>)
    ensures
        joined(Seq::<Seq<char>>::empty(), separator).len() == 0,
        parts.len() == 0 ==> joined(parts.push(next), separator) == next,
        parts.len() > 0 ==> joined(parts.push(next), separator) == joined(parts, separator)
            + separator + next,
{
    assert(parts.push(next).drop_last() =~= parts);
}

/// A digit's character is its number behind the zero's.
pub proof fn a_digit_is_its_number(value: nat)
    requires
        value < 10,
    ensures
        digit(value) as u32 == 48 + value,
{
}

/// Two lists of the same texts have one order.
pub proof fn the_same_texts_have_one_order(one: Seq<Seq<char>>, other: Seq<Seq<char>>)
    requires
        one.to_multiset() == other.to_multiset(),
    ensures
        in_order(one) == in_order(other),
{
    let leq = |left: Seq<char>, right: Seq<char>| in_place(left, right);
    the_order_is_total();
    one.lemma_sort_by_ensures(leq);
    other.lemma_sort_by_ensures(leq);
    vstd::seq_lib::lemma_sorted_unique(in_order(one), in_order(other), leq);
}

/// The texts of a list are those of each string in it.
pub proof fn each_text_has_its_place(list: Seq<String>, at: int)
    requires
        0 <= at < list.len(),
    ensures
        views(list).len() == list.len(),
        views(list)[at] == list[at]@,
{
}

/// A number is written without a zero in front, and nought as one.
pub proof fn no_number_starts_with_a_zero(value: nat)
    ensures
        decimal(value).len() > 0,
        value > 0 ==> decimal(value)[0] != '0',
        value < 10 ==> decimal(value).len() == 1,
    decreases value,
{
    if value >= 10 {
        no_number_starts_with_a_zero(value / 10);
    }
}

} // verus!
