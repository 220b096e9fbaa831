//! Texts put together from parts: items with a separator between them, and
//! numbers in decimal.

use vstd::prelude::*;

verus! {

/// `String::push` appends the character to the end of the string.
pub assume_specification[ String::push ](s: &mut String, c: char)
    ensures
        final(s)@ == old(s)@.push(c),
;

/// The items in order, with `separator` between each two neighbours.
pub open spec fn separated(items: Seq<Seq<char>>, separator: char) -> Seq<char>
    decreases items.len(),
{
    if items.len() == 0 {
        Seq::empty()
    } else if items.len() == 1 {
        items[0]
    } else {
        separated(items.drop_last(), separator) + seq![separator] + items.last()
    }
}

/// Putting one more item at the end adds the separator, unless the item is
/// the first, and then the item.
pub proof fn lemma_separated_push(items: Seq<Seq<char>>, separator: char, item: Seq<char>)
    ensures
        separated(items.push(item), separator) == if items.len() == 0 {
            item
        } else {
            separated(items, separator) + seq![separator] + item
        },
{
    assert(items.push(item).drop_last() == items);
}

/// The pieces of `text` that lie between the places where `separator`
/// stands: one more piece than there are such places.
pub open spec fn split(text: Seq<char>, separator: char) -> Seq<Seq<char>>
    decreases text.len(),
{
    if text.len() == 0 {
        seq![Seq::empty()]
    } else {
        let rest = split(text.drop_first(), separator);
        if text[0] == separator {
            seq![Seq::empty()] + rest
        } else {
            seq![seq![text[0]] + rest[0]] + rest.drop_first()
        }
    }
}

/// Whether `c` stands nowhere in `text`.
pub open spec fn free_of(text: Seq<char>, c: char) -> bool {
    forall|i: int| 0 <= i < text.len() ==> #[trigger] text[i] != c
}

/// A text in which the separator stands nowhere is one piece.
pub proof fn lemma_split_one(piece: Seq<char>, separator: char)
    requires
        free_of(piece, separator),
    ensures
        split(piece, separator) == seq![piece],
    decreases piece.len(),
{
    if piece.len() > 0 {
        let rest = piece.drop_first();
        assert(free_of(rest, separator));
        lemma_split_one(rest, separator);
        assert(seq![piece[0]] + rest == piece);
    } else {
        assert(piece == Seq::<char>::empty());
    }
}

/// A text in which the separator stands nowhere, the separator and any text
/// split into the first as one piece and the pieces of the last.
pub proof fn lemma_split_first(piece: Seq<char>, separator: char, rest: Seq<char>)
    requires
        free_of(piece, separator),
    ensures
        split(piece + seq![separator] + rest, separator) == seq![piece] + split(rest, separator),
    decreases piece.len(),
{
    let text = piece + seq![separator] + rest;
    if piece.len() == 0 {
        assert(text.drop_first() == rest);
        assert(piece == Seq::<char>::empty());
    } else {
        let shorter = piece.drop_first();
        assert(free_of(shorter, separator));
        lemma_split_first(shorter, separator, rest);
        assert(text.drop_first() == shorter + seq![separator] + rest);
        assert(seq![piece[0]] + shorter == piece);
    }
}

/// The first of several items stands in front of what separates it from the
/// others.
pub proof fn lemma_separated_first(items: Seq<Seq<char>>, separator: char)
    requires
        items.len() >= 2,
    ensures
        separated(items, separator) == items[0] + seq![separator] + separated(
            items.drop_first(),
            separator,
        ),
    decreases items.len(),
{
    if items.len() == 2 {
        assert(separated(items.drop_last(), separator) == items[0]);
    } else {
        let front = items.drop_last();
        lemma_separated_first(front, separator);
        assert(front.drop_first() == items.drop_first().drop_last());
        assert(items[0] + seq![separator] + separated(front.drop_first(), separator) + seq![
            separator,
        ] + items.last() == items[0] + seq![separator] + (separated(
            front.drop_first(),
            separator,
        ) + seq![separator] + items.last()));
    }
}

/// Splitting undoes separating: items in which the separator stands nowhere
/// are the pieces of what they are when separated by it.
pub proof fn lemma_split_separated(items: Seq<Seq<char>>, separator: char)
    requires
        items.len() >= 1,
        forall|i: int| 0 <= i < items.len() ==> free_of(#[trigger] items[i], separator),
    ensures
        split(separated(items, separator), separator) == items,
    decreases items.len(),
{
    if items.len() == 1 {
        lemma_split_one(items[0], separator);
    } else {
        let rest = items.drop_first();
        assert forall|i: int| 0 <= i < rest.len() implies free_of(#[trigger] rest[i], separator) by {
            assert(rest[i] == items[i + 1]);
        }
        lemma_separated_first(items, separator);
        lemma_split_first(items[0], separator, separated(rest, separator));
        lemma_split_separated(rest, separator);
    }
}

/// Separated items are at least as long as the first of them.
pub proof fn lemma_separated_len(items: Seq<Seq<char>>, separator: char)
    requires
        items.len() >= 1,
    ensures
        separated(items, separator).len() >= items[0].len(),
{
    if items.len() >= 2 {
        lemma_separated_first(items, separator);
    }
}

/// A character that stands in none of the items, and is not the separator,
/// stands nowhere in the items when they are separated.
pub proof fn lemma_separated_holds(items: Seq<Seq<char>>, separator: char, c: char)
    requires
        c != separator,
        forall|i: int| 0 <= i < items.len() ==> free_of(#[trigger] items[i], c),
    ensures
        free_of(separated(items, separator), c),
    decreases items.len(),
{
    if items.len() >= 2 {
        let front = items.drop_last();
        assert forall|i: int| 0 <= i < front.len() implies free_of(#[trigger] front[i], c) by {
            assert(front[i] == items[i]);
        }
        lemma_separated_holds(front, separator, c);
        assert(free_of(items.last(), c));
    }
}

/// The character for a decimal digit.
pub open spec fn digit(d: nat) -> char
    recommends
        d < 10,
{
    (0x30 + d) as char
}

/// The decimal form of `n`, without leading zeros.
pub open spec fn decimal(n: nat) -> Seq<char>
    decreases n,
{
    if n < 10 {
        seq![digit(n)]
    } else {
        decimal(n / 10).push(digit(n % 10))
    }
}

/// Whether `c` is a decimal digit.
pub open spec fn is_digit(c: char) -> bool {
    '0' <= c <= '9'
}

/// The decimal form of a number is made of digits, at least one.
pub proof fn lemma_decimal_is_digits(n: nat)
    ensures
        decimal(n).len() >= 1,
        forall|i: int| 0 <= i < decimal(n).len() ==> is_digit(#[trigger] decimal(n)[i]),
    decreases n,
{
    if n >= 10 {
        lemma_decimal_is_digits(n / 10);
    }
}

/// The number that a text of decimal digits spells.
pub open spec fn decimal_value(text: Seq<char>) -> nat
    decreases text.len(),
{
    if text.len() == 0 {
        0
    } else {
        (decimal_value(text.drop_last()) * 10 + (text.last() as nat - 0x30)) as nat
    }
}

/// The decimal form of a number spells that number, and starts with a zero
/// only where the number is zero.
pub proof fn lemma_decimal_value(n: nat)
    ensures
        decimal_value(decimal(n)) == n,
        decimal(n)[0] == '0' <==> n == 0,
    decreases n,
{
    if n >= 10 {
        lemma_decimal_value(n / 10);
        lemma_decimal_is_digits(n / 10);
        let longer = decimal(n / 10).push(digit(n % 10));
        assert(longer.drop_last() == decimal(n / 10));
    } else {
        let single = seq![digit(n)];
        assert(single.drop_last() == Seq::<char>::empty());
        assert(decimal_value(Seq::<char>::empty()) == 0);
    }
}

/// Appends `n` in decimal to `out`.
fn push_decimal(out: &mut String, n: usize)
    ensures
        final(out)@ == old(out)@ + decimal(n as nat),
    decreases n,
{
    if n >= 10 {
        push_decimal(out, n / 10);
    }
    let d: u8 = (n % 10) as u8;
    out.push((0x30u8 + d) as char);
    proof {
        let number = n as nat;
        if n >= 10 {
            assert(old(out)@ + decimal(number / 10).push(digit(number % 10)) == (old(out)@
                + decimal(number / 10)).push(digit(number % 10)));
        }
    }
}

/// Writes `n` in decimal.
pub fn decimal_string(n: usize) -> (s: String)
    ensures
        s@ == decimal(n as nat),
{
    let mut s = String::new();
    push_decimal(&mut s, n);
    s
}

} // verus!
