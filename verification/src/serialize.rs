//! Token identifiers as transport text: base-10 numbers joined by commas.

use vstd::prelude::*;
use vstd::utf8::encode_utf8;
use vstd::utf8::is_ascii_chars;
use vstd::utf8::is_ascii_chars_encode_utf8;

verus! {

/// The character that stands for the decimal digit `d`.
pub open spec fn digit_char(d: nat) -> char
    recommends
        d < 10,
{
    if d == 0 {
        '0'
    } else if d == 1 {
        '1'
    } else if d == 2 {
        '2'
    } else if d == 3 {
        '3'
    } else if d == 4 {
        '4'
    } else if d == 5 {
        '5'
    } else if d == 6 {
        '6'
    } else if d == 7 {
        '7'
    } else if d == 8 {
        '8'
    } else {
        '9'
    }
}

/// The base-10 numeral of `n`: most significant digit first, no sign, no
/// leading zero except for zero itself.
pub open spec fn decimal(n: nat) -> Seq<char>
    decreases n,
{
    if n < 10 {
        seq![digit_char(n)]
    } else {
        decimal(n / 10).push(digit_char(n % 10))
    }
}

/// One decimal digit as a string slice.
fn digit_str(d: u32) -> (s: &'static str)
    requires
        d < 10,
    ensures
        s@ == seq![digit_char(d as nat)],
{
    proof {
        reveal_strlit("0");
        reveal_strlit("1");
        reveal_strlit("2");
        reveal_strlit("3");
        reveal_strlit("4");
        reveal_strlit("5");
        reveal_strlit("6");
        reveal_strlit("7");
        reveal_strlit("8");
        reveal_strlit("9");
    }
    let s = if d == 0 {
        "0"
    } else if d == 1 {
        "1"
    } else if d == 2 {
        "2"
    } else if d == 3 {
        "3"
    } else if d == 4 {
        "4"
    } else if d == 5 {
        "5"
    } else if d == 6 {
        "6"
    } else if d == 7 {
        "7"
    } else if d == 8 {
        "8"
    } else {
        "9"
    };
    assert(s@ =~= seq![digit_char(d as nat)]);
    s
}

/// Appends the decimal numeral of `n` to `out`.
fn push_decimal(out: &mut String, n: u32)
    ensures
        final(out)@ == old(out)@ + decimal(n as nat),
    decreases n,
{
    if n >= 10 {
        push_decimal(out, n / 10);
    }
    out.append(digit_str(n % 10));
    assert(out@ =~= old(out)@ + decimal(n as nat));
}

/// The transport text of a sequence of token identifiers: their decimal
/// numerals in order, one comma between neighbours, nothing before the first
/// and nothing after the last. The empty sequence gives the empty text.
pub open spec fn joined(ids: Seq<u32>) -> Seq<char>
    decreases ids.len(),
{
    if ids.len() == 0 {
        Seq::empty()
    } else if ids.len() == 1 {
        decimal(ids[0] as nat)
    } else {
        joined(ids.drop_last()).push(',') + decimal(ids.last() as nat)
    }
}

/// A character that may occur in transport text: a decimal digit or the comma.
pub open spec fn is_id_text_char(c: char) -> bool {
    c == ',' || ('0' <= c && c <= '9')
}

/// A numeral is never empty and holds decimal digits only.
pub proof fn lemma_decimal_digits(n: nat)
    ensures
        decimal(n).len() >= 1,
        forall|i: int| 0 <= i < decimal(n).len() ==> '0' <= #[trigger] decimal(n)[i] <= '9',
    decreases n,
{
    if n >= 10 {
        lemma_decimal_digits(n / 10);
    }
}

/// Transport text holds digits and commas only.
pub proof fn lemma_joined_chars(ids: Seq<u32>)
    ensures
        forall|i: int| 0 <= i < joined(ids).len() ==> is_id_text_char(#[trigger] joined(ids)[i]),
    decreases ids.len(),
{
    if ids.len() == 1 {
        lemma_decimal_digits(ids[0] as nat);
    } else if ids.len() > 1 {
        let head = joined(ids.drop_last()).push(',');
        let tail = decimal(ids.last() as nat);
        lemma_joined_chars(ids.drop_last());
        lemma_decimal_digits(ids.last() as nat);
        assert forall|i: int| 0 <= i < joined(ids).len() implies is_id_text_char(
            #[trigger] joined(ids)[i],
        ) by {
            if i < head.len() - 1 {
                assert(joined(ids)[i] == joined(ids.drop_last())[i]);
            } else if i == head.len() - 1 {
                assert(joined(ids)[i] == ',');
            } else {
                assert(joined(ids)[i] == tail[i - head.len()]);
            }
        }
    }
}

/// Transport text is ASCII and free of the NUL character, and its UTF-8
/// encoding is the text itself, one byte for each character: it can be handed
/// out as a NUL-terminated buffer without loss.
pub proof fn lemma_joined_bytes(ids: Seq<u32>)
    ensures
        is_ascii_chars(joined(ids)),
        forall|i: int| 0 <= i < joined(ids).len() ==> #[trigger] joined(ids)[i] != '\0',
        encode_utf8(joined(ids)).len() == joined(ids).len(),
        forall|i: int|
            0 <= i < joined(ids).len() ==> #[trigger] encode_utf8(joined(ids))[i] == joined(
                ids,
            )[i] as u8,
{
    lemma_joined_chars(ids);
    assert forall|i: int| 0 <= i < joined(ids).len() implies '\0' < #[trigger] joined(ids)[i]
        <= '\u{7f}' by {
        assert(is_id_text_char(joined(ids)[i]));
    }
    is_ascii_chars_encode_utf8(joined(ids));
}

/// The number that the decimal digit `c` stands for.
pub open spec fn digit_value(c: char) -> nat
    recommends
        '0' <= c <= '9',
{
    (c as nat - '0' as nat) as nat
}

/// What a reader has after the characters of `text`, going left to right: the
/// numbers closed by a comma so far, and the value of the digits since the
/// last comma.
pub open spec fn read_state(text: Seq<char>) -> (Seq<nat>, nat)
    decreases text.len(),
{
    if text.len() == 0 {
        (Seq::empty(), 0)
    } else {
        let (closed, open) = read_state(text.drop_last());
        if text.last() == ',' {
            (closed.push(open), 0)
        } else {
            (closed, open * 10 + digit_value(text.last()))
        }
    }
}

/// The numbers that transport text stands for: none for the empty text, else
/// one for each comma and one for what follows the last.
pub open spec fn parsed(text: Seq<char>) -> Seq<nat> {
    if text.len() == 0 {
        Seq::empty()
    } else {
        read_state(text).0.push(read_state(text).1)
    }
}

/// The identifiers as plain numbers.
pub open spec fn id_values(ids: Seq<u32>) -> Seq<nat> {
    Seq::new(ids.len(), |i: int| ids[i] as nat)
}

/// Reading a numeral after a comma, or at the start, gives its number back.
proof fn lemma_read_numeral(before: Seq<char>, n: nat)
    requires
        read_state(before).1 == 0,
    ensures
        read_state(before + decimal(n)) == (read_state(before).0, n),
    decreases n,
{
    let text = before + decimal(n);
    if n < 10 {
        assert(text.drop_last() =~= before);
    } else {
        lemma_read_numeral(before, n / 10);
        assert(text.drop_last() =~= before + decimal(n / 10));
    }
    assert(text.last() == digit_char(n % 10));
}

/// Reading the text of a non-empty sequence closes all identifiers but the
/// last, which is still open.
proof fn lemma_read_joined(ids: Seq<u32>)
    requires
        ids.len() >= 1,
    ensures
        read_state(joined(ids)) == (id_values(ids.drop_last()), ids.last() as nat),
    decreases ids.len(),
{
    if ids.len() == 1 {
        assert(joined(ids) =~= Seq::<char>::empty() + decimal(ids[0] as nat));
        lemma_read_numeral(Seq::empty(), ids[0] as nat);
        assert(id_values(ids.drop_last()) =~= Seq::<nat>::empty());
    } else {
        let front = ids.drop_last();
        let before = joined(front).push(',');
        lemma_read_joined(front);
        assert(before.drop_last() =~= joined(front));
        assert(read_state(before) == (id_values(front.drop_last()).push(front.last() as nat), 0nat));
        lemma_read_numeral(before, ids.last() as nat);
        assert(id_values(front.drop_last()).push(front.last() as nat) =~= id_values(front));
    }
}

/// The text is empty exactly for the empty sequence.
pub proof fn lemma_joined_nonempty(ids: Seq<u32>)
    ensures
        joined(ids).len() == 0 <==> ids.len() == 0,
{
    if ids.len() == 1 {
        lemma_decimal_digits(ids[0] as nat);
    } else if ids.len() > 1 {
        lemma_decimal_digits(ids.last() as nat);
    }
}

/// Round trip: the transport text of a sequence of identifiers reads back as
/// exactly that sequence.
pub proof fn lemma_parsed_joined(ids: Seq<u32>)
    ensures
        parsed(joined(ids)) == id_values(ids),
{
    if ids.len() == 0 {
        assert(id_values(ids) =~= Seq::<nat>::empty());
    } else {
        lemma_read_joined(ids);
        lemma_joined_nonempty(ids);
        assert(id_values(ids.drop_last()).push(ids.last() as nat) =~= id_values(ids));
    }
}

/// The text determines the identifiers and the identifiers the text: two
/// sequences have the same transport text exactly when they are the same.
pub proof fn lemma_joined_injective(a: Seq<u32>, b: Seq<u32>)
    ensures
        joined(a) == joined(b) <==> a == b,
{
    if joined(a) == joined(b) {
        lemma_parsed_joined(a);
        lemma_parsed_joined(b);
        assert(a.len() == id_values(a).len());
        assert(b.len() == id_values(b).len());
        assert forall|i: int| 0 <= i < a.len() implies a[i] == b[i] by {
            assert(id_values(a)[i] == a[i] as nat);
            assert(id_values(b)[i] == b[i] as nat);
        }
        assert(a =~= b);
    }
}

/// Serializes `ids` into a freshly allocated transport text.
pub fn serialize_ids(ids: &[u32]) -> (out: String)
    ensures
        out@ == joined(ids@),
        forall|i: int| 0 <= i < out@.len() ==> is_id_text_char(#[trigger] out@[i]),
{
    let mut out = String::new();
    let mut i: usize = 0;
    while i < ids.len()
        invariant
            i <= ids.len(),
            out@ == joined(ids@.take(i as int)),
        decreases ids.len() - i,
    {
        if i > 0 {
            out.append(",");
        }
        push_decimal(&mut out, ids[i]);
        proof {
            reveal_strlit(",");
            let next = ids@.take(i + 1);
            assert(next.drop_last() =~= ids@.take(i as int));
            assert(next.last() == ids@[i as int]);
            assert(out@ =~= joined(next));
        }
        i += 1;
    }
    proof {
        assert(ids@.take(i as int) =~= ids@);
        lemma_joined_chars(ids@);
    }
    out
}

} // verus!
