//! Money written the continental way: a point between groups of three
//! digits, a comma before the fraction.

use vstd::prelude::*;
use crate::text::chars_of;

verus! {

/// Where the first point of `s` stands; the length if there is none.
pub open spec fn first_point(s: Seq<char>) -> int
    decreases s.len(),
{
    if s.len() == 0 {
        0
    } else if s[0] == '.' {
        0
    } else {
        1 + first_point(s.drop_first())
    }
}

/// What stands before the first point.
pub open spec fn whole_part(s: Seq<char>) -> Seq<char> {
    s.subrange(0, first_point(s))
}

/// What stands between the first point and the next; two zeros where there
/// is no point.
pub open spec fn fraction_part(s: Seq<char>) -> Seq<char> {
    if first_point(s) < s.len() {
        whole_part(s.subrange(first_point(s) + 1, s.len() as int))
    } else {
        seq!['0', '0']
    }
}

/// The digits in groups of three counted from the right, with a point
/// between the groups.
pub open spec fn grouped(digits: Seq<char>) -> Seq<char>
    decreases digits.len(),
{
    if digits.len() <= 3 {
        digits
    } else {
        grouped(digits.subrange(0, digits.len() - 3)) + seq!['.'] + digits.subrange(
            digits.len() - 3,
            digits.len() as int,
        )
    }
}

/// The sign that is written before a formatted amount.
pub open spec fn sign(negative: bool) -> Seq<char> {
    if negative {
        seq!['-']
    } else {
        Seq::<char>::empty()
    }
}

/// An amount as it is shown: the sign, the whole part in groups of three, a
/// comma, the fraction.
pub open spec fn formatted(magnitude: Seq<char>, negative: bool) -> Seq<char> {
    sign(negative) + grouped(whole_part(magnitude)) + seq![','] + fraction_part(magnitude)
}

/// A whole part and a fraction without points, written with a point between
/// them, are shown as the sign, the whole part in groups, a comma and the
/// fraction.
pub proof fn law_decimal_is_regrouped(whole: Seq<char>, fraction: Seq<char>, negative: bool)
    requires
        !whole.contains('.'),
        !fraction.contains('.'),
    ensures
        formatted(whole + seq!['.'] + fraction, negative) == sign(negative) + grouped(whole) + seq![
            ',',
        ] + fraction,
{
    let written = whole + seq!['.'] + fraction;
    assert forall|k: int| 0 <= k < whole.len() implies #[trigger] written[k] != '.' by {
        assert(written[k] == whole[k]);
    }
    lemma_first_point_at(written, whole.len() as int);
    assert(whole_part(written) =~= whole);
    let rest = written.subrange(whole.len() as int + 1, written.len() as int);
    assert(rest =~= fraction);
    lemma_first_point_at(fraction, fraction.len() as int);
    assert(whole_part(fraction) =~= fraction);
}

/// Grouping adds a point for every three digits but the first group, and
/// nothing else.
pub proof fn law_grouped_length(digits: Seq<char>)
    ensures
        digits.len() == 0 ==> grouped(digits).len() == 0,
        digits.len() > 0 ==> grouped(digits).len() == digits.len() + (digits.len() - 1) / 3,
    decreases digits.len(),
{
    if digits.len() > 3 {
        law_grouped_length(digits.subrange(0, digits.len() - 3));
    }
}

/// A place with no point before it, which is the end or holds a point, is
/// where the first point stands.
proof fn lemma_first_point_at(s: Seq<char>, p: int)
    requires
        0 <= p <= s.len(),
        p < s.len() ==> s[p] == '.',
        forall|k: int| 0 <= k < p ==> #[trigger] s[k] != '.',
    ensures
        first_point(s) == p,
    decreases p,
{
    if p > 0 {
        let rest = s.drop_first();
        assert(s[0] != '.');
        assert forall|k: int| 0 <= k < p - 1 implies #[trigger] rest[k] != '.' by {
            assert(rest[k] == s[k + 1]);
        }
        if p < s.len() {
            assert(rest[p - 1] == s[p]);
        }
        lemma_first_point_at(rest, p - 1);
    }
}

/// Where the first point at or after `from` stands; the length if there is
/// none.
fn find_point(chars: &Vec<char>, from: usize) -> (at: usize)
    requires
        from <= chars.len(),
    ensures
        from <= at <= chars.len(),
        at == from + first_point(chars@.subrange(from as int, chars.len() as int)),
{
    let mut at: usize = from;
    while at < chars.len() && chars[at] != '.'
        invariant
            from <= at <= chars.len(),
            forall|k: int| from <= k < at ==> #[trigger] chars@[k] != '.',
        decreases chars.len() - at,
    {
        at += 1;
    }
    proof {
        let tail = chars@.subrange(from as int, chars.len() as int);
        assert forall|k: int| 0 <= k < at - from implies #[trigger] tail[k] != '.' by {
            assert(tail[k] == chars@[k + from]);
        }
        lemma_first_point_at(tail, at - from);
    }
    at
}

/// Appends `chars[from..to]` to `out`.
fn push_all(out: &mut String, chars: &Vec<char>, from: usize, to: usize)
    requires
        from <= to <= chars.len(),
    ensures
        final(out)@ == old(out)@ + chars@.subrange(from as int, to as int),
{
    let ghost base = out@;
    let mut i: usize = from;
    while i < to
        invariant
            from <= i <= to <= chars.len(),
            out@ == base + chars@.subrange(from as int, i as int),
        decreases to - i,
    {
        out.push(chars[i]);
        assert(out@ =~= base + chars@.subrange(from as int, i + 1));
        i += 1;
    }
}

/// Appends the first `end` characters to `out`, in groups of three counted
/// from the right with a point between the groups.
fn push_grouped(out: &mut String, chars: &Vec<char>, end: usize)
    requires
        end <= chars.len(),
    ensures
        final(out)@ == old(out)@ + grouped(chars@.subrange(0, end as int)),
{
    let ghost base = out@;
    let head: usize = if end == 0 {
        0
    } else {
        (end - 1) % 3 + 1
    };
    push_all(out, chars, 0, head);
    let mut i: usize = head;
    while i < end
        invariant
            head <= i <= end <= chars.len(),
            (end - i) % 3 == 0,
            0 < i || end == 0,
            out@ == base + grouped(chars@.subrange(0, i as int)),
        decreases end - i,
    {
        let ghost done = chars@.subrange(0, i as int);
        let ghost next = chars@.subrange(0, i + 3);
        out.push('.');
        push_all(out, chars, i, i + 3);
        proof {
            assert(next.subrange(0, next.len() - 3) =~= done);
            assert(next.subrange(next.len() - 3, next.len() as int) =~= chars@.subrange(
                i as int,
                i + 3,
            ));
            assert(out@ =~= base + grouped(next));
        }
        i += 3;
    }
}

/// An amount as it is shown. `magnitude` is the amount without its sign,
/// written with a point before its decimals; `negative` says whether the
/// amount lies below zero.
pub fn format_currency(magnitude: &str, negative: bool) -> (out: String)
    ensures
        out@ == formatted(magnitude@, negative),
{
    let chars = chars_of(magnitude);
    let len = chars.len();
    let point = find_point(&chars, 0);
    assert(chars@.subrange(0, len as int) =~= chars@);
    let mut out = String::new();
    if negative {
        out.push('-');
    }
    assert(out@ =~= sign(negative));
    push_grouped(&mut out, &chars, point);
    out.push(',');
    if point < len {
        let next = find_point(&chars, point + 1);
        let ghost rest = chars@.subrange(point + 1, len as int);
        assert(rest.subrange(0, next - (point + 1)) =~= chars@.subrange(point + 1, next as int));
        push_all(&mut out, &chars, point + 1, next);
    } else {
        out.push('0');
        out.push('0');
        assert(out@ =~= sign(negative) + grouped(whole_part(magnitude@)) + seq![','] + seq![
            '0',
            '0',
        ]);
    }
    out
}

} // verus!
