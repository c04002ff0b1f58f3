//! The ledger as a sequence of records, and what each operation makes of it.

use vstd::prelude::*;
use crate::error::LedgerError;
use crate::record::{Amount, Kind, RecordView};

verus! {

/// The category name that stands for "every category" where categories are
/// listed. It is no category of its own and can be neither renamed nor deleted.
pub open spec fn reserved_category() -> Seq<char> {
    "All Categories"@
}

/// No two records have the same id.
pub open spec fn ids_distinct(s: Seq<RecordView>) -> bool {
    forall|i: int, j: int| 0 <= i < j < s.len() ==> (#[trigger] s[i]).id != (#[trigger] s[j]).id
}

/// Every record is valid.
pub open spec fn all_valid(s: Seq<RecordView>) -> bool {
    forall|i: int| 0 <= i < s.len() ==> (#[trigger] s[i]).valid()
}

/// The collection is consistent: ids are unique and every record is valid.
pub open spec fn consistent(s: Seq<RecordView>) -> bool {
    ids_distinct(s) && all_valid(s)
}

/// No record is filed under the reserved category.
pub open spec fn unreserved(s: Seq<RecordView>) -> bool {
    forall|i: int| 0 <= i < s.len() ==> (#[trigger] s[i]).category != reserved_category()
}

/// Some record has the id.
pub open spec fn has_id(s: Seq<RecordView>, id: Seq<char>) -> bool {
    exists|i: int| 0 <= i < s.len() && (#[trigger] s[i]).id == id
}

/// Where the first record with the id stands; the length if there is none.
pub open spec fn position_of(s: Seq<RecordView>, id: Seq<char>) -> int
    decreases s.len(),
{
    if s.len() == 0 {
        0
    } else if s[0].id == id {
        0
    } else {
        1 + position_of(s.drop_first(), id)
    }
}

/// How many records are filed under the category.
pub open spec fn count_in(s: Seq<RecordView>, category: Seq<char>) -> nat
    decreases s.len(),
{
    if s.len() == 0 {
        0
    } else {
        count_in(s.drop_last(), category) + if s.last().category == category {
            1nat
        } else {
            0nat
        }
    }
}

/// Why a record with these fields cannot be stored, if it cannot.
pub open spec fn field_refusal(
    amount: Amount,
    description: Seq<char>,
    category: Seq<char>,
) -> Option<LedgerError> {
    if !amount.positive() {
        Some(LedgerError::NonPositiveAmount)
    } else if description.len() == 0 || category.len() == 0 {
        Some(LedgerError::EmptyText)
    } else {
        None
    }
}

/// The collection with one more record at its end.
pub open spec fn inserted(s: Seq<RecordView>, record: RecordView) -> Seq<RecordView> {
    s.push(record)
}

/// Why the record with the id cannot be revised, if it cannot.
pub open spec fn replace_refusal(
    s: Seq<RecordView>,
    id: Seq<char>,
    amount: Amount,
    description: Seq<char>,
    category: Seq<char>,
) -> Option<LedgerError> {
    match field_refusal(amount, description, category) {
        Some(e) => Some(e),
        None => if has_id(s, id) {
            None
        } else {
            Some(LedgerError::NoSuchRecord)
        },
    }
}

/// The collection with the first record of that id revised; the collection
/// itself where no record has the id.
pub open spec fn replaced(
    s: Seq<RecordView>,
    id: Seq<char>,
    kind: Kind,
    amount: Amount,
    description: Seq<char>,
    category: Seq<char>,
) -> Seq<RecordView> {
    let p = position_of(s, id);
    if p < s.len() {
        s.update(p, s[p].revised(kind, amount, description, category))
    } else {
        s
    }
}

/// The collection without the records of that id.
pub open spec fn without_id(s: Seq<RecordView>, id: Seq<char>) -> Seq<RecordView> {
    s.filter(|r: RecordView| r.id != id)
}

/// Why a category cannot be renamed, if it cannot.
pub open spec fn rename_refusal(
    s: Seq<RecordView>,
    old_name: Seq<char>,
    new_name: Seq<char>,
) -> Option<LedgerError> {
    if old_name.len() == 0 || new_name.len() == 0 {
        Some(LedgerError::EmptyRenameOperand)
    } else if old_name == reserved_category() {
        Some(LedgerError::ReservedRename)
    } else if old_name == new_name {
        Some(LedgerError::SameName)
    } else if count_in(s, old_name) == 0 {
        Some(LedgerError::NothingToRename)
    } else {
        None
    }
}

/// The collection with every record of the old category filed under the new.
pub open spec fn renamed(
    s: Seq<RecordView>,
    old_name: Seq<char>,
    new_name: Seq<char>,
) -> Seq<RecordView> {
    s.map_values(
        |r: RecordView|
            if r.category == old_name {
                r.filed_under(new_name)
            } else {
                r
            },
    )
}

/// Why a category cannot be deleted, if it cannot.
pub open spec fn delete_category_refusal(s: Seq<RecordView>, name: Seq<char>) -> Option<
    LedgerError,
> {
    if name.len() == 0 {
        Some(LedgerError::EmptyDeleteOperand)
    } else if name == reserved_category() {
        Some(LedgerError::ReservedDelete)
    } else if count_in(s, name) == 0 {
        Some(LedgerError::NothingToDelete)
    } else {
        None
    }
}

/// The collection without the records of that category.
pub open spec fn without_category(s: Seq<RecordView>, name: Seq<char>) -> Seq<RecordView> {
    s.filter(|r: RecordView| r.category != name)
}

/// A position at which the id stands, with no earlier record of that id, is
/// the position of the id.
pub proof fn lemma_position_found(s: Seq<RecordView>, id: Seq<char>, p: int)
    requires
        0 <= p < s.len(),
        s[p].id == id,
        forall|k: int| 0 <= k < p ==> (#[trigger] s[k]).id != id,
    ensures
        position_of(s, id) == p,
    decreases p,
{
    if p > 0 {
        let rest = s.drop_first();
        assert(s[0].id != id);
        assert forall|k: int| 0 <= k < p - 1 implies (#[trigger] rest[k]).id != id by {
            assert(rest[k] == s[k + 1]);
        }
        lemma_position_found(rest, id, p - 1);
    }
}

/// The position of an id lies within the collection exactly when some record
/// has the id, and then the record there has it and none before has.
pub proof fn lemma_position_of(s: Seq<RecordView>, id: Seq<char>)
    ensures
        0 <= position_of(s, id) <= s.len(),
        position_of(s, id) < s.len() <==> has_id(s, id),
        position_of(s, id) < s.len() ==> s[position_of(s, id)].id == id,
        forall|k: int| 0 <= k < position_of(s, id) ==> (#[trigger] s[k]).id != id,
    decreases s.len(),
{
    if s.len() > 0 && s[0].id != id {
        let rest = s.drop_first();
        lemma_position_of(rest, id);
        let p = position_of(rest, id);
        assert forall|k: int| 0 <= k < p + 1 implies (#[trigger] s[k]).id != id by {
            if k > 0 {
                assert(rest[k - 1] == s[k]);
            }
        }
        if p < rest.len() {
            assert(s[p + 1] == rest[p]);
        }
        if has_id(s, id) {
            let i = choose|i: int| 0 <= i < s.len() && (#[trigger] s[i]).id == id;
            assert(rest[i - 1] == s[i]);
        }
    }
}

/// Counting over one record more.
pub proof fn lemma_count_step(s: Seq<RecordView>, category: Seq<char>, i: int)
    requires
        0 <= i < s.len(),
    ensures
        count_in(s.subrange(0, i + 1), category) == count_in(s.subrange(0, i), category) + if s[i].category
            == category {
            1nat
        } else {
            0nat
        },
{
    let upto = s.subrange(0, i + 1);
    assert(upto.drop_last() =~= s.subrange(0, i));
    assert(upto.last() == s[i]);
}

/// The count is zero exactly when no record is filed under the category, and
/// never more than the number of records.
pub proof fn lemma_count_in(s: Seq<RecordView>, category: Seq<char>)
    ensures
        count_in(s, category) <= s.len(),
        count_in(s, category) == 0 <==> forall|i: int|
            0 <= i < s.len() ==> (#[trigger] s[i]).category != category,
    decreases s.len(),
{
    if s.len() > 0 {
        let rest = s.drop_last();
        lemma_count_in(rest, category);
        if count_in(s, category) == 0 {
            assert forall|i: int| 0 <= i < s.len() implies (#[trigger] s[i]).category
                != category by {
                if i < rest.len() {
                    assert(rest[i] == s[i]);
                }
            }
        } else if s.last().category != category {
            let i = choose|i: int| 0 <= i < rest.len() && (#[trigger] rest[i]).category == category;
            assert(s[i] == rest[i]);
        }
    }
}

/// Filtering over one element more.
pub proof fn lemma_filter_step<A>(s: Seq<A>, keep: spec_fn(A) -> bool, i: int)
    requires
        0 <= i < s.len(),
    ensures
        s.subrange(0, i + 1).filter(keep) == if keep(s[i]) {
            s.subrange(0, i).filter(keep).push(s[i])
        } else {
            s.subrange(0, i).filter(keep)
        },
{
    reveal(Seq::filter);
    let upto = s.subrange(0, i + 1);
    assert(upto.drop_last() =~= s.subrange(0, i));
    assert(upto.last() == s[i]);
}

} // verus!
