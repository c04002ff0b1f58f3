//! What holds of the ledger's operations, proved of the model that their
//! contracts are stated in.

use vstd::prelude::*;
use crate::error::{ErrorKind, LedgerError};
use crate::model::{
    consistent, count_in, delete_category_refusal, field_refusal, has_id, ids_distinct,
    inserted, lemma_count_in, lemma_position_found, lemma_position_of, position_of, rename_refusal,
    renamed, replaced, reserved_category, unreserved, without_category, without_id,
};
use crate::record::{Amount, Kind, RecordView};
use crate::text::{is_blank, lemma_trim_idempotent, trimmed};

verus! {

/// At how many places two collections of one length hold different records.
pub open spec fn differing(a: Seq<RecordView>, b: Seq<RecordView>) -> nat
    decreases a.len(),
{
    if a.len() == 0 || a.len() != b.len() {
        0
    } else {
        differing(a.drop_last(), b.drop_last()) + if a.last() != b.last() {
            1nat
        } else {
            0nat
        }
    }
}

/// What a filter keeps is what the collection held, in the same order: the
/// kept records pass the test, each stands in the collection, and of two kept
/// records the earlier stood earlier.
proof fn lemma_filter_order(s: Seq<RecordView>, keep: spec_fn(RecordView) -> bool)
    ensures
        s.filter(keep).len() <= s.len(),
        forall|i: int|
            0 <= i < s.filter(keep).len() ==> keep(#[trigger] s.filter(keep)[i]) && exists|k: int|
                i <= k < s.len() && s[k] == s.filter(keep)[i],
        forall|i: int, j: int|
            0 <= i < j < s.filter(keep).len() ==> exists|k: int, l: int|
                0 <= k < l < s.len() && s[k] == #[trigger] s.filter(keep)[i] && s[l]
                    == #[trigger] s.filter(keep)[j],
    decreases s.len(),
{
    reveal(Seq::filter);
    if s.len() > 0 {
        let rest = s.drop_last();
        let kept = s.filter(keep);
        let before = rest.filter(keep);
        lemma_filter_order(rest, keep);
        assert forall|i: int| 0 <= i < kept.len() implies keep(#[trigger] kept[i]) && exists|
            k: int,
        |
            i <= k < s.len() && s[k] == kept[i] by {
            if i < before.len() {
                let k = choose|k: int| i <= k < rest.len() && rest[k] == before[i];
                assert(s[k] == kept[i]);
            } else {
                assert(s[s.len() - 1] == kept[i]);
            }
        }
        assert forall|i: int, j: int| 0 <= i < j < kept.len() implies exists|k: int, l: int|
            0 <= k < l < s.len() && s[k] == #[trigger] kept[i] && s[l] == #[trigger] kept[j] by {
            if j < before.len() {
                let (k, l) = choose|k: int, l: int|
                    0 <= k < l < rest.len() && rest[k] == before[i] && rest[l] == before[j];
                assert(s[k] == kept[i] && s[l] == kept[j]);
            } else {
                let k = choose|k: int| i <= k < rest.len() && rest[k] == before[i];
                assert(s[k] == kept[i] && s[s.len() - 1] == kept[j]);
            }
        }
    }
}

/// A filter that every record passes keeps the collection as it is.
proof fn lemma_filter_all(s: Seq<RecordView>, keep: spec_fn(RecordView) -> bool)
    requires
        forall|i: int| 0 <= i < s.len() ==> keep(#[trigger] s[i]),
    ensures
        s.filter(keep) == s,
    decreases s.len(),
{
    reveal(Seq::filter);
    if s.len() > 0 {
        let rest = s.drop_last();
        assert forall|i: int| 0 <= i < rest.len() implies keep(#[trigger] rest[i]) by {
            assert(rest[i] == s[i]);
        }
        lemma_filter_all(rest, keep);
        assert(rest.push(s.last()) =~= s);
    }
}

/// A consistent collection stays consistent under a filter.
proof fn lemma_filter_consistent(s: Seq<RecordView>, keep: spec_fn(RecordView) -> bool)
    requires
        consistent(s),
    ensures
        consistent(s.filter(keep)),
{
    let kept = s.filter(keep);
    lemma_filter_order(s, keep);
    assert forall|i: int, j: int| 0 <= i < j < kept.len() implies (#[trigger] kept[i]).id != (
    #[trigger] kept[j]).id by {
        let (k, l) = choose|k: int, l: int|
            0 <= k < l < s.len() && s[k] == kept[i] && s[l] == kept[j];
        assert(s[k].id != s[l].id);
    }
    assert forall|i: int| 0 <= i < kept.len() implies (#[trigger] kept[i]).valid() by {
        let k = choose|k: int| i <= k < s.len() && s[k] == kept[i];
        assert(s[k].valid());
    }
}

/// Creating a record under an id that no record has yet gives a collection
/// with exactly one record more: the records that were there stand as they
/// stood, the new one comes last, and its id is that of no other record.
pub proof fn law_create_adds_one_record(before: Seq<RecordView>, record: RecordView)
    requires
        ids_distinct(before),
        !has_id(before, record.id),
    ensures
        inserted(before, record).len() == before.len() + 1,
        inserted(before, record).drop_last() == before,
        inserted(before, record).last() == record,
        forall|i: int| 0 <= i < before.len() ==> (#[trigger] before[i]).id != record.id,
        ids_distinct(inserted(before, record)),
{
    let after = inserted(before, record);
    assert(after.drop_last() =~= before);
    assert forall|i: int| 0 <= i < before.len() implies (#[trigger] before[i]).id != record.id by {
        if before[i].id == record.id {
            assert(has_id(before, record.id));
        }
    }
    assert forall|i: int, j: int| 0 <= i < j < after.len() implies (#[trigger] after[i]).id != (
    #[trigger] after[j]).id by {
        assert(after[i] == before[i]);
        if j < before.len() {
            assert(after[j] == before[j]);
        }
    }
}

/// Fields that are accepted once the texts are trimmed make a valid record:
/// the amount is above zero and what is left of either text is not blank.
pub proof fn law_accepted_fields_are_valid(
    amount: Amount,
    description: Seq<char>,
    category: Seq<char>,
)
    requires
        field_refusal(amount, trimmed(description), trimmed(category)) is None,
    ensures
        amount.positive(),
        !is_blank(trimmed(description)),
        !is_blank(trimmed(category)),
{
    lemma_trim_idempotent(description);
    lemma_trim_idempotent(category);
}

/// A consistent collection that takes in a valid record under an unused id
/// stays consistent.
pub proof fn law_create_keeps_consistent(before: Seq<RecordView>, record: RecordView)
    requires
        consistent(before),
        record.valid(),
        !has_id(before, record.id),
    ensures
        consistent(inserted(before, record)),
{
    law_create_adds_one_record(before, record);
    let after = inserted(before, record);
    assert forall|i: int| 0 <= i < after.len() implies (#[trigger] after[i]).valid() by {
        if i < before.len() {
            assert(after[i] == before[i]);
        }
    }
}

/// Updating the record of an id keeps the number of records, keeps that
/// record's id and time stamp, gives it the new kind, amount, description and
/// category, and leaves every other record as it was.
pub proof fn law_update_keeps_identity(
    before: Seq<RecordView>,
    id: Seq<char>,
    kind: Kind,
    amount: Amount,
    description: Seq<char>,
    category: Seq<char>,
)
    requires
        has_id(before, id),
    ensures
        ({
            let after = replaced(before, id, kind, amount, description, category);
            let p = position_of(before, id);
            &&& after.len() == before.len()
            &&& 0 <= p < before.len()
            &&& after[p].id == id
            &&& after[p].id == before[p].id
            &&& after[p].created_at == before[p].created_at
            &&& after[p].kind == kind
            &&& after[p].amount == amount
            &&& after[p].description == description
            &&& after[p].category == category
            &&& forall|k: int| 0 <= k < before.len() && k != p ==> #[trigger] after[k] == before[k]
        }),
{
    lemma_position_of(before, id);
}

/// An update to an amount above zero and to texts that are not blank leaves
/// a consistent collection consistent.
pub proof fn law_update_keeps_consistent(
    before: Seq<RecordView>,
    id: Seq<char>,
    kind: Kind,
    amount: Amount,
    description: Seq<char>,
    category: Seq<char>,
)
    requires
        consistent(before),
        amount.positive(),
        !is_blank(description),
        !is_blank(category),
    ensures
        consistent(replaced(before, id, kind, amount, description, category)),
{
    lemma_position_of(before, id);
    if has_id(before, id) {
        law_update_keeps_identity(before, id, kind, amount, description, category);
        let after = replaced(before, id, kind, amount, description, category);
        let p = position_of(before, id);
        assert forall|i: int, j: int| 0 <= i < j < after.len() implies (#[trigger] after[i]).id
            != (#[trigger] after[j]).id by {
            assert(after[i].id == before[i].id && after[j].id == before[j].id);
        }
        assert forall|i: int| 0 <= i < after.len() implies (#[trigger] after[i]).valid() by {
            if i != p {
                assert(after[i] == before[i]);
            }
        }
    }
}

/// A filter looks at the last record and filters the rest.
proof fn lemma_filter_last(s: Seq<RecordView>, keep: spec_fn(RecordView) -> bool)
    requires
        s.len() > 0,
    ensures
        s.filter(keep) == if keep(s.last()) {
            s.drop_last().filter(keep).push(s.last())
        } else {
            s.drop_last().filter(keep)
        },
{
    reveal(Seq::filter);
}

/// Where ids are unique and some record has the id, the collection without
/// that id is the collection with the first such record taken out.
proof fn lemma_delete_found(before: Seq<RecordView>, id: Seq<char>)
    requires
        ids_distinct(before),
        has_id(before, id),
    ensures
        0 <= position_of(before, id) < before.len(),
        without_id(before, id) == before.remove(position_of(before, id)),
    decreases before.len(),
{
    let keep = |r: RecordView| r.id != id;
    let rest = before.drop_last();
    let last = before.last();
    let n = before.len() - 1;
    lemma_filter_last(before, keep);
    if last.id == id {
        assert forall|i: int| 0 <= i < rest.len() implies keep(#[trigger] rest[i]) by {
            assert(rest[i] == before[i]);
            assert(before[i].id != before[n].id);
        }
        lemma_filter_all(rest, keep);
        assert forall|k: int| 0 <= k < n implies (#[trigger] before[k]).id != id by {
            assert(before[k].id != before[n].id);
        }
        lemma_position_found(before, id, n);
        assert(before.remove(n) =~= rest);
    } else {
        let w = choose|w: int| 0 <= w < before.len() && (#[trigger] before[w]).id == id;
        assert(rest[w] == before[w]);
        assert(has_id(rest, id));
        assert(ids_distinct(rest)) by {
            assert forall|i: int, j: int| 0 <= i < j < rest.len() implies (#[trigger] rest[i]).id
                != (#[trigger] rest[j]).id by {
                assert(rest[i] == before[i] && rest[j] == before[j]);
            }
        }
        lemma_delete_found(rest, id);
        let p = position_of(rest, id);
        assert(position_of(before, id) == p) by {
            lemma_position_of(rest, id);
            assert(before[p] == rest[p]);
            assert forall|k: int| 0 <= k < p implies (#[trigger] before[k]).id != id by {
                assert(before[k] == rest[k]);
            }
            lemma_position_found(before, id, p);
        }
        assert(rest.remove(p).push(last) =~= before.remove(p));
    }
}

/// Where ids are unique, deleting an id that some record has removes exactly
/// that one record and keeps the others in their order; deleting an id that
/// no record has is refused as not found and would remove nothing.
pub proof fn law_delete_removes_one(before: Seq<RecordView>, id: Seq<char>)
    requires
        ids_distinct(before),
    ensures
        has_id(before, id) ==> {
            &&& 0 <= position_of(before, id) < before.len()
            &&& without_id(before, id) == before.remove(position_of(before, id))
            &&& without_id(before, id).len() == before.len() - 1
        },
        !has_id(before, id) ==> without_id(before, id) == before,
        !has_id(without_id(before, id), id),
{
    let keep = |r: RecordView| r.id != id;
    let after = without_id(before, id);
    assert(!has_id(after, id)) by {
        lemma_filter_order(before, keep);
        if has_id(after, id) {
            let i = choose|i: int| 0 <= i < after.len() && (#[trigger] after[i]).id == id;
            assert(keep(after[i]));
        }
    }
    if has_id(before, id) {
        lemma_delete_found(before, id);
    } else {
        assert forall|i: int| 0 <= i < before.len() implies keep(#[trigger] before[i]) by {
            if before[i].id == id {
                assert(has_id(before, id));
            }
        }
        lemma_filter_all(before, keep);
    }
}

/// Deleting a record leaves a consistent collection consistent.
pub proof fn law_delete_keeps_consistent(before: Seq<RecordView>, id: Seq<char>)
    requires
        consistent(before),
    ensures
        consistent(without_id(before, id)),
{
    lemma_filter_consistent(before, |r: RecordView| r.id != id);
}

/// Renaming a category to another name keeps every record in its place,
/// files the records of the old category under the new one and changes
/// nothing else; the number of records changed is the number that were
/// filed under the old category.
pub proof fn law_rename_changes_matching_only(
    before: Seq<RecordView>,
    old_name: Seq<char>,
    new_name: Seq<char>,
)
    requires
        old_name != new_name,
    ensures
        renamed(before, old_name, new_name).len() == before.len(),
        forall|i: int|
            0 <= i < before.len() ==> #[trigger] renamed(before, old_name, new_name)[i] == if before[i].category
                == old_name {
                before[i].filed_under(new_name)
            } else {
                before[i]
            },
        differing(before, renamed(before, old_name, new_name)) == count_in(before, old_name),
        count_in(renamed(before, old_name, new_name), old_name) == 0,
    decreases before.len(),
{
    let after = renamed(before, old_name, new_name);
    if before.len() > 0 {
        law_rename_changes_matching_only(before.drop_last(), old_name, new_name);
        assert(after.drop_last() =~= renamed(before.drop_last(), old_name, new_name));
    }
    lemma_count_in(after, old_name);
}

/// A renaming to a name that is not blank leaves a consistent collection
/// consistent.
pub proof fn law_rename_keeps_consistent(
    before: Seq<RecordView>,
    old_name: Seq<char>,
    new_name: Seq<char>,
)
    requires
        consistent(before),
        !is_blank(new_name),
    ensures
        consistent(renamed(before, old_name, new_name)),
{
    let after = renamed(before, old_name, new_name);
    assert forall|i: int, j: int| 0 <= i < j < after.len() implies (#[trigger] after[i]).id != (
    #[trigger] after[j]).id by {
        assert(after[i].id == before[i].id && after[j].id == before[j].id);
    }
    assert forall|i: int| 0 <= i < after.len() implies (#[trigger] after[i]).valid() by {
        assert(before[i].valid());
    }
}

/// The reserved category is never renamed and never deleted, whatever the
/// ledger holds.
pub proof fn law_reserved_category_is_refused(s: Seq<RecordView>, new_name: Seq<char>)
    ensures
        rename_refusal(s, reserved_category(), new_name) is Some,
        rename_refusal(s, reserved_category(), new_name)->0.kind_of() == ErrorKind::InvalidInput,
        delete_category_refusal(s, reserved_category()) is Some,
        delete_category_refusal(s, reserved_category())->0.kind_of() == ErrorKind::InvalidInput,
{
}

/// A collection with no record under the reserved category gets none by a
/// new record, an update or a renaming that does not itself name the
/// reserved category as the one to file under, and none by a deletion.
pub proof fn law_reserved_category_stays_unused(
    before: Seq<RecordView>,
    record: RecordView,
    id: Seq<char>,
    old_name: Seq<char>,
    new_name: Seq<char>,
)
    requires
        unreserved(before),
    ensures
        record.category != reserved_category() ==> unreserved(inserted(before, record)),
        record.category != reserved_category() ==> unreserved(
            replaced(before, id, record.kind, record.amount, record.description, record.category),
        ),
        new_name != reserved_category() ==> unreserved(renamed(before, old_name, new_name)),
        unreserved(without_id(before, id)),
        unreserved(without_category(before, old_name)),
{
    if record.category != reserved_category() {
        let created = inserted(before, record);
        assert forall|i: int| 0 <= i < created.len() implies (#[trigger] created[i]).category
            != reserved_category() by {
            if i < before.len() {
                assert(created[i] == before[i]);
            }
        }
        lemma_position_of(before, id);
        let updated = replaced(
            before,
            id,
            record.kind,
            record.amount,
            record.description,
            record.category,
        );
        assert forall|i: int| 0 <= i < updated.len() implies (#[trigger] updated[i]).category
            != reserved_category() by {
            if i != position_of(before, id) {
                assert(updated[i] == before[i]);
            }
        }
    }
    if new_name != reserved_category() {
        let refiled = renamed(before, old_name, new_name);
        assert forall|i: int| 0 <= i < refiled.len() implies (#[trigger] refiled[i]).category
            != reserved_category() by {
            assert(before[i].category != reserved_category());
        }
    }
    lemma_filter_unreserved(before, |r: RecordView| r.id != id);
    lemma_filter_unreserved(before, |r: RecordView| r.category != old_name);
}

/// A filter files no record under the reserved category.
proof fn lemma_filter_unreserved(s: Seq<RecordView>, keep: spec_fn(RecordView) -> bool)
    requires
        unreserved(s),
    ensures
        unreserved(s.filter(keep)),
{
    let kept = s.filter(keep);
    lemma_filter_order(s, keep);
    assert forall|i: int| 0 <= i < kept.len() implies (#[trigger] kept[i]).category
        != reserved_category() by {
        let k = choose|k: int| i <= k < s.len() && s[k] == kept[i];
        assert(s[k].category != reserved_category());
    }
}

/// After a category has been deleted no record is filed under it, so
/// deleting it once more is refused as not found and leaves the collection
/// as the first deletion left it.
pub proof fn law_delete_category_twice(before: Seq<RecordView>, name: Seq<char>)
    requires
        delete_category_refusal(before, name) is None,
    ensures
        count_in(without_category(before, name), name) == 0,
        delete_category_refusal(without_category(before, name), name) == Some(
            LedgerError::NothingToDelete,
        ),
        LedgerError::NothingToDelete.kind_of() == ErrorKind::NotFound,
        without_category(without_category(before, name), name) == without_category(before, name),
{
    let keep = |r: RecordView| r.category != name;
    let after = without_category(before, name);
    lemma_filter_order(before, keep);
    lemma_count_in(after, name);
    assert forall|i: int| 0 <= i < after.len() implies (#[trigger] after[i]).category != name by {
        assert(keep(after[i]));
    }
    lemma_filter_all(after, keep);
}

/// Deleting a category removes the records filed under it, as many as were
/// counted there, and leaves a consistent collection consistent.
pub proof fn law_delete_category_removes_counted(before: Seq<RecordView>, name: Seq<char>)
    ensures
        without_category(before, name).len() + count_in(before, name) == before.len(),
        consistent(before) ==> consistent(without_category(before, name)),
    decreases before.len(),
{
    let keep = |r: RecordView| r.category != name;
    reveal(Seq::filter);
    if before.len() > 0 {
        law_delete_category_removes_counted(before.drop_last(), name);
    }
    if consistent(before) {
        lemma_filter_consistent(before, keep);
    }
}

} // verus!
