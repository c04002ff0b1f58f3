//! The store: the records in the order in which they came, and the
//! operations that read and change them.

use vstd::prelude::*;
use crate::error::LedgerError;
use crate::fresh::{is_random_uuid_text, random_id, unix_seconds};
use crate::laws::{
    law_accepted_fields_are_valid, law_create_keeps_consistent, law_delete_category_removes_counted,
    law_delete_keeps_consistent, law_rename_keeps_consistent, law_update_keeps_consistent,
};
use crate::model::{
    consistent, count_in, delete_category_refusal, field_refusal, has_id, inserted, lemma_count_in,
    lemma_count_step, lemma_filter_step, lemma_position_found, position_of, rename_refusal,
    renamed, replace_refusal, replaced, reserved_category, without_category, without_id,
};
use crate::names::{insert_sorted, strictly_ascending, texts};
use crate::record::{copy_records, views, Amount, Kind, Record, RecordView};
use crate::text::{lemma_trim_idempotent, trim, trimmed};

verus! {

/// The records of a ledger, oldest first.
///
/// Every change takes the ledger by `&mut`. Where callers share one ledger
/// they keep it behind one lock and hold the lock for the length of a call,
/// so that each change sees the whole collection and leaves it whole.
#[derive(Debug)]
pub struct Ledger {
    records: Vec<Record>,
}

impl View for Ledger {
    type V = Seq<RecordView>;

    closed spec fn view(&self) -> Seq<RecordView> {
        views(self.records@)
    }
}

/// Why a record with these fields cannot be stored, if it cannot.
pub fn check_fields(amount: Amount, description: &str, category: &str) -> (refusal: Option<
    LedgerError,
>)
    ensures
        refusal == field_refusal(amount, description@, category@),
{
    if !amount.is_positive() {
        Some(LedgerError::NonPositiveAmount)
    } else if description.is_empty() || category.is_empty() {
        Some(LedgerError::EmptyText)
    } else {
        None
    }
}

/// The reserved category name.
pub fn reserved_category_name() -> (name: &'static str)
    ensures
        name@ == reserved_category(),
{
    "All Categories"
}

impl Ledger {
    /// A ledger without records.
    pub fn new() -> (ledger: Ledger)
        ensures
            ledger@ == Seq::<RecordView>::empty(),
    {
        let ledger = Ledger { records: Vec::new() };
        assert(ledger@ =~= Seq::<RecordView>::empty());
        ledger
    }

    /// A ledger of the given records, in their order.
    pub fn from_records(records: Vec<Record>) -> (ledger: Ledger)
        ensures
            ledger@ == views(records@),
    {
        Ledger { records }
    }

    /// The number of records.
    pub fn len(&self) -> (n: usize)
        ensures
            n == self@.len(),
    {
        self.records.len()
    }

    /// A copy of every record, in stored order.
    pub fn list(&self) -> (records: Vec<Record>)
        ensures
            views(records@) == self@,
    {
        copy_records(&self.records)
    }

    /// Appends a record of the given fields, as they are, under the given id
    /// and time stamp. A refusal leaves the ledger as it was.
    pub fn insert(
        &mut self,
        kind: Kind,
        amount: Amount,
        description: &str,
        category: &str,
        id: String,
        created_at: u64,
    ) -> (result: Result<Record, LedgerError>)
        ensures
            match result {
                Ok(record) => {
                    &&& field_refusal(amount, description@, category@) is None
                    &&& record@ == (RecordView {
                        id: id@,
                        kind,
                        amount,
                        description: description@,
                        category: category@,
                        created_at,
                    })
                    &&& final(self)@ == inserted(old(self)@, record@)
                },
                Err(e) => {
                    &&& field_refusal(amount, description@, category@) == Some(e)
                    &&& final(self)@ == old(self)@
                },
            },
    {
        if let Some(refusal) = check_fields(amount, description, category) {
            return Err(refusal);
        }
        let record = Record {
            id,
            kind,
            amount,
            description: description.to_owned(),
            category: category.to_owned(),
            created_at,
        };
        self.records.push(record.clone());
        assert(self@ =~= old(self)@.push(record@));
        Ok(record)
    }

    /// Creates a record: trims the description and the category, gives the
    /// record a random id and the time of the system clock, and appends it.
    /// A refusal leaves the ledger as it was.
    pub fn create(&mut self, kind: Kind, amount: Amount, description: &str, category: &str) -> (result:
        Result<Record, LedgerError>)
        ensures
            match result {
                Ok(record) => {
                    &&& field_refusal(amount, trimmed(description@), trimmed(category@)) is None
                    &&& is_random_uuid_text(record@.id)
                    &&& record@.kind == kind
                    &&& record@.amount == amount
                    &&& record@.description == trimmed(description@)
                    &&& record@.category == trimmed(category@)
                    &&& record@.valid()
                    &&& final(self)@ == inserted(old(self)@, record@)
                },
                Err(e) => {
                    &&& field_refusal(amount, trimmed(description@), trimmed(category@)) == Some(e)
                    &&& final(self)@ == old(self)@
                },
            },
            consistent(old(self)@) && (result matches Ok(record) ==> !has_id(
                old(self)@,
                record@.id,
            )) ==> consistent(final(self)@),
    {
        proof {
            if field_refusal(amount, trimmed(description@), trimmed(category@)) is None {
                law_accepted_fields_are_valid(amount, description@, category@);
            }
        }
        let ghost before = self@;
        let description = trim(description);
        let category = trim(category);
        if let Some(refusal) = check_fields(amount, description, category) {
            return Err(refusal);
        }
        let id = random_id();
        let created_at = unix_seconds();
        let result = self.insert(kind, amount, description, category, id, created_at);
        proof {
            if result is Ok && consistent(before) && !has_id(before, result->Ok_0@.id) {
                law_create_keeps_consistent(before, result->Ok_0@);
            }
        }
        result
    }

    /// Revises the first record of the given id: its kind, amount,
    /// description and category become the given ones, as they are; its id
    /// and time stamp stay. A refusal leaves the ledger as it was.
    pub fn replace(
        &mut self,
        id: &str,
        kind: Kind,
        amount: Amount,
        description: &str,
        category: &str,
    ) -> (result: Result<Record, LedgerError>)
        ensures
            match result {
                Ok(record) => {
                    &&& replace_refusal(old(self)@, id@, amount, description@, category@) is None
                    &&& final(self)@ == replaced(
                        old(self)@,
                        id@,
                        kind,
                        amount,
                        description@,
                        category@,
                    )
                    &&& record@ == final(self)@[position_of(old(self)@, id@)]
                },
                Err(e) => {
                    &&& replace_refusal(old(self)@, id@, amount, description@, category@) == Some(e)
                    &&& final(self)@ == old(self)@
                },
            },
    {
        if let Some(refusal) = check_fields(amount, description, category) {
            return Err(refusal);
        }
        let mut at: usize = 0;
        while at < self.records.len() && !self.records[at].id.as_str().eq(id)
            invariant
                at <= self.records.len(),
                forall|k: int| 0 <= k < at ==> (#[trigger] self@[k]).id != id@,
            decreases self.records.len() - at,
        {
            at += 1;
        }
        if at == self.records.len() {
            assert(!has_id(self@, id@));
            return Err(LedgerError::NoSuchRecord);
        }
        proof {
            lemma_position_found(self@, id@, at as int);
        }
        let record = Record {
            id: self.records[at].id.clone(),
            kind,
            amount,
            description: description.to_owned(),
            category: category.to_owned(),
            created_at: self.records[at].created_at,
        };
        self.records.set(at, record.clone());
        assert(self@ =~= old(self)@.update(at as int, record@));
        Ok(record)
    }

    /// Revises the first record of the given id, with the description and
    /// the category trimmed. A refusal leaves the ledger as it was.
    pub fn update(
        &mut self,
        id: &str,
        kind: Kind,
        amount: Amount,
        description: &str,
        category: &str,
    ) -> (result: Result<Record, LedgerError>)
        ensures
            match result {
                Ok(record) => {
                    &&& replace_refusal(
                        old(self)@,
                        id@,
                        amount,
                        trimmed(description@),
                        trimmed(category@),
                    ) is None
                    &&& final(self)@ == replaced(
                        old(self)@,
                        id@,
                        kind,
                        amount,
                        trimmed(description@),
                        trimmed(category@),
                    )
                    &&& record@ == final(self)@[position_of(old(self)@, id@)]
                },
                Err(e) => {
                    &&& replace_refusal(
                        old(self)@,
                        id@,
                        amount,
                        trimmed(description@),
                        trimmed(category@),
                    ) == Some(e)
                    &&& final(self)@ == old(self)@
                },
            },
            consistent(old(self)@) ==> consistent(final(self)@),
    {
        proof {
            if consistent(self@) && field_refusal(
                amount,
                trimmed(description@),
                trimmed(category@),
            ) is None {
                law_accepted_fields_are_valid(amount, description@, category@);
                law_update_keeps_consistent(
                    self@,
                    id@,
                    kind,
                    amount,
                    trimmed(description@),
                    trimmed(category@),
                );
            }
        }
        self.replace(id, kind, amount, trim(description), trim(category))
    }

    /// Removes every record of the given id. A refusal leaves the ledger as
    /// it was.
    pub fn delete(&mut self, id: &str) -> (result: Result<(), LedgerError>)
        ensures
            match result {
                Ok(()) => has_id(old(self)@, id@) && final(self)@ == without_id(old(self)@, id@),
                Err(e) => {
                    &&& e == LedgerError::NoSuchRecord
                    &&& !has_id(old(self)@, id@)
                    &&& final(self)@ == old(self)@
                },
            },
            consistent(old(self)@) ==> consistent(final(self)@),
    {
        proof {
            if consistent(self@) {
                law_delete_keeps_consistent(self@, id@);
            }
        }
        let ghost keep = |r: RecordView| r.id != id@;
        let mut kept: Vec<Record> = Vec::new();
        let mut found = false;
        let mut i: usize = 0;
        while i < self.records.len()
            invariant
                i <= self.records.len(),
                keep == |r: RecordView| r.id != id@,
                views(kept@) == self@.subrange(0, i as int).filter(keep),
                found <==> exists|k: int| 0 <= k < i && (#[trigger] self@[k]).id == id@,
            decreases self.records.len() - i,
        {
            proof {
                lemma_filter_step(self@, keep, i as int);
            }
            if self.records[i].id.as_str().eq(id) {
                found = true;
            } else {
                let ghost seen = kept@;
                kept.push(self.records[i].clone());
                assert(views(kept@) =~= views(seen).push(self@[i as int]));
            }
            i += 1;
        }
        assert(self@.subrange(0, i as int) =~= self@);
        if !found {
            return Err(LedgerError::NoSuchRecord);
        }
        self.records = kept;
        Ok(())
    }

    /// Files every record of the category `old_name` under `new_name`, both
    /// names taken as they are. A refusal leaves the ledger as it was.
    pub fn refile(&mut self, old_name: &str, new_name: &str) -> (result: Result<(), LedgerError>)
        ensures
            match result {
                Ok(()) => {
                    &&& rename_refusal(old(self)@, old_name@, new_name@) is None
                    &&& final(self)@ == renamed(old(self)@, old_name@, new_name@)
                },
                Err(e) => {
                    &&& rename_refusal(old(self)@, old_name@, new_name@) == Some(e)
                    &&& final(self)@ == old(self)@
                },
            },
    {
        if old_name.is_empty() || new_name.is_empty() {
            return Err(LedgerError::EmptyRenameOperand);
        }
        if old_name.eq(reserved_category_name()) {
            return Err(LedgerError::ReservedRename);
        }
        if old_name.eq(new_name) {
            return Err(LedgerError::SameName);
        }
        let ghost before = self@;
        let ghost target = renamed(before, old_name@, new_name@);
        let mut changed: usize = 0;
        let mut i: usize = 0;
        while i < self.records.len()
            invariant
                i <= self.records.len(),
                self@.len() == before.len(),
                target == renamed(before, old_name@, new_name@),
                forall|k: int| 0 <= k < i ==> #[trigger] self@[k] == target[k],
                forall|k: int| i <= k < before.len() ==> #[trigger] self@[k] == before[k],
                changed == count_in(before.subrange(0, i as int), old_name@),
                changed <= i,
            decreases self.records.len() - i,
        {
            proof {
                lemma_count_step(before, old_name@, i as int);
                assert(self.records[i as int]@ == self@[i as int]);
                assert(self@[i as int] == before[i as int]);
            }
            if self.records[i].category.as_str().eq(old_name) {
                let record = Record {
                    id: self.records[i].id.clone(),
                    kind: self.records[i].kind,
                    amount: self.records[i].amount,
                    description: self.records[i].description.clone(),
                    category: new_name.to_owned(),
                    created_at: self.records[i].created_at,
                };
                let ghost held = self@;
                assert(record@ == target[i as int]);
                self.records.set(i, record);
                assert(self@ =~= held.update(i as int, target[i as int]));
                changed += 1;
            }
            i += 1;
        }
        assert(before.subrange(0, i as int) =~= before);
        if changed == 0 {
            proof {
                lemma_count_in(before, old_name@);
                assert(self@ =~= before);
            }
            return Err(LedgerError::NothingToRename);
        }
        assert(self@ =~= target);
        Ok(())
    }

    /// Renames a category: trims both names and files every record of the
    /// old one under the new one. A refusal leaves the ledger as it was.
    pub fn rename_category(&mut self, old_name: &str, new_name: &str) -> (result: Result<
        (),
        LedgerError,
    >)
        ensures
            match result {
                Ok(()) => {
                    &&& rename_refusal(old(self)@, trimmed(old_name@), trimmed(new_name@)) is None
                    &&& final(self)@ == renamed(
                        old(self)@,
                        trimmed(old_name@),
                        trimmed(new_name@),
                    )
                },
                Err(e) => {
                    &&& rename_refusal(old(self)@, trimmed(old_name@), trimmed(new_name@)) == Some(
                        e,
                    )
                    &&& final(self)@ == old(self)@
                },
            },
            consistent(old(self)@) ==> consistent(final(self)@),
    {
        proof {
            if consistent(self@) && trimmed(new_name@).len() > 0 {
                lemma_trim_idempotent(new_name@);
                law_rename_keeps_consistent(self@, trimmed(old_name@), trimmed(new_name@));
            }
        }
        self.refile(trim(old_name), trim(new_name))
    }

    /// Removes every record of the category `name`, the name taken as it is.
    /// A refusal leaves the ledger as it was.
    pub fn clear_category(&mut self, name: &str) -> (result: Result<(), LedgerError>)
        ensures
            match result {
                Ok(()) => {
                    &&& delete_category_refusal(old(self)@, name@) is None
                    &&& final(self)@ == without_category(old(self)@, name@)
                },
                Err(e) => {
                    &&& delete_category_refusal(old(self)@, name@) == Some(e)
                    &&& final(self)@ == old(self)@
                },
            },
    {
        if name.is_empty() {
            return Err(LedgerError::EmptyDeleteOperand);
        }
        if name.eq(reserved_category_name()) {
            return Err(LedgerError::ReservedDelete);
        }
        let ghost keep = |r: RecordView| r.category != name@;
        let mut kept: Vec<Record> = Vec::new();
        let mut i: usize = 0;
        while i < self.records.len()
            invariant
                i <= self.records.len(),
                keep == |r: RecordView| r.category != name@,
                views(kept@) == self@.subrange(0, i as int).filter(keep),
                kept.len() + count_in(self@.subrange(0, i as int), name@) == i,
            decreases self.records.len() - i,
        {
            proof {
                lemma_filter_step(self@, keep, i as int);
                lemma_count_step(self@, name@, i as int);
            }
            if !self.records[i].category.as_str().eq(name) {
                let ghost seen = kept@;
                kept.push(self.records[i].clone());
                assert(views(kept@) =~= views(seen).push(self@[i as int]));
            }
            i += 1;
        }
        assert(self@.subrange(0, i as int) =~= self@);
        if kept.len() == self.records.len() {
            return Err(LedgerError::NothingToDelete);
        }
        self.records = kept;
        Ok(())
    }

    /// Deletes a category: trims the name and removes every record filed
    /// under it. A refusal leaves the ledger as it was.
    pub fn delete_category(&mut self, name: &str) -> (result: Result<(), LedgerError>)
        ensures
            match result {
                Ok(()) => {
                    &&& delete_category_refusal(old(self)@, trimmed(name@)) is None
                    &&& final(self)@ == without_category(old(self)@, trimmed(name@))
                },
                Err(e) => {
                    &&& delete_category_refusal(old(self)@, trimmed(name@)) == Some(e)
                    &&& final(self)@ == old(self)@
                },
            },
            consistent(old(self)@) ==> consistent(final(self)@),
    {
        proof {
            law_delete_category_removes_counted(self@, trimmed(name@));
        }
        self.clear_category(trim(name))
    }

    /// How many records are filed under the category.
    pub fn count_category(&self, name: &str) -> (n: usize)
        ensures
            n == count_in(self@, name@),
    {
        let mut n: usize = 0;
        let mut i: usize = 0;
        while i < self.records.len()
            invariant
                i <= self.records.len(),
                n == count_in(self@.subrange(0, i as int), name@),
                n <= i,
            decreases self.records.len() - i,
        {
            proof {
                lemma_count_step(self@, name@, i as int);
            }
            if self.records[i].category.as_str().eq(name) {
                n += 1;
            }
            i += 1;
        }
        assert(self@.subrange(0, i as int) =~= self@);
        n
    }

    /// The categories that records are filed under, each once, in ascending
    /// order.
    pub fn used_categories(&self) -> (names: Vec<String>)
        ensures
            strictly_ascending(texts(names@)),
            forall|name: Seq<char>| texts(names@).contains(name) <==> count_in(self@, name) > 0,
    {
        let mut names: Vec<String> = Vec::new();
        let mut i: usize = 0;
        while i < self.records.len()
            invariant
                i <= self.records.len(),
                strictly_ascending(texts(names@)),
                forall|name: Seq<char>|
                    texts(names@).contains(name) <==> count_in(self@.subrange(0, i as int), name)
                        > 0,
            decreases self.records.len() - i,
        {
            insert_sorted(&mut names, self.records[i].category.as_str());
            proof {
                assert forall|name: Seq<char>|
                    texts(names@).contains(name) <==> count_in(
                        self@.subrange(0, i + 1),
                        name,
                    ) > 0 by {
                    lemma_count_step(self@, name, i as int);
                }
            }
            i += 1;
        }
        assert(self@.subrange(0, i as int) =~= self@);
        names
    }

    /// The names offered where a category is chosen: the reserved name and
    /// every category in use, each once, in ascending order.
    pub fn list_categories(&self) -> (names: Vec<String>)
        ensures
            strictly_ascending(texts(names@)),
            forall|name: Seq<char>|
                texts(names@).contains(name) <==> name == reserved_category() || count_in(
                    self@,
                    name,
                ) > 0,
    {
        let mut names = self.used_categories();
        insert_sorted(&mut names, reserved_category_name());
        names
    }

    /// The number of records under each category in use, the categories in
    /// ascending order.
    pub fn category_counts(&self) -> (counts: Vec<(String, usize)>)
        ensures
            strictly_ascending(counted_names(counts@)),
            forall|name: Seq<char>|
                counted_names(counts@).contains(name) <==> count_in(self@, name) > 0,
            forall|i: int|
                0 <= i < counts.len() ==> (#[trigger] counts[i]).1 == count_in(self@, counts[i].0@),
    {
        let names = self.used_categories();
        let mut counts: Vec<(String, usize)> = Vec::new();
        let mut i: usize = 0;
        while i < names.len()
            invariant
                i <= names.len(),
                counts.len() == i,
                forall|k: int| 0 <= k < i ==> (#[trigger] counts[k]).0@ == names[k]@,
                forall|k: int|
                    0 <= k < i ==> (#[trigger] counts[k]).1 == count_in(self@, counts[k].0@),
            decreases names.len() - i,
        {
            let n = self.count_category(names[i].as_str());
            counts.push((names[i].clone(), n));
            i += 1;
        }
        assert(counted_names(counts@) =~= texts(names@));
        counts
    }
}

/// The names of a list of counts.
pub open spec fn counted_names(counts: Seq<(String, usize)>) -> Seq<Seq<char>> {
    counts.map_values(|entry: (String, usize)| entry.0@)
}

} // verus!
