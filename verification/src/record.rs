//! The ledger's unit of data: one financial record.

use vstd::prelude::*;
use crate::text::is_blank;

verus! {

/// Whether money came in or went out.
#[derive(Clone, Copy, PartialEq, Eq, Structural, Debug)]
pub enum Kind {
    Income,
    Expense,
}

impl Kind {
    /// The kind that a tag names, if it names one.
    pub open spec fn of_tag(tag: Seq<char>) -> Option<Kind> {
        if tag == "Income"@ {
            Some(Kind::Income)
        } else if tag == "Expense"@ {
            Some(Kind::Expense)
        } else {
            None
        }
    }

    /// The tag under which the kind is written.
    pub open spec fn tag_of(self) -> Seq<char> {
        match self {
            Kind::Income => "Income"@,
            Kind::Expense => "Expense"@,
        }
    }

    /// Reads a kind from its tag.
    pub fn parse(tag: &str) -> (kind: Option<Kind>)
        ensures
            kind == Kind::of_tag(tag@),
    {
        if tag.eq("Income") {
            Some(Kind::Income)
        } else if tag.eq("Expense") {
            Some(Kind::Expense)
        } else {
            None
        }
    }

    /// The tag under which the kind is written.
    pub fn tag(self) -> (tag: &'static str)
        ensures
            tag@ == self.tag_of(),
    {
        match self {
            Kind::Income => "Income",
            Kind::Expense => "Expense",
        }
    }
}

/// Reading back the tag of a kind gives that kind.
pub proof fn lemma_tag_round_trip(kind: Kind)
    ensures
        Kind::of_tag(kind.tag_of()) == Some(kind),
{
    reveal_strlit("Income");
    reveal_strlit("Expense");
    assert("Income"@.len() != "Expense"@.len());
}

/// An amount of money: a binary64 number, held by its bit pattern.
///
/// The sign is the top bit, so a pattern from 1 up to that of positive
/// infinity stands for a number above zero; zero, the negative numbers and
/// the patterns that are no number lie outside that range.
#[derive(Clone, Copy, PartialEq, Eq, Structural, Debug)]
pub struct Amount {
    pub bits: u64,
}

/// The bit pattern of positive infinity.
pub const POSITIVE_INFINITY_BITS: u64 = 0x7FF0_0000_0000_0000;

impl Amount {
    /// The amount is a number above zero.
    pub open spec fn positive(self) -> bool {
        0 < self.bits <= POSITIVE_INFINITY_BITS
    }

    /// The amount with the given bit pattern.
    pub fn from_bits(bits: u64) -> (amount: Amount)
        ensures
            amount.bits == bits,
    {
        Amount { bits }
    }

    /// The bit pattern of the amount.
    pub fn to_bits(self) -> (bits: u64)
        ensures
            bits == self.bits,
    {
        self.bits
    }

    /// Whether the amount is a number above zero.
    pub fn is_positive(self) -> (yes: bool)
        ensures
            yes == self.positive(),
    {
        0 < self.bits && self.bits <= POSITIVE_INFINITY_BITS
    }
}

/// One record of the ledger.
#[derive(Debug, PartialEq, Eq)]
pub struct Record {
    /// Identifies the record; given at creation and never changed.
    pub id: String,
    pub kind: Kind,
    pub amount: Amount,
    pub description: String,
    /// The store or merchant that the record is filed under.
    pub category: String,
    /// Seconds since the Unix epoch at creation; never changed.
    pub created_at: u64,
}

/// What a record holds, as plain values.
pub struct RecordView {
    pub id: Seq<char>,
    pub kind: Kind,
    pub amount: Amount,
    pub description: Seq<char>,
    pub category: Seq<char>,
    pub created_at: u64,
}

impl RecordView {
    /// The amount is above zero, and neither the description nor the
    /// category is empty or white space only.
    pub open spec fn valid(self) -> bool {
        &&& self.amount.positive()
        &&& !is_blank(self.description)
        &&& !is_blank(self.category)
    }

    /// The record with its changeable fields replaced.
    pub open spec fn revised(
        self,
        kind: Kind,
        amount: Amount,
        description: Seq<char>,
        category: Seq<char>,
    ) -> RecordView {
        RecordView { kind, amount, description, category, ..self }
    }

    /// The record filed under another category.
    pub open spec fn filed_under(self, category: Seq<char>) -> RecordView {
        RecordView { category, ..self }
    }
}

impl View for Record {
    type V = RecordView;

    open spec fn view(&self) -> RecordView {
        RecordView {
            id: self.id@,
            kind: self.kind,
            amount: self.amount,
            description: self.description@,
            category: self.category@,
            created_at: self.created_at,
        }
    }
}

impl Clone for Record {
    fn clone(&self) -> (copy: Record)
        ensures
            copy == *self,
    {
        Record {
            id: self.id.clone(),
            kind: self.kind,
            amount: self.amount,
            description: self.description.clone(),
            category: self.category.clone(),
            created_at: self.created_at,
        }
    }
}

/// What each record of a sequence holds.
pub open spec fn views(records: Seq<Record>) -> Seq<RecordView> {
    records.map_values(|r: Record| r@)
}

/// A copy of every record, in the same order.
pub fn copy_records(records: &Vec<Record>) -> (copy: Vec<Record>)
    ensures
        copy@ == records@,
{
    let mut copy: Vec<Record> = Vec::new();
    let mut i: usize = 0;
    while i < records.len()
        invariant
            i <= records.len(),
            copy@ == records@.subrange(0, i as int),
        decreases records.len() - i,
    {
        copy.push(records[i].clone());
        i += 1;
    }
    copy
}

} // verus!
