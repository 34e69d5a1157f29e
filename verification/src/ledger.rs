//! The borrow ledger: the list of live borrows that every variable carries,
//! most recent first, and the rules that create, drop and validate them.

use vstd::prelude::*;
use std::collections::VecDeque;
use crate::ast::opt_str_view;
use crate::values::{RuntimeError, Value};

verus! {

/// A live alias: the borrower's name and whether the borrow is exclusive.
#[derive(Debug)]
pub struct Borrow {
    pub name: String,
    pub mutable: bool,
}

/// A borrow record as a mathematical value.
pub ghost struct BorrowView {
    pub name: Seq<char>,
    pub mutable: bool,
}

impl View for Borrow {
    type V = BorrowView;

    open spec fn view(&self) -> BorrowView {
        BorrowView { name: self.name@, mutable: self.mutable }
    }
}

/// A variable binding of the evaluator: its value, the borrows taken of it,
/// and, for a reference, the name of the variable it borrows.
#[derive(Debug)]
pub struct Slot {
    pub value: Value,
    pub borrows: VecDeque<Borrow>,
    pub borrow_of: Option<String>,
}

/// A binding as a mathematical value.
pub ghost struct SlotView {
    pub value: Value,
    pub borrows: Seq<BorrowView>,
    pub borrow_of: Option<Seq<char>>,
}

/// The views of a list of borrow records.
pub open spec fn borrows_view(bs: Seq<Borrow>) -> Seq<BorrowView> {
    Seq::new(bs.len(), |i: int| bs[i]@)
}

impl View for Slot {
    type V = SlotView;

    open spec fn view(&self) -> SlotView {
        SlotView {
            value: self.value,
            borrows: borrows_view(self.borrows@),
            borrow_of: opt_str_view(self.borrow_of),
        }
    }
}

/// The binding of a plain value: no borrows, no target.
pub open spec fn plain_slot(v: Value) -> SlotView {
    SlotView { value: v, borrows: Seq::empty(), borrow_of: None }
}

/// The binding of a reference to `target`.
pub open spec fn reference_slot(target: Seq<char>) -> SlotView {
    SlotView { value: Value::NoValue, borrows: Seq::empty(), borrow_of: Some(target) }
}

/// The aliasing rule: an exclusive borrow is the oldest record of its list,
/// so a list holds shared borrows only, or shared borrows that are all more
/// recent than its one exclusive borrow.
pub open spec fn ledger_ok(bs: Seq<BorrowView>) -> bool {
    forall|i: int| 0 <= i < bs.len() && (#[trigger] bs[i]).mutable ==> i == bs.len() - 1
}

/// The ledger after `name` borrowed the variable: an exclusive borrow
/// discards every earlier record, a shared one is put in front of them.
pub open spec fn ledger_add(bs: Seq<BorrowView>, name: Seq<char>, exclusive: bool) -> Seq<BorrowView> {
    if exclusive {
        seq![BorrowView { name, mutable: true }]
    } else {
        seq![BorrowView { name, mutable: false }] + bs
    }
}

/// Whether `name` may read through its borrow, scanning the ledger from
/// record `i` on. A record of another name that is exclusive is a conflict.
/// The first record of `name` decides: a shared one may read; an exclusive
/// one may read only if no other record is more recent. A ledger without a
/// record of `name` makes the reference dangling.
pub open spec fn read_access(bs: Seq<BorrowView>, name: Seq<char>, i: int) -> Result<(), RuntimeError>
    decreases bs.len() - i,
{
    if i < 0 || i >= bs.len() {
        Err(RuntimeError::DanglingReference)
    } else if bs[i].name == name {
        if bs[i].mutable && i > 0 {
            Err(RuntimeError::BorrowConflict)
        } else {
            Ok(())
        }
    } else if bs[i].mutable {
        Err(RuntimeError::BorrowConflict)
    } else {
        read_access(bs, name, i + 1)
    }
}

/// Whether `name` may write through its borrow: the most recent record must
/// be the exclusive borrow by `name`.
pub open spec fn write_access(bs: Seq<BorrowView>, name: Seq<char>) -> bool {
    bs.len() > 0 && bs[0].name == name && bs[0].mutable
}

/// The position of the most recent exclusive record from `i` on.
pub open spec fn first_exclusive(bs: Seq<BorrowView>, i: int) -> Option<int>
    decreases bs.len() - i,
{
    if i < 0 || i >= bs.len() {
        None
    } else if bs[i].mutable {
        Some(i)
    } else {
        first_exclusive(bs, i + 1)
    }
}

/// The ledger after the variable was assigned directly: its most recent
/// exclusive borrow, if it has one, is dropped.
pub open spec fn ledger_release(bs: Seq<BorrowView>) -> Seq<BorrowView> {
    match first_exclusive(bs, 0) {
        Some(k) => bs.remove(k),
        None => bs,
    }
}

/// A copy of a list of borrow records.
pub fn copy_borrows(bs: &VecDeque<Borrow>) -> (r: VecDeque<Borrow>)
    ensures
        borrows_view(r@) == borrows_view(bs@),
{
    let mut out: VecDeque<Borrow> = VecDeque::new();
    let mut i: usize = 0;
    while i < bs.len()
        invariant
            i <= bs.len(),
            out@.len() == i,
            forall|j: int| 0 <= j < i ==> out@[j]@ == bs@[j]@,
        decreases bs.len() - i,
    {
        out.push_back(Borrow { name: bs[i].name.clone(), mutable: bs[i].mutable });
        i += 1;
    }
    assert(borrows_view(out@) =~= borrows_view(bs@));
    out
}

impl Slot {
    /// The binding of a plain value.
    pub fn plain(v: Value) -> (s: Slot)
        ensures
            s@ == plain_slot(v),
    {
        let s = Slot { value: v, borrows: VecDeque::new(), borrow_of: None };
        assert(s@.borrows =~= Seq::empty());
        s
    }

    /// The binding of a reference to `target`.
    pub fn reference(target: &String) -> (s: Slot)
        ensures
            s@ == reference_slot(target@),
    {
        let s = Slot {
            value: Value::NoValue,
            borrows: VecDeque::new(),
            borrow_of: Some(target.clone()),
        };
        assert(s@.borrows =~= Seq::empty());
        s
    }

    /// A copy of the binding.
    pub fn copy(&self) -> (s: Slot)
        ensures
            s@ == self@,
    {
        Slot {
            value: self.value,
            borrows: copy_borrows(&self.borrows),
            borrow_of: match &self.borrow_of {
                Some(t) => Some(t.clone()),
                None => None,
            },
        }
    }

    /// Whether `name` may read through its borrow of this variable.
    pub fn check_read(&self, name: &String) -> (r: Result<(), RuntimeError>)
        ensures
            r == read_access(self@.borrows, name@, 0),
    {
        let ghost bv = self@.borrows;
        let mut i: usize = 0;
        while i < self.borrows.len()
            invariant
                i <= self.borrows.len(),
                bv == borrows_view(self.borrows@),
                read_access(bv, name@, 0) == read_access(bv, name@, i as int),
            decreases self.borrows.len() - i,
        {
            assert(bv[i as int] == self.borrows@[i as int]@);
            if self.borrows[i].name == *name {
                if self.borrows[i].mutable && i > 0 {
                    return Err(RuntimeError::BorrowConflict);
                } else {
                    return Ok(());
                }
            } else if self.borrows[i].mutable {
                return Err(RuntimeError::BorrowConflict);
            }
            i += 1;
        }
        Err(RuntimeError::DanglingReference)
    }

    /// Whether `name` may write through its borrow of this variable.
    pub fn check_write(&self, name: &String) -> (r: bool)
        ensures
            r == write_access(self@.borrows, name@),
    {
        if self.borrows.len() == 0 {
            return false;
        }
        assert(self@.borrows[0] == self.borrows@[0]@);
        self.borrows[0].name == *name && self.borrows[0].mutable
    }

    /// Records that `name` borrowed this variable.
    pub fn add_borrow(&mut self, name: &String, exclusive: bool)
        ensures
            final(self)@ == (SlotView {
                borrows: ledger_add(old(self)@.borrows, name@, exclusive),
                ..old(self)@
            }),
    {
        if exclusive {
            self.borrows.clear();
        }
        self.borrows.push_front(Borrow { name: name.clone(), mutable: exclusive });
        assert(self@.borrows =~= ledger_add(old(self)@.borrows, name@, exclusive));
    }

    /// Drops the most recent exclusive borrow of this variable, if any.
    pub fn release(&mut self)
        ensures
            final(self)@ == (SlotView { borrows: ledger_release(old(self)@.borrows), ..old(self)@ }),
    {
        let ghost bv = self@.borrows;
        let mut i: usize = 0;
        while i < self.borrows.len()
            invariant
                i <= self.borrows.len(),
                *self == *old(self),
                bv == borrows_view(self.borrows@),
                first_exclusive(bv, 0) == first_exclusive(bv, i as int),
            decreases self.borrows.len() - i,
        {
            assert(bv[i as int] == self.borrows@[i as int]@);
            if self.borrows[i].mutable {
                let _ = self.borrows.remove(i);
                assert(self@.borrows =~= bv.remove(i as int));
                return;
            }
            i += 1;
        }
    }
}

/// Taking a borrow keeps the aliasing rule.
pub proof fn lemma_add_keeps_rule(bs: Seq<BorrowView>, name: Seq<char>, exclusive: bool)
    requires
        ledger_ok(bs),
    ensures
        ledger_ok(ledger_add(bs, name, exclusive)),
{
    let after = ledger_add(bs, name, exclusive);
    assert forall|i: int| 0 <= i < after.len() && (#[trigger] after[i]).mutable implies i
        == after.len() - 1 by {
        if !exclusive {
            assert(i > 0);
            assert(after[i] == bs[i - 1]);
        }
    }
}

/// Dropping the exclusive borrow keeps the aliasing rule, and leaves shared
/// borrows only.
pub proof fn lemma_release_keeps_rule(bs: Seq<BorrowView>)
    requires
        ledger_ok(bs),
    ensures
        ledger_ok(ledger_release(bs)),
        forall|i: int| 0 <= i < ledger_release(bs).len() ==> !(#[trigger] ledger_release(bs)[i]).mutable,
{
    lemma_first_exclusive(bs, 0);
    let after = ledger_release(bs);
    match first_exclusive(bs, 0) {
        Some(k) => {
            assert(k == bs.len() - 1);
            assert forall|i: int| 0 <= i < after.len() implies !(#[trigger] after[i]).mutable by {
                assert(after[i] == bs[i]);
            }
        },
        None => {},
    }
}

/// What `first_exclusive` finds: the least position from `i` on that holds
/// an exclusive record.
pub proof fn lemma_first_exclusive(bs: Seq<BorrowView>, i: int)
    requires
        0 <= i,
    ensures
        match first_exclusive(bs, i) {
            Some(k) => i <= k < bs.len() && bs[k].mutable && forall|j: int|
                i <= j < k ==> !(#[trigger] bs[j]).mutable,
            None => forall|j: int| i <= j < bs.len() ==> !(#[trigger] bs[j]).mutable,
        },
    decreases bs.len() - i,
{
    if i < bs.len() && !bs[i].mutable {
        lemma_first_exclusive(bs, i + 1);
    }
}

} // verus!
