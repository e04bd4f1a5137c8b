//! The state that one running contract stages for its next call.
//!
//! Arguments are appended in the order in which the guest passes them and
//! payments accumulate per asset. Both are handed over together, and the
//! context is empty again, at the one point where a call is dispatched. The
//! context also keeps the heap base: the address in guest memory at which the
//! host stores the next value it produces.

use crate::data_entry::{all_wf, encoding_of, serialize, values_of, DataEntry, EntryValue};
use crate::payments::{declared, distinct, entries_of, Entries, Payment, Payments};
use vstd::prelude::*;

verus! {

/// The mathematical value of an [`ExecutionContext`].
pub ghost struct ContextState {
    /// The staged arguments, oldest first.
    pub args: Seq<EntryValue>,
    /// The staged payments, oldest asset first.
    pub payments: Entries,
    /// The address at which the next produced value is stored.
    pub heap_base: u32,
}

impl ContextState {
    /// The state with nothing staged.
    pub open spec fn cleared(self) -> ContextState {
        ContextState { args: Seq::empty(), payments: Seq::empty(), heap_base: self.heap_base }
    }

    /// Whether nothing is staged.
    pub open spec fn is_clear(self) -> bool {
        self.args.len() == 0 && self.payments.len() == 0
    }
}

/// What a dispatched call takes with it: the arguments on the wire and the
/// payments to settle.
#[derive(Debug)]
pub struct Staged {
    /// The staged arguments in wire form.
    pub input_data: Vec<u8>,
    /// The staged payments, oldest asset first.
    pub payments: Vec<Payment>,
}

/// The execution context of one frame.
#[derive(Debug)]
pub struct ExecutionContext {
    args: Vec<DataEntry>,
    payments: Payments,
    heap_base: u32,
}

impl ExecutionContext {
    #[verifier::type_invariant]
    spec fn inv(self) -> bool {
        all_wf(values_of(self.args@))
    }

    /// The staged state.
    pub closed spec fn view(&self) -> ContextState {
        ContextState {
            args: values_of(self.args@),
            payments: self.payments@,
            heap_base: self.heap_base,
        }
    }

    /// A context with nothing staged.
    pub fn new(heap_base: u32) -> (ctx: ExecutionContext)
        ensures
            ctx@ == (ContextState { args: Seq::empty(), payments: Seq::empty(), heap_base }),
    {
        let ctx = ExecutionContext { args: Vec::new(), payments: Payments::new(), heap_base };
        assert(ctx@.args =~= Seq::<EntryValue>::empty());
        ctx
    }

    /// The address at which the next produced value is stored.
    pub fn heap_base(&self) -> (address: u32)
        ensures
            address == self@.heap_base,
    {
        self.heap_base
    }

    /// Moves the heap base.
    pub fn set_heap_base(&mut self, address: u32)
        ensures
            final(self)@ == (ContextState { heap_base: address, ..old(self)@ }),
    {
        proof {
            use_type_invariant(&*self);
        }
        self.heap_base = address;
    }

    /// The number of staged arguments.
    pub fn args_len(&self) -> (count: usize)
        ensures
            count == self@.args.len(),
    {
        self.args.len()
    }

    /// The staged argument at place `index`, or nothing beyond the last.
    pub fn arg(&self, index: usize) -> (entry: Option<&DataEntry>)
        ensures
            match entry {
                Some(found) => index < self@.args.len() && found@ == self@.args[index as int]
                    && found@.wf(),
                None => index >= self@.args.len(),
            },
    {
        proof {
            use_type_invariant(self);
        }
        if index < self.args.len() {
            assert(values_of(self.args@)[index as int].wf());
            Some(&self.args[index])
        } else {
            None
        }
    }

    /// The staged payments.
    pub fn payments(&self) -> (ledger: &Payments)
        ensures
            ledger@ == self@.payments,
            distinct(self@.payments),
    {
        let count = self.payments.len();
        &self.payments
    }

    /// Appends an argument.
    pub fn push_arg(&mut self, entry: DataEntry)
        requires
            entry@.wf(),
        ensures
            final(self)@ == (ContextState { args: old(self)@.args.push(entry@), ..old(self)@ }),
    {
        proof {
            use_type_invariant(&*self);
        }
        let mut args: Vec<DataEntry> = Vec::new();
        core::mem::swap(&mut self.args, &mut args);
        let ghost before = values_of(args@);
        args.push(entry);
        proof {
            assert(values_of(args@) =~= before.push(entry@));
        }
        self.args = args;
    }

    /// Declares a payment of `amount` in the asset `asset_id`.
    pub fn add_payment(&mut self, asset_id: &[u8], amount: i64)
        ensures
            final(self)@ == (ContextState {
                payments: declared(old(self)@.payments, asset_id@, amount),
                ..old(self)@
            }),
    {
        proof {
            use_type_invariant(&*self);
        }
        let mut ledger = Payments::new();
        core::mem::swap(&mut self.payments, &mut ledger);
        ledger.push(asset_id, amount);
        self.payments = ledger;
    }

    /// Takes everything staged, for the call that is being dispatched, and
    /// leaves the context with nothing staged.
    pub fn args_and_payments(&mut self) -> (staged: Staged)
        ensures
            staged.input_data@ == encoding_of(old(self)@.args),
            entries_of(staged.payments@) == old(self)@.payments,
            distinct(old(self)@.payments),
            final(self)@ == old(self)@.cleared(),
    {
        proof {
            use_type_invariant(&*self);
        }
        let mut args: Vec<DataEntry> = Vec::new();
        core::mem::swap(&mut self.args, &mut args);
        let mut ledger = Payments::new();
        core::mem::swap(&mut self.payments, &mut ledger);
        let input_data = serialize(&args);
        let payments = ledger.into_entries();
        proof {
            assert(self@.args =~= Seq::<EntryValue>::empty());
        }
        Staged { input_data, payments }
    }
}

} // verus!
