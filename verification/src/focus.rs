//! Focus requests waiting for the focus worker.
use vstd::prelude::*;
use vstd::string::*;
use crate::model::FocusCommand;
use crate::table::AddressSet;

verus! {

/// Addresses whose focus request is queued or being executed.
pub struct PendingFocus {
    pending: AddressSet,
}

impl View for PendingFocus {
    type V = Set<Seq<char>>;

    closed spec fn view(&self) -> Set<Seq<char>> {
        self.pending@
    }
}

impl PendingFocus {
    /// The inner set holds no duplicates.
    pub closed spec fn wf(&self) -> bool {
        self.pending.wf()
    }

    /// No request pending.
    pub fn new() -> (p: Self)
        ensures
            p.wf(),
            p@ == Set::<Seq<char>>::empty(),
    {
        PendingFocus { pending: AddressSet::new() }
    }

    /// Registers a focus request for `address` and returns the command to
    /// queue; returns nothing for an empty address or one whose request is
    /// still pending.
    pub fn begin(&mut self, address: &str) -> (command: Option<FocusCommand>)
        requires
            old(self).wf(),
        ensures
            final(self).wf(),
            address@.len() == 0 || old(self)@.contains(address@) ==> command is None && final(self)@
                == old(self)@,
            address@.len() != 0 && !old(self)@.contains(address@) ==> (command matches Some(c)
                && c.address@ == address@ && final(self)@ == old(self)@.insert(address@)),
    {
        if address.is_empty() {
            return None;
        }
        let owned = String::from_str(address);
        if !self.pending.insert(owned.clone()) {
            assert(self@ =~= old(self)@);
            return None;
        }
        Some(FocusCommand { address: owned })
    }

    /// Forgets the request for `address` because it could not be queued.
    pub fn abandon(&mut self, address: &str)
        requires
            old(self).wf(),
        ensures
            final(self).wf(),
            final(self)@ == old(self)@.remove(address@),
    {
        let owned = String::from_str(address);
        self.pending.remove(&owned);
    }

    /// Forgets the request for `address` because the worker handled it.
    pub fn complete(&mut self, address: &str)
        requires
            old(self).wf(),
        ensures
            final(self).wf(),
            final(self)@ == old(self)@.remove(address@),
    {
        let owned = String::from_str(address);
        self.pending.remove(&owned);
    }
}

} // verus!
