//! Role and lifecycle state of the local node.

use vstd::prelude::*;

verus! {

/// What the role and lifecycle flags hold.
pub struct SignalsView {
    pub running: bool,
    pub update: bool,
    pub is_manager: bool,
    pub manager_found: bool,
    pub electing: bool,
    pub table_version: u32,
}

/// Role and lifecycle flags: keep running, membership changed, local role,
/// manager known, election in progress, and the table version.
#[derive(Debug)]
pub struct Signals {
    run: bool,
    update: bool,
    is_manager: bool,
    manager_found: bool,
    electing: bool,
    table_version: u32,
}

impl View for Signals {
    type V = SignalsView;

    closed spec fn view(&self) -> SignalsView {
        SignalsView {
            running: self.run,
            update: self.update,
            is_manager: self.is_manager,
            manager_found: self.manager_found,
            electing: self.electing,
            table_version: self.table_version,
        }
    }
}

impl Signals {
    /// Flags at start-up: running, electing, version zero, no manager known,
    /// and the given role.
    pub fn new(start_as_manager: bool) -> (r: Signals)
        ensures
            r@ == (SignalsView {
                running: true,
                update: false,
                is_manager: start_as_manager,
                manager_found: false,
                electing: true,
                table_version: 0,
            }),
    {
        Signals {
            run: true,
            update: false,
            is_manager: start_as_manager,
            manager_found: false,
            electing: true,
            table_version: 0,
        }
    }

    /// Asks every loop to stop.
    pub fn exit(&mut self)
        ensures
            final(self)@ == (SignalsView { running: false, ..old(self)@ }),
    {
        self.run = false;
    }

    pub fn running(&self) -> (r: bool)
        ensures
            r == self@.running,
    {
        self.run
    }

    pub fn is_manager(&self) -> (r: bool)
        ensures
            r == self@.is_manager,
    {
        self.is_manager
    }

    /// Takes the manager role.
    pub fn i_am_manager(&mut self)
        ensures
            final(self)@ == (SignalsView { is_manager: true, ..old(self)@ }),
    {
        self.is_manager = true;
    }

    /// Gives the manager role up.
    pub fn relinquish_management(&mut self)
        ensures
            final(self)@ == (SignalsView { is_manager: false, ..old(self)@ }),
    {
        self.is_manager = false;
    }

    /// Consumes the membership-changed notice: whether it was raised, and it
    /// is lowered.
    pub fn has_update(&mut self) -> (r: bool)
        ensures
            r == old(self)@.update,
            final(self)@ == (SignalsView { update: false, ..old(self)@ }),
    {
        let r = self.update;
        self.update = false;
        r
    }

    /// Raises the membership-changed notice.
    pub fn send_update(&mut self)
        ensures
            final(self)@ == (SignalsView { update: true, ..old(self)@ }),
    {
        self.update = true;
    }

    pub fn manager_found(&self) -> (r: bool)
        ensures
            r == self@.manager_found,
    {
        self.manager_found
    }

    pub fn found_manager(&mut self)
        ensures
            final(self)@ == (SignalsView { manager_found: true, ..old(self)@ }),
    {
        self.manager_found = true;
    }

    pub fn lost_manager(&mut self)
        ensures
            final(self)@ == (SignalsView { manager_found: false, ..old(self)@ }),
    {
        self.manager_found = false;
    }

    pub fn electing(&self) -> (r: bool)
        ensures
            r == self@.electing,
    {
        self.electing
    }

    pub fn start_election(&mut self)
        ensures
            final(self)@ == (SignalsView { electing: true, ..old(self)@ }),
    {
        self.electing = true;
    }

    pub fn end_election(&mut self)
        ensures
            final(self)@ == (SignalsView { electing: false, ..old(self)@ }),
    {
        self.electing = false;
    }

    pub fn current_table_version(&self) -> (r: u32)
        ensures
            r == self@.table_version,
    {
        self.table_version
    }

    /// Advances the table version by one, wrapping past the largest `u32`, and
    /// returns the new version.
    pub fn update_table_version(&mut self) -> (r: u32)
        ensures
            r == next_version(old(self)@.table_version),
            final(self)@ == (SignalsView { table_version: r, ..old(self)@ }),
    {
        self.table_version = self.table_version.wrapping_add(1);
        self.table_version
    }

    /// Takes the version that a snapshot carries, whatever it is.
    pub fn overwrite_table_version(&mut self, version: u32)
        ensures
            final(self)@ == (SignalsView { table_version: version, ..old(self)@ }),
    {
        self.table_version = version;
    }
}

/// The version after `v`.
pub open spec fn next_version(v: u32) -> u32 {
    if v == u32::MAX {
        0
    } else {
        (v + 1) as u32
    }
}

} // verus!
