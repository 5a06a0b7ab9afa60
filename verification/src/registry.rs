//! The device registry a multi-device server dispatches on: a mapping
//! from device address to that device's [`RegisterStore`], mutable while
//! the server runs. A lookup miss is a recoverable condition, not a
//! failure.

use vstd::prelude::*;
use std::collections::HashMap;
use crate::protocol::ErrorView;
use crate::protocol::ModbusError;
use crate::store::coils_match;
use crate::store::discrete_inputs_match;
use crate::store::holding_registers_match;
use crate::store::input_registers_match;
use crate::store::RegisterStore;

verus! {

broadcast use vstd::std_specs::hash::group_hash_axioms,
    vstd::string::to_string_from_display_ensures_for_str;

/// The stores of every registered device, by device address.
pub struct DeviceRegistry {
    slaves: HashMap<u8, RegisterStore>,
}

/// Whether every device other than `slave_id` is registered as before
/// and keeps its store.
pub open spec fn others_unchanged(pre: DeviceRegistry, post: DeviceRegistry, slave_id: u8) -> bool {
    forall|id: u8|
        #![trigger post.has_slave(id)]
        #![trigger post.slave_at(id)]
        id != slave_id ==> post.has_slave(id) == pre.has_slave(id) && post.slave_at(id)
            == pre.slave_at(id)
}

/// Whether every device is registered as before and keeps its store.
pub open spec fn registry_unchanged(pre: DeviceRegistry, post: DeviceRegistry) -> bool {
    forall|id: u8|
        #![trigger post.has_slave(id)]
        #![trigger post.slave_at(id)]
        post.has_slave(id) == pre.has_slave(id) && post.slave_at(id) == pre.slave_at(id)
}

impl DeviceRegistry {
    /// Whether a device is registered under this address.
    pub closed spec fn has_slave(self, slave_id: u8) -> bool {
        self.slaves@.contains_key(slave_id)
    }

    /// The registered device's store.
    pub closed spec fn slave_at(self, slave_id: u8) -> RegisterStore {
        self.slaves@[slave_id]
    }

    /// Creates a registry with no devices.
    pub fn new() -> (r: Self)
        ensures
            forall|id: u8| !(#[trigger] r.has_slave(id)),
    {
        DeviceRegistry { slaves: HashMap::new() }
    }

    /// Registers a device with a fresh all-zero store, replacing any
    /// store it had.
    pub fn add_slave(&mut self, slave_id: u8)
        ensures
            final(self).has_slave(slave_id),
            forall|a: u16| !(#[trigger] final(self).slave_at(slave_id).spec_coil(a)),
            forall|a: u16| !(#[trigger] final(self).slave_at(slave_id).spec_discrete_input(a)),
            forall|a: u16|
                #[trigger] final(self).slave_at(slave_id).spec_holding_register(a) == 0,
            forall|a: u16| #[trigger] final(self).slave_at(slave_id).spec_input_register(a) == 0,
            others_unchanged(*old(self), *final(self), slave_id),
    {
        self.slaves.insert(slave_id, RegisterStore::new());
    }

    /// Removes a device and its store.
    pub fn remove_slave(&mut self, slave_id: u8)
        ensures
            !final(self).has_slave(slave_id),
            others_unchanged(*old(self), *final(self), slave_id),
    {
        self.slaves.remove(&slave_id);
    }

    /// Whether a device is registered.
    pub fn contains_slave(&self, slave_id: u8) -> (r: bool)
        ensures
            r == self.has_slave(slave_id),
    {
        self.slaves.contains_key(&slave_id)
    }

    /// The registered device addresses, ascending.
    pub fn get_slave_ids(&self) -> (r: Vec<u8>)
        ensures
            forall|id: u8| r@.contains(id) <==> self.has_slave(id),
    {
        let mut ids: Vec<u8> = Vec::new();
        let mut i: usize = 0;
        while i < 256
            invariant
                i <= 256,
                forall|j: int| 0 <= j < ids@.len() ==> (#[trigger] ids@[j]) < i,
                forall|j: int| 0 <= j < ids@.len() ==> self.has_slave(ids@[j]),
                forall|id: u8| id < i && self.has_slave(id) ==> ids@.contains(id),
            decreases 256 - i,
        {
            let ghost prev = ids@;
            if self.slaves.contains_key(&(i as u8)) {
                ids.push(i as u8);
            }
            proof {
                assert forall|id: u8| id < i + 1 && self.has_slave(id) implies ids@.contains(
                    id,
                ) by {
                    if id < i {
                        let j = choose|j: int| 0 <= j < prev.len() && prev[j] == id;
                        assert(ids@[j] == id);
                    } else {
                        assert(ids@[ids@.len() - 1] == id);
                    }
                }
            }
            i += 1;
        }
        ids
    }

    /// Takes the device's store out of the registry for mutation.
    pub(crate) fn take_slave(&mut self, slave_id: u8) -> (r: Option<RegisterStore>)
        ensures
            match r {
                Some(store) => old(self).has_slave(slave_id) && store == old(self).slave_at(
                    slave_id,
                ),
                None => !old(self).has_slave(slave_id),
            },
            !final(self).has_slave(slave_id),
            others_unchanged(*old(self), *final(self), slave_id),
    {
        self.slaves.remove(&slave_id)
    }

    /// Puts a device's store back.
    pub(crate) fn put_slave(&mut self, slave_id: u8, store: RegisterStore)
        ensures
            final(self).has_slave(slave_id),
            final(self).slave_at(slave_id) == store,
            others_unchanged(*old(self), *final(self), slave_id),
    {
        self.slaves.insert(slave_id, store);
    }

    /// Sets a coil on a registered device; an unknown device is an
    /// error.
    pub fn set_coil(&mut self, slave_id: u8, address: u16, value: bool) -> (r: Result<
        (),
        ModbusError,
    >)
        ensures
            others_unchanged(*old(self), *final(self), slave_id),
            old(self).has_slave(slave_id) ==> {
                &&& r is Ok
                &&& final(self).has_slave(slave_id)
                &&& final(self).slave_at(slave_id).spec_coil(address) == value
                &&& forall|a: u16|
                    a != address ==> #[trigger] final(self).slave_at(slave_id).spec_coil(a)
                        == old(self).slave_at(slave_id).spec_coil(a)
                &&& discrete_inputs_match(
                    old(self).slave_at(slave_id),
                    final(self).slave_at(slave_id),
                )
                &&& holding_registers_match(
                    old(self).slave_at(slave_id),
                    final(self).slave_at(slave_id),
                )
                &&& input_registers_match(
                    old(self).slave_at(slave_id),
                    final(self).slave_at(slave_id),
                )
            },
            !old(self).has_slave(slave_id) ==> {
                &&& r matches Err(e) && e@ == ErrorView::ProtocolError("Slave not found"@)
                &&& !final(self).has_slave(slave_id)
            },
    {
        match self.take_slave(slave_id) {
            Some(mut store) => {
                store.set_coil(address, value);
                self.put_slave(slave_id, store);
                Ok(())
            },
            None => Err(ModbusError::ProtocolError("Slave not found".to_string())),
        }
    }

    /// Sets a discrete input on a registered device; an unknown device
    /// is an error.
    pub fn set_discrete_input(&mut self, slave_id: u8, address: u16, value: bool) -> (r: Result<
        (),
        ModbusError,
    >)
        ensures
            others_unchanged(*old(self), *final(self), slave_id),
            old(self).has_slave(slave_id) ==> {
                &&& r is Ok
                &&& final(self).has_slave(slave_id)
                &&& final(self).slave_at(slave_id).spec_discrete_input(address) == value
                &&& forall|a: u16|
                    a != address ==> #[trigger] final(self).slave_at(
                        slave_id,
                    ).spec_discrete_input(a) == old(self).slave_at(slave_id).spec_discrete_input(
                        a,
                    )
                &&& coils_match(old(self).slave_at(slave_id), final(self).slave_at(slave_id))
                &&& holding_registers_match(
                    old(self).slave_at(slave_id),
                    final(self).slave_at(slave_id),
                )
                &&& input_registers_match(
                    old(self).slave_at(slave_id),
                    final(self).slave_at(slave_id),
                )
            },
            !old(self).has_slave(slave_id) ==> {
                &&& r matches Err(e) && e@ == ErrorView::ProtocolError("Slave not found"@)
                &&& !final(self).has_slave(slave_id)
            },
    {
        match self.take_slave(slave_id) {
            Some(mut store) => {
                store.set_discrete_input(address, value);
                self.put_slave(slave_id, store);
                Ok(())
            },
            None => Err(ModbusError::ProtocolError("Slave not found".to_string())),
        }
    }

    /// Sets a holding register on a registered device; an unknown device
    /// is an error.
    pub fn set_holding_register(&mut self, slave_id: u8, address: u16, value: u16) -> (r: Result<
        (),
        ModbusError,
    >)
        ensures
            others_unchanged(*old(self), *final(self), slave_id),
            old(self).has_slave(slave_id) ==> {
                &&& r is Ok
                &&& final(self).has_slave(slave_id)
                &&& final(self).slave_at(slave_id).spec_holding_register(address) == value
                &&& forall|a: u16|
                    a != address ==> #[trigger] final(self).slave_at(
                        slave_id,
                    ).spec_holding_register(a) == old(self).slave_at(
                        slave_id,
                    ).spec_holding_register(a)
                &&& coils_match(old(self).slave_at(slave_id), final(self).slave_at(slave_id))
                &&& discrete_inputs_match(
                    old(self).slave_at(slave_id),
                    final(self).slave_at(slave_id),
                )
                &&& input_registers_match(
                    old(self).slave_at(slave_id),
                    final(self).slave_at(slave_id),
                )
            },
            !old(self).has_slave(slave_id) ==> {
                &&& r matches Err(e) && e@ == ErrorView::ProtocolError("Slave not found"@)
                &&& !final(self).has_slave(slave_id)
            },
    {
        match self.take_slave(slave_id) {
            Some(mut store) => {
                store.set_holding_register(address, value);
                self.put_slave(slave_id, store);
                Ok(())
            },
            None => Err(ModbusError::ProtocolError("Slave not found".to_string())),
        }
    }

    /// Sets an input register on a registered device; an unknown device
    /// is an error.
    pub fn set_input_register(&mut self, slave_id: u8, address: u16, value: u16) -> (r: Result<
        (),
        ModbusError,
    >)
        ensures
            others_unchanged(*old(self), *final(self), slave_id),
            old(self).has_slave(slave_id) ==> {
                &&& r is Ok
                &&& final(self).has_slave(slave_id)
                &&& final(self).slave_at(slave_id).spec_input_register(address) == value
                &&& forall|a: u16|
                    a != address ==> #[trigger] final(self).slave_at(
                        slave_id,
                    ).spec_input_register(a) == old(self).slave_at(slave_id).spec_input_register(
                        a,
                    )
                &&& coils_match(old(self).slave_at(slave_id), final(self).slave_at(slave_id))
                &&& discrete_inputs_match(
                    old(self).slave_at(slave_id),
                    final(self).slave_at(slave_id),
                )
                &&& holding_registers_match(
                    old(self).slave_at(slave_id),
                    final(self).slave_at(slave_id),
                )
            },
            !old(self).has_slave(slave_id) ==> {
                &&& r matches Err(e) && e@ == ErrorView::ProtocolError("Slave not found"@)
                &&& !final(self).has_slave(slave_id)
            },
    {
        match self.take_slave(slave_id) {
            Some(mut store) => {
                store.set_input_register(address, value);
                self.put_slave(slave_id, store);
                Ok(())
            },
            None => Err(ModbusError::ProtocolError("Slave not found".to_string())),
        }
    }
}

} // verus!
