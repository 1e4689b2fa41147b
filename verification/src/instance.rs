//! The address under which one instance of a service can be reached.

use vstd::prelude::*;

verus! {

/// One instance of a service: an identifier that its registering client
/// chose, and the address it listens on.
#[derive(Debug, PartialEq, Eq)]
pub struct InstanceInfo {
    pub instance_id: String,
    pub ip_addr: String,
    pub port: u16,
}

/// What an `InstanceInfo` holds, as plain mathematical values.
pub struct InstanceInfoView {
    pub instance_id: Seq<char>,
    pub ip_addr: Seq<char>,
    pub port: u16,
}

impl View for InstanceInfo {
    type V = InstanceInfoView;

    open spec fn view(&self) -> InstanceInfoView {
        InstanceInfoView {
            instance_id: self.instance_id@,
            ip_addr: self.ip_addr@,
            port: self.port,
        }
    }
}

impl Clone for InstanceInfo {
    fn clone(&self) -> (r: Self)
        ensures
            r@ == self@,
    {
        InstanceInfo {
            instance_id: self.instance_id.clone(),
            ip_addr: self.ip_addr.clone(),
            port: self.port,
        }
    }
}

/// What a list of instances holds, as plain mathematical values.
pub open spec fn instance_views(instances: Seq<InstanceInfo>) -> Seq<InstanceInfoView> {
    instances.map_values(|info: InstanceInfo| info@)
}

} // verus!
