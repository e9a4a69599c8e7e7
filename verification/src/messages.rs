//! Messages between the services and between the tasks of a service, as far
//! as they carry records.
use vstd::prelude::*;
use crate::models::{Vni, Vtep};

verus! {

/// Keeps a channel alive.
pub struct HelloMsg {}

/// The web UI tells a route reflector that a VTEP was added.
pub struct VtepAddedMsg {
    pub vtep: Vtep,
}

/// The web UI tells a route reflector that a VTEP was deleted.
pub struct VtepDeletedMsg {
    pub vtep: Vtep,
}

/// The web UI tells a route reflector that a VNI was added.
pub struct VniAddedMsg {
    pub vni: Vni,
}

/// The web UI tells a route reflector that a VNI was deleted.
pub struct VniDeletedMsg {
    pub vni: Vni,
}

/// The web UI tells a route reflector that a VTEP joined or left a VNI.
pub struct VtepVniModifiedMsg {
    pub vtep: Vtep,
    pub vni: Vni,
}

/// Inside a route reflector: add a VTEP.
pub struct AddVtepMsg {
    pub vtep: Vtep,
}

/// Inside a route reflector: delete a VTEP.
pub struct DelVtepMsg {
    pub vtep: Vtep,
}

/// Inside a route reflector: add a VNI.
pub struct AddVniMsg {
    pub vni: Vni,
}

/// Inside a route reflector: delete a VNI.
pub struct DelVniMsg {
    pub vni: Vni,
}

/// Inside a route reflector: a VTEP joined or left a VNI.
pub struct ModVtepVniMsg {
    pub vtep: Vtep,
    pub vni: Vni,
}

} // verus!
