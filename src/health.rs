use vstd::prelude::*;

verus! {

/// The liveness answer: the service is up, at this version.
pub struct Health {
    pub ok: bool,
    pub versions: &'static str,
}

impl Health {
    pub fn healthy(versions: &'static str) -> (r: Health)
        ensures
            r.ok,
            r.versions == versions,
    {
        Health { ok: true, versions }
    }
}

} // verus!
