//! A Location's persisted identity and label.

use vstd::prelude::*;
use crate::location::new_location_id;

verus! {

/// The settings of a Location, as its configuration file holds them.
#[derive(Debug, Clone, Default)]
pub struct LocationSettings {
    /// Persistent identity (a time-ordered UUID), once generated.
    pub id: Option<u128>,
    /// Label.
    pub label: Option<String>,
}

impl LocationSettings {
    /// The identity, generating a fresh one when there is none yet; the
    /// caller saves the settings after a new one was made.
    pub fn get_or_create_id(&mut self) -> (r: u128)
        ensures
            old(self).id.is_some() ==> r == old(self).id.unwrap(),
            final(self).id == Some(r),
            final(self).label == old(self).label,
    {
        match self.id {
            Some(id) => id,
            None => {
                let id = new_location_id();
                self.id = Some(id);
                id
            },
        }
    }
}

} // verus!
