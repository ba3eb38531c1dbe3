//! Registered type packs defined by the specification in `1.0.packs.json`.

use vstd::prelude::*;

verus! {

pub const REACTIONS: &'static str = "adp:reactions/1.0";

pub const DELIBERATION: &'static str = "adp:deliberation/1.0";

pub const CURATION: &'static str = "adp:curation/1.0";

pub const MODERATION: &'static str = "adp:moderation/1.0";

pub const REALTIME: &'static str = "adp:realtime/1.0";

pub const REGISTERED: [&'static str; 5] = [REACTIONS, DELIBERATION, CURATION, MODERATION, REALTIME];

} // verus!
