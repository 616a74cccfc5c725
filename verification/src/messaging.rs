use vstd::prelude::*;
use crate::modifier::ModifierMap;

verus! {

/// A message published by the server to every connected client.
pub enum SystemResponse {
    Chat { username: String, role: String, content: String },
    Roll { dice_values: (i8, i8), username: String, modifiers: ModifierMap, total: i8 },
    SceneUpdate {},
    HeroUpdate {},
    ChallengeUpdate {},
    FellowshipUpdate {},
}

/// A message sent by a client to the server. The four update variants are
/// reserved extension points: they carry no payload and trigger nothing.
pub enum SystemRequest {
    Chat { username: String, role: String, content: String },
    Roll { username: String, modifiers: ModifierMap },
    SceneUpdate {},
    HeroUpdate {},
    ChallengeUpdate {},
    FellowshipUpdate {},
}

} // verus!
