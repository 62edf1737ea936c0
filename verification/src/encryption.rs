//! The encryption settings that a room starts with.

use vstd::prelude::*;

verus! {

/// How long a session key is used before it is rotated: one week, in
/// milliseconds.
pub const ROTATION_PERIOD_MS: u64 = 604_800_000;

/// How many messages a session key encrypts before it is rotated.
pub const ROTATION_PERIOD_MSGS: u64 = 100;

/// The content of a room's encryption event.
#[derive(Clone, Debug, PartialEq, Eq)]
pub struct EncryptionSettings {
    /// The name of the encryption algorithm.
    pub algorithm: String,
    pub rotation_period_ms: Option<u64>,
    pub rotation_period_msgs: Option<u64>,
}

/// The name of the post-quantum Megolm algorithm.
pub open spec fn pq_algorithm() -> Seq<char> {
    "m.megolm.pq.v1.aes-sha2"@
}

/// The settings of a newly encrypted room: the post-quantum algorithm, with
/// keys rotated after a week or a hundred messages.
pub fn create_default_encryption_event() -> (settings: EncryptionSettings)
    ensures
        settings.algorithm@ == pq_algorithm(),
        settings.rotation_period_ms == Some(ROTATION_PERIOD_MS),
        settings.rotation_period_msgs == Some(ROTATION_PERIOD_MSGS),
{
    EncryptionSettings {
        algorithm: "m.megolm.pq.v1.aes-sha2".to_owned(),
        rotation_period_ms: Some(ROTATION_PERIOD_MS),
        rotation_period_msgs: Some(ROTATION_PERIOD_MSGS),
    }
}

/// The encryption settings to give a new room, if any: a direct chat is
/// always encrypted, any other room where the server allows encryption.
pub fn setup_room_encryption(is_direct: bool, allow_encryption: bool) -> (settings: Option<EncryptionSettings>)
    ensures
        settings.is_some() == (is_direct || allow_encryption),
        settings matches Some(chosen) ==> chosen.algorithm@ == pq_algorithm()
            && chosen.rotation_period_ms == Some(ROTATION_PERIOD_MS) && chosen.rotation_period_msgs
            == Some(ROTATION_PERIOD_MSGS),
{
    if is_direct || allow_encryption {
        Some(create_default_encryption_event())
    } else {
        None
    }
}

} // verus!
