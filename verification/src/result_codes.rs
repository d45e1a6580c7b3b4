use vstd::prelude::*;

verus! {

// The result-code registry: 32-bit identifiers grouped by category, with
// the textual names the services report.

/// The name of a result code, or the fallback text for one that names
/// nothing.
pub open spec fn result_name_spec(code: u32) -> Seq<char> {
    if code == 0x00010001 {
        "Core::Unknown"@
    } else
    if code == 0x00010002 {
        "Core::NotImplemented"@
    } else
    if code == 0x00010003 {
        "Core::InvalidPointer"@
    } else
    if code == 0x00010004 {
        "Core::OperationAborted"@
    } else
    if code == 0x00010005 {
        "Core::Exception"@
    } else
    if code == 0x00010006 {
        "Core::AccessDenied"@
    } else
    if code == 0x00010007 {
        "Core::InvalidHandle"@
    } else
    if code == 0x00010008 {
        "Core::InvalidIndex"@
    } else
    if code == 0x00010009 {
        "Core::OutOfMemory"@
    } else
    if code == 0x0001000A {
        "Core::InvalidArgument"@
    } else
    if code == 0x0001000B {
        "Core::Timeout"@
    } else
    if code == 0x0001000C {
        "Core::InitializationFailure"@
    } else
    if code == 0x0001000D {
        "Core::CallInitiationFailure"@
    } else
    if code == 0x0001000E {
        "Core::RegistrationError"@
    } else
    if code == 0x0001000F {
        "Core::BufferOverflow"@
    } else
    if code == 0x00010010 {
        "Core::InvalidLockState"@
    } else
    if code == 0x00010011 {
        "Core::InvalidSequence"@
    } else
    if code == 0x00010012 {
        "Core::SystemError"@
    } else
    if code == 0x00010013 {
        "Core::Cancelled"@
    } else
    if code == 0x00020001 {
        "DDL::InvalidSignature"@
    } else
    if code == 0x00020002 {
        "DDL::IncorrectVersion"@
    } else
    if code == 0x00030001 {
        "RendezVous::ConnectionFailure"@
    } else
    if code == 0x00030002 {
        "RendezVous::NotAuthenticated"@
    } else
    if code == 0x00030064 {
        "RendezVous::InvalidUsername"@
    } else
    if code == 0x00030065 {
        "RendezVous::InvalidPassword"@
    } else
    if code == 0x00030066 {
        "RendezVous::UsernameAlreadyExists"@
    } else
    if code == 0x00030067 {
        "RendezVous::AccountDisabled"@
    } else
    if code == 0x00030068 {
        "RendezVous::AccountExpired"@
    } else
    if code == 0x00030069 {
        "RendezVous::ConcurrentLoginDenied"@
    } else
    if code == 0x0003006A {
        "RendezVous::EncryptionFailure"@
    } else
    if code == 0x0003006B {
        "RendezVous::InvalidPID"@
    } else
    if code == 0x0003006C {
        "RendezVous::MaxConnectionsReached"@
    } else
    if code == 0x0003006D {
        "RendezVous::InvalidGID"@
    } else
    if code == 0x0003006E {
        "RendezVous::InvalidControlScriptID"@
    } else
    if code == 0x0003006F {
        "RendezVous::InvalidOperationInLiveEnvironment"@
    } else
    if code == 0x00030070 {
        "RendezVous::DuplicateEntry"@
    } else
    if code == 0x00030071 {
        "RendezVous::ControlScriptFailure"@
    } else
    if code == 0x00030072 {
        "RendezVous::ClassNotFound"@
    } else
    if code == 0x00030073 {
        "RendezVous::SessionVoid"@
    } else
    if code == 0x00030075 {
        "RendezVous::DDLMismatch"@
    } else
    if code == 0x00030076 {
        "RendezVous::InvalidConfiguration"@
    } else
    if code == 0x000300C8 {
        "RendezVous::SessionFull"@
    } else
    if code == 0x000300C9 {
        "RendezVous::InvalidGatheringPassword"@
    } else
    if code == 0x000300CA {
        "RendezVous::WithoutParticipationPeriod"@
    } else
    if code == 0x000300CB {
        "RendezVous::PersistentGatheringCreationMax"@
    } else
    if code == 0x000300CC {
        "RendezVous::PersistentGatheringParticipationMax"@
    } else
    if code == 0x000300CD {
        "RendezVous::DeniedByParticipants"@
    } else
    if code == 0x000300CE {
        "RendezVous::ParticipantInBlackList"@
    } else
    if code == 0x000300CF {
        "RendezVous::GameServerMaintenance"@
    } else
    if code == 0x000300D0 {
        "RendezVous::OperationPostpone"@
    } else
    if code == 0x000300D1 {
        "RendezVous::OutOfRatingRange"@
    } else
    if code == 0x000300D2 {
        "RendezVous::ConnectionDisconnected"@
    } else
    if code == 0x000300D3 {
        "RendezVous::InvalidOperation"@
    } else
    if code == 0x000300D4 {
        "RendezVous::NotParticipatedGathering"@
    } else
    if code == 0x000300D5 {
        "RendezVous::MatchmakeSessionUserPasswordUnmatch"@
    } else
    if code == 0x000300D6 {
        "RendezVous::MatchmakeSessionSystemPasswordUnmatch"@
    } else
    if code == 0x000300D7 {
        "RendezVous::UserIsOffline"@
    } else
    if code == 0x000300D8 {
        "RendezVous::AlreadyParticipatedGathering"@
    } else
    if code == 0x000300D9 {
        "RendezVous::PermissionDenied"@
    } else
    if code == 0x000300DA {
        "RendezVous::NotFriend"@
    } else
    if code == 0x000300DB {
        "RendezVous::SessionClosed"@
    } else
    if code == 0x000300DC {
        "RendezVous::DatabaseTemporarilyUnavailable"@
    } else
    if code == 0x000300DD {
        "RendezVous::InvalidUniqueID"@
    } else
    if code == 0x000300DE {
        "RendezVous::MatchmakingWithdrawn"@
    } else
    if code == 0x000300DF {
        "RendezVous::LimitExceeded"@
    } else
    if code == 0x000300E0 {
        "RendezVous::AccountTemporarilyDisabled"@
    } else
    if code == 0x000300E1 {
        "RendezVous::PartiallyServiceClosed"@
    } else
    if code == 0x000300E2 {
        "RendezVous::ConnectionDisconnectedForConcurrentLogin"@
    } else {
        "Invalid Result Code"@
    }
}

/// The name of a result code.
pub fn result_code_to_name(code: u32) -> (r: String)
    ensures
        r@ == result_name_spec(code),
{
    if code == 0x00010001 {
        "Core::Unknown".to_owned()
    } else
    if code == 0x00010002 {
        "Core::NotImplemented".to_owned()
    } else
    if code == 0x00010003 {
        "Core::InvalidPointer".to_owned()
    } else
    if code == 0x00010004 {
        "Core::OperationAborted".to_owned()
    } else
    if code == 0x00010005 {
        "Core::Exception".to_owned()
    } else
    if code == 0x00010006 {
        "Core::AccessDenied".to_owned()
    } else
    if code == 0x00010007 {
        "Core::InvalidHandle".to_owned()
    } else
    if code == 0x00010008 {
        "Core::InvalidIndex".to_owned()
    } else
    if code == 0x00010009 {
        "Core::OutOfMemory".to_owned()
    } else
    if code == 0x0001000A {
        "Core::InvalidArgument".to_owned()
    } else
    if code == 0x0001000B {
        "Core::Timeout".to_owned()
    } else
    if code == 0x0001000C {
        "Core::InitializationFailure".to_owned()
    } else
    if code == 0x0001000D {
        "Core::CallInitiationFailure".to_owned()
    } else
    if code == 0x0001000E {
        "Core::RegistrationError".to_owned()
    } else
    if code == 0x0001000F {
        "Core::BufferOverflow".to_owned()
    } else
    if code == 0x00010010 {
        "Core::InvalidLockState".to_owned()
    } else
    if code == 0x00010011 {
        "Core::InvalidSequence".to_owned()
    } else
    if code == 0x00010012 {
        "Core::SystemError".to_owned()
    } else
    if code == 0x00010013 {
        "Core::Cancelled".to_owned()
    } else
    if code == 0x00020001 {
        "DDL::InvalidSignature".to_owned()
    } else
    if code == 0x00020002 {
        "DDL::IncorrectVersion".to_owned()
    } else
    if code == 0x00030001 {
        "RendezVous::ConnectionFailure".to_owned()
    } else
    if code == 0x00030002 {
        "RendezVous::NotAuthenticated".to_owned()
    } else
    if code == 0x00030064 {
        "RendezVous::InvalidUsername".to_owned()
    } else
    if code == 0x00030065 {
        "RendezVous::InvalidPassword".to_owned()
    } else
    if code == 0x00030066 {
        "RendezVous::UsernameAlreadyExists".to_owned()
    } else
    if code == 0x00030067 {
        "RendezVous::AccountDisabled".to_owned()
    } else
    if code == 0x00030068 {
        "RendezVous::AccountExpired".to_owned()
    } else
    if code == 0x00030069 {
        "RendezVous::ConcurrentLoginDenied".to_owned()
    } else
    if code == 0x0003006A {
        "RendezVous::EncryptionFailure".to_owned()
    } else
    if code == 0x0003006B {
        "RendezVous::InvalidPID".to_owned()
    } else
    if code == 0x0003006C {
        "RendezVous::MaxConnectionsReached".to_owned()
    } else
    if code == 0x0003006D {
        "RendezVous::InvalidGID".to_owned()
    } else
    if code == 0x0003006E {
        "RendezVous::InvalidControlScriptID".to_owned()
    } else
    if code == 0x0003006F {
        "RendezVous::InvalidOperationInLiveEnvironment".to_owned()
    } else
    if code == 0x00030070 {
        "RendezVous::DuplicateEntry".to_owned()
    } else
    if code == 0x00030071 {
        "RendezVous::ControlScriptFailure".to_owned()
    } else
    if code == 0x00030072 {
        "RendezVous::ClassNotFound".to_owned()
    } else
    if code == 0x00030073 {
        "RendezVous::SessionVoid".to_owned()
    } else
    if code == 0x00030075 {
        "RendezVous::DDLMismatch".to_owned()
    } else
    if code == 0x00030076 {
        "RendezVous::InvalidConfiguration".to_owned()
    } else
    if code == 0x000300C8 {
        "RendezVous::SessionFull".to_owned()
    } else
    if code == 0x000300C9 {
        "RendezVous::InvalidGatheringPassword".to_owned()
    } else
    if code == 0x000300CA {
        "RendezVous::WithoutParticipationPeriod".to_owned()
    } else
    if code == 0x000300CB {
        "RendezVous::PersistentGatheringCreationMax".to_owned()
    } else
    if code == 0x000300CC {
        "RendezVous::PersistentGatheringParticipationMax".to_owned()
    } else
    if code == 0x000300CD {
        "RendezVous::DeniedByParticipants".to_owned()
    } else
    if code == 0x000300CE {
        "RendezVous::ParticipantInBlackList".to_owned()
    } else
    if code == 0x000300CF {
        "RendezVous::GameServerMaintenance".to_owned()
    } else
    if code == 0x000300D0 {
        "RendezVous::OperationPostpone".to_owned()
    } else
    if code == 0x000300D1 {
        "RendezVous::OutOfRatingRange".to_owned()
    } else
    if code == 0x000300D2 {
        "RendezVous::ConnectionDisconnected".to_owned()
    } else
    if code == 0x000300D3 {
        "RendezVous::InvalidOperation".to_owned()
    } else
    if code == 0x000300D4 {
        "RendezVous::NotParticipatedGathering".to_owned()
    } else
    if code == 0x000300D5 {
        "RendezVous::MatchmakeSessionUserPasswordUnmatch".to_owned()
    } else
    if code == 0x000300D6 {
        "RendezVous::MatchmakeSessionSystemPasswordUnmatch".to_owned()
    } else
    if code == 0x000300D7 {
        "RendezVous::UserIsOffline".to_owned()
    } else
    if code == 0x000300D8 {
        "RendezVous::AlreadyParticipatedGathering".to_owned()
    } else
    if code == 0x000300D9 {
        "RendezVous::PermissionDenied".to_owned()
    } else
    if code == 0x000300DA {
        "RendezVous::NotFriend".to_owned()
    } else
    if code == 0x000300DB {
        "RendezVous::SessionClosed".to_owned()
    } else
    if code == 0x000300DC {
        "RendezVous::DatabaseTemporarilyUnavailable".to_owned()
    } else
    if code == 0x000300DD {
        "RendezVous::InvalidUniqueID".to_owned()
    } else
    if code == 0x000300DE {
        "RendezVous::MatchmakingWithdrawn".to_owned()
    } else
    if code == 0x000300DF {
        "RendezVous::LimitExceeded".to_owned()
    } else
    if code == 0x000300E0 {
        "RendezVous::AccountTemporarilyDisabled".to_owned()
    } else
    if code == 0x000300E1 {
        "RendezVous::PartiallyServiceClosed".to_owned()
    } else
    if code == 0x000300E2 {
        "RendezVous::ConnectionDisconnectedForConcurrentLogin".to_owned()
    } else {
        "Invalid Result Code".to_owned()
    }
}

} // verus!
