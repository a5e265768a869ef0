//! Device verification by emoji comparison: what the bot does as a
//! verification moves from state to state.

use crate::text::str_eq;
use vstd::prelude::*;

verus! {

/// The states of a verification request that matter to the bot.
#[derive(Clone, Copy, Debug, PartialEq, Eq, Structural)]
pub enum RequestState {
    /// The request was created, requested or is ready: nothing to do yet.
    Pending,
    /// The request turned into a verification; `sas` says whether it is an
    /// emoji comparison.
    Transitioned { sas: bool },
    /// The request was cancelled.
    Cancelled,
    /// The request is done.
    Done,
}

/// What the bot does about a verification request.
#[derive(Clone, Copy, Debug, PartialEq, Eq, Structural)]
pub enum RequestAction {
    /// Keep waiting.
    Wait,
    /// Start the emoji comparison and stop watching the request.
    StartSas,
    /// Stop watching the request.
    Stop,
}

/// The states of an emoji comparison that matter to the bot.
#[derive(Clone, Copy, Debug, PartialEq, Eq, Structural)]
pub enum SasStage {
    /// Created, started, accepted or confirmed: nothing to do yet.
    Pending,
    /// The keys were exchanged; `emojis` says whether there are emojis to show.
    KeysExchanged { emojis: bool },
    /// The comparison was cancelled.
    Cancelled,
    /// The comparison is done.
    Done,
}

/// What the bot does about an emoji comparison.
#[derive(Clone, Copy, Debug, PartialEq, Eq, Structural)]
pub enum SasAction {
    /// Keep waiting.
    Wait,
    /// Show the emojis and keep waiting.
    ShowEmojis,
    /// Show the emojis, confirm that they match, and keep waiting.
    ShowAndConfirm,
    /// Stop watching the comparison.
    Stop,
}

/// The action for a state of a verification request.
pub open spec fn request_action(state: RequestState) -> RequestAction {
    match state {
        RequestState::Pending => RequestAction::Wait,
        RequestState::Transitioned { sas } => if sas {
            RequestAction::StartSas
        } else {
            RequestAction::Stop
        },
        RequestState::Cancelled => RequestAction::Stop,
        RequestState::Done => RequestAction::Stop,
    }
}

/// Decides what to do about a verification request: see [`request_action`].
pub fn handle_verification_request(state: RequestState) -> (a: RequestAction)
    ensures
        a == request_action(state),
{
    match state {
        RequestState::Pending => RequestAction::Wait,
        RequestState::Transitioned { sas } => {
            if sas {
                RequestAction::StartSas
            } else {
                RequestAction::Stop
            }
        },
        RequestState::Cancelled => RequestAction::Stop,
        RequestState::Done => RequestAction::Stop,
    }
}

/// The action for a state of an emoji comparison. Emojis are confirmed
/// without a human looking only where `auto_confirm` allows it.
pub open spec fn sas_action(stage: SasStage, auto_confirm: bool) -> SasAction {
    match stage {
        SasStage::Pending => SasAction::Wait,
        SasStage::KeysExchanged { emojis } => if !emojis {
            SasAction::Wait
        } else if auto_confirm {
            SasAction::ShowAndConfirm
        } else {
            SasAction::ShowEmojis
        },
        SasStage::Cancelled => SasAction::Stop,
        SasStage::Done => SasAction::Stop,
    }
}

/// Decides what to do about an emoji comparison: see [`sas_action`].
pub fn handle_sas(stage: SasStage, auto_confirm: bool) -> (a: SasAction)
    ensures
        a == sas_action(stage, auto_confirm),
{
    match stage {
        SasStage::Pending => SasAction::Wait,
        SasStage::KeysExchanged { emojis } => {
            if !emojis {
                SasAction::Wait
            } else if auto_confirm {
                SasAction::ShowAndConfirm
            } else {
                SasAction::ShowEmojis
            }
        },
        SasStage::Cancelled => SasAction::Stop,
        SasStage::Done => SasAction::Stop,
    }
}

/// Whether an invitation is accepted: it must be an invitation, addressed to
/// the bot itself, and joining on invitation must not be switched off.
pub fn accepts_invite(is_invite: bool, state_key: &str, own_id: &str, autojoin: bool) -> (b: bool)
    ensures
        b == (autojoin && is_invite && state_key@ == own_id@),
{
    autojoin && is_invite && str_eq(state_key, own_id)
}

} // verus!
