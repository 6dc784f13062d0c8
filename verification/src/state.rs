//! States of an ADS device.
use vstd::prelude::*;

verus! {

/// The ADS state of a device.
#[derive(Clone, Copy, Debug, PartialEq, Eq, Structural)]
pub enum AdsState {
    Invalid,
    Idle,
    Reset,
    Init,
    Start,
    Run,
    Stop,
    SaveCfg,
    LoadCfg,
    PowerFail,
    PowerGood,
    Error,
    Shutdown,
    Suspend,
    Resume,
    Config,
    Reconfig,
    Stopping,
    Incompatible,
    Exception,
}

impl AdsState {
    /// The number by which a packet names this state.
    pub open spec fn spec_code(self) -> u16 {
        match self {
            AdsState::Invalid => 0,
            AdsState::Idle => 1,
            AdsState::Reset => 2,
            AdsState::Init => 3,
            AdsState::Start => 4,
            AdsState::Run => 5,
            AdsState::Stop => 6,
            AdsState::SaveCfg => 7,
            AdsState::LoadCfg => 8,
            AdsState::PowerFail => 9,
            AdsState::PowerGood => 10,
            AdsState::Error => 11,
            AdsState::Shutdown => 12,
            AdsState::Suspend => 13,
            AdsState::Resume => 14,
            AdsState::Config => 15,
            AdsState::Reconfig => 16,
            AdsState::Stopping => 17,
            AdsState::Incompatible => 18,
            AdsState::Exception => 19,
        }
    }

    /// The number by which a packet names this state.
    #[verifier::when_used_as_spec(spec_code)]
    pub fn code(self) -> (r: u16)
        ensures
            r == self.spec_code(),
    {
        match self {
            AdsState::Invalid => 0,
            AdsState::Idle => 1,
            AdsState::Reset => 2,
            AdsState::Init => 3,
            AdsState::Start => 4,
            AdsState::Run => 5,
            AdsState::Stop => 6,
            AdsState::SaveCfg => 7,
            AdsState::LoadCfg => 8,
            AdsState::PowerFail => 9,
            AdsState::PowerGood => 10,
            AdsState::Error => 11,
            AdsState::Shutdown => 12,
            AdsState::Suspend => 13,
            AdsState::Resume => 14,
            AdsState::Config => 15,
            AdsState::Reconfig => 16,
            AdsState::Stopping => 17,
            AdsState::Incompatible => 18,
            AdsState::Exception => 19,
        }
    }

    /// The state with the given number, if there is one.
    pub fn from_code(code: u16) -> (r: Option<Self>)
        ensures
            r is Some <==> code <= 19,
            r matches Some(state) ==> state.code() == code,
    {
        match code {
            0 => Some(AdsState::Invalid),
            1 => Some(AdsState::Idle),
            2 => Some(AdsState::Reset),
            3 => Some(AdsState::Init),
            4 => Some(AdsState::Start),
            5 => Some(AdsState::Run),
            6 => Some(AdsState::Stop),
            7 => Some(AdsState::SaveCfg),
            8 => Some(AdsState::LoadCfg),
            9 => Some(AdsState::PowerFail),
            10 => Some(AdsState::PowerGood),
            11 => Some(AdsState::Error),
            12 => Some(AdsState::Shutdown),
            13 => Some(AdsState::Suspend),
            14 => Some(AdsState::Resume),
            15 => Some(AdsState::Config),
            16 => Some(AdsState::Reconfig),
            17 => Some(AdsState::Stopping),
            18 => Some(AdsState::Incompatible),
            19 => Some(AdsState::Exception),
            _ => None,
        }
    }
}

/// No two states share a number.
pub proof fn state_by_code(a: AdsState, b: AdsState)
    ensures
        a.spec_code() == b.spec_code() <==> a == b,
{
}

/// Each state has the number that the protocol gives it.
pub proof fn states_have_numbers()
    ensures
        AdsState::Invalid.spec_code() == 0,
        AdsState::Idle.spec_code() == 1,
        AdsState::Reset.spec_code() == 2,
        AdsState::Init.spec_code() == 3,
        AdsState::Start.spec_code() == 4,
        AdsState::Run.spec_code() == 5,
        AdsState::Stop.spec_code() == 6,
        AdsState::SaveCfg.spec_code() == 7,
        AdsState::LoadCfg.spec_code() == 8,
        AdsState::PowerFail.spec_code() == 9,
        AdsState::PowerGood.spec_code() == 10,
        AdsState::Error.spec_code() == 11,
        AdsState::Shutdown.spec_code() == 12,
        AdsState::Suspend.spec_code() == 13,
        AdsState::Resume.spec_code() == 14,
        AdsState::Config.spec_code() == 15,
        AdsState::Reconfig.spec_code() == 16,
        AdsState::Stopping.spec_code() == 17,
        AdsState::Incompatible.spec_code() == 18,
        AdsState::Exception.spec_code() == 19,
{
}

} // verus!
