//! Small closed vocabularies shared by the whole analysis.

use vstd::prelude::*;

verus! {

/// Identifies one physical link at the controller. Valid values are 0x0000 to 0x0EFF.
pub type ConnectionHandle = u16;

/// The service a channel-open request declares.
pub type Psm = u16;

/// A channel identifier, scoped to one side of one link.
pub type Cid = u16;

/// The technology of a physical link.
#[derive(Clone, Copy, PartialEq, Eq, Structural, Debug, Hash)]
pub enum Transport {
    Unknown,
    BREDR,
    LE,
}

impl Transport {
    pub open spec fn text(self) -> Seq<char> {
        match self {
            Transport::Unknown => "??"@,
            Transport::BREDR => "BR"@,
            Transport::LE => "LE"@,
        }
    }

    pub fn to_string(&self) -> (s: String)
        ensures
            s@ == self.text(),
    {
        match self {
            Transport::Unknown => "??".to_owned(),
            Transport::BREDR => "BR".to_owned(),
            Transport::LE => "LE".to_owned(),
        }
    }
}

/// Which side started or ended something.
#[derive(Clone, Copy, PartialEq, Eq, Structural, Debug)]
pub enum InitiatorType {
    Unknown,
    Host,
    Peer,
}

impl InitiatorType {
    pub open spec fn text(self) -> Seq<char> {
        match self {
            InitiatorType::Unknown => "by ??"@,
            InitiatorType::Host => "by host"@,
            InitiatorType::Peer => "by peer"@,
        }
    }

    pub fn to_string(&self) -> (s: String)
        ensures
            s@ == self.text(),
    {
        match self {
            InitiatorType::Unknown => "by ??".to_owned(),
            InitiatorType::Host => "by host".to_owned(),
            InitiatorType::Peer => "by peer".to_owned(),
        }
    }
}

/// What is known of a link that is being set up, until its completion
/// event arrives: the completion event itself does not say who began.
#[derive(Clone, Copy, PartialEq, Eq, Structural, Debug)]
pub enum AclState {
    Idle,
    Initiating,
    Accepting,
    Connected,
}

impl AclState {
    pub open spec fn initiator(self) -> InitiatorType {
        match self {
            AclState::Initiating => InitiatorType::Host,
            AclState::Accepting => InitiatorType::Peer,
            _ => InitiatorType::Unknown,
        }
    }

    /// Who began the link that completes while this state is noted.
    pub fn get_connection_initiator(&self) -> (r: InitiatorType)
        ensures
            r == self.initiator(),
    {
        match self {
            AclState::Initiating => InitiatorType::Host,
            AclState::Accepting => InitiatorType::Peer,
            _ => InitiatorType::Unknown,
        }
    }
}

/// An upper-layer service that runs over a link.
#[derive(Clone, Copy, PartialEq, Eq, Structural, Debug, Hash)]
pub enum ProfileType {
    Att,
    Avctp,
    Avdtp,
    Eatt,
    Hfp,
    HidCtrl,
    HidIntr,
    Rfcomm,
    Sdp,
}

impl ProfileType {
    pub open spec fn text(self) -> Seq<char> {
        match self {
            ProfileType::Att => "ATT"@,
            ProfileType::Avctp => "AVCTP"@,
            ProfileType::Avdtp => "AVDTP"@,
            ProfileType::Eatt => "EATT"@,
            ProfileType::Hfp => "HFP"@,
            ProfileType::HidCtrl => "HID CTRL"@,
            ProfileType::HidIntr => "HID INTR"@,
            ProfileType::Rfcomm => "RFCOMM"@,
            ProfileType::Sdp => "SDP"@,
        }
    }

    pub fn to_string(&self) -> (s: String)
        ensures
            s@ == self.text(),
    {
        match self {
            ProfileType::Att => "ATT".to_owned(),
            ProfileType::Avctp => "AVCTP".to_owned(),
            ProfileType::Avdtp => "AVDTP".to_owned(),
            ProfileType::Eatt => "EATT".to_owned(),
            ProfileType::Hfp => "HFP".to_owned(),
            ProfileType::HidCtrl => "HID CTRL".to_owned(),
            ProfileType::HidIntr => "HID INTR".to_owned(),
            ProfileType::Rfcomm => "RFCOMM".to_owned(),
            ProfileType::Sdp => "SDP".to_owned(),
        }
    }

    /// The profile that a service number stands for, where it is a known one.
    pub open spec fn of_psm(psm: Psm) -> Option<ProfileType> {
        if psm == 1 {
            Some(ProfileType::Sdp)
        } else if psm == 3 {
            Some(ProfileType::Rfcomm)
        } else if psm == 17 {
            Some(ProfileType::HidCtrl)
        } else if psm == 19 {
            Some(ProfileType::HidIntr)
        } else if psm == 23 {
            Some(ProfileType::Avctp)
        } else if psm == 25 {
            Some(ProfileType::Avdtp)
        } else if psm == 31 {
            Some(ProfileType::Att)
        } else if psm == 39 {
            Some(ProfileType::Eatt)
        } else {
            None
        }
    }

    pub fn from_psm(psm: Psm) -> (r: Option<ProfileType>)
        ensures
            r == Self::of_psm(psm),
    {
        match psm {
            1 => Some(ProfileType::Sdp),
            3 => Some(ProfileType::Rfcomm),
            17 => Some(ProfileType::HidCtrl),
            19 => Some(ProfileType::HidIntr),
            23 => Some(ProfileType::Avctp),
            25 => Some(ProfileType::Avdtp),
            31 => Some(ProfileType::Att),
            39 => Some(ProfileType::Eatt),
            _ => None,
        }
    }
}

/// How a request to open a channel was answered.
#[derive(Clone, Copy, PartialEq, Eq, Structural, Debug)]
pub enum ConnectionResponseResult {
    /// The channel is open.
    Success,
    /// No decision yet: a further answer will follow.
    Pending,
    /// The channel was refused, for whatever reason.
    Refused,
}

/// The two ends of one channel.
#[derive(Clone, Copy, PartialEq, Eq, Structural, Debug, Hash)]
pub struct CidInformation {
    pub host_cid: Cid,
    pub peer_cid: Cid,
}

/// Tells apart the profile records of one link. Some profiles exist once
/// per link; others once per channel, and several channels of one profile
/// can be open on a link at a time.
#[derive(Clone, Copy, PartialEq, Eq, Structural, Debug, Hash)]
pub enum ProfileId {
    OnePerConnection(ProfileType),
    L2capCid(CidInformation),
}

/// Where the opening handshake of one channel stands.
#[derive(Clone, Copy, PartialEq, Eq, Structural, Debug)]
pub enum CidState {
    Pending(Psm),
    Connected(Cid, Psm),
}

} // verus!
