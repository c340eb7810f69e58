use vstd::prelude::*;

use crate::model::DeliveryStatus;

verus! {

/// The tracking sources that adapters exist for.
#[derive(Clone, Copy, Debug, PartialEq, Eq, Structural)]
pub enum Carrier {
    CjLogistics,
    Epost,
}

/// Whether two texts hold the same characters.
pub(crate) fn same_text(a: &str, b: &str) -> (r: bool)
    ensures
        r == (a@ == b@),
{
    let a = String::from_str(a);
    let b = String::from_str(b);
    a == b
}

impl Carrier {
    /// The name a subscriber uses for the carrier, also stored with each tracker.
    pub open spec fn name_spec(self) -> Seq<char> {
        match self {
            Carrier::CjLogistics => "CJ대한통운"@,
            Carrier::Epost => "우체국"@,
        }
    }

    /// The strftime pattern of the carrier's timestamps, once the offset is appended.
    pub open spec fn time_format_spec(self) -> Seq<char> {
        match self {
            Carrier::CjLogistics => "%Y-%m-%d %H:%M:%S %z"@,
            Carrier::Epost => "%Y.%m.%d %H:%M %z"@,
        }
    }

    /// The carrier's table from a raw status label to a delivery class.
    pub open spec fn classify_spec(self, label: Seq<char>) -> DeliveryStatus {
        match self {
            Carrier::CjLogistics => {
                if label == "집화처리"@ || label == "간선상차"@ || label == "간선하차"@
                    || label == "행낭포장"@ || label == "배송출발"@ {
                    DeliveryStatus::InProgress
                } else if label == "배송완료"@ {
                    DeliveryStatus::Completed
                } else {
                    DeliveryStatus::Unknown
                }
            },
            Carrier::Epost => {
                if label == "접수"@ || label == "발송"@ || label == "배달준비"@ {
                    DeliveryStatus::InProgress
                } else if label == "배달완료"@ {
                    DeliveryStatus::Completed
                } else {
                    DeliveryStatus::Unknown
                }
            },
        }
    }

    /// The carrier a subscriber named, or `None` for a name no adapter serves.
    pub fn from_name(name: &str) -> (r: Option<Carrier>)
        ensures
            r matches Some(c) ==> c.name_spec() == name@,
            r is None ==> forall|c: Carrier| c.name_spec() != name@,
    {
        if same_text(name, "CJ대한통운") {
            Some(Carrier::CjLogistics)
        } else if same_text(name, "우체국") {
            Some(Carrier::Epost)
        } else {
            proof {
                assert forall|c: Carrier| c.name_spec() != name@ by {
                    match c {
                        Carrier::CjLogistics => {},
                        Carrier::Epost => {},
                    }
                }
            }
            None
        }
    }

    pub fn name(&self) -> (r: &'static str)
        ensures
            r@ == self.name_spec(),
    {
        match self {
            Carrier::CjLogistics => "CJ대한통운",
            Carrier::Epost => "우체국",
        }
    }

    pub fn time_format(&self) -> (r: &'static str)
        ensures
            r@ == self.time_format_spec(),
    {
        match self {
            Carrier::CjLogistics => "%Y-%m-%d %H:%M:%S %z",
            Carrier::Epost => "%Y.%m.%d %H:%M %z",
        }
    }

    /// Reduces a raw status label to one of the three delivery classes.
    pub fn classify(&self, label: &str) -> (r: DeliveryStatus)
        ensures
            r == self.classify_spec(label@),
    {
        match self {
            Carrier::CjLogistics => {
                if same_text(label, "집화처리") || same_text(label, "간선상차")
                    || same_text(label, "간선하차") || same_text(label, "행낭포장")
                    || same_text(label, "배송출발") {
                    DeliveryStatus::InProgress
                } else if same_text(label, "배송완료") {
                    DeliveryStatus::Completed
                } else {
                    DeliveryStatus::Unknown
                }
            },
            Carrier::Epost => {
                if same_text(label, "접수") || same_text(label, "발송")
                    || same_text(label, "배달준비") {
                    DeliveryStatus::InProgress
                } else if same_text(label, "배달완료") {
                    DeliveryStatus::Completed
                } else {
                    DeliveryStatus::Unknown
                }
            },
        }
    }
}

} // verus!
