//! The report: what is known of every device and session, as text.

use vstd::prelude::*;
use crate::acl::{acl_views, AclInformation, AclView};
use crate::device::{name_views, DeviceInformation, DeviceView};
use crate::profile::ProfileInformation;
use crate::text::{append_decimal, decimal_text};
use crate::time::Timestamp;
use crate::types::{InitiatorType, ProfileId};

verus! {

/// A point in time and who acted at it, or `N/A` where it has not come.
pub open spec fn moment_text(ts: Timestamp, initiator: InitiatorType) -> Seq<char> {
    if !ts.is_set() {
        "N/A"@
    } else {
        ts.time_text() + " ("@ + initiator.text() + ")"@
    }
}

/// A start and an end, each with who acted. What starts and ends at
/// one time is marked as failed.
pub open spec fn span_text(
    start: Timestamp,
    start_initiator: InitiatorType,
    end: Timestamp,
    end_initiator: InitiatorType,
) -> Seq<char> {
    if start == end && start.is_set() {
        start.time_text() + " ("@ + start_initiator.text() + ") - Failed"@
    } else {
        moment_text(start, start_initiator) + " to "@ + moment_text(end, end_initiator)
    }
}

/// A point in time and who acted at it.
fn print_time_initiator(ts: Timestamp, initiator: InitiatorType) -> (s: String)
    ensures
        s@ == moment_text(ts, initiator),
{
    if !ts.has_value() {
        return "N/A".to_owned();
    }
    let mut s = ts.time_to_string();
    s.append(" (");
    s.append(initiator.to_string().as_str());
    s.append(")");
    s
}

/// A start and an end, each with who acted.
pub fn print_timestamps_and_initiator(
    start: Timestamp,
    start_initiator: InitiatorType,
    end: Timestamp,
    end_initiator: InitiatorType,
) -> (s: String)
    ensures
        s@ == span_text(start, start_initiator, end, end_initiator),
{
    if start == end && start.has_value() {
        let mut s = start.time_to_string();
        s.append(" (");
        s.append(start_initiator.to_string().as_str());
        s.append(") - Failed");
        return s;
    }
    let mut s = print_time_initiator(start, start_initiator);
    s.append(" to ");
    s.append(print_time_initiator(end, end_initiator).as_str());
    s
}

impl ProfileId {
    /// Nothing for a profile that exists once per link; the two ends of
    /// the channel for one that exists once per channel.
    pub open spec fn text(self) -> Seq<char> {
        match self {
            ProfileId::OnePerConnection(_) => Seq::empty(),
            ProfileId::L2capCid(cid_info) => "(CID: host="@ + decimal_text(cid_info.host_cid as nat)
                + ", peer="@ + decimal_text(cid_info.peer_cid as nat) + ")"@,
        }
    }

    pub fn to_string(&self) -> (s: String)
        ensures
            s@ == self.text(),
    {
        match self {
            ProfileId::OnePerConnection(_) => String::new(),
            ProfileId::L2capCid(cid_info) => {
                let mut s = "(CID: host=".to_owned();
                append_decimal(&mut s, cid_info.host_cid as u128);
                s.append(", peer=");
                append_decimal(&mut s, cid_info.peer_cid as u128);
                s.append(")");
                s
            },
        }
    }
}

impl ProfileInformation {
    /// One line of the report.
    pub open spec fn text(self) -> Seq<char> {
        "    "@ + self.profile_type.text() + ", "@ + span_text(
            self.start_time,
            self.start_initiator,
            self.end_time,
            self.end_initiator,
        ) + " "@ + self.profile_id.text() + "\n"@
    }

    pub fn to_string(&self) -> (s: String)
        ensures
            s@ == self.text(),
    {
        let mut s = "    ".to_owned();
        s.append(self.profile_type.to_string().as_str());
        s.append(", ");
        s.append(
            print_timestamps_and_initiator(
                self.start_time,
                self.start_initiator,
                self.end_time,
                self.end_initiator,
            ).as_str(),
        );
        s.append(" ");
        s.append(self.profile_id.to_string().as_str());
        s.append("\n");
        s
    }
}

/// The lines of `profiles`, in their order.
pub open spec fn profiles_text(profiles: Seq<ProfileInformation>) -> Seq<char>
    decreases profiles.len(),
{
    if profiles.len() == 0 {
        Seq::empty()
    } else {
        profiles_text(profiles.drop_last()) + profiles.last().text()
    }
}

/// The lines of `profiles`, in their order.
fn print_profiles(profiles: &Vec<ProfileInformation>) -> (s: String)
    ensures
        s@ == profiles_text(profiles@),
{
    let mut s = String::new();
    let mut i: usize = 0;
    while i < profiles.len()
        invariant
            i <= profiles.len(),
            s@ == profiles_text(profiles@.subrange(0, i as int)),
        decreases profiles.len() - i,
    {
        proof {
            let next = profiles@.subrange(0, i + 1);
            assert(next.drop_last() =~= profiles@.subrange(0, i as int));
            assert(next.last() == profiles@[i as int]);
        }
        s.append(profiles[i].to_string().as_str());
        i += 1;
    }
    proof {
        assert(profiles@.subrange(0, i as int) =~= profiles@);
    }
    s
}

impl AclView {
    /// The block of the report for one session: a line for the session,
    /// then the profiles that have ended and those that run.
    pub open spec fn text(self) -> Seq<char> {
        "  Handle: "@ + decimal_text(self.handle as nat) + " ("@ + self.transport.text() + "), "@
            + span_text(self.start_time, self.start_initiator, self.end_time, self.end_initiator)
            + "\n"@ + profiles_text(self.inactive_profiles) + profiles_text(self.active_profiles)
    }
}

impl AclInformation {
    pub fn to_string(&self) -> (s: String)
        ensures
            s@ == self@.text(),
    {
        let mut s = "  Handle: ".to_owned();
        append_decimal(&mut s, self.handle as u128);
        s.append(" (");
        s.append(self.transport.to_string().as_str());
        s.append("), ");
        s.append(
            print_timestamps_and_initiator(
                self.start_time,
                self.start_initiator,
                self.end_time,
                self.end_initiator,
            ).as_str(),
        );
        s.append("\n");
        s.append(print_profiles(&self.inactive_profiles).as_str());
        s.append(print_profiles(&self.active_profiles).as_str());
        s
    }
}

/// The blocks of `acls`, in their order.
pub open spec fn acls_text(acls: Seq<AclView>) -> Seq<char>
    decreases acls.len(),
{
    if acls.len() == 0 {
        Seq::empty()
    } else {
        acls_text(acls.drop_last()) + acls.last().text()
    }
}

/// The blocks of `acls`, in their order.
pub fn print_acls(acls: &Vec<AclInformation>) -> (s: String)
    ensures
        s@ == acls_text(acl_views(acls@)),
{
    let ghost views = acl_views(acls@);
    let mut s = String::new();
    let mut i: usize = 0;
    while i < acls.len()
        invariant
            i <= acls.len(),
            views == acl_views(acls@),
            s@ == acls_text(views.subrange(0, i as int)),
        decreases acls.len() - i,
    {
        proof {
            let next = views.subrange(0, i + 1);
            assert(next.drop_last() =~= views.subrange(0, i as int));
            assert(next.last() == acls@[i as int]@);
        }
        s.append(acls[i].to_string().as_str());
        i += 1;
    }
    proof {
        assert(views.subrange(0, i as int) =~= views);
    }
    s
}

/// A string as `Debug` writes it: between double quotes, with what
/// cannot stand there as it is written as an escape.
pub uninterp spec fn quoted_text(s: Seq<char>) -> Seq<char>;

/// Formats a `str` with `{:?}`, which is `Debug` for `str`. The text
/// depends on the characters of the string alone.
#[verifier::external_body]
fn debug_quoted(s: &str) -> (r: String)
    ensures
        r@ == quoted_text(s@),
{
    format!("{:?}", s)
}

/// The items with a comma and a space between them.
pub open spec fn joined_text(items: Seq<Seq<char>>) -> Seq<char>
    decreases items.len(),
{
    if items.len() == 0 {
        Seq::empty()
    } else if items.len() == 1 {
        items[0]
    } else {
        joined_text(items.drop_last()) + ", "@ + items.last()
    }
}

/// The items as a set is written: in braces, with a comma and a space
/// between them.
pub open spec fn set_text(items: Seq<Seq<char>>) -> Seq<char> {
    "{"@ + joined_text(items) + "}"@
}

/// The names, each quoted.
pub open spec fn quoted_names(names: Seq<Seq<char>>) -> Seq<Seq<char>> {
    Seq::new(names.len(), |i: int| quoted_text(names[i]))
}

/// The names of a device: the one name as it is; several names quoted
/// and as a set, in the order in which they were seen; a placeholder
/// where no name is known.
pub open spec fn names_text(names: Seq<Seq<char>>) -> Seq<char> {
    if names.len() > 1 {
        set_text(quoted_names(names))
    } else if names.len() == 1 {
        names[0]
    } else {
        "<Unknown name>"@
    }
}

/// The items as a set is written.
pub fn print_set(items: &Vec<String>) -> (s: String)
    ensures
        s@ == set_text(name_views(items@)),
{
    let ghost views = name_views(items@);
    let mut list = String::new();
    let mut i: usize = 0;
    while i < items.len()
        invariant
            i <= items.len(),
            views == name_views(items@),
            list@ == joined_text(views.subrange(0, i as int)),
        decreases items.len() - i,
    {
        proof {
            let next = views.subrange(0, i + 1);
            assert(next.drop_last() =~= views.subrange(0, i as int));
            assert(next.last() == items@[i as int]@);
        }
        if i > 0 {
            list.append(", ");
        }
        list.append(items[i].as_str());
        proof {
            if i == 0 {
                assert(list@ =~= items@[0]@);
            }
        }
        i += 1;
    }
    proof {
        assert(views.subrange(0, i as int) =~= views);
    }
    let mut s = "{".to_owned();
    s.append(list.as_str());
    s.append("}");
    s
}

impl DeviceView {
    /// The number of sessions that the device had, on both transports.
    pub open spec fn session_count(self) -> nat {
        self.bredr_acls.len() + self.le_acls.len()
    }

    /// The block of the report for one device: a line for the device,
    /// then its sessions, those on BR/EDR before those on LE.
    pub open spec fn text(self) -> Seq<char> {
        self.address.text() + " ("@ + self.address_type.text() + ", "@ + names_text(self.names)
            + "), "@ + decimal_text(self.session_count()) + " connections\n"@ + acls_text(
            self.bredr_acls,
        ) + acls_text(self.le_acls)
    }
}

impl DeviceInformation {
    /// The names of a device as the report shows them.
    pub fn print_names(names: &Vec<String>) -> (s: String)
        ensures
            s@ == names_text(name_views(names@)),
    {
        if names.len() > 1 {
            let ghost views = name_views(names@);
            let mut quoted: Vec<String> = Vec::new();
            let mut i: usize = 0;
            while i < names.len()
                invariant
                    i <= names.len(),
                    views == name_views(names@),
                    quoted.len() == i,
                    forall|j: int|
                        0 <= j < i ==> (#[trigger] quoted@[j])@ == quoted_text(views[j]),
                decreases names.len() - i,
            {
                quoted.push(debug_quoted(names[i].as_str()));
                i += 1;
            }
            proof {
                assert(name_views(quoted@) =~= quoted_names(views));
            }
            print_set(&quoted)
        } else if names.len() == 1 {
            names[0].clone()
        } else {
            "<Unknown name>".to_owned()
        }
    }

    pub fn to_string(&self) -> (s: String)
        ensures
            s@ == self@.text(),
    {
        let mut s = self.address.to_string();
        s.append(" (");
        s.append(self.address_type.to_string().as_str());
        s.append(", ");
        s.append(DeviceInformation::print_names(&self.names).as_str());
        s.append("), ");
        append_decimal(&mut s, self.bredr_acls.len() as u128 + self.le_acls.len() as u128);
        s.append(" connections\n");
        s.append(print_acls(&self.bredr_acls).as_str());
        s.append(print_acls(&self.le_acls).as_str());
        s
    }
}

} // verus!
