//! The whole report of the analysis, and the analysis as a group of rules.

use vstd::prelude::*;
use crate::acl::acl_views;
use crate::device::DeviceView;
use crate::order::{is_sorted_order, report_order, sort_addresses};
use crate::packet::Packet;
use crate::report::{acls_text, print_acls};
use crate::rule::{device_views, InformationalRule, RuleView};
use crate::text::{append_decimal, decimal_text};

verus! {

/// The blocks of the devices at the places `order`, in that order.
pub open spec fn devices_text(devices: Seq<DeviceView>, order: Seq<usize>) -> Seq<char>
    decreases order.len(),
{
    if order.len() == 0 {
        Seq::empty()
    } else {
        devices_text(devices, order.drop_last()) + devices[order.last() as int].text()
    }
}

impl RuleView {
    /// The part of the report on links whose device is not known: they
    /// were up before the log began. Nothing where there is none.
    pub open spec fn unknown_text(self) -> Seq<char> {
        if self.unknown_connections.len() == 0 {
            Seq::empty()
        } else {
            "Connections initiated before snoop start, "@ + decimal_text(
                self.unknown_connections.len(),
            ) + " connections\n"@ + acls_text(self.unknown_connections)
        }
    }

    /// The report: a heading, the sessions of unknown devices, then the
    /// devices in the order of the report. Nothing at all where neither a
    /// device nor a session is known.
    pub open spec fn report_text(self) -> Seq<char> {
        if self.devices.len() == 0 && self.unknown_connections.len() == 0 {
            Seq::empty()
        } else {
            "InformationalRule report:\n"@ + self.unknown_text() + devices_text(
                self.devices,
                report_order(self.devices),
            )
        }
    }
}

/// The blocks of the devices at the places `order`, in that order.
fn print_devices(devices: &Vec<crate::device::DeviceInformation>, order: &Vec<usize>) -> (s: String)
    requires
        forall|a: int| 0 <= a < order.len() ==> (#[trigger] order@[a]) < devices.len(),
    ensures
        s@ == devices_text(device_views(devices@), order@),
{
    let ghost views = device_views(devices@);
    let mut s = String::new();
    let mut i: usize = 0;
    while i < order.len()
        invariant
            i <= order.len(),
            views == device_views(devices@),
            forall|a: int| 0 <= a < order.len() ==> (#[trigger] order@[a]) < devices.len(),
            s@ == devices_text(views, order@.subrange(0, i as int)),
        decreases order.len() - i,
    {
        proof {
            let next = order@.subrange(0, i + 1);
            assert(next.drop_last() =~= order@.subrange(0, i as int));
            assert(next.last() == order@[i as int]);
        }
        s.append(devices[order[i]].to_string().as_str());
        i += 1;
    }
    proof {
        assert(order@.subrange(0, i as int) =~= order@);
    }
    s
}

/// The part of the report on links whose device is not known.
fn print_unknown(acls: &Vec<crate::acl::AclInformation>) -> (s: String)
    ensures
        s@ == (if acls.len() == 0 {
            Seq::<char>::empty()
        } else {
            "Connections initiated before snoop start, "@ + decimal_text(acls.len() as nat)
                + " connections\n"@ + acls_text(acl_views(acls@))
        }),
{
    let mut s = String::new();
    if acls.len() > 0 {
        s.append("Connections initiated before snoop start, ");
        append_decimal(&mut s, acls.len() as u128);
        s.append(" connections\n");
        s.append(print_acls(acls).as_str());
        assert(s@ =~= "Connections initiated before snoop start, "@ + decimal_text(
            acls.len() as nat,
        ) + " connections\n"@ + acls_text(acl_views(acls@)));
    }
    s
}

impl InformationalRule {
    /// The report on what the packets read so far have shown. It changes nothing.
    pub fn report(&self) -> (s: String)
        ensures
            s@ == self@.report_text(),
    {
        if self.devices.len() == 0 && self.unknown_connections.len() == 0 {
            return String::new();
        }
        let mut s = "InformationalRule report:\n".to_owned();
        s.append(print_unknown(&self.unknown_connections).as_str());
        let order = sort_addresses(&self.devices);
        s.append(print_devices(&self.devices, &order).as_str());
        s
    }
}

/// Analyses that read the same packets.
pub struct RuleGroup {
    pub rules: Vec<InformationalRule>,
}

/// The values of a list of analyses.
pub open spec fn rule_views(rules: Seq<InformationalRule>) -> Seq<RuleView> {
    rules.map_values(|r: InformationalRule| r@)
}

/// The reports of `rules`, one after the other.
pub open spec fn reports_text(rules: Seq<RuleView>) -> Seq<char>
    decreases rules.len(),
{
    if rules.len() == 0 {
        Seq::empty()
    } else {
        reports_text(rules.drop_last()) + rules.last().report_text()
    }
}

impl View for RuleGroup {
    type V = Seq<RuleView>;

    open spec fn view(&self) -> Seq<RuleView> {
        rule_views(self.rules@)
    }
}

impl RuleGroup {
    pub fn new() -> (group: RuleGroup)
        ensures
            group@ == Seq::<RuleView>::empty(),
    {
        let group = RuleGroup { rules: Vec::new() };
        assert(group@ =~= Seq::<RuleView>::empty());
        group
    }

    pub fn add_rule(&mut self, rule: InformationalRule)
        ensures
            final(self)@ == old(self)@.push(rule@),
    {
        self.rules.push(rule);
        assert(self@ =~= old(self)@.push(rule@));
    }

    /// Has every analysis of the group read `packet`.
    pub fn process(&mut self, packet: &Packet)
        ensures
            final(self)@ == old(self)@.map_values(|r: RuleView| r.step(*packet)),
    {
        let ghost before = self@;
        let mut i: usize = 0;
        while i < self.rules.len()
            invariant
                i <= self.rules.len(),
                self@.len() == before.len(),
                forall|j: int| 0 <= j < i ==> (#[trigger] self@[j]) == before[j].step(*packet),
                forall|j: int| i <= j < before.len() ==> (#[trigger] self@[j]) == before[j],
            decreases self.rules.len() - i,
        {
            let ghost prev = self@;
            self.rules[i].process(packet);
            assert(self@ =~= prev.update(i as int, prev[i as int].step(*packet)));
            i += 1;
        }
        assert(self@ =~= before.map_values(|r: RuleView| r.step(*packet)));
    }

    /// The reports of the analyses of the group, one after the other.
    pub fn report(&self) -> (s: String)
        ensures
            s@ == reports_text(self@),
    {
        let ghost views = self@;
        let mut s = String::new();
        let mut i: usize = 0;
        while i < self.rules.len()
            invariant
                i <= self.rules.len(),
                views == self@,
                s@ == reports_text(views.subrange(0, i as int)),
            decreases self.rules.len() - i,
        {
            proof {
                let next = views.subrange(0, i + 1);
                assert(next.drop_last() =~= views.subrange(0, i as int));
                assert(next.last() == self.rules@[i as int]@);
            }
            s.append(self.rules[i].report().as_str());
            i += 1;
        }
        proof {
            assert(views.subrange(0, i as int) =~= views);
        }
        s
    }
}

/// The group that holds the analysis of devices, links and profiles,
/// before any packet.
pub fn get_informational_group() -> (group: RuleGroup)
    ensures
        group@ == seq![RuleView::init()],
{
    let mut group = RuleGroup::new();
    group.add_rule(InformationalRule::new());
    assert(group@ =~= seq![RuleView::init()]);
    group
}

} // verus!
