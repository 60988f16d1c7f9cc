//! The order in which the report shows the devices.

use vstd::prelude::*;
use crate::address::Address;
use crate::device::{DeviceInformation, DeviceView};
use crate::report::names_text;
use crate::rule::device_views;

verus! {

/// Whether `a` comes before `b` in the order of the dictionary, the
/// characters taken in the order of their code points.
pub open spec fn text_precedes(a: Seq<char>, b: Seq<char>) -> bool
    decreases a.len(),
{
    if b.len() == 0 {
        false
    } else if a.len() == 0 {
        true
    } else if a[0] != b[0] {
        (a[0] as u32) < (b[0] as u32)
    } else {
        text_precedes(a.drop_first(), b.drop_first())
    }
}

/// No text comes before a text that does not come after it.
pub proof fn lemma_text_asymmetric(a: Seq<char>, b: Seq<char>)
    ensures
        !(text_precedes(a, b) && text_precedes(b, a)),
    decreases a.len(),
{
    if a.len() > 0 && b.len() > 0 && a[0] == b[0] {
        lemma_text_asymmetric(a.drop_first(), b.drop_first());
    }
}

/// What comes before a text comes before all that the text comes before.
pub proof fn lemma_text_transitive(a: Seq<char>, b: Seq<char>, c: Seq<char>)
    requires
        text_precedes(a, b),
        text_precedes(b, c),
    ensures
        text_precedes(a, c),
    decreases a.len(),
{
    if a.len() > 0 && b.len() > 0 && c.len() > 0 && a[0] == b[0] && b[0] == c[0] {
        lemma_text_transitive(a.drop_first(), b.drop_first(), c.drop_first());
    }
}

/// Of two different texts one comes before the other.
pub proof fn lemma_text_total(a: Seq<char>, b: Seq<char>)
    ensures
        a == b || text_precedes(a, b) || text_precedes(b, a),
    decreases a.len(),
{
    if a.len() == 0 || b.len() == 0 {
        if a.len() == 0 && b.len() == 0 {
            assert(a =~= b);
        }
    } else if a[0] == b[0] {
        lemma_text_total(a.drop_first(), b.drop_first());
        if a.drop_first() == b.drop_first() {
            assert(a =~= seq![a[0]] + a.drop_first());
            assert(b =~= seq![b[0]] + b.drop_first());
        }
    } else {
        // different characters have different code points
        vstd::utf8::char_u32_cast(a[0], a[0] as u32);
        vstd::utf8::char_u32_cast(b[0], b[0] as u32);
    }
}

/// Whether `a` comes before `b` in the order of the dictionary.
pub fn str_precedes(a: &str, b: &str) -> (r: bool)
    ensures
        r == text_precedes(a@, b@),
{
    let n: usize = a.unicode_len();
    let m: usize = b.unicode_len();
    let mut i: usize = 0;
    proof {
        assert(a@.subrange(0, n as int) =~= a@);
        assert(b@.subrange(0, m as int) =~= b@);
    }
    while i < n && i < m
        invariant
            i <= n,
            i <= m,
            n == a@.len(),
            m == b@.len(),
            text_precedes(a@, b@) == text_precedes(
                a@.subrange(i as int, n as int),
                b@.subrange(i as int, m as int),
            ),
        decreases n - i,
    {
        let x = a.get_char(i);
        let y = b.get_char(i);
        proof {
            let ra = a@.subrange(i as int, n as int);
            let rb = b@.subrange(i as int, m as int);
            assert(ra[0] == x && rb[0] == y);
            assert(ra.drop_first() =~= a@.subrange(i + 1, n as int));
            assert(rb.drop_first() =~= b@.subrange(i + 1, m as int));
        }
        if x != y {
            return (x as u32) < (y as u32);
        }
        i += 1;
    }
    i < m
}

/// Whether the six octets `x` come before the six octets `y`, the most
/// significant octet, which is the last, compared first.
pub open spec fn octets_precede(x: Seq<u8>, y: Seq<u8>) -> bool {
    if x[5] != y[5] {
        x[5] < y[5]
    } else if x[4] != y[4] {
        x[4] < y[4]
    } else if x[3] != y[3] {
        x[3] < y[3]
    } else if x[2] != y[2] {
        x[2] < y[2]
    } else if x[1] != y[1] {
        x[1] < y[1]
    } else {
        x[0] < y[0]
    }
}

/// Whether the address `a` comes before the address `b`.
pub fn address_precedes(a: &Address, b: &Address) -> (r: bool)
    ensures
        r == octets_precede(a.octets(), b.octets()),
{
    let x = a.to_bytes();
    let y = b.to_bytes();
    if x[5] != y[5] {
        x[5] < y[5]
    } else if x[4] != y[4] {
        x[4] < y[4]
    } else if x[3] != y[3] {
        x[3] < y[3]
    } else if x[2] != y[2] {
        x[2] < y[2]
    } else if x[1] != y[1] {
        x[1] < y[1]
    } else {
        x[0] < y[0]
    }
}

impl DeviceView {
    /// Whether the device had no session.
    pub open spec fn has_no_session(self) -> bool {
        self.bredr_acls.len() == 0 && self.le_acls.len() == 0
    }

    /// Whether the report shows the device before `other`.
    ///
    /// Devices that had a session come before those that had none; then
    /// those with a name before those without; then by the transports,
    /// in the order Unknown, BR/EDR, LE, Dual; then by the names as the
    /// report shows them, in the order of the dictionary; then by the
    /// address, the most significant octet first.
    pub open spec fn precedes(self, other: DeviceView) -> bool {
        if self.has_no_session() != other.has_no_session() {
            !self.has_no_session()
        } else if (self.names.len() == 0) != (other.names.len() == 0) {
            self.names.len() != 0
        } else if self.address_type.rank() != other.address_type.rank() {
            self.address_type.rank() < other.address_type.rank()
        } else if names_text(self.names) != names_text(other.names) {
            text_precedes(names_text(self.names), names_text(other.names))
        } else {
            octets_precede(self.address.octets(), other.address.octets())
        }
    }
}

/// The order of the report is a strict weak order: no device comes before
/// one that it comes after; what comes before a device comes before all
/// that the device comes before; and what comes before a device comes
/// before any other, or that other before the device.
pub proof fn lemma_precedes_is_order(a: DeviceView, b: DeviceView, c: DeviceView)
    ensures
        !(a.precedes(b) && b.precedes(a)),
        a.precedes(b) && b.precedes(c) ==> a.precedes(c),
        a.precedes(b) ==> a.precedes(c) || c.precedes(b),
{
    let ta = names_text(a.names);
    let tb = names_text(b.names);
    let tc = names_text(c.names);
    lemma_text_asymmetric(ta, tb);
    lemma_text_total(ta, tc);
    lemma_text_total(tc, tb);
    lemma_text_total(ta, tb);
    if text_precedes(ta, tb) && text_precedes(tb, tc) {
        lemma_text_transitive(ta, tb, tc);
    }
    if text_precedes(ta, tb) && text_precedes(tc, ta) {
        lemma_text_transitive(tc, ta, tb);
    }
    if text_precedes(ta, tb) && text_precedes(tb, tc) {
        lemma_text_transitive(ta, tb, tc);
    }
    if text_precedes(tb, tc) && text_precedes(tc, ta) {
        lemma_text_transitive(tb, tc, ta);
    }
    lemma_text_asymmetric(ta, tc);
    lemma_text_asymmetric(tb, tc);
}

/// The first place at or after `from` in `order` of a device that
/// `devices[x]` comes before; the length of `order` where there is none.
pub open spec fn insertion_place(
    devices: Seq<DeviceView>,
    order: Seq<usize>,
    x: int,
    from: int,
) -> int
    decreases order.len() - from,
{
    if from < 0 || from >= order.len() {
        order.len() as int
    } else if devices[x].precedes(devices[order[from] as int]) {
        from
    } else {
        insertion_place(devices, order, x, from + 1)
    }
}

/// The places of the first `k` devices in the order of the report:
/// each device in turn is put before the first that it comes before.
pub open spec fn order_upto(devices: Seq<DeviceView>, k: nat) -> Seq<usize>
    decreases k,
{
    if k == 0 {
        Seq::empty()
    } else {
        let before = order_upto(devices, (k - 1) as nat);
        before.insert(insertion_place(devices, before, k - 1, 0), (k - 1) as usize)
    }
}

/// The places of the devices in the order of the report.
pub open spec fn report_order(devices: Seq<DeviceView>) -> Seq<usize> {
    order_upto(devices, devices.len())
}

/// Whether `order` holds each of the first `k` places once, the devices
/// at them in the order of the report, and devices of which neither comes
/// before the other in the order in which they were first seen.
pub open spec fn is_sorted_order(devices: Seq<DeviceView>, order: Seq<usize>, k: nat) -> bool {
    &&& order.len() == k
    &&& forall|a: int| 0 <= a < order.len() ==> (#[trigger] order[a]) < k
    &&& forall|a: int, b: int|
        0 <= a < b < order.len() ==> (#[trigger] order[a]) != (#[trigger] order[b])
    &&& forall|a: int, b: int|
        0 <= a < b < order.len() ==> !devices[(#[trigger] order[b]) as int].precedes(
            devices[(#[trigger] order[a]) as int],
        )
    &&& forall|a: int, b: int|
        0 <= a < b < order.len() && !devices[(#[trigger] order[a]) as int].precedes(
            devices[(#[trigger] order[b]) as int],
        ) ==> order[a] < order[b]
}

/// The place of insertion is after every device that the new one does
/// not come before, and at a device that the new one comes before.
pub proof fn lemma_insertion_place(devices: Seq<DeviceView>, order: Seq<usize>, x: int, from: int)
    requires
        0 <= from <= order.len(),
    ensures
        from <= insertion_place(devices, order, x, from) <= order.len(),
        forall|q: int|
            from <= q < insertion_place(devices, order, x, from) ==> !devices[x].precedes(
                devices[(#[trigger] order[q]) as int],
            ),
        insertion_place(devices, order, x, from) < order.len() ==> devices[x].precedes(
            devices[order[insertion_place(devices, order, x, from)] as int],
        ),
    decreases order.len() - from,
{
    if from < order.len() && !devices[x].precedes(devices[order[from] as int]) {
        lemma_insertion_place(devices, order, x, from + 1);
    }
}

/// The order of the report holds every device once, is sorted, and
/// keeps devices of equal standing in the order in which they were first seen.
pub proof fn lemma_order_sorted(devices: Seq<DeviceView>, k: nat)
    requires
        k <= devices.len(),
        devices.len() <= usize::MAX,
    ensures
        is_sorted_order(devices, order_upto(devices, k), k),
        forall|j: usize| j < k ==> #[trigger] order_upto(devices, k).contains(j),
    decreases k,
{
    if k > 0 {
        lemma_order_sorted(devices, (k - 1) as nat);
        let before = order_upto(devices, (k - 1) as nat);
        let x = k - 1;
        let p = insertion_place(devices, before, x, 0);
        lemma_insertion_place(devices, before, x, 0);
        let after = order_upto(devices, k);
        assert(after == before.insert(p, x as usize));
        assert forall|j: usize| j < k implies #[trigger] after.contains(j) by {
            if j == x {
                assert(after[p] == j);
            } else {
                assert(before.contains(j));
                let q = choose|q: int| 0 <= q < before.len() && before[q] == j;
                if q < p {
                    assert(after[q] == j);
                } else {
                    assert(after[q + 1] == j);
                }
            }
        }
        assert forall|a: int| 0 <= a < after.len() implies (#[trigger] after[a]) < k by {
            if a < p {
                assert(after[a] == before[a]);
            } else if a > p {
                assert(after[a] == before[a - 1]);
            }
        }
        assert forall|a: int, b: int| 0 <= a < b < after.len() implies (#[trigger] after[a]) != (
        #[trigger] after[b]) && !devices[after[b] as int].precedes(devices[after[a] as int]) && (
        !devices[after[a] as int].precedes(devices[after[b] as int]) ==> after[a] < after[b]) by {
            let ia = if a < p {
                a
            } else {
                a - 1
            };
            let ib = if b < p {
                b
            } else {
                b - 1
            };
            if a != p {
                assert(after[a] == before[ia]);
            }
            if b != p {
                assert(after[b] == before[ib]);
            }
            if a == p {
                // the new device before one that was there
                assert(devices[x].precedes(devices[before[p] as int]));
                lemma_precedes_is_order(devices[x], devices[before[p] as int], devices[before[ib] as int]);
                lemma_precedes_is_order(devices[before[ib] as int], devices[x], devices[before[p] as int]);
                if ib > p {
                    assert(!devices[before[ib] as int].precedes(devices[before[p] as int]));
                }
            } else if b == p {
                // one that was there before the new device
                assert(!devices[x].precedes(devices[before[ia] as int]));
            }
        }
    }
}

/// Whether `a`, of which the names are shown as `a_names`, comes before
/// `b`, of which the names are shown as `b_names`.
fn device_precedes(
    a: &DeviceInformation,
    a_names: &String,
    b: &DeviceInformation,
    b_names: &String,
) -> (r: bool)
    requires
        a_names@ == names_text(a@.names),
        b_names@ == names_text(b@.names),
    ensures
        r == a@.precedes(b@),
{
    let a_empty = a.bredr_acls.len() == 0 && a.le_acls.len() == 0;
    let b_empty = b.bredr_acls.len() == 0 && b.le_acls.len() == 0;
    if a_empty != b_empty {
        return !a_empty;
    }
    let a_nameless = a.names.len() == 0;
    let b_nameless = b.names.len() == 0;
    if a_nameless != b_nameless {
        return !a_nameless;
    }
    let a_rank = a.address_type.order_rank();
    let b_rank = b.address_type.order_rank();
    if a_rank != b_rank {
        return a_rank < b_rank;
    }
    if *a_names != *b_names {
        return str_precedes(a_names.as_str(), b_names.as_str());
    }
    address_precedes(&a.address, &b.address)
}

/// The places of the devices in the order in which the report shows them.
pub fn sort_addresses(devices: &Vec<DeviceInformation>) -> (order: Vec<usize>)
    ensures
        order@ == report_order(device_views(devices@)),
        is_sorted_order(device_views(devices@), order@, devices.len() as nat),
{
    let ghost views = device_views(devices@);
    let mut texts: Vec<String> = Vec::new();
    let mut i: usize = 0;
    while i < devices.len()
        invariant
            i <= devices.len(),
            views == device_views(devices@),
            texts.len() == i,
            forall|j: int| 0 <= j < i ==> (#[trigger] texts@[j])@ == names_text(views[j].names),
        decreases devices.len() - i,
    {
        texts.push(DeviceInformation::print_names(&devices[i].names));
        i += 1;
    }
    let mut order: Vec<usize> = Vec::new();
    let mut k: usize = 0;
    while k < devices.len()
        invariant
            k <= devices.len(),
            views == device_views(devices@),
            texts.len() == devices.len(),
            forall|j: int|
                0 <= j < devices.len() ==> (#[trigger] texts@[j])@ == names_text(views[j].names),
            order@ == order_upto(views, k as nat),
            is_sorted_order(views, order@, k as nat),
        decreases devices.len() - k,
    {
        let mut p: usize = 0;
        while p < order.len() && !device_precedes(
            &devices[k],
            &texts[k],
            &devices[order[p]],
            &texts[order[p]],
        )
            invariant
                p <= order.len(),
                k < devices.len(),
                views == device_views(devices@),
                texts.len() == devices.len(),
                forall|j: int|
                    0 <= j < devices.len() ==> (#[trigger] texts@[j])@ == names_text(
                        views[j].names,
                    ),
                is_sorted_order(views, order@, k as nat),
                insertion_place(views, order@, k as int, 0) == insertion_place(
                    views,
                    order@,
                    k as int,
                    p as int,
                ),
            decreases order.len() - p,
        {
            p += 1;
        }
        proof {
            lemma_order_sorted(views, (k + 1) as nat);
        }
        order.insert(p, k);
        k += 1;
    }
    order
}

} // verus!
