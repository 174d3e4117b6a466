//! Port-range management: building the fifteen 16-port blocks a PSID owns
//! under the standard MAP-E port-set partitioning, and carving single ports
//! out of a range sequence.

use vstd::prelude::*;

use crate::types::MapEError;

verus! {

/// An inclusive port range is well formed when it is non-empty.
pub open spec fn range_wf(r: (u16, u16)) -> bool {
    r.0 <= r.1
}

/// Every range of the sequence is well formed.
pub open spec fn ranges_wf(rs: Seq<(u16, u16)>) -> bool {
    forall|i: int| 0 <= i < rs.len() ==> range_wf(#[trigger] rs[i])
}

/// Whether `port` lies inside the inclusive range `r`.
pub open spec fn in_range(r: (u16, u16), port: u16) -> bool {
    r.0 <= port && port <= r.1
}

/// Whether some range of the sequence contains `port`.
pub open spec fn in_ranges(rs: Seq<(u16, u16)>, port: u16) -> bool {
    exists|i: int| 0 <= i < rs.len() && in_range(#[trigger] rs[i], port)
}

/// Block `i` (counted from 0; block index `i + 1` of the port space) of the
/// PSID's port set: 16 consecutive ports at offset `psid * 16` within the
/// 4096-port block.
pub open spec fn spec_port_range(psid: u8, i: int) -> (u16, u16) {
    (((i + 1) * 0x1000 + psid * 0x10) as u16, ((i + 1) * 0x1000 + psid * 0x10 + 0xf) as u16)
}

/// The fifteen ranges assigned to `psid`, in ascending block order;
/// block 0 (ports below 0x1000) is never assigned.
pub open spec fn spec_port_ranges(psid: u8) -> Seq<(u16, u16)> {
    Seq::new(15, |i: int| spec_port_range(psid, i))
}

/// Law: whatever the PSID, its default port set holds exactly fifteen
/// ranges, each exactly sixteen ports wide (`end - start == 15`), pairwise
/// disjoint and in ascending order, and none reaching below port 0x1000.
pub proof fn lemma_port_ranges_shape(psid: u8)
    ensures
        spec_port_ranges(psid).len() == 15,
        forall|i: int| 0 <= i < 15 ==> (#[trigger] spec_port_ranges(psid)[i]).1 - spec_port_ranges(
            psid,
        )[i].0 == 15,
        forall|i: int| 0 <= i < 15 ==> (#[trigger] spec_port_ranges(psid)[i]).0 >= 0x1000,
        forall|i: int, j: int|
            0 <= i < j < 15 ==> (#[trigger] spec_port_ranges(psid)[i]).1 < (
            #[trigger] spec_port_ranges(psid)[j]).0,
        ranges_wf(spec_port_ranges(psid)),
        ranges_sorted(spec_port_ranges(psid)),
{
    assert forall|i: int| 0 <= i < 15 implies {
        &&& (#[trigger] spec_port_ranges(psid)[i]).1 - spec_port_ranges(psid)[i].0 == 15
        &&& spec_port_ranges(psid)[i].0 >= 0x1000
        &&& range_wf(spec_port_ranges(psid)[i])
    } by {
        assert(0 <= (i + 1) * 0x1000 + psid * 0x10 <= 0xfff0);
        assert(spec_port_ranges(psid)[i].0 == (i + 1) * 0x1000 + psid * 0x10);
        assert(spec_port_ranges(psid)[i].1 == (i + 1) * 0x1000 + psid * 0x10 + 0xf);
    }
    assert forall|i: int, j: int|
        0 <= i < j < 15 implies (#[trigger] spec_port_ranges(psid)[i]).1 < (
    #[trigger] spec_port_ranges(psid)[j]).0 by {
        assert(spec_port_ranges(psid)[i].1 == (i + 1) * 0x1000 + psid * 0x10 + 0xf);
        assert(spec_port_ranges(psid)[j].0 == (j + 1) * 0x1000 + psid * 0x10);
        assert((i + 1) * 0x1000 + 0x1000 <= (j + 1) * 0x1000);
    }
}

/// The default port set of any PSID is well formed.
pub proof fn lemma_port_ranges_wf(psid: u8)
    ensures
        ranges_wf(spec_port_ranges(psid)),
{
    lemma_port_ranges_shape(psid);
}

/// Builds the fifteen default ranges for `psid`.
pub fn default_port_ranges(psid: u8) -> (r: Vec<(u16, u16)>)
    ensures
        r@ == spec_port_ranges(psid),
{
    let base: u16 = (psid as u16) * 0x10;
    let mut v: Vec<(u16, u16)> = Vec::new();
    let mut i: u16 = 1;
    while i <= 15
        invariant
            1 <= i <= 16,
            base == psid * 0x10,
            v@.len() == i - 1,
            forall|j: int| 0 <= j < i - 1 ==> v@[j] == spec_port_range(psid, j),
        decreases 16 - i,
    {
        let start: u16 = i * 0x1000 + base;
        v.push((start, start + 0xf));
        i = i + 1;
    }
    proof {
        assert(v@ =~= spec_port_ranges(psid));
    }
    v
}

/// What excluding `port` leaves of the single range `r`: the range shrunk
/// at the touched edge, split around an interior port, dropped when `port`
/// was its sole member, or kept unchanged when `port` lies outside it.
pub open spec fn exclude_from_range(r: (u16, u16), port: u16) -> Seq<(u16, u16)> {
    if port == r.0 && port == r.1 {
        Seq::empty()
    } else if port == r.0 {
        seq![((r.0 + 1) as u16, r.1)]
    } else if port == r.1 {
        seq![(r.0, (r.1 - 1) as u16)]
    } else if r.0 < port && port < r.1 {
        seq![(r.0, (port - 1) as u16), ((port + 1) as u16, r.1)]
    } else {
        seq![r]
    }
}

/// The whole sequence after excluding `port` from every range that
/// contains it, empty ranges dropped, order preserved.
pub open spec fn spec_exclude(rs: Seq<(u16, u16)>, port: u16) -> Seq<(u16, u16)>
    decreases rs.len(),
{
    if rs.len() == 0 {
        Seq::empty()
    } else {
        exclude_from_range(rs[0], port) + spec_exclude(rs.drop_first(), port)
    }
}

proof fn lemma_exclude_snoc(s: Seq<(u16, u16)>, x: (u16, u16), port: u16)
    ensures
        spec_exclude(s + seq![x], port) == spec_exclude(s, port) + exclude_from_range(x, port),
    decreases s.len(),
{
    if s.len() == 0 {
        let t = s + seq![x];
        assert(t[0] == x);
        assert(s =~= Seq::<(u16, u16)>::empty());
        assert(t.drop_first() =~= Seq::<(u16, u16)>::empty());
        assert(spec_exclude(Seq::<(u16, u16)>::empty(), port) == Seq::<(u16, u16)>::empty());
        assert(spec_exclude(t, port) == exclude_from_range(x, port) + Seq::<(u16, u16)>::empty());
        assert(spec_exclude(t, port) =~= spec_exclude(s, port) + exclude_from_range(x, port));
    } else {
        assert((s + seq![x])[0] == s[0]);
        assert((s + seq![x]).drop_first() =~= s.drop_first() + seq![x]);
        lemma_exclude_snoc(s.drop_first(), x, port);
        assert(spec_exclude(s + seq![x], port) =~= spec_exclude(s, port) + exclude_from_range(
            x,
            port,
        ));
    }
}

/// A port lies in a concatenation of range sequences exactly when it lies
/// in one of the parts.
proof fn lemma_in_ranges_concat(a: Seq<(u16, u16)>, b: Seq<(u16, u16)>, port: u16)
    ensures
        in_ranges(a + b, port) <==> (in_ranges(a, port) || in_ranges(b, port)),
{
    if in_ranges(a + b, port) {
        let i = choose|i: int| 0 <= i < (a + b).len() && in_range(#[trigger] (a + b)[i], port);
        if i < a.len() {
            assert(in_range(a[i], port));
        } else {
            assert(in_range(b[i - a.len()], port));
        }
    }
    if in_ranges(a, port) {
        let i = choose|i: int| 0 <= i < a.len() && in_range(#[trigger] a[i], port);
        assert(in_range((a + b)[i], port));
    }
    if in_ranges(b, port) {
        let i = choose|i: int| 0 <= i < b.len() && in_range(#[trigger] b[i], port);
        assert(in_range((a + b)[i + a.len()], port));
    }
}

/// Law: excluding a port that no range contains leaves the sequence
/// exactly as it was.
pub proof fn lemma_exclude_untouched(rs: Seq<(u16, u16)>, port: u16)
    requires
        ranges_wf(rs),
        !in_ranges(rs, port),
    ensures
        spec_exclude(rs, port) == rs,
    decreases rs.len(),
{
    if rs.len() == 0 {
        assert(spec_exclude(rs, port) =~= rs);
    } else {
        assert(!in_range(rs[0], port));
        assert(range_wf(rs[0]));
        assert(exclude_from_range(rs[0], port) == seq![rs[0]]);
        assert forall|j: int| 0 <= j < rs.drop_first().len() implies !in_range(
            #[trigger] rs.drop_first()[j],
            port,
        ) by {
            assert(rs.drop_first()[j] == rs[j + 1]);
        }
        assert forall|j: int| 0 <= j < rs.drop_first().len() implies range_wf(
            #[trigger] rs.drop_first()[j],
        ) by {
            assert(rs.drop_first()[j] == rs[j + 1]);
        }
        lemma_exclude_untouched(rs.drop_first(), port);
        assert(spec_exclude(rs, port) =~= rs);
    }
}

/// The backbone of the exclusion laws: when the range at `i` is the only
/// one containing `port`, exclusion rewrites exactly that position and
/// copies everything around it.
pub proof fn lemma_exclude_at(rs: Seq<(u16, u16)>, port: u16, i: int)
    requires
        ranges_wf(rs),
        0 <= i < rs.len(),
        forall|j: int| 0 <= j < rs.len() && j != i ==> !in_range(#[trigger] rs[j], port),
    ensures
        spec_exclude(rs, port) == rs.take(i) + exclude_from_range(rs[i], port) + rs.skip(i + 1),
    decreases i,
{
    if i == 0 {
        assert forall|j: int| 0 <= j < rs.drop_first().len() implies (!in_range(
            #[trigger] rs.drop_first()[j],
            port,
        ) && range_wf(rs.drop_first()[j])) by {
            assert(rs.drop_first()[j] == rs[j + 1]);
        }
        assert(!in_ranges(rs.drop_first(), port));
        lemma_exclude_untouched(rs.drop_first(), port);
        assert(rs.drop_first() =~= rs.skip(1));
        assert(spec_exclude(rs, port) =~= rs.take(0) + exclude_from_range(rs[0], port) + rs.skip(
            1,
        ));
    } else {
        assert(!in_range(rs[0], port));
        assert(range_wf(rs[0]));
        assert(exclude_from_range(rs[0], port) == seq![rs[0]]);
        assert forall|j: int| 0 <= j < rs.drop_first().len() implies range_wf(
            #[trigger] rs.drop_first()[j],
        ) by {
            assert(rs.drop_first()[j] == rs[j + 1]);
        }
        assert forall|j: int|
            0 <= j < rs.drop_first().len() && j != i - 1 implies !in_range(
            #[trigger] rs.drop_first()[j],
            port,
        ) by {
            assert(rs.drop_first()[j] == rs[j + 1]);
        }
        lemma_exclude_at(rs.drop_first(), port, i - 1);
        assert(rs.drop_first()[i - 1] == rs[i]);
        assert(spec_exclude(rs, port) == seq![rs[0]] + (rs.drop_first().take(i - 1)
            + exclude_from_range(rs[i], port) + rs.drop_first().skip(i)));
        assert(spec_exclude(rs, port) =~= rs.take(i) + exclude_from_range(rs[i], port) + rs.skip(
            i + 1,
        ));
    }
}

/// Law: excluding the start of the only range containing it, when that
/// range is wider than one port, shrinks the range to `(start + 1, end)`
/// and touches nothing else.
pub proof fn lemma_exclude_at_start(rs: Seq<(u16, u16)>, port: u16, i: int)
    requires
        ranges_wf(rs),
        0 <= i < rs.len(),
        forall|j: int| 0 <= j < rs.len() && j != i ==> !in_range(#[trigger] rs[j], port),
        rs[i].0 == port,
        port < rs[i].1,
    ensures
        spec_exclude(rs, port) == rs.update(i, (((port + 1) as u16, rs[i].1))),
{
    lemma_exclude_at(rs, port, i);
    assert(spec_exclude(rs, port) =~= rs.update(i, (((port + 1) as u16, rs[i].1))));
}

/// Law: excluding the end of the only range containing it, when that
/// range is wider than one port, shrinks the range to `(start, end - 1)`
/// and touches nothing else.
pub proof fn lemma_exclude_at_end(rs: Seq<(u16, u16)>, port: u16, i: int)
    requires
        ranges_wf(rs),
        0 <= i < rs.len(),
        forall|j: int| 0 <= j < rs.len() && j != i ==> !in_range(#[trigger] rs[j], port),
        rs[i].0 < port,
        port == rs[i].1,
    ensures
        spec_exclude(rs, port) == rs.update(i, ((rs[i].0, (port - 1) as u16))),
{
    lemma_exclude_at(rs, port, i);
    assert(spec_exclude(rs, port) =~= rs.update(i, ((rs[i].0, (port - 1) as u16))));
}

/// Law: excluding the sole port of a width-one range removes that range
/// from the sequence entirely.
pub proof fn lemma_exclude_sole_port(rs: Seq<(u16, u16)>, port: u16, i: int)
    requires
        ranges_wf(rs),
        0 <= i < rs.len(),
        forall|j: int| 0 <= j < rs.len() && j != i ==> !in_range(#[trigger] rs[j], port),
        rs[i].0 == port,
        rs[i].1 == port,
    ensures
        spec_exclude(rs, port) == rs.remove(i),
{
    lemma_exclude_at(rs, port, i);
    assert(spec_exclude(rs, port) =~= rs.remove(i));
}

/// Law: excluding a strictly interior port splits the one range that
/// contains it into two adjacent ranges, in place; together with the
/// excluded port between them they cover exactly what the original range
/// covered.
pub proof fn lemma_exclude_split(rs: Seq<(u16, u16)>, port: u16, i: int)
    requires
        ranges_wf(rs),
        0 <= i < rs.len(),
        forall|j: int| 0 <= j < rs.len() && j != i ==> !in_range(#[trigger] rs[j], port),
        rs[i].0 < port,
        port < rs[i].1,
    ensures
        spec_exclude(rs, port) == rs.take(i) + seq![
            (rs[i].0, (port - 1) as u16),
            ((port + 1) as u16, rs[i].1),
        ] + rs.skip(i + 1),
        spec_exclude(rs, port).len() == rs.len() + 1,
        spec_exclude(rs, port)[i] == (rs[i].0, (port - 1) as u16),
        spec_exclude(rs, port)[i + 1] == ((port + 1) as u16, rs[i].1),
        spec_exclude(rs, port)[i].1 + 2 == spec_exclude(rs, port)[i + 1].0,
        forall|q: u16|
            in_range(#[trigger] rs[i], q) <==> (in_range(spec_exclude(rs, port)[i], q) || q == port
                || in_range(spec_exclude(rs, port)[i + 1], q)),
{
    lemma_exclude_at(rs, port, i);
}

/// The ranges stand in ascending order, pairwise disjoint, each ending
/// strictly before the next begins.
pub open spec fn ranges_sorted(rs: Seq<(u16, u16)>) -> bool {
    forall|i: int, j: int| 0 <= i < j < rs.len() ==> (#[trigger] rs[i]).1 < (#[trigger] rs[j]).0
}

/// In a sorted sequence no two ranges share a port, so whichever range
/// contains one is the only one: the exclusion laws apply to it.
pub proof fn lemma_sorted_unique_holder(rs: Seq<(u16, u16)>, port: u16, i: int)
    requires
        ranges_sorted(rs),
        0 <= i < rs.len(),
        in_range(rs[i], port),
    ensures
        forall|j: int| 0 <= j < rs.len() && j != i ==> !in_range(#[trigger] rs[j], port),
{
    assert forall|j: int| 0 <= j < rs.len() && j != i implies !in_range(#[trigger] rs[j], port) by {
        if j < i {
            assert(rs[j].1 < rs[i].0);
        } else {
            assert(rs[i].1 < rs[j].0);
        }
    }
}

/// Law: exclusion keeps the range list in ascending, pairwise-disjoint
/// order, and no surviving range begins before the first original one.
pub proof fn lemma_exclude_sorted(rs: Seq<(u16, u16)>, port: u16)
    requires
        ranges_wf(rs),
        ranges_sorted(rs),
    ensures
        ranges_sorted(spec_exclude(rs, port)),
        rs.len() > 0 ==> forall|k: int|
            0 <= k < spec_exclude(rs, port).len() ==> (#[trigger] spec_exclude(rs, port)[k]).0
                >= rs[0].0,
    decreases rs.len(),
{
    if rs.len() > 0 {
        let t = rs.drop_first();
        assert forall|j: int| 0 <= j < t.len() implies range_wf(#[trigger] t[j]) by {
            assert(t[j] == rs[j + 1]);
        }
        assert forall|i: int, j: int| 0 <= i < j < t.len() implies (#[trigger] t[i]).1 < (
        #[trigger] t[j]).0 by {
            assert(t[i] == rs[i + 1] && t[j] == rs[j + 1]);
        }
        lemma_exclude_sorted(t, port);
        let head = exclude_from_range(rs[0], port);
        let tail = spec_exclude(t, port);
        assert(range_wf(rs[0]));
        assert(head.len() <= 2);
        assert(forall|k: int|
            0 <= k < head.len() ==> rs[0].0 <= (#[trigger] head[k]).0 && head[k].1 <= rs[0].1);
        assert(head.len() == 2 ==> head[0].1 < head[1].0);
        assert(spec_exclude(rs, port) == head + tail);
        assert forall|k1: int, k2: int|
            0 <= k1 < k2 < spec_exclude(rs, port).len() implies (#[trigger] spec_exclude(
            rs,
            port,
        )[k1]).1 < (#[trigger] spec_exclude(rs, port)[k2]).0 by {
            if k2 < head.len() {
                assert(spec_exclude(rs, port)[k1] == head[k1]);
                assert(spec_exclude(rs, port)[k2] == head[k2]);
            } else if k1 >= head.len() {
                assert(spec_exclude(rs, port)[k1] == tail[k1 - head.len()]);
                assert(spec_exclude(rs, port)[k2] == tail[k2 - head.len()]);
            } else {
                assert(spec_exclude(rs, port)[k1] == head[k1]);
                assert(spec_exclude(rs, port)[k2] == tail[k2 - head.len()]);
                assert(t.len() > 0);
                assert(rs[0].1 < rs[1].0);
                assert(t[0] == rs[1]);
                assert(tail[k2 - head.len()].0 >= t[0].0);
            }
        }
        assert forall|k: int| 0 <= k < spec_exclude(rs, port).len() implies (
        #[trigger] spec_exclude(rs, port)[k]).0 >= rs[0].0 by {
            if k < head.len() {
                assert(spec_exclude(rs, port)[k] == head[k]);
            } else {
                assert(spec_exclude(rs, port)[k] == tail[k - head.len()]);
                assert(t.len() > 0);
                assert(tail[k - head.len()].0 >= t[0].0);
                assert(t[0] == rs[1]);
                assert(rs[0].1 < rs[1].0);
            }
        }
    }
}

/// Law: an excluded port lies in no range of the result, so excluding the
/// same port a second time must fail; and exclusion keeps every range
/// well formed.
pub proof fn lemma_excluded_port_gone(rs: Seq<(u16, u16)>, port: u16)
    requires
        ranges_wf(rs),
    ensures
        !in_ranges(spec_exclude(rs, port), port),
        ranges_wf(spec_exclude(rs, port)),
    decreases rs.len(),
{
    if rs.len() == 0 {
    } else {
        assert forall|j: int| 0 <= j < rs.drop_first().len() implies range_wf(
            #[trigger] rs.drop_first()[j],
        ) by {
            assert(rs.drop_first()[j] == rs[j + 1]);
        }
        lemma_excluded_port_gone(rs.drop_first(), port);
        let head = exclude_from_range(rs[0], port);
        assert(!in_ranges(head, port) && ranges_wf(head)) by {
            assert(range_wf(rs[0]));
            if head.len() >= 1 {
                assert(!in_range(head[0], port));
                assert(range_wf(head[0]));
            }
            if head.len() == 2 {
                assert(!in_range(head[1], port));
                assert(range_wf(head[1]));
            }
        }
        lemma_in_ranges_concat(head, spec_exclude(rs.drop_first(), port), port);
        assert forall|j: int| 0 <= j < spec_exclude(rs, port).len() implies range_wf(
            #[trigger] spec_exclude(rs, port)[j],
        ) by {
            if j < head.len() {
                assert(spec_exclude(rs, port)[j] == head[j]);
            } else {
                assert(spec_exclude(rs, port)[j] == spec_exclude(rs.drop_first(), port)[j
                    - head.len()]);
            }
        }
    }
}

/// Removes `port` from whichever ranges contain it, or reports
/// `PortNotInRange` and hands nothing back when none does.
pub fn exclude_port(ranges: &Vec<(u16, u16)>, port: u16) -> (r: Result<
    Vec<(u16, u16)>,
    MapEError,
>)
    requires
        ranges_wf(ranges@),
    ensures
        in_ranges(ranges@, port) ==> (r matches Ok(out) && out@ == spec_exclude(ranges@, port)
            && ranges_wf(out@)),
        !in_ranges(ranges@, port) ==> r == Err::<Vec<(u16, u16)>, MapEError>(
            MapEError::PortNotInRange { port },
        ),
{
    let mut out: Vec<(u16, u16)> = Vec::new();
    let mut changed: bool = false;
    let mut idx: usize = 0;
    while idx < ranges.len()
        invariant
            0 <= idx <= ranges@.len(),
            ranges_wf(ranges@),
            out@ == spec_exclude(ranges@.take(idx as int), port),
            ranges_wf(out@),
            changed ==> in_ranges(ranges@, port),
            !changed ==> forall|j: int| 0 <= j < idx ==> !in_range(#[trigger] ranges@[j], port),
        decreases ranges@.len() - idx,
    {
        let (start, end) = ranges[idx];
        proof {
            assert(ranges@.take(idx as int + 1) =~= ranges@.take(idx as int) + seq![
                ranges@[idx as int],
            ]);
            lemma_exclude_snoc(ranges@.take(idx as int), ranges@[idx as int], port);
        }
        if port == start && port == end {
            changed = true;
        } else if port == start {
            out.push((start + 1, end));
            changed = true;
        } else if port == end {
            out.push((start, end - 1));
            changed = true;
        } else if start < port && port < end {
            out.push((start, port - 1));
            out.push((port + 1, end));
            changed = true;
        } else {
            out.push((start, end));
        }
        idx = idx + 1;
    }
    proof {
        assert(ranges@.take(ranges@.len() as int) =~= ranges@);
    }
    if changed {
        Ok(out)
    } else {
        Err(MapEError::PortNotInRange { port })
    }
}

/// The result of excluding every port of `ports` in order, each exclusion
/// working on the output of the one before it; the first port that lies in
/// no range of its moment's sequence is the error.
pub open spec fn spec_exclude_all(rs: Seq<(u16, u16)>, ports: Seq<u16>) -> Result<
    Seq<(u16, u16)>,
    u16,
>
    decreases ports.len(),
{
    if ports.len() == 0 {
        Ok(rs)
    } else if !in_ranges(rs, ports[0]) {
        Err(ports[0])
    } else {
        spec_exclude_all(spec_exclude(rs, ports[0]), ports.drop_first())
    }
}

/// Excludes the given ports one after another, committing nothing when a
/// port is found in no range.
pub fn exclude_ports(ranges: Vec<(u16, u16)>, ports: &Vec<u16>) -> (r: Result<
    Vec<(u16, u16)>,
    MapEError,
>)
    requires
        ranges_wf(ranges@),
    ensures
        spec_exclude_all(ranges@, ports@) matches Ok(s) ==> (r matches Ok(out) && out@ == s
            && ranges_wf(out@)),
        spec_exclude_all(ranges@, ports@) matches Err(p) ==> r == Err::<
            Vec<(u16, u16)>,
            MapEError,
        >(MapEError::PortNotInRange { port: p }),
{
    let mut cur = ranges;
    let ghost orig = cur@;
    let mut k: usize = 0;
    proof {
        assert(ports@.skip(0) =~= ports@);
    }
    while k < ports.len()
        invariant
            0 <= k <= ports@.len(),
            ranges_wf(cur@),
            orig == ranges@,
            spec_exclude_all(orig, ports@) == spec_exclude_all(cur@, ports@.skip(k as int)),
        decreases ports@.len() - k,
    {
        proof {
            assert(ports@.skip(k as int)[0] == ports@[k as int]);
            assert(ports@.skip(k as int).drop_first() =~= ports@.skip(k as int + 1));
        }
        match exclude_port(&cur, ports[k]) {
            Ok(next) => {
                cur = next;
            },
            Err(e) => {
                proof {
                    assert(!in_ranges(cur@, ports@[k as int]));
                    assert(spec_exclude_all(cur@, ports@.skip(k as int)) == Err::<
                        Seq<(u16, u16)>,
                        u16,
                    >(ports@[k as int]));
                }
                return Err(e);
            },
        }
        k = k + 1;
    }
    proof {
        assert(ports@.skip(ports@.len() as int) =~= Seq::<u16>::empty());
    }
    Ok(cur)
}

} // verus!
