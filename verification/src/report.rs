//! Render the per-package outcomes as a textual report.
//!
//! For each package: one line with the rolled-up status glyph, the
//! package name and the number of releases; then one line per release
//! with its version string and an inline list of the skipped platforms;
//! then one line per non-skipped outcome with its glyph, platform and
//! message. The report's length scales with the interesting events, not
//! with the platform count.

use vstd::prelude::*;

use crate::status::{
    spec_rollup, OutcomeView, PackagingStatus, Status, VersionOutcomesView, VersionPackagingStatus,
};
use crate::strutil::{spec_dec, usize_to_string};

verus! {

/// All statuses of all releases, flattened in order.
pub open spec fn spec_statuses_of(vss: Seq<VersionOutcomesView>) -> Seq<Status>
    decreases vss.len(),
{
    if vss.len() == 0 {
        Seq::empty()
    } else {
        spec_statuses_of(vss.drop_last()) + vss.last().status.map_values(
            |o: OutcomeView| o.status,
        )
    }
}

/// The skipped platforms of one release, joined by ", ".
pub open spec fn spec_skipped_list(os: Seq<OutcomeView>) -> Seq<char>
    decreases os.len(),
{
    if os.len() == 0 {
        Seq::empty()
    } else {
        let rest = spec_skipped_list(os.drop_last());
        let o = os.last();
        if o.status is Skipped {
            if rest.len() == 0 {
                o.platform.spec_str()
            } else {
                rest + ", "@ + o.platform.spec_str()
            }
        } else {
            rest
        }
    }
}

/// The report line of one non-skipped outcome.
pub open spec fn spec_outcome_line(o: OutcomeView) -> Seq<char> {
    "        "@ + o.status.spec_glyph() + ": "@ + o.platform.spec_str() + " "@ + o.message + "\n"@
}

/// The report lines of one release's non-skipped outcomes, in order.
pub open spec fn spec_outcome_lines(os: Seq<OutcomeView>) -> Seq<char>
    decreases os.len(),
{
    if os.len() == 0 {
        Seq::empty()
    } else {
        spec_outcome_lines(os.drop_last()) + (if os.last().status is Skipped {
            Seq::<char>::empty()
        } else {
            spec_outcome_line(os.last())
        })
    }
}

/// The block of one release: its version line (with the inline skipped
/// list) and the lines of its non-skipped outcomes.
pub open spec fn spec_version_block(v: VersionOutcomesView) -> Seq<char> {
    let version = match v.version {
        Some(s) => s,
        None => Seq::<char>::empty(),
    };
    let sk = spec_skipped_list(v.status);
    "    "@ + version + (if sk.len() == 0 {
        Seq::<char>::empty()
    } else {
        " skipped: "@ + sk
    }) + "\n"@ + spec_outcome_lines(v.status)
}

/// The blocks of all releases of one package, in order.
pub open spec fn spec_version_blocks(vss: Seq<VersionOutcomesView>) -> Seq<char>
    decreases vss.len(),
{
    if vss.len() == 0 {
        Seq::empty()
    } else {
        spec_version_blocks(vss.drop_last()) + spec_version_block(vss.last())
    }
}

/// The block of one package: the rolled-up status glyph, the name, the
/// release count, and the release blocks.
pub open spec fn spec_package_block(name: Seq<char>, vss: Seq<VersionOutcomesView>) -> Seq<char> {
    spec_rollup(spec_statuses_of(vss)).spec_glyph() + ": "@ + name + " ("@ + spec_dec(vss.len())
        + " packages)\n"@ + spec_version_blocks(vss)
}

/// The whole report, package blocks in input order.
pub open spec fn spec_report(rs: Seq<(Seq<char>, Seq<VersionOutcomesView>)>) -> Seq<char>
    decreases rs.len(),
{
    if rs.len() == 0 {
        Seq::empty()
    } else {
        spec_report(rs.drop_last()) + spec_package_block(rs.last().0, rs.last().1)
    }
}

/// The views of a report's input.
pub open spec fn report_view(rs: Seq<(String, Vec<VersionPackagingStatus>)>) -> Seq<
    (Seq<char>, Seq<VersionOutcomesView>),
> {
    rs.map_values(
        |e: (String, Vec<VersionPackagingStatus>)|
            (e.0@, e.1@.map_values(|v: VersionPackagingStatus| v@)),
    )
}

/// Roll all outcomes of all releases up into one package status.
fn rollup_statuses(vss: &Vec<VersionPackagingStatus>) -> (r: Status)
    ensures
        r == spec_rollup(spec_statuses_of(vss@.map_values(|v: VersionPackagingStatus| v@))),
{
    let ghost vv = vss@.map_values(|v: VersionPackagingStatus| v@);
    let mut acc = Status::Skipped;
    let mut i: usize = 0;
    while i < vss.len()
        invariant
            vv == vss@.map_values(|v: VersionPackagingStatus| v@),
            i <= vss@.len(),
            acc == spec_rollup(spec_statuses_of(vv.subrange(0, i as int))),
        decreases vss@.len() - i,
    {
        let ghost cur = vv[i as int].status.map_values(|o: OutcomeView| o.status);
        let ghost base = spec_statuses_of(vv.subrange(0, i as int));
        let vs = &vss[i];
        let m = vs.status.len();
        let mut j: usize = 0;
        while j < m
            invariant
                vv == vss@.map_values(|v: VersionPackagingStatus| v@),
                i < vss@.len(),
                cur == vv[i as int].status.map_values(|o: OutcomeView| o.status),
                base == spec_statuses_of(vv.subrange(0, i as int)),
                m == vss@[i as int].status@.len(),
                m == cur.len(),
                j <= m,
                acc == spec_rollup(base + cur.subrange(0, j as int)),
            decreases m - j,
        {
            let s = vss[i].status[j].status;
            proof {
                assert(vv[i as int].status[j as int] == vss@[i as int].status@[j as int]@);
                assert(cur[j as int] == s);
                assert((base + cur.subrange(0, j + 1)).drop_last() =~= base + cur.subrange(
                    0,
                    j as int,
                ));
                assert((base + cur.subrange(0, j + 1)).last() == cur[j as int]);
            }
            acc = crate::status::combine(acc, s);
            j = j + 1;
        }
        proof {
            assert(cur.subrange(0, cur.len() as int) =~= cur);
            assert(vv.subrange(0, i + 1).drop_last() =~= vv.subrange(0, i as int));
            assert(vv.subrange(0, i + 1).last() == vv[i as int]);
            assert(spec_statuses_of(vv.subrange(0, i + 1)) == base + cur);
        }
        i = i + 1;
    }
    proof {
        assert(vv.subrange(0, vv.len() as int) =~= vv);
    }
    acc
}

/// Build the inline list of skipped platforms of one release.
fn skipped_list(vs: &Vec<PackagingStatus>) -> (r: String)
    ensures
        r@ == spec_skipped_list(vs@.map_values(|o: PackagingStatus| o@)),
{
    let ghost ov = vs@.map_values(|o: PackagingStatus| o@);
    let mut r = String::new();
    let mut i: usize = 0;
    while i < vs.len()
        invariant
            ov == vs@.map_values(|o: PackagingStatus| o@),
            i <= vs@.len(),
            r@ == spec_skipped_list(ov.subrange(0, i as int)),
        decreases vs@.len() - i,
    {
        let ghost pre = ov.subrange(0, i as int);
        let ghost cur = ov.subrange(0, i + 1);
        proof {
            assert(cur.drop_last() =~= pre);
            assert(cur.last() == ov[i as int]);
            assert(ov[i as int] == vs@[i as int]@);
        }
        let o = &vs[i];
        if matches!(o.status, Status::Skipped) {
            if r.as_str().is_empty() {
                r = o.platform.as_str().to_owned();
            } else {
                r.append(", ");
                r.append(o.platform.as_str());
            }
        }
        i = i + 1;
    }
    proof {
        assert(ov.subrange(0, ov.len() as int) =~= ov);
    }
    r
}

/// Append the lines of one release's non-skipped outcomes.
fn outcome_lines(vs: &Vec<PackagingStatus>, out: &mut String)
    ensures
        final(out)@ == old(out)@ + spec_outcome_lines(vs@.map_values(|o: PackagingStatus| o@)),
{
    let ghost ov = vs@.map_values(|o: PackagingStatus| o@);
    let ghost base = out@;
    let mut i: usize = 0;
    while i < vs.len()
        invariant
            ov == vs@.map_values(|o: PackagingStatus| o@),
            i <= vs@.len(),
            out@ == base + spec_outcome_lines(ov.subrange(0, i as int)),
        decreases vs@.len() - i,
    {
        let ghost pre = ov.subrange(0, i as int);
        let ghost cur = ov.subrange(0, i + 1);
        proof {
            assert(cur.drop_last() =~= pre);
            assert(cur.last() == ov[i as int]);
            assert(ov[i as int] == vs@[i as int]@);
        }
        let o = &vs[i];
        if !matches!(o.status, Status::Skipped) {
            out.append("        ");
            out.append(o.status.glyph());
            out.append(": ");
            out.append(o.platform.as_str());
            out.append(" ");
            out.append(o.message.as_str());
            out.append("\n");
        }
        proof {
            assert(out@ =~= base + spec_outcome_lines(cur));
        }
        i = i + 1;
    }
    proof {
        assert(ov.subrange(0, ov.len() as int) =~= ov);
    }
}

/// Append the block of one release.
fn render_version(v: &VersionPackagingStatus, out: &mut String)
    ensures
        final(out)@ == old(out)@ + spec_version_block(v@),
{
    let ghost base = out@;
    out.append("    ");
    match &v.version {
        Some(s) => {
            out.append(s.as_str());
        },
        None => {},
    }
    let ghost version = (match v@.version {
        Some(s) => s,
        None => Seq::<char>::empty(),
    });
    proof {
        assert(out@ =~= base + "    "@ + version);
    }
    let sk = skipped_list(&v.status);
    if !sk.as_str().is_empty() {
        out.append(" skipped: ");
        out.append(sk.as_str());
    }
    let ghost skipped = (if spec_skipped_list(v@.status).len() == 0 {
        Seq::<char>::empty()
    } else {
        " skipped: "@ + spec_skipped_list(v@.status)
    });
    proof {
        assert(sk@ == spec_skipped_list(v@.status));
        assert(out@ =~= base + "    "@ + version + skipped);
    }
    out.append("\n");
    let ghost mid = out@;
    proof {
        assert(mid =~= base + "    "@ + version + skipped + "\n"@);
    }
    outcome_lines(&v.status, out);
    proof {
        assert(out@ == mid + spec_outcome_lines(v@.status));
        assert(out@ =~= base + spec_version_block(v@));
    }
}

/// Append the block of one package.
fn render_package(name: &String, vss: &Vec<VersionPackagingStatus>, out: &mut String)
    ensures
        final(out)@ == old(out)@ + spec_package_block(
            name@,
            vss@.map_values(|v: VersionPackagingStatus| v@),
        ),
{
    let ghost vv = vss@.map_values(|v: VersionPackagingStatus| v@);
    let ghost base = out@;
    let st = rollup_statuses(vss);
    out.append(st.glyph());
    out.append(": ");
    out.append(name.as_str());
    out.append(" (");
    let count = usize_to_string(vss.len());
    out.append(count.as_str());
    out.append(" packages)\n");
    let ghost header_done = out@;
    proof {
        assert(header_done =~= base + spec_rollup(spec_statuses_of(vv)).spec_glyph() + ": "@
            + name@ + " ("@ + spec_dec(vv.len()) + " packages)\n"@);
    }
    let mut i: usize = 0;
    while i < vss.len()
        invariant
            vv == vss@.map_values(|v: VersionPackagingStatus| v@),
            i <= vss@.len(),
            out@ == header_done + spec_version_blocks(vv.subrange(0, i as int)),
        decreases vss@.len() - i,
    {
        let ghost pre = vv.subrange(0, i as int);
        let ghost cur = vv.subrange(0, i + 1);
        proof {
            assert(cur.drop_last() =~= pre);
            assert(cur.last() == vv[i as int]);
            assert(vv[i as int] == vss@[i as int]@);
        }
        render_version(&vss[i], out);
        proof {
            assert(out@ =~= header_done + spec_version_blocks(cur));
        }
        i = i + 1;
    }
    proof {
        assert(vv.subrange(0, vv.len() as int) =~= vv);
        assert(out@ =~= base + spec_package_block(name@, vv));
    }
}

/// Render the whole report, package blocks in input order.
pub fn report_results(status: &Vec<(String, Vec<VersionPackagingStatus>)>) -> (r: String)
    ensures
        r@ == spec_report(report_view(status@)),
{
    let ghost rv = report_view(status@);
    let mut result = String::new();
    let mut i: usize = 0;
    while i < status.len()
        invariant
            rv == report_view(status@),
            i <= status@.len(),
            result@ == spec_report(rv.subrange(0, i as int)),
        decreases status@.len() - i,
    {
        let ghost pre = rv.subrange(0, i as int);
        let ghost cur = rv.subrange(0, i + 1);
        proof {
            assert(cur.drop_last() =~= pre);
            assert(cur.last() == rv[i as int]);
            assert(rv[i as int] == (
                status@[i as int].0@,
                status@[i as int].1@.map_values(|v: VersionPackagingStatus| v@),
            ));
        }
        let e = &status[i];
        render_package(&e.0, &e.1, &mut result);
        proof {
            assert(result@ =~= spec_report(cur));
        }
        i = i + 1;
    }
    proof {
        assert(rv.subrange(0, rv.len() as int) =~= rv);
    }
    result
}

} // verus!
