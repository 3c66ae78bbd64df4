//! Recognition of the lines a device sends: which plots a line feeds, and
//! with which reading text.

use vstd::prelude::*;
use crate::config::PlotConfig;
use crate::text::{split_once, split_once_at, trim, trimmed};

verus! {

/// What one received line says about one plot: the plot's name (empty when
/// the line feeds no plot), the reading text after the plot's key (none when
/// the line feeds no plot), and the whole trimmed line.
#[derive(Debug)]
pub struct LineRecord {
    pub plot_name: String,
    pub value_text: Option<String>,
    pub raw_line: String,
}

/// The view of an optional string.
pub open spec fn opt_view(o: Option<String>) -> Option<Seq<char>> {
    match o {
        Some(s) => Some(s@),
        None => None,
    }
}

/// The view of a record: plot name, reading text, trimmed line.
pub open spec fn record_view(r: LineRecord) -> (Seq<char>, Option<Seq<char>>, Seq<char>) {
    (r.plot_name@, opt_view(r.value_text), r.raw_line@)
}

/// The views of a sequence of records.
pub open spec fn records_view(v: Seq<LineRecord>) -> Seq<(Seq<char>, Option<Seq<char>>, Seq<char>)> {
    Seq::new(v.len(), |i: int| record_view(v[i]))
}

/// For each plot, in order, whose key occurs in `raw`: its name and the
/// trimmed text after the first occurrence of the key.
pub open spec fn readings(raw: Seq<char>, plots: Seq<PlotConfig>) -> Seq<(Seq<char>, Seq<char>)>
    decreases plots.len(),
{
    if plots.len() == 0 {
        Seq::empty()
    } else {
        let prev = readings(raw, plots.drop_last());
        match split_once_at(raw, plots.last().data_key@) {
            Some(parts) => prev.push((plots.last().name@, trimmed(parts.1))),
            None => prev,
        }
    }
}

/// The records that a received line gives: one per plot it feeds, or a
/// single record with no plot when it feeds none.
pub open spec fn line_records(line: Seq<char>, plots: Seq<PlotConfig>) -> Seq<
    (Seq<char>, Option<Seq<char>>, Seq<char>),
> {
    let raw = trimmed(line);
    let rs = readings(raw, plots);
    if rs.len() == 0 {
        seq![(Seq::<char>::empty(), None::<Seq<char>>, raw)]
    } else {
        Seq::new(rs.len(), |i: int| (rs[i].0, Some(rs[i].1), raw))
    }
}

/// The records for a line received from the device, given the plots of all
/// polled commands in order.
pub fn recognize_line(line: &str, plots: &Vec<PlotConfig>) -> (r: Vec<LineRecord>)
    ensures
        records_view(r@) == line_records(line@, plots@),
{
    let raw = trim(line);
    let ghost rawv = raw@;
    let mut r: Vec<LineRecord> = Vec::new();
    let n = plots.len();
    let mut i: usize = 0;
    while i < n
        invariant
            i <= n == plots@.len(),
            raw@ == rawv,
            rawv == trimmed(line@),
            ({
                let rs = readings(rawv, plots@.take(i as int));
                records_view(r@) =~= Seq::new(rs.len(), |j: int| (rs[j].0, Some(rs[j].1), rawv))
            }),
        decreases n - i,
    {
        let plot = &plots[i];
        let ghost rs0 = readings(rawv, plots@.take(i as int));
        let ghost r0 = r@;
        assert(plots@.take(i + 1).drop_last() =~= plots@.take(i as int));
        assert(plots@.take(i + 1).last() == *plot);
        match split_once(raw.as_str(), plot.data_key.as_str()) {
            Some((_before, after)) => {
                let value = trim(after.as_str());
                r.push(
                    LineRecord {
                        plot_name: plot.name.clone(),
                        value_text: Some(value),
                        raw_line: raw.clone(),
                    },
                );
                let ghost rs1 = readings(rawv, plots@.take(i + 1));
                assert(rs1 == rs0.push((plot.name@, value@)));
                assert(records_view(r@) =~= Seq::new(
                    rs1.len(),
                    |j: int| (rs1[j].0, Some(rs1[j].1), rawv),
                )) by {
                    assert(r@.drop_last() == r0);
                    assert(records_view(r0).len() == rs0.len());
                    assert forall|j: int| 0 <= j < rs1.len() implies records_view(r@)[j] == (
                        rs1[j].0,
                        Some(rs1[j].1),
                        rawv,
                    ) by {
                        if j < r0.len() {
                            assert(r@[j] == r0[j]);
                            assert(records_view(r0)[j] == (rs0[j].0, Some(rs0[j].1), rawv));
                            assert(rs1[j] == rs0[j]);
                        }
                    }
                }
            },
            None => {
                assert(readings(rawv, plots@.take(i + 1)) == rs0);
            },
        }
        i = i + 1;
    }
    assert(plots@.take(n as int) =~= plots@);
    if r.len() == 0 {
        r.push(LineRecord { plot_name: String::new(), value_text: None, raw_line: raw });
        assert(records_view(r@) =~= line_records(line@, plots@));
    }
    r
}

} // verus!
