//! One-line text summaries of scanned peripherals, and of lists of them.

use vstd::prelude::*;

use crate::properties::{Peripheral, PropertiesView};
use crate::render::{decimal_text, push_decimal_i16, push_text};
use crate::selection::views;

verus! {

/// The one-line summary of a peripheral:
/// `name [id=.., rssi=.., connectable=..]`, with `(unknown)` for a missing
/// name and `?` for a missing signal strength.
pub open spec fn summary_text(p: PropertiesView) -> Seq<char> {
    (match p.local_name {
        Some(n) => n,
        None => "(unknown)"@,
    }) + " [id="@ + p.id + ", rssi="@ + (match p.rssi {
        Some(r) => decimal_text(r as int),
        None => "?"@,
    }) + ", connectable="@ + (if p.is_connectable {
        "true"@
    } else {
        "false"@
    }) + "]"@
}

/// The summaries of a list of peripherals, one per line.
pub open spec fn joined_summaries(s: Seq<PropertiesView>) -> Seq<char>
    decreases s.len(),
{
    if s.len() == 0 {
        Seq::empty()
    } else if s.len() == 1 {
        summary_text(s[0])
    } else {
        joined_summaries(s.drop_last()) + "\n"@ + summary_text(s.last())
    }
}

/// The text of a list of peripherals: one summary per line, or
/// `(no peripherals)` for an empty list.
pub open spec fn lines_text(s: Seq<PropertiesView>) -> Seq<char> {
    if s.len() == 0 {
        "(no peripherals)"@
    } else {
        joined_summaries(s)
    }
}

impl Peripheral {
    /// Append the one-line summary of the peripheral.
    pub fn push_summary(&self, out: &mut String)
        ensures
            final(out)@ == old(out)@ + summary_text(self@),
    {
        let p = &self.properties;
        match &p.local_name {
            Some(n) => push_text(out, n.as_str()),
            None => push_text(out, "(unknown)"),
        }
        push_text(out, " [id=");
        push_text(out, p.id.as_str());
        push_text(out, ", rssi=");
        match p.rssi {
            Some(r) => push_decimal_i16(out, r),
            None => push_text(out, "?"),
        }
        push_text(out, ", connectable=");
        if p.is_connectable {
            push_text(out, "true");
        } else {
            push_text(out, "false");
        }
        push_text(out, "]");
        assert(out@ =~= old(out)@ + summary_text(self@));
    }

    /// The one-line summary of the peripheral.
    pub fn summary(&self) -> (r: String)
        ensures
            r@ == summary_text(self@),
    {
        let mut out = String::new();
        self.push_summary(&mut out);
        assert(out@ =~= summary_text(self@));
        out
    }
}

/// The text of a list of peripherals: one summary per line, or
/// `(no peripherals)` for an empty list.
pub fn display_lines(peripherals: &[Peripheral]) -> (r: String)
    ensures
        r@ == lines_text(views(peripherals@)),
{
    let ghost vs = views(peripherals@);
    let mut out = String::new();
    if peripherals.len() == 0 {
        push_text(&mut out, "(no peripherals)");
        assert(out@ =~= lines_text(vs));
        return out;
    }
    let mut i: usize = 0;
    while i < peripherals.len()
        invariant
            vs == views(peripherals@),
            i <= peripherals@.len(),
            peripherals@.len() > 0,
            out@ == joined_summaries(vs.take(i as int)),
        decreases peripherals@.len() - i,
    {
        if i > 0 {
            push_text(&mut out, "\n");
        }
        peripherals[i].push_summary(&mut out);
        proof {
            let t = vs.take(i + 1);
            assert(t.drop_last() =~= vs.take(i as int));
            assert(t.last() == peripherals@[i as int]@);
            assert(out@ =~= joined_summaries(t));
        }
        i += 1;
    }
    assert(vs.take(peripherals@.len() as int) =~= vs);
    out
}

} // verus!
