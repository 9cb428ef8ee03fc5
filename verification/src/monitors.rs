//! Monitor registry: lookups over a freshly enumerated list of displays.
//!
//! The platform layer enumerates the monitors anew for every operation and
//! hands the list in; nothing is cached here.

use vstd::prelude::*;

use crate::CaptureError;
use crate::MonitorData;

verus! {

/// The monitor's rectangle contains the point: origin inclusive, far edges
/// exclusive.
pub open spec fn monitor_contains(m: MonitorData, x: int, y: int) -> bool {
    m.x <= x < m.x + m.width && m.y <= y < m.y + m.height
}

/// `i` indexes the first monitor in `s` named `name`.
pub open spec fn first_with_name(s: Seq<MonitorData>, name: Seq<char>, i: int) -> bool {
    &&& 0 <= i < s.len()
    &&& s[i].name@ == name
    &&& forall|j: int| 0 <= j < i ==> s[j].name@ != name
}

/// `i` indexes the first monitor in `s` flagged primary.
pub open spec fn first_primary(s: Seq<MonitorData>, i: int) -> bool {
    &&& 0 <= i < s.len()
    &&& s[i].is_primary
    &&& forall|j: int| 0 <= j < i ==> !s[j].is_primary
}

/// `i` indexes the first monitor in `s` whose rectangle contains `(x, y)`.
pub open spec fn first_at_point(s: Seq<MonitorData>, x: int, y: int, i: int) -> bool {
    &&& 0 <= i < s.len()
    &&& monitor_contains(s[i], x, y)
    &&& forall|j: int| 0 <= j < i ==> !monitor_contains(s[j], x, y)
}

/// Exact-match lookup by display name; the first match wins.
pub fn find_by_name(monitors: &Vec<MonitorData>, name: &str) -> (r: Result<
    MonitorData,
    CaptureError,
>)
    ensures
        match r {
            Ok(m) => exists|i: int| first_with_name(monitors@, name@, i) && m == monitors@[i],
            Err(e) => {
                &&& e == CaptureError::NotFound
                &&& forall|i: int| 0 <= i < monitors@.len() ==> monitors@[i].name@ != name@
            },
        },
{
    let target = String::from_str(name);
    let mut j: usize = 0;
    while j < monitors.len()
        invariant
            j <= monitors@.len(),
            target@ == name@,
            forall|k: int| 0 <= k < j ==> monitors@[k].name@ != name@,
        decreases monitors@.len() - j,
    {
        if monitors[j].name == target {
            let m = monitors[j].clone();
            assert(first_with_name(monitors@, name@, j as int));
            return Ok(m);
        }
        j += 1;
    }
    Err(CaptureError::NotFound)
}

/// Returns the first monitor the platform flagged as primary.
pub fn find_primary(monitors: &Vec<MonitorData>) -> (r: Result<MonitorData, CaptureError>)
    ensures
        match r {
            Ok(m) => exists|i: int| first_primary(monitors@, i) && m == monitors@[i],
            Err(e) => {
                &&& e == CaptureError::NotFound
                &&& forall|i: int| 0 <= i < monitors@.len() ==> !monitors@[i].is_primary
            },
        },
{
    let mut j: usize = 0;
    while j < monitors.len()
        invariant
            j <= monitors@.len(),
            forall|k: int| 0 <= k < j ==> !monitors@[k].is_primary,
        decreases monitors@.len() - j,
    {
        if monitors[j].is_primary {
            let m = monitors[j].clone();
            assert(first_primary(monitors@, j as int));
            return Ok(m);
        }
        j += 1;
    }
    Err(CaptureError::NotFound)
}

/// Returns the first monitor whose rectangle contains the point `(x, y)`.
pub fn find_at_point(monitors: &Vec<MonitorData>, x: u32, y: u32) -> (r: Result<
    MonitorData,
    CaptureError,
>)
    ensures
        match r {
            Ok(m) => exists|i: int| first_at_point(monitors@, x as int, y as int, i) && m
                == monitors@[i],
            Err(e) => {
                &&& e == CaptureError::NotFound
                &&& forall|i: int|
                    0 <= i < monitors@.len() ==> !monitor_contains(
                        monitors@[i],
                        x as int,
                        y as int,
                    )
            },
        },
{
    let xi = x as i64;
    let yi = y as i64;
    let mut j: usize = 0;
    while j < monitors.len()
        invariant
            j <= monitors@.len(),
            xi == x as int,
            yi == y as int,
            forall|k: int| 0 <= k < j ==> !monitor_contains(monitors@[k], x as int, y as int),
        decreases monitors@.len() - j,
    {
        let m = &monitors[j];
        let mx = m.x as i64;
        let my = m.y as i64;
        if mx <= xi && xi < mx + m.width as i64 && my <= yi && yi < my + m.height as i64 {
            let found = monitors[j].clone();
            assert(first_at_point(monitors@, x as int, y as int, j as int));
            return Ok(found);
        }
        j += 1;
    }
    Err(CaptureError::NotFound)
}

/// Law: a point lookup answers with the monitor that contains the point, so
/// when exactly one monitor's rectangle contains `(x, y)`, the first
/// containing monitor — the one `find_at_point` returns — is that monitor.
pub proof fn lemma_at_point_unique(s: Seq<MonitorData>, x: int, y: int, i: int, j: int)
    requires
        first_at_point(s, x, y, i),
        0 <= j < s.len(),
        monitor_contains(s[j], x, y),
        forall|l: int| 0 <= l < s.len() && monitor_contains(s[l], x, y) ==> l == j,
    ensures
        i == j,
{
}

/// The widths of all monitors in `s`, summed.
pub open spec fn sum_widths(s: Seq<MonitorData>) -> int
    decreases s.len(),
{
    if s.len() == 0 {
        0
    } else {
        sum_widths(s.drop_last()) + s.last().width
    }
}

/// The greatest monitor height in `s`, or 0 when `s` is empty.
pub open spec fn max_height(s: Seq<MonitorData>) -> int
    decreases s.len(),
{
    if s.len() == 0 {
        0
    } else if s.last().height > max_height(s.drop_last()) {
        s.last().height as int
    } else {
        max_height(s.drop_last())
    }
}

/// All monitor names in `s`, in order, joined with `", "`.
pub open spec fn joined_names(s: Seq<MonitorData>) -> Seq<char>
    decreases s.len(),
{
    if s.len() == 0 {
        Seq::empty()
    } else if s.len() == 1 {
        s[0].name@
    } else {
        joined_names(s.drop_last()) + ", "@ + s.last().name@
    }
}

/// A synthetic "total desktop area": width is the SUM of all monitor widths,
/// height the MAX of all monitor heights, origin (0, 0), and the name all
/// monitor names joined with `", "`. It is an approximate size metric, not a
/// rectangle the monitors tile into.
pub fn working_area(monitors: &Vec<MonitorData>) -> (r: MonitorData)
    requires
        sum_widths(monitors@) <= u32::MAX,
    ensures
        r.width == sum_widths(monitors@),
        r.height == max_height(monitors@),
        r.x == 0,
        r.y == 0,
        r.name@ == joined_names(monitors@),
        !r.is_primary,
{
    let mut width: u32 = 0;
    let mut height: u32 = 0;
    let mut name = String::new();
    let mut j: usize = 0;
    while j < monitors.len()
        invariant
            j <= monitors@.len(),
            sum_widths(monitors@) <= u32::MAX,
            width == sum_widths(monitors@.take(j as int)),
            height == max_height(monitors@.take(j as int)),
            name@ == joined_names(monitors@.take(j as int)),
        decreases monitors@.len() - j,
    {
        let m = &monitors[j];
        proof {
            assert(monitors@.take(j + 1).drop_last() =~= monitors@.take(j as int));
            assert(monitors@.take(j + 1).last() == monitors@[j as int]);
            lemma_sum_widths_prefix(monitors@, j + 1);
        }
        width = width + m.width;
        if m.height > height {
            height = m.height;
        }
        if j > 0 {
            name.append(", ");
        }
        name.append(m.name.as_str());
        j += 1;
    }
    proof {
        assert(monitors@.take(monitors@.len() as int) =~= monitors@);
    }
    MonitorData { width, height, x: 0, y: 0, name, is_primary: false }
}

/// The width sum of a prefix never exceeds the width sum of the whole list.
proof fn lemma_sum_widths_prefix(s: Seq<MonitorData>, n: int)
    requires
        0 <= n <= s.len(),
    ensures
        sum_widths(s.take(n)) <= sum_widths(s),
    decreases s.len(),
{
    if s.len() == 0 {
    } else if n == s.len() {
        assert(s.take(n) =~= s);
    } else {
        assert(s.drop_last().take(n) =~= s.take(n));
        lemma_sum_widths_prefix(s.drop_last(), n);
    }
}

} // verus!
