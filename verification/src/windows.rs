//! Window registry: stacking order and point lookup over a freshly
//! enumerated list of on-screen windows.

use vstd::prelude::*;
use vstd::seq_lib::group_to_multiset_ensures;

use crate::CaptureError;
use crate::WindowData;

verus! {

broadcast use group_to_multiset_ensures;

/// The window's rectangle contains the point, with INCLUSIVE bounds on all
/// four edges: a point on the right or bottom border still counts as inside.
pub open spec fn window_contains(w: WindowData, x: int, y: int) -> bool {
    w.x <= x <= w.x + w.width && w.y <= y <= w.y + w.height
}

/// The windows are ordered front to back: z never increases along the list.
pub open spec fn sorted_desc_by_z(s: Seq<WindowData>) -> bool {
    forall|i: int, j: int| 0 <= i < j < s.len() ==> s[i].z >= s[j].z
}

/// Orders windows by descending z (topmost first). The result holds exactly
/// the given windows, as a multiset.
pub fn sort_windows_by_z(windows: &Vec<WindowData>) -> (r: Vec<WindowData>)
    ensures
        sorted_desc_by_z(r@),
        r@.to_multiset() == windows@.to_multiset(),
{
    let mut out: Vec<WindowData> = Vec::new();
    let mut i: usize = 0;
    proof {
        assert(windows@.take(0) =~= Seq::<WindowData>::empty());
        assert(out@.to_multiset() =~= windows@.take(0).to_multiset());
    }
    while i < windows.len()
        invariant
            i <= windows@.len(),
            sorted_desc_by_z(out@),
            out@.to_multiset() == windows@.take(i as int).to_multiset(),
        decreases windows@.len() - i,
    {
        let w = windows[i].clone();
        let mut p: usize = 0;
        while p < out.len() && out[p].z >= w.z
            invariant
                p <= out@.len(),
                forall|q: int| 0 <= q < p ==> out@[q].z >= w.z,
            decreases out@.len() - p,
        {
            p += 1;
        }
        let ghost old_out = out@;
        out.insert(p, w);
        proof {
            assert(out@ == old_out.insert(p as int, w));
            assert(old_out.insert(p as int, w).to_multiset() == old_out.to_multiset().insert(w));
            assert(windows@.take(i as int).push(windows@[i as int]).to_multiset()
                == windows@.take(i as int).to_multiset().insert(windows@[i as int]));
            assert(windows@.take(i + 1) =~= windows@.take(i as int).push(windows@[i as int]));
            assert forall|a: int, b: int| 0 <= a < b < out@.len() implies out@[a].z >= out@[b].z by {
                if a < p && b < p {
                } else if a < p && b == p {
                } else if a == p && b > p {
                    assert(old_out[p as int].z < w.z || p == old_out.len());
                } else if a < p && b > p {
                    assert(out@[b] == old_out[b - 1]);
                } else if a > p && b > p {
                    assert(out@[a] == old_out[a - 1] && out@[b] == old_out[b - 1]);
                } else {
                    assert(a == p && b > p);
                }
            }
        }
        i += 1;
    }
    proof {
        assert(windows@.take(windows@.len() as int) =~= windows@);
    }
    out
}

/// Scans the windows front to back and returns the frontmost window whose
/// rectangle (inclusive on all four edges) contains `(x, y)`: the returned
/// window contains the point and no window with a strictly higher z does.
pub fn find_topmost_at_point(windows: &Vec<WindowData>, x: u32, y: u32) -> (r: Result<
    WindowData,
    CaptureError,
>)
    ensures
        match r {
            Ok(w) => {
                &&& windows@.contains(w)
                &&& window_contains(w, x as int, y as int)
                &&& forall|i: int|
                    0 <= i < windows@.len() && windows@[i].z > w.z ==> !window_contains(
                        windows@[i],
                        x as int,
                        y as int,
                    )
            },
            Err(e) => {
                &&& e == CaptureError::NotFound
                &&& forall|i: int|
                    0 <= i < windows@.len() ==> !window_contains(windows@[i], x as int, y as int)
            },
        },
{
    let sorted = sort_windows_by_z(windows);
    let xi = x as i64;
    let yi = y as i64;
    let mut j: usize = 0;
    while j < sorted.len()
        invariant
            j <= sorted@.len(),
            sorted_desc_by_z(sorted@),
            sorted@.to_multiset() == windows@.to_multiset(),
            xi == x as int,
            yi == y as int,
            forall|k: int| 0 <= k < j ==> !window_contains(sorted@[k], x as int, y as int),
        decreases sorted@.len() - j,
    {
        let w = &sorted[j];
        let wx = w.x as i64;
        let wy = w.y as i64;
        if wx <= xi && xi <= wx + w.width as i64 && wy <= yi && yi <= wy + w.height as i64 {
            let found = sorted[j].clone();
            proof {
                assert(sorted@[j as int] == found);
                assert(sorted@.contains(found));
                assert(sorted@.to_multiset().count(found) > 0);
                assert(windows@.to_multiset().count(found) > 0);
                assert(windows@.contains(found));
                assert forall|i: int|
                    0 <= i < windows@.len() && windows@[i].z > found.z implies !window_contains(
                    windows@[i],
                    x as int,
                    y as int,
                ) by {
                    let v = windows@[i];
                    assert(windows@.contains(v));
                    assert(windows@.to_multiset().count(v) > 0);
                    assert(sorted@.to_multiset().count(v) > 0);
                    assert(sorted@.contains(v));
                    let l = choose|l: int| 0 <= l < sorted@.len() && sorted@[l] == v;
                    if l >= j {
                        assert(sorted@[j as int].z >= sorted@[l].z);
                    }
                }
            }
            return Ok(found);
        }
        j += 1;
    }
    proof {
        assert forall|i: int| 0 <= i < windows@.len() implies !window_contains(
            windows@[i],
            x as int,
            y as int,
        ) by {
            let v = windows@[i];
            assert(windows@.contains(v));
            assert(windows@.to_multiset().count(v) > 0);
            assert(sorted@.to_multiset().count(v) > 0);
            assert(sorted@.contains(v));
            let l = choose|l: int| 0 <= l < sorted@.len() && sorted@[l] == v;
            assert(!window_contains(sorted@[l], x as int, y as int));
        }
    }
    Err(CaptureError::NotFound)
}

} // verus!
