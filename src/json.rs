//! Locating the JSON objects that a backend response carries among its prose.
//!
//! The scan works on bytes: the structural characters of JSON are ASCII, and no byte
//! of a multi-byte UTF-8 sequence is, so every span found starts and ends on a
//! character boundary.

use vstd::prelude::*;
use vstd::string::*;

verus! {

pub open spec fn open_brace() -> u8 {
    123u8
}

pub open spec fn close_brace() -> u8 {
    125u8
}

pub open spec fn quote() -> u8 {
    34u8
}

pub open spec fn backslash() -> u8 {
    92u8
}

/// Where a scan stands: how deep in objects, and whether inside a string literal,
/// just after a backslash there.
pub struct ScanState {
    pub depth: nat,
    pub in_string: bool,
    pub escaped: bool,
}

/// The scan after one more byte.
pub open spec fn scan_step(st: ScanState, b: u8) -> ScanState {
    if st.in_string {
        if st.escaped {
            ScanState { escaped: false, ..st }
        } else if b == backslash() {
            ScanState { escaped: true, ..st }
        } else if b == quote() {
            ScanState { in_string: false, ..st }
        } else {
            st
        }
    } else if b == quote() {
        ScanState { in_string: true, ..st }
    } else if b == open_brace() {
        ScanState { depth: st.depth + 1, ..st }
    } else if b == close_brace() && st.depth > 0 {
        ScanState { depth: (st.depth - 1) as nat, ..st }
    } else {
        st
    }
}

/// The scan of `bytes[start..k]`.
pub open spec fn scan(bytes: Seq<u8>, start: int, k: int) -> ScanState
    decreases k - start,
{
    if k <= start {
        ScanState { depth: 0, in_string: false, escaped: false }
    } else {
        scan_step(scan(bytes, start, k - 1), bytes[k - 1])
    }
}

/// The first end, from `k` on, at which the object opened at `start` is closed.
pub open spec fn close_from(bytes: Seq<u8>, start: int, k: int) -> Option<int>
    decreases bytes.len() + 1 - k,
{
    if k > bytes.len() || k <= start {
        None
    } else if scan(bytes, start, k).depth == 0 {
        Some(k)
    } else {
        close_from(bytes, start, k + 1)
    }
}

/// Where the object opened at `start` ends (exclusive), if it is closed at all.
pub open spec fn object_end(bytes: Seq<u8>, start: int) -> Option<int> {
    close_from(bytes, start, start + 1)
}

/// The `(start, end)` spans of the closed objects that open at `i` or later, in order
/// of their start.
pub open spec fn candidates_from(bytes: Seq<u8>, i: int) -> Seq<(int, int)>
    decreases bytes.len() - i,
{
    if i >= bytes.len() || i < 0 {
        Seq::empty()
    } else if bytes[i] == open_brace() && object_end(bytes, i) is Some {
        seq![(i, object_end(bytes, i)->Some_0)] + candidates_from(bytes, i + 1)
    } else {
        candidates_from(bytes, i + 1)
    }
}

proof fn lemma_scan_depth_bound(bytes: Seq<u8>, start: int, k: int)
    requires
        start <= k,
    ensures
        scan(bytes, start, k).depth <= k - start,
    decreases k - start,
{
    if k > start {
        lemma_scan_depth_bound(bytes, start, k - 1);
    }
}

/// Where the object that opens at `start` ends (exclusive), if it is closed at all.
pub fn find_object_end(bytes: &[u8], start: usize) -> (r: Option<usize>)
    requires
        start < bytes@.len(),
        bytes@[start as int] == open_brace(),
    ensures
        r matches Some(e) ==> object_end(bytes@, start as int) == Some(e as int) && start < e <= bytes@.len(),
        r is None ==> object_end(bytes@, start as int) is None,
{
    let ghost b = bytes@;
    let n = bytes.len();
    let mut depth: usize = 1;
    let mut in_string = false;
    let mut escaped = false;
    let mut k: usize = start + 1;
    proof {
        assert(scan(b, start as int, start as int + 1) == scan_step(scan(b, start as int, start as int), b[start as int]));
    }
    while k <= n
        invariant
            n == bytes@.len(),
            start < k <= bytes@.len() + 1,
            b == bytes@,
            start < b.len(),
            k <= b.len() ==> scan(b, start as int, k as int) == (ScanState { depth: depth as nat, in_string, escaped }),
            depth <= k - start,
            object_end(b, start as int) == close_from(b, start as int, k as int),
            k <= b.len() + 1,
        decreases bytes@.len() + 1 - k,
    {
        if depth == 0 {
            return Some(k);
        }
        if k == n {
            proof {
                assert(close_from(b, start as int, k as int + 1) == None::<int>);
            }
            return None;
        }
        let c = bytes[k];
        if in_string {
            if escaped {
                escaped = false;
            } else if c == 92u8 {
                escaped = true;
            } else if c == 34u8 {
                in_string = false;
            }
        } else if c == 34u8 {
            in_string = true;
        } else if c == 123u8 {
            depth = depth + 1;
        } else if c == 125u8 && depth > 0 {
            depth = depth - 1;
        }
        k = k + 1;
    }
    None
}

/// The spans `(start, end)`, in bytes with `end` exclusive, of every closed object in
/// `text`, in order of their start; nested objects are listed after the one around
/// them.
pub fn json_object_spans(text: &str) -> (r: Vec<(usize, usize)>)
    ensures
        r@.map_values(|p: (usize, usize)| (p.0 as int, p.1 as int)) == candidates_from(text.spec_bytes(), 0),
{
    let bytes = text.as_bytes();
    let ghost b = bytes@;
    let mut found: Vec<(usize, usize)> = Vec::new();
    let mut i: usize = bytes.len();
    proof {
        assert(found@.map_values(|p: (usize, usize)| (p.0 as int, p.1 as int)) =~= candidates_from(b, i as int));
    }
    while i > 0
        invariant
            i <= bytes@.len(),
            b == bytes@,
            found@.map_values(|p: (usize, usize)| (p.0 as int, p.1 as int)) == candidates_from(b, i as int),
        decreases i,
    {
        i = i - 1;
        let ghost prev = found@;
        if bytes[i] == 123u8 {
            match find_object_end(bytes, i) {
                Some(e) => {
                    found.insert(0, (i, e));
                    proof {
                        assert(found@.map_values(|p: (usize, usize)| (p.0 as int, p.1 as int)) =~= seq![(i as int, e as int)]
                            + prev.map_values(|p: (usize, usize)| (p.0 as int, p.1 as int)));
                    }
                },
                None => {},
            }
        }
    }
    found
}

} // verus!
