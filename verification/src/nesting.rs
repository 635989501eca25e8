//! How deep the arrays and objects of a JSON text nest.
//!
//! The parser calls itself once for every array or object that is open, so a
//! text is handed to it only where this depth is within [`MAX_DEPTH`].

use vstd::prelude::*;

verus! {

/// The deepest nesting of arrays and objects that a body may have.
pub const MAX_DEPTH: usize = 128;

/// Where a scan of a text stands.
pub ghost struct Scan {
    /// How many arrays and objects are open.
    pub depth: nat,
    /// The most that were open at once.
    pub deepest: nat,
    /// The scan is inside a string.
    pub in_string: bool,
    /// The scan is behind a backslash inside a string.
    pub escaped: bool,
}

/// The scan of a text before its first byte.
pub open spec fn start() -> Scan {
    Scan { depth: 0, deepest: 0, in_string: false, escaped: false }
}

/// The scan after one more byte.
///
/// Outside a string, `[` and `{` open, `]` and `}` close what is open, and
/// `"` begins a string. Inside a string, `"` ends it unless a backslash
/// stands before it.
pub open spec fn step(scan: Scan, byte: u8) -> Scan {
    if scan.in_string {
        if scan.escaped {
            Scan { escaped: false, ..scan }
        } else if byte == 0x5c {
            Scan { escaped: true, ..scan }
        } else if byte == 0x22 {
            Scan { in_string: false, ..scan }
        } else {
            scan
        }
    } else if byte == 0x22 {
        Scan { in_string: true, ..scan }
    } else if byte == 0x5b || byte == 0x7b {
        Scan {
            depth: scan.depth + 1,
            deepest: if scan.depth + 1 > scan.deepest {
                scan.depth + 1
            } else {
                scan.deepest
            },
            ..scan
        }
    } else if (byte == 0x5d || byte == 0x7d) && scan.depth > 0 {
        Scan { depth: (scan.depth - 1) as nat, ..scan }
    } else {
        scan
    }
}

/// The scan after the first `n` bytes of a text.
pub open spec fn scanned(bytes: Seq<u8>, n: int) -> Scan
    decreases n,
{
    if n <= 0 {
        start()
    } else {
        step(scanned(bytes, n - 1), bytes[n - 1])
    }
}

/// The most arrays and objects that are open at once in a text.
pub open spec fn nesting(bytes: Seq<u8>) -> nat {
    scanned(bytes, bytes.len() as int).deepest
}

/// What was open at once early on was open at once in the whole.
pub proof fn lemma_deepest_grows(bytes: Seq<u8>, n: int, m: int)
    requires
        0 <= n <= m,
    ensures
        scanned(bytes, n).deepest <= scanned(bytes, m).deepest,
        scanned(bytes, m).depth <= scanned(bytes, m).deepest,
    decreases m,
{
    if m > 0 {
        lemma_deepest_grows(bytes, if n < m { n } else { m - 1 }, m - 1);
    }
}

/// Whether the arrays and objects of a text nest no deeper than `limit`.
pub fn nests_within(bytes: &[u8], limit: usize) -> (within: bool)
    ensures
        within == (nesting(bytes@) <= limit),
{
    let mut depth: usize = 0;
    let mut in_string = false;
    let mut escaped = false;
    let mut i: usize = 0;
    while i < bytes.len()
        invariant
            i <= bytes.len(),
            depth == scanned(bytes@, i as int).depth,
            in_string == scanned(bytes@, i as int).in_string,
            escaped == scanned(bytes@, i as int).escaped,
            scanned(bytes@, i as int).deepest <= limit,
            depth <= limit,
        decreases bytes.len() - i,
    {
        let byte = bytes[i];
        proof {
            lemma_deepest_grows(bytes@, i as int, i as int);
        }
        if in_string {
            if escaped {
                escaped = false;
            } else if byte == 0x5c {
                escaped = true;
            } else if byte == 0x22 {
                in_string = false;
            }
        } else if byte == 0x22 {
            in_string = true;
        } else if byte == 0x5b || byte == 0x7b {
            if depth == limit {
                proof {
                    lemma_deepest_grows(bytes@, i as int + 1, bytes.len() as int);
                }
                return false;
            }
            depth += 1;
        } else if (byte == 0x5d || byte == 0x7d) && depth > 0 {
            depth -= 1;
        }
        i += 1;
    }
    true
}

} // verus!
