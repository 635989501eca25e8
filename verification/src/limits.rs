//! The limits within which a body is handed to the parser.
//!
//! The parser keeps the keys of the objects that are open in one buffer and
//! addresses them with 16 bits, it counts the items of an array in 32 bits,
//! it gathers the digits of an exponent in a machine word without a test, and
//! it calls itself once for every array or object that is open. A body is
//! parsed only where none of these can go wrong: the keys of the objects
//! that are open at one place take no more than [`MAX_KEYS`] bytes together,
//! the body is no longer than [`MAX_BODY`] bytes, no exponent in it has more
//! than [`MAX_EXPONENT_DIGITS`] digits, and it nests no deeper than
//! [`MAX_DEPTH`].
//!
//! Where a `}` follows a `,`, which no JSON text has, the parser takes one
//! entry too many off its list of what is open, and what it then keeps as
//! keys is no longer what the text has as keys. Such a body is not parsed
//! either.

use crate::nesting::{nesting, nests_within, scanned, MAX_DEPTH};
use vstd::prelude::*;

verus! {

/// The most bytes that the keys of the objects open at one place may take
/// together: what 16 bits address.
pub const MAX_KEYS: usize = 65535;

/// The most bytes that a body may have: each item of an array takes a byte
/// at least, and 32 bits count them.
pub const MAX_BODY: usize = 4294967295;

/// The most digits that an exponent may have. A number of so many digits
/// fits a machine word of 32 bits.
pub const MAX_EXPONENT_DIGITS: usize = 9;

/// Where a scan for exponents stands.
pub ghost struct Run {
    /// The scan is behind the `e` of an exponent, its sign or its digits.
    pub open: bool,
    /// The scan is behind the `e` itself: a sign may follow.
    pub signable: bool,
    /// How many digits the exponent has so far.
    pub digits: nat,
    /// The most digits that an exponent had.
    pub longest: nat,
}

/// The scan for exponents before the first byte of a text.
pub open spec fn run_start() -> Run {
    Run { open: false, signable: false, digits: 0, longest: 0 }
}

/// The scan for exponents after one more byte, which stands inside a string
/// or not.
///
/// Outside a string, `e` and `E` begin an exponent, one `+` or `-` may follow
/// at once, and the digits that follow are counted. Any other byte ends the
/// exponent.
pub open spec fn run_step(run: Run, in_string: bool, byte: u8) -> Run {
    if in_string {
        Run { open: false, signable: false, digits: 0, ..run }
    } else if byte == 0x65 || byte == 0x45 {
        Run { open: true, signable: true, digits: 0, ..run }
    } else if run.open && run.signable && (byte == 0x2b || byte == 0x2d) {
        Run { signable: false, ..run }
    } else if run.open && 0x30 <= byte <= 0x39 {
        Run {
            signable: false,
            digits: run.digits + 1,
            longest: if run.digits + 1 > run.longest {
                run.digits + 1
            } else {
                run.longest
            },
            ..run
        }
    } else {
        Run { open: false, signable: false, digits: 0, ..run }
    }
}

/// The scan for exponents after the first `n` bytes of a text.
pub open spec fn run_at(bytes: Seq<u8>, n: int) -> Run
    decreases n,
{
    if n <= 0 {
        run_start()
    } else {
        run_step(run_at(bytes, n - 1), scanned(bytes, n - 1).in_string, bytes[n - 1])
    }
}

/// The most digits that an exponent of a text has.
pub open spec fn longest_exponent(bytes: Seq<u8>) -> nat {
    run_at(bytes, bytes.len() as int).longest
}

/// An exponent that was long early on is a long exponent of the whole.
pub proof fn lemma_longest_grows(bytes: Seq<u8>, n: int, m: int)
    requires
        0 <= n <= m,
    ensures
        run_at(bytes, n).longest <= run_at(bytes, m).longest,
        run_at(bytes, m).digits <= run_at(bytes, m).longest,
    decreases m,
{
    if m > 0 {
        lemma_longest_grows(bytes, if n < m { n } else { m - 1 }, m - 1);
    }
}

/// Whether no exponent of a text has more than `limit` digits.
pub fn exponents_within(bytes: &[u8], limit: usize) -> (within: bool)
    ensures
        within == (longest_exponent(bytes@) <= limit),
{
    let mut in_string = false;
    let mut escaped = false;
    let mut open = false;
    let mut signable = false;
    let mut digits: usize = 0;
    let mut i: usize = 0;
    while i < bytes.len()
        invariant
            i <= bytes.len(),
            in_string == scanned(bytes@, i as int).in_string,
            escaped == scanned(bytes@, i as int).escaped,
            open == run_at(bytes@, i as int).open,
            signable == run_at(bytes@, i as int).signable,
            digits == run_at(bytes@, i as int).digits,
            run_at(bytes@, i as int).longest <= limit,
            digits <= limit,
        decreases bytes.len() - i,
    {
        let byte = bytes[i];
        proof {
            lemma_longest_grows(bytes@, i as int, i as int);
        }
        if in_string {
            open = false;
            signable = false;
            digits = 0;
            if escaped {
                escaped = false;
            } else if byte == 0x5c {
                escaped = true;
            } else if byte == 0x22 {
                in_string = false;
            }
        } else {
            if byte == 0x65 || byte == 0x45 {
                open = true;
                signable = true;
                digits = 0;
            } else if open && signable && (byte == 0x2b || byte == 0x2d) {
                signable = false;
            } else if open && 0x30 <= byte && byte <= 0x39 {
                if digits == limit {
                    proof {
                        lemma_longest_grows(bytes@, i as int + 1, bytes.len() as int);
                    }
                    return false;
                }
                signable = false;
                digits += 1;
            } else {
                open = false;
                signable = false;
                digits = 0;
            }
            if byte == 0x22 {
                in_string = true;
            }
        }
        i += 1;
    }
    true
}

/// An array or object that is open.
pub ghost struct Level {
    /// It is an object.
    pub object: bool,
    /// How many bytes the key takes whose member the scan is in: the bytes
    /// between its quotes, as they stand in the text.
    pub key: nat,
}

/// Where a scan for keys stands.
pub ghost struct Keys {
    /// The arrays and objects that are open, the innermost last.
    pub levels: Seq<Level>,
    /// The scan is behind the `{` of an object or behind a `,` in one: a key
    /// comes next.
    pub expecting: bool,
    /// The scan is behind a `,` in an object, with nothing but blanks since.
    pub comma: bool,
    /// A `}` followed a `,` somewhere.
    pub dangling: bool,
    /// The scan is inside a key.
    pub in_key: bool,
    /// How many bytes of that key are read.
    pub count: nat,
    /// The most bytes that open keys took together.
    pub heaviest: nat,
}

/// How many bytes the keys of the open objects take together.
pub open spec fn sum_keys(levels: Seq<Level>) -> nat
    decreases levels.len(),
{
    if levels.len() == 0 {
        0
    } else {
        sum_keys(levels.drop_last()) + levels.last().key
    }
}

/// How many bytes the open keys take, with the key that is being read.
pub open spec fn weight(keys: Keys) -> nat {
    sum_keys(keys.levels) + keys.count
}

/// The levels with another key for the innermost.
pub open spec fn with_key(levels: Seq<Level>, key: nat) -> Seq<Level> {
    if levels.len() == 0 {
        levels
    } else {
        levels.drop_last().push(Level { object: levels.last().object, key })
    }
}

/// The scan for keys before the first byte of a text.
pub open spec fn keys_start() -> Keys {
    Keys {
        levels: Seq::empty(),
        expecting: false,
        comma: false,
        dangling: false,
        in_key: false,
        count: 0,
        heaviest: 0,
    }
}

/// The scan for keys after one more byte, but for the most that was seen.
///
/// Outside a string, `{` and `[` open a level, `}` and `]` close one, and a
/// `,` in an object ends the member and its key. The string that follows
/// the `{` of an object, or a `,` in one, is a key. Its bytes are counted up
/// to the quote that ends it.
pub open spec fn keys_move(keys: Keys, in_string: bool, escaped: bool, byte: u8) -> Keys {
    if in_string {
        if !keys.in_key {
            keys
        } else if !escaped && byte == 0x22 {
            Keys { levels: with_key(keys.levels, keys.count), in_key: false, count: 0, ..keys }
        } else {
            Keys { count: keys.count + 1, ..keys }
        }
    } else if byte == 0x22 {
        if keys.expecting && keys.levels.len() > 0 && keys.levels.last().object {
            Keys { in_key: true, count: 0, expecting: false, comma: false, ..keys }
        } else {
            Keys { expecting: false, comma: false, ..keys }
        }
    } else if byte == 0x7b {
        Keys {
            levels: keys.levels.push(Level { object: true, key: 0 }),
            expecting: true,
            comma: false,
            ..keys
        }
    } else if byte == 0x5b {
        Keys {
            levels: keys.levels.push(Level { object: false, key: 0 }),
            expecting: false,
            comma: false,
            ..keys
        }
    } else if (byte == 0x7d || byte == 0x5d) && keys.levels.len() > 0 {
        Keys {
            levels: keys.levels.drop_last(),
            expecting: false,
            comma: false,
            dangling: keys.dangling || (keys.comma && byte == 0x7d),
            ..keys
        }
    } else if byte == 0x2c && keys.levels.len() > 0 && keys.levels.last().object {
        Keys { levels: with_key(keys.levels, 0), expecting: true, comma: true, ..keys }
    } else {
        keys
    }
}

/// The scan for keys after one more byte.
pub open spec fn keys_step(keys: Keys, in_string: bool, escaped: bool, byte: u8) -> Keys {
    let next = keys_move(keys, in_string, escaped, byte);
    Keys {
        heaviest: if weight(next) > keys.heaviest {
            weight(next)
        } else {
            keys.heaviest
        },
        ..next
    }
}

/// The scan for keys after the first `n` bytes of a text.
pub open spec fn keys_at(bytes: Seq<u8>, n: int) -> Keys
    decreases n,
{
    if n <= 0 {
        keys_start()
    } else {
        keys_step(
            keys_at(bytes, n - 1),
            scanned(bytes, n - 1).in_string,
            scanned(bytes, n - 1).escaped,
            bytes[n - 1],
        )
    }
}

/// The most bytes that the keys of the objects open at one place take
/// together in a text.
pub open spec fn heaviest_keys(bytes: Seq<u8>) -> nat {
    keys_at(bytes, bytes.len() as int).heaviest
}

/// Somewhere in a text a `}` follows a `,` with nothing but blanks between.
pub open spec fn dangling_comma(bytes: Seq<u8>) -> bool {
    keys_at(bytes, bytes.len() as int).dangling
}

/// What the open keys took early on, they took in the whole, and a `,`
/// that dangled early on dangles in the whole; a key is read only inside an
/// object.
pub proof fn lemma_heaviest_grows(bytes: Seq<u8>, n: int, m: int)
    requires
        0 <= n <= m,
    ensures
        keys_at(bytes, n).heaviest <= keys_at(bytes, m).heaviest,
        keys_at(bytes, n).dangling ==> keys_at(bytes, m).dangling,
        weight(keys_at(bytes, m)) <= keys_at(bytes, m).heaviest,
        keys_at(bytes, m).in_key ==> scanned(bytes, m).in_string && keys_at(
            bytes,
            m,
        ).levels.len() > 0,
    decreases m,
{
    if m > 0 {
        lemma_heaviest_grows(bytes, if n < m { n } else { m - 1 }, m - 1);
    }
}

/// With one more level, the keys take what they took and the key of that
/// level.
pub proof fn lemma_sum_push(levels: Seq<Level>, level: Level)
    ensures
        sum_keys(levels.push(level)) == sum_keys(levels) + level.key,
{
    assert(levels.push(level).drop_last() =~= levels);
}

/// The levels that a stack of kinds and key lengths stands for.
pub open spec fn levels_of(stack: Seq<(bool, usize)>) -> Seq<Level> {
    Seq::new(stack.len(), |k: int| Level { object: stack[k].0, key: stack[k].1 as nat })
}

/// Whether no `}` follows a `,` in a text, and the keys of the objects open
/// at one place take no more than `limit` bytes together, anywhere in it.
pub fn keys_within(bytes: &[u8], limit: usize) -> (within: bool)
    ensures
        within == (!dangling_comma(bytes@) && heaviest_keys(bytes@) <= limit),
{
    let mut stack: Vec<(bool, usize)> = Vec::new();
    let mut total: usize = 0;
    let mut expecting = false;
    let mut comma = false;
    let mut in_key = false;
    let mut count: usize = 0;
    let mut in_string = false;
    let mut escaped = false;
    let mut i: usize = 0;
    assert(levels_of(stack@) =~= keys_at(bytes@, 0).levels);
    while i < bytes.len()
        invariant
            i <= bytes.len(),
            in_string == scanned(bytes@, i as int).in_string,
            escaped == scanned(bytes@, i as int).escaped,
            levels_of(stack@) == keys_at(bytes@, i as int).levels,
            total == sum_keys(keys_at(bytes@, i as int).levels),
            expecting == keys_at(bytes@, i as int).expecting,
            comma == keys_at(bytes@, i as int).comma,
            !keys_at(bytes@, i as int).dangling,
            in_key == keys_at(bytes@, i as int).in_key,
            count == keys_at(bytes@, i as int).count,
            keys_at(bytes@, i as int).heaviest <= limit,
            total + count <= limit,
            in_key ==> stack.len() > 0,
        decreases bytes.len() - i,
    {
        let byte = bytes[i];
        let ghost before = keys_at(bytes@, i as int);
        let ghost levels = before.levels;
        proof {
            lemma_heaviest_grows(bytes@, i as int + 1, i as int + 1);
            lemma_heaviest_grows(bytes@, i as int + 1, bytes.len() as int);
            assert(stack@.len() == levels.len());
            if levels.len() > 0 {
                assert(levels_of(stack@)[levels.len() - 1] == levels.last());
            }
        }
        if in_string {
            if in_key {
                if !escaped && byte == 0x22 {
                    let top = stack.pop().unwrap();
                    proof {
                        assert(levels_of(stack@) =~= levels.drop_last());
                        lemma_sum_push(levels.drop_last(), Level { object: top.0, key: count as nat });
                    }
                    total = total - top.1 + count;
                    stack.push((top.0, count));
                    assert(levels_of(stack@) =~= with_key(levels, count as nat));
                    in_key = false;
                    count = 0;
                } else {
                    if total + count == limit {
                        return false;
                    }
                    count += 1;
                }
            }
            if escaped {
                escaped = false;
            } else if byte == 0x5c {
                escaped = true;
            } else if byte == 0x22 {
                in_string = false;
            }
        } else if byte == 0x22 {
            in_string = true;
            if expecting && stack.len() > 0 && stack[stack.len() - 1].0 {
                in_key = true;
                count = 0;
            }
            expecting = false;
            comma = false;
        } else if byte == 0x7b {
            stack.push((true, 0));
            proof {
                lemma_sum_push(levels, Level { object: true, key: 0 });
                assert(levels_of(stack@) =~= levels.push(Level { object: true, key: 0 }));
            }
            expecting = true;
            comma = false;
        } else if byte == 0x5b {
            stack.push((false, 0));
            proof {
                lemma_sum_push(levels, Level { object: false, key: 0 });
                assert(levels_of(stack@) =~= levels.push(Level { object: false, key: 0 }));
            }
            expecting = false;
            comma = false;
        } else if (byte == 0x7d || byte == 0x5d) && stack.len() > 0 {
            if comma && byte == 0x7d {
                return false;
            }
            let top = stack.pop().unwrap();
            assert(levels_of(stack@) =~= levels.drop_last());
            total = total - top.1;
            expecting = false;
            comma = false;
        } else if byte == 0x2c && stack.len() > 0 && stack[stack.len() - 1].0 {
            let top = stack.pop().unwrap();
            proof {
                assert(levels_of(stack@) =~= levels.drop_last());
                lemma_sum_push(levels.drop_last(), Level { object: top.0, key: 0 });
            }
            total = total - top.1;
            stack.push((top.0, 0));
            assert(levels_of(stack@) =~= with_key(levels, 0));
            expecting = true;
            comma = true;
        }
        i += 1;
    }
    true
}

/// A text is within the limits: in its length, in its nesting, in the
/// digits of its exponents and in the bytes of its open keys, and no `}`
/// follows a `,` in it.
pub open spec fn within_limits(bytes: Seq<u8>) -> bool {
    &&& bytes.len() <= MAX_BODY
    &&& nesting(bytes) <= MAX_DEPTH
    &&& longest_exponent(bytes) <= MAX_EXPONENT_DIGITS
    &&& !dangling_comma(bytes)
    &&& heaviest_keys(bytes) <= MAX_KEYS
}

/// Whether a text is within the limits.
pub fn is_within_limits(bytes: &[u8]) -> (within: bool)
    ensures
        within == within_limits(bytes@),
{
    bytes.len() <= MAX_BODY && nests_within(bytes, MAX_DEPTH) && exponents_within(
        bytes,
        MAX_EXPONENT_DIGITS,
    ) && keys_within(bytes, MAX_KEYS)
}

} // verus!
