//! Times since the Unix epoch, in milliseconds.
use vstd::prelude::*;

verus! {

/// The time for the backfill worker. `since_epoch` is missing when the clock stands before the
/// epoch, which counts as 0; only the low 64 bits are kept.
pub fn now_ms(since_epoch: Option<u128>) -> (r: u64)
    ensures
        r == (match since_epoch {
            Some(ms) => ms % 0x1_0000_0000_0000_0000,
            None => 0,
        }),
{
    match since_epoch {
        Some(ms) => {
            assert(ms as u64 == ms % 0x1_0000_0000_0000_0000u128) by (bit_vector);
            #[verifier::truncate]
            let low = ms as u64;
            low
        },
        None => 0,
    }
}

/// The time for the background scheduler: as much as a signed 64-bit number can hold.
pub fn scheduler_now_ms(since_epoch: Option<u128>) -> (r: i64)
    ensures
        r == (match since_epoch {
            Some(ms) => if ms <= i64::MAX {
                ms as int
            } else {
                i64::MAX as int
            },
            None => 0,
        }),
{
    match since_epoch {
        Some(ms) => {
            if ms <= i64::MAX as u128 {
                ms as i64
            } else {
                i64::MAX
            }
        },
        None => 0,
    }
}

/// The time for track enrichment: the low 64 bits, read as a signed number.
pub fn enrichment_now_unix_ms(since_epoch: Option<u128>) -> (r: i64)
    ensures
        r == (match since_epoch {
            Some(ms) => {
                let low = ms % 0x1_0000_0000_0000_0000;
                if low <= i64::MAX {
                    low as int
                } else {
                    low - 0x1_0000_0000_0000_0000
                }
            },
            None => 0,
        }),
{
    match since_epoch {
        Some(ms) => {
            let low = now_ms(Some(ms));
            if low <= i64::MAX as u64 {
                low as i64
            } else {
                // The distance to the top of the range, counted down from zero.
                -1 - ((u64::MAX - low) as i64)
            }
        },
        None => 0,
    }
}

} // verus!
